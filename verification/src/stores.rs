//! The store interfaces: what every store of tenants, projects, agents, API keys, tasks,
//! workflows and content owes its callers, whether it keeps its records in memory or
//! elsewhere.
//!
//! A store answers `Conflict` for a uniqueness violation and `NotFound` for a missing
//! target. A store that keeps its records elsewhere may fail otherwise; it then answers
//! `Internal`. An operation that fails leaves the records of its table as they were.
use vstd::prelude::*;
use crate::content::{
    content_listing, ContentMetadata, ContentMetadataView, ContentQuery, UploadSession,
    UploadSessionView,
};
use crate::error::{PlatformError, PlatformResult};
use crate::models::{
    Agent, AgentView, ApiKeyRecord, ApiKeyRecordView, Project, ProjectView, Task, TaskView, Tenant,
    TenantView, Workflow, WorkflowView,
};
use crate::persistence::{
    key_by_prefix, pending_of, prefix_taken_by_other, InMemoryPersistence,
};
use crate::table::{arranged, lookup, owned_by, present, put, replaced};

verus! {

/// Whether an answer is a failure of the store itself.
pub open spec fn store_failure<T>(r: PlatformResult<T>) -> bool {
    r matches Err(PlatformError::Internal(_))
}

/// A store of tenants.
pub trait TenantStore {
    /// The tenants, in the order in which they entered the store.
    spec fn tenant_rows(&self) -> Seq<TenantView>;

    /// What the operations need to hold before, and keep.
    spec fn tenants_valid(&self) -> bool;

    /// Adds a tenant. `Conflict("tenant")` where a tenant of that identifier exists.
    fn insert_tenant(&mut self, tenant: Tenant) -> (r: PlatformResult<()>)
        requires
            old(self).tenants_valid(),
        ensures
            final(self).tenants_valid(),
            r is Ok ==> !present::<Tenant>(old(self).tenant_rows(), tenant.id)
                && final(self).tenant_rows() == old(self).tenant_rows().push(tenant.deep_view()),
            r is Err ==> final(self).tenant_rows() == old(self).tenant_rows(),
            present::<Tenant>(old(self).tenant_rows(), tenant.id) ==> r == Err::<
                (),
                PlatformError,
            >(PlatformError::Conflict("tenant")),
            !present::<Tenant>(old(self).tenant_rows(), tenant.id) ==> r is Ok || store_failure(r),
    ;

    /// The tenant with identifier `id`.
    fn get_tenant(&self, id: u128) -> (r: PlatformResult<Option<Tenant>>)
        requires
            self.tenants_valid(),
        ensures
            r matches Ok(found) ==> found.deep_view() == lookup::<Tenant>(
                self.tenant_rows(),
                id,
            ),
            r is Ok || store_failure(r),
    ;

    /// All tenants, by name.
    fn list_tenants(&self) -> (r: PlatformResult<Vec<Tenant>>)
        requires
            self.tenants_valid(),
        ensures
            r matches Ok(listing) ==> listing.deep_view() == arranged::<Tenant>(
                self.tenant_rows(),
            ),
            r is Ok || store_failure(r),
    ;
}

/// A store of projects.
pub trait ProjectStore {
    /// The projects, in the order in which they entered the store.
    spec fn project_rows(&self) -> Seq<ProjectView>;

    /// What the operations need to hold before, and keep.
    spec fn projects_valid(&self) -> bool;

    /// Adds a project. `Conflict("project")` where a project of that identifier exists;
    /// `NotFound("tenant")` where the store knows that its tenant is absent.
    fn insert_project(&mut self, project: Project) -> (r: PlatformResult<()>)
        requires
            old(self).projects_valid(),
        ensures
            final(self).projects_valid(),
            r is Ok ==> !present::<Project>(old(self).project_rows(), project.id)
                && final(self).project_rows() == old(self).project_rows().push(project.deep_view()),
            r is Err ==> final(self).project_rows() == old(self).project_rows(),
            r is Ok || r == Err::<(), PlatformError>(PlatformError::NotFound("tenant")) || r
                == Err::<(), PlatformError>(PlatformError::Conflict("project"))
                || store_failure(r),
    ;

    /// The projects of a tenant, by name.
    fn list_projects(&self, tenant_id: u128) -> (r: PlatformResult<Vec<Project>>)
        requires
            self.projects_valid(),
        ensures
            r matches Ok(listing) ==> listing.deep_view() == arranged::<Project>(
                owned_by::<Project>(self.project_rows(), tenant_id),
            ),
            r is Ok || store_failure(r),
    ;

    /// The project with identifier `id`.
    fn get_project(&self, id: u128) -> (r: PlatformResult<Option<Project>>)
        requires
            self.projects_valid(),
        ensures
            r matches Ok(found) ==> found.deep_view() == lookup::<Project>(
                self.project_rows(),
                id,
            ),
            r is Ok || store_failure(r),
    ;
}

/// A store of agents.
pub trait AgentStore {
    /// The agents, in the order in which they entered the store.
    spec fn agent_rows(&self) -> Seq<AgentView>;

    /// What the operations need to hold before, and keep.
    spec fn agents_valid(&self) -> bool;

    /// Adds an agent. `Conflict("agent")` where an agent of that identifier exists;
    /// `NotFound` of the tenant or the project where the store knows that it is absent.
    fn insert_agent(&mut self, agent: Agent) -> (r: PlatformResult<()>)
        requires
            old(self).agents_valid(),
        ensures
            final(self).agents_valid(),
            r is Ok ==> !present::<Agent>(old(self).agent_rows(), agent.id)
                && final(self).agent_rows() == old(self).agent_rows().push(agent.deep_view()),
            r is Err ==> final(self).agent_rows() == old(self).agent_rows(),
            r is Ok || r == Err::<(), PlatformError>(PlatformError::NotFound("tenant")) || r
                == Err::<(), PlatformError>(PlatformError::NotFound("project")) || r == Err::<
                (),
                PlatformError,
            >(PlatformError::Conflict("agent")) || store_failure(r),
    ;

    /// Replaces the agent of the same identifier. `NotFound("agent")` where there is none.
    fn update_agent(&mut self, agent: Agent) -> (r: PlatformResult<()>)
        requires
            old(self).agents_valid(),
        ensures
            final(self).agents_valid(),
            r is Ok ==> present::<Agent>(old(self).agent_rows(), agent.id)
                && final(self).agent_rows() == replaced::<Agent>(
                old(self).agent_rows(),
                agent.deep_view(),
            ),
            r is Err ==> final(self).agent_rows() == old(self).agent_rows(),
            !present::<Agent>(old(self).agent_rows(), agent.id) ==> r == Err::<
                (),
                PlatformError,
            >(PlatformError::NotFound("agent")),
            present::<Agent>(old(self).agent_rows(), agent.id) ==> r is Ok || store_failure(r),
    ;

    /// The agents of a tenant, by hostname.
    fn list_agents(&self, tenant_id: u128) -> (r: PlatformResult<Vec<Agent>>)
        requires
            self.agents_valid(),
        ensures
            r matches Ok(listing) ==> listing.deep_view() == arranged::<Agent>(
                owned_by::<Agent>(self.agent_rows(), tenant_id),
            ),
            r is Ok || store_failure(r),
    ;

    /// The agent with identifier `id`.
    fn get_agent(&self, id: u128) -> (r: PlatformResult<Option<Agent>>)
        requires
            self.agents_valid(),
        ensures
            r matches Ok(found) ==> found.deep_view() == lookup::<Agent>(self.agent_rows(), id),
            r is Ok || store_failure(r),
    ;
}

/// A store of API key records.
pub trait ApiKeyStore {
    /// The key records, in the order in which they entered the store.
    spec fn key_rows(&self) -> Seq<ApiKeyRecordView>;

    /// What the operations need to hold before, and keep.
    spec fn keys_valid(&self) -> bool;

    /// Adds a key record. `Conflict("api_key")` where a record of that token prefix or of
    /// that identifier exists.
    fn insert_api_key(&mut self, record: ApiKeyRecord) -> (r: PlatformResult<()>)
        requires
            old(self).keys_valid(),
        ensures
            final(self).keys_valid(),
            r is Ok ==> key_by_prefix(old(self).key_rows(), record.token_prefix@) is None
                && !present::<ApiKeyRecord>(old(self).key_rows(), record.id)
                && final(self).key_rows() == old(self).key_rows().push(record.deep_view()),
            r is Err ==> final(self).key_rows() == old(self).key_rows(),
            key_by_prefix(old(self).key_rows(), record.token_prefix@) is Some || present::<
                ApiKeyRecord,
            >(old(self).key_rows(), record.id) ==> r == Err::<(), PlatformError>(
                PlatformError::Conflict("api_key"),
            ),
            r is Ok || r == Err::<(), PlatformError>(PlatformError::Conflict("api_key"))
                || store_failure(r),
    ;

    /// The key record with identifier `id`.
    fn get_api_key(&self, id: u128) -> (r: PlatformResult<Option<ApiKeyRecord>>)
        requires
            self.keys_valid(),
        ensures
            r matches Ok(found) ==> found.deep_view() == lookup::<ApiKeyRecord>(
                self.key_rows(),
                id,
            ),
            r is Ok || store_failure(r),
    ;

    /// The key record with token prefix `prefix`.
    fn get_api_key_by_prefix(&self, prefix: &str) -> (r: PlatformResult<Option<ApiKeyRecord>>)
        requires
            self.keys_valid(),
        ensures
            r matches Ok(found) ==> found.deep_view() == key_by_prefix(self.key_rows(), prefix@),
            r is Ok || store_failure(r),
    ;

    /// The key records of a tenant, by the instant of their creation.
    fn list_api_keys(&self, tenant_id: u128) -> (r: PlatformResult<Vec<ApiKeyRecord>>)
        requires
            self.keys_valid(),
        ensures
            r matches Ok(listing) ==> listing.deep_view() == arranged::<ApiKeyRecord>(
                owned_by::<ApiKeyRecord>(self.key_rows(), tenant_id),
            ),
            r is Ok || store_failure(r),
    ;

    /// Replaces the key record of the same identifier. `NotFound("api_key")` where there is
    /// none, `Conflict("api_key")` where another record has the new token prefix.
    fn update_api_key(&mut self, record: ApiKeyRecord) -> (r: PlatformResult<()>)
        requires
            old(self).keys_valid(),
        ensures
            final(self).keys_valid(),
            r is Ok ==> present::<ApiKeyRecord>(old(self).key_rows(), record.id)
                && final(self).key_rows() == replaced::<ApiKeyRecord>(
                old(self).key_rows(),
                record.deep_view(),
            ),
            r is Err ==> final(self).key_rows() == old(self).key_rows(),
            !present::<ApiKeyRecord>(old(self).key_rows(), record.id) ==> r == Err::<
                (),
                PlatformError,
            >(PlatformError::NotFound("api_key")),
            present::<ApiKeyRecord>(old(self).key_rows(), record.id) && prefix_taken_by_other(
                old(self).key_rows(),
                record.token_prefix@,
                record.id,
            ) ==> r == Err::<(), PlatformError>(PlatformError::Conflict("api_key")),
            r is Ok || r == Err::<(), PlatformError>(PlatformError::NotFound("api_key")) || r
                == Err::<(), PlatformError>(PlatformError::Conflict("api_key"))
                || store_failure(r),
    ;
}

/// A store of tasks.
pub trait TaskStore {
    /// The tasks, in the order in which they entered the store.
    spec fn task_rows(&self) -> Seq<TaskView>;

    /// What the operations need to hold before, and keep.
    spec fn tasks_valid(&self) -> bool;

    /// Places a task in the store; a pending task is in the pending listing from then on.
    /// `Conflict("task")` where a task of that identifier exists.
    fn enqueue_task(&mut self, task: Task) -> (r: PlatformResult<()>)
        requires
            old(self).tasks_valid(),
        ensures
            final(self).tasks_valid(),
            r is Ok ==> !present::<Task>(old(self).task_rows(), task.id)
                && final(self).task_rows() == old(self).task_rows().push(task.deep_view()),
            r is Err ==> final(self).task_rows() == old(self).task_rows(),
            present::<Task>(old(self).task_rows(), task.id) ==> r == Err::<(), PlatformError>(
                PlatformError::Conflict("task"),
            ),
            !present::<Task>(old(self).task_rows(), task.id) ==> r is Ok || store_failure(r),
    ;

    /// Replaces the task of the same identifier. `NotFound("task")` where there is none.
    /// The pending listing follows at once: it holds the task exactly if its new status
    /// is pending.
    fn update_task(&mut self, task: Task) -> (r: PlatformResult<()>)
        requires
            old(self).tasks_valid(),
        ensures
            final(self).tasks_valid(),
            r is Ok ==> present::<Task>(old(self).task_rows(), task.id)
                && final(self).task_rows() == replaced::<Task>(
                old(self).task_rows(),
                task.deep_view(),
            ),
            r is Err ==> final(self).task_rows() == old(self).task_rows(),
            !present::<Task>(old(self).task_rows(), task.id) ==> r == Err::<(), PlatformError>(
                PlatformError::NotFound("task"),
            ),
            present::<Task>(old(self).task_rows(), task.id) ==> r is Ok || store_failure(r),
    ;

    /// The task with identifier `id`.
    fn get_task(&self, id: u128) -> (r: PlatformResult<Option<Task>>)
        requires
            self.tasks_valid(),
        ensures
            r matches Ok(found) ==> found.deep_view() == lookup::<Task>(self.task_rows(), id),
            r is Ok || store_failure(r),
    ;

    /// The pending tasks of a tenant, earliest scheduled first.
    fn list_pending_tasks(&self, tenant_id: u128) -> (r: PlatformResult<Vec<Task>>)
        requires
            self.tasks_valid(),
        ensures
            r matches Ok(listing) ==> listing.deep_view() == arranged::<Task>(
                pending_of(self.task_rows(), tenant_id),
            ),
            r is Ok || store_failure(r),
    ;
}

/// A store of workflows.
pub trait WorkflowStore {
    /// The workflows, in the order in which they entered the store.
    spec fn workflow_rows(&self) -> Seq<WorkflowView>;

    /// What the operations need to hold before, and keep.
    spec fn workflows_valid(&self) -> bool;

    /// Adds a workflow. `Conflict("workflow")` where a workflow of that identifier exists.
    fn insert_workflow(&mut self, workflow: Workflow) -> (r: PlatformResult<()>)
        requires
            old(self).workflows_valid(),
        ensures
            final(self).workflows_valid(),
            r is Ok ==> !present::<Workflow>(old(self).workflow_rows(), workflow.id)
                && final(self).workflow_rows() == old(self).workflow_rows().push(workflow.deep_view()),
            r is Err ==> final(self).workflow_rows() == old(self).workflow_rows(),
            present::<Workflow>(old(self).workflow_rows(), workflow.id) ==> r == Err::<
                (),
                PlatformError,
            >(PlatformError::Conflict("workflow")),
            !present::<Workflow>(old(self).workflow_rows(), workflow.id) ==> r is Ok
                || store_failure(r),
    ;

    /// The workflow with identifier `id`.
    fn get_workflow(&self, id: u128) -> (r: PlatformResult<Option<Workflow>>)
        requires
            self.workflows_valid(),
        ensures
            r matches Ok(found) ==> found.deep_view() == lookup::<Workflow>(
                self.workflow_rows(),
                id,
            ),
            r is Ok || store_failure(r),
    ;

    /// The workflows of a tenant, by name.
    fn list_workflows(&self, tenant_id: u128) -> (r: PlatformResult<Vec<Workflow>>)
        requires
            self.workflows_valid(),
        ensures
            r matches Ok(listing) ==> listing.deep_view() == arranged::<Workflow>(
                owned_by::<Workflow>(self.workflow_rows(), tenant_id),
            ),
            r is Ok || store_failure(r),
    ;
}

/// A store of upload sessions and of what is known of content.
pub trait ContentStore {
    /// The upload sessions, in the order in which they entered the store.
    spec fn upload_rows(&self) -> Seq<UploadSessionView>;

    /// What is known of content, in the order in which it entered the store.
    spec fn content_rows(&self) -> Seq<ContentMetadataView>;

    /// What the operations need to hold before, and keep.
    spec fn content_valid(&self) -> bool;

    /// Adds an upload session. `Conflict("upload_session")` where a session of that
    /// identifier exists; `NotFound("tenant")` or `NotFound("project")` where the store
    /// knows that its tenant or its project is absent.
    fn create_upload_session(&mut self, session: UploadSession) -> (r: PlatformResult<()>)
        requires
            old(self).content_valid(),
        ensures
            final(self).content_valid(),
            final(self).content_rows() == old(self).content_rows(),
            r is Ok ==> !present::<UploadSession>(old(self).upload_rows(), session.id)
                && final(self).upload_rows() == old(self).upload_rows().push(session.deep_view()),
            r is Err ==> final(self).upload_rows() == old(self).upload_rows(),
            r is Ok || r == Err::<(), PlatformError>(PlatformError::NotFound("tenant")) || r
                == Err::<(), PlatformError>(PlatformError::NotFound("project")) || r == Err::<
                (),
                PlatformError,
            >(PlatformError::Conflict("upload_session")) || store_failure(r),
    ;

    /// Puts an upload session in the place of the one with its identifier.
    /// `NotFound("upload_session")` where there is none.
    fn update_upload_session(&mut self, session: UploadSession) -> (r: PlatformResult<()>)
        requires
            old(self).content_valid(),
        ensures
            final(self).content_valid(),
            final(self).content_rows() == old(self).content_rows(),
            r is Ok ==> present::<UploadSession>(old(self).upload_rows(), session.id)
                && final(self).upload_rows() == replaced::<UploadSession>(
                old(self).upload_rows(),
                session.deep_view(),
            ),
            r is Err ==> final(self).upload_rows() == old(self).upload_rows(),
            !present::<UploadSession>(old(self).upload_rows(), session.id) ==> r == Err::<
                (),
                PlatformError,
            >(PlatformError::NotFound("upload_session")),
            present::<UploadSession>(old(self).upload_rows(), session.id) ==> r is Ok
                || store_failure(r),
    ;

    /// The upload session with identifier `id`.
    fn get_upload_session(&self, id: u128) -> (r: PlatformResult<Option<UploadSession>>)
        requires
            self.content_valid(),
        ensures
            r matches Ok(found) ==> found.deep_view() == lookup::<UploadSession>(
                self.upload_rows(),
                id,
            ),
            r is Ok || store_failure(r),
    ;

    /// Records what is known of a piece of content, in the place of what was known of it
    /// before. `NotFound("tenant")` or `NotFound("project")` where the store knows that
    /// its tenant or its project is absent.
    fn record_content_metadata(&mut self, metadata: ContentMetadata) -> (r: PlatformResult<()>)
        requires
            old(self).content_valid(),
        ensures
            final(self).content_valid(),
            final(self).upload_rows() == old(self).upload_rows(),
            r is Ok ==> final(self).content_rows() == put::<ContentMetadata>(
                old(self).content_rows(),
                metadata.deep_view(),
            ),
            r is Err ==> final(self).content_rows() == old(self).content_rows(),
            r is Ok || r == Err::<(), PlatformError>(PlatformError::NotFound("tenant")) || r
                == Err::<(), PlatformError>(PlatformError::NotFound("project"))
                || store_failure(r),
    ;

    /// What is known of the piece of content with identifier `id`.
    fn get_content_metadata(&self, id: u128) -> (r: PlatformResult<Option<ContentMetadata>>)
        requires
            self.content_valid(),
        ensures
            r matches Ok(found) ==> found.deep_view() == lookup::<ContentMetadata>(
                self.content_rows(),
                id,
            ),
            r is Ok || store_failure(r),
    ;

    /// The content that a query asks for, newest first, cut down to its page.
    fn list_content_metadata(&self, query: &ContentQuery) -> (r: PlatformResult<
        Vec<ContentMetadata>,
    >)
        requires
            self.content_valid(),
        ensures
            r matches Ok(listing) ==> listing.deep_view() == content_listing(
                self.content_rows(),
                query.deep_view(),
            ),
            r is Ok || store_failure(r),
    ;
}

impl TenantStore for InMemoryPersistence {
    open spec fn tenant_rows(&self) -> Seq<TenantView> {
        self@.tenants
    }

    open spec fn tenants_valid(&self) -> bool {
        self.wf()
    }

    fn insert_tenant(&mut self, tenant: Tenant) -> (r: PlatformResult<()>) {
        InMemoryPersistence::insert_tenant(self, tenant)
    }

    fn get_tenant(&self, id: u128) -> (r: PlatformResult<Option<Tenant>>) {
        InMemoryPersistence::get_tenant(self, id)
    }

    fn list_tenants(&self) -> (r: PlatformResult<Vec<Tenant>>) {
        InMemoryPersistence::list_tenants(self)
    }
}

impl ProjectStore for InMemoryPersistence {
    open spec fn project_rows(&self) -> Seq<ProjectView> {
        self@.projects
    }

    open spec fn projects_valid(&self) -> bool {
        self.wf()
    }

    fn insert_project(&mut self, project: Project) -> (r: PlatformResult<()>) {
        InMemoryPersistence::insert_project(self, project)
    }

    fn list_projects(&self, tenant_id: u128) -> (r: PlatformResult<Vec<Project>>) {
        InMemoryPersistence::list_projects(self, tenant_id)
    }

    fn get_project(&self, id: u128) -> (r: PlatformResult<Option<Project>>) {
        InMemoryPersistence::get_project(self, id)
    }
}

impl AgentStore for InMemoryPersistence {
    open spec fn agent_rows(&self) -> Seq<AgentView> {
        self@.agents
    }

    open spec fn agents_valid(&self) -> bool {
        self.wf()
    }

    fn insert_agent(&mut self, agent: Agent) -> (r: PlatformResult<()>) {
        InMemoryPersistence::insert_agent(self, agent)
    }

    fn update_agent(&mut self, agent: Agent) -> (r: PlatformResult<()>) {
        InMemoryPersistence::update_agent(self, agent)
    }

    fn list_agents(&self, tenant_id: u128) -> (r: PlatformResult<Vec<Agent>>) {
        InMemoryPersistence::list_agents(self, tenant_id)
    }

    fn get_agent(&self, id: u128) -> (r: PlatformResult<Option<Agent>>) {
        InMemoryPersistence::get_agent(self, id)
    }
}

impl ApiKeyStore for InMemoryPersistence {
    open spec fn key_rows(&self) -> Seq<ApiKeyRecordView> {
        self@.api_keys
    }

    open spec fn keys_valid(&self) -> bool {
        self.wf()
    }

    fn insert_api_key(&mut self, record: ApiKeyRecord) -> (r: PlatformResult<()>) {
        InMemoryPersistence::insert_api_key(self, record)
    }

    fn get_api_key(&self, id: u128) -> (r: PlatformResult<Option<ApiKeyRecord>>) {
        InMemoryPersistence::get_api_key(self, id)
    }

    fn get_api_key_by_prefix(&self, prefix: &str) -> (r: PlatformResult<Option<ApiKeyRecord>>) {
        InMemoryPersistence::get_api_key_by_prefix(self, prefix)
    }

    fn list_api_keys(&self, tenant_id: u128) -> (r: PlatformResult<Vec<ApiKeyRecord>>) {
        InMemoryPersistence::list_api_keys(self, tenant_id)
    }

    fn update_api_key(&mut self, record: ApiKeyRecord) -> (r: PlatformResult<()>) {
        InMemoryPersistence::update_api_key(self, record)
    }
}

impl TaskStore for InMemoryPersistence {
    open spec fn task_rows(&self) -> Seq<TaskView> {
        self@.tasks
    }

    open spec fn tasks_valid(&self) -> bool {
        self.wf()
    }

    fn enqueue_task(&mut self, task: Task) -> (r: PlatformResult<()>) {
        InMemoryPersistence::enqueue_task(self, task)
    }

    fn update_task(&mut self, task: Task) -> (r: PlatformResult<()>) {
        InMemoryPersistence::update_task(self, task)
    }

    fn get_task(&self, id: u128) -> (r: PlatformResult<Option<Task>>) {
        InMemoryPersistence::get_task(self, id)
    }

    fn list_pending_tasks(&self, tenant_id: u128) -> (r: PlatformResult<Vec<Task>>) {
        InMemoryPersistence::list_pending_tasks(self, tenant_id)
    }
}

impl WorkflowStore for InMemoryPersistence {
    open spec fn workflow_rows(&self) -> Seq<WorkflowView> {
        self@.workflows
    }

    open spec fn workflows_valid(&self) -> bool {
        self.wf()
    }

    fn insert_workflow(&mut self, workflow: Workflow) -> (r: PlatformResult<()>) {
        InMemoryPersistence::insert_workflow(self, workflow)
    }

    fn get_workflow(&self, id: u128) -> (r: PlatformResult<Option<Workflow>>) {
        InMemoryPersistence::get_workflow(self, id)
    }

    fn list_workflows(&self, tenant_id: u128) -> (r: PlatformResult<Vec<Workflow>>) {
        InMemoryPersistence::list_workflows(self, tenant_id)
    }
}

impl ContentStore for InMemoryPersistence {
    open spec fn upload_rows(&self) -> Seq<UploadSessionView> {
        self@.uploads
    }

    open spec fn content_rows(&self) -> Seq<ContentMetadataView> {
        self@.content
    }

    open spec fn content_valid(&self) -> bool {
        self.wf()
    }

    fn create_upload_session(&mut self, session: UploadSession) -> (r: PlatformResult<()>) {
        InMemoryPersistence::create_upload_session(self, session)
    }

    fn update_upload_session(&mut self, session: UploadSession) -> (r: PlatformResult<()>) {
        InMemoryPersistence::update_upload_session(self, session)
    }

    fn get_upload_session(&self, id: u128) -> (r: PlatformResult<Option<UploadSession>>) {
        InMemoryPersistence::get_upload_session(self, id)
    }

    fn record_content_metadata(&mut self, metadata: ContentMetadata) -> (r: PlatformResult<()>) {
        InMemoryPersistence::record_content_metadata(self, metadata)
    }

    fn get_content_metadata(&self, id: u128) -> (r: PlatformResult<Option<ContentMetadata>>) {
        InMemoryPersistence::get_content_metadata(self, id)
    }

    fn list_content_metadata(&self, query: &ContentQuery) -> (r: PlatformResult<
        Vec<ContentMetadata>,
    >) {
        InMemoryPersistence::list_content_metadata(self, query)
    }
}

} // verus!
