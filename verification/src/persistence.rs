//! The stores of tenants, projects, agents, API keys, tasks, workflows and content, held
//! in memory.
//!
//! A store is a set of tables. Within a table no identifier occurs twice, and no two API
//! key records share a token prefix. Uniqueness violations surface as `Conflict`, missing
//! targets as `NotFound`. A listing is sorted, rows of equal rank in the order in which
//! they entered the table.
use vstd::prelude::*;
use crate::content::{
    content_listing, list_content, ContentMetadata, ContentMetadataView, ContentQuery,
    UploadSession, UploadSessionView,
};
use crate::error::{result_view, PlatformError, PlatformResult};
use crate::models::{
    Agent, AgentView, ApiKeyRecord, ApiKeyRecordView, Project, ProjectView, Task, TaskStatus,
    TaskView, Tenant, TenantView, Workflow, WorkflowView,
};
use crate::table::{
    arranged, distinct, fetch, find, insert_ranked, lemma_position, lemma_push, lemma_put,
    lemma_replaced, list_all, list_owned, lookup, owned_by, position, present, push_row, put,
    put_row, replaced, set_row, Owned, Ranked, Record,
};
use crate::time::Timestamp;
use crate::text::{
    lemma_text_before_total, lemma_text_before_transitive, same_text, text_before, text_le,
};

verus! {

impl Record for Tenant {
    open spec fn view_key(view: TenantView) -> u128 {
        view.id
    }

    fn key(&self) -> (k: u128) {
        self.id
    }

    fn duplicate(&self) -> (copy: Self) {
        self.clone()
    }
}

/// Tenants are listed by name.
impl Ranked for Tenant {
    open spec fn view_before(a: TenantView, b: TenantView) -> bool {
        text_before(a.name, b.name)
    }

    fn before(&self, other: &Self) -> (r: bool) {
        text_le(self.name.as_str(), other.name.as_str())
    }

    proof fn before_total(a: TenantView, b: TenantView) {
        lemma_text_before_total(a.name, b.name);
    }

    proof fn before_transitive(a: TenantView, b: TenantView, c: TenantView) {
        lemma_text_before_transitive(a.name, b.name, c.name);
    }
}

impl Record for Project {
    open spec fn view_key(view: ProjectView) -> u128 {
        view.id
    }

    fn key(&self) -> (k: u128) {
        self.id
    }

    fn duplicate(&self) -> (copy: Self) {
        self.clone()
    }
}

impl Owned for Project {
    open spec fn view_owner(view: ProjectView) -> u128 {
        view.tenant_id
    }

    fn owner(&self) -> (tenant: u128) {
        self.tenant_id
    }
}

/// Projects are listed by name.
impl Ranked for Project {
    open spec fn view_before(a: ProjectView, b: ProjectView) -> bool {
        text_before(a.name, b.name)
    }

    fn before(&self, other: &Self) -> (r: bool) {
        text_le(self.name.as_str(), other.name.as_str())
    }

    proof fn before_total(a: ProjectView, b: ProjectView) {
        lemma_text_before_total(a.name, b.name);
    }

    proof fn before_transitive(a: ProjectView, b: ProjectView, c: ProjectView) {
        lemma_text_before_transitive(a.name, b.name, c.name);
    }
}

impl Record for Agent {
    open spec fn view_key(view: AgentView) -> u128 {
        view.id
    }

    fn key(&self) -> (k: u128) {
        self.id
    }

    fn duplicate(&self) -> (copy: Self) {
        self.clone()
    }
}

impl Owned for Agent {
    open spec fn view_owner(view: AgentView) -> u128 {
        view.tenant_id
    }

    fn owner(&self) -> (tenant: u128) {
        self.tenant_id
    }
}

/// Agents are listed by hostname.
impl Ranked for Agent {
    open spec fn view_before(a: AgentView, b: AgentView) -> bool {
        text_before(a.hostname, b.hostname)
    }

    fn before(&self, other: &Self) -> (r: bool) {
        text_le(self.hostname.as_str(), other.hostname.as_str())
    }

    proof fn before_total(a: AgentView, b: AgentView) {
        lemma_text_before_total(a.hostname, b.hostname);
    }

    proof fn before_transitive(a: AgentView, b: AgentView, c: AgentView) {
        lemma_text_before_transitive(a.hostname, b.hostname, c.hostname);
    }
}

impl Record for ApiKeyRecord {
    open spec fn view_key(view: ApiKeyRecordView) -> u128 {
        view.id
    }

    fn key(&self) -> (k: u128) {
        self.id
    }

    fn duplicate(&self) -> (copy: Self) {
        self.clone()
    }
}

impl Owned for ApiKeyRecord {
    open spec fn view_owner(view: ApiKeyRecordView) -> u128 {
        view.tenant_id
    }

    fn owner(&self) -> (tenant: u128) {
        self.tenant_id
    }
}

/// API keys are listed by the instant of their creation.
impl Ranked for ApiKeyRecord {
    open spec fn view_before(a: ApiKeyRecordView, b: ApiKeyRecordView) -> bool {
        a.created_at <= b.created_at
    }

    fn before(&self, other: &Self) -> (r: bool) {
        self.created_at <= other.created_at
    }

    proof fn before_total(a: ApiKeyRecordView, b: ApiKeyRecordView) {
    }

    proof fn before_transitive(a: ApiKeyRecordView, b: ApiKeyRecordView, c: ApiKeyRecordView) {
    }
}

impl Record for Task {
    open spec fn view_key(view: TaskView) -> u128 {
        view.id
    }

    fn key(&self) -> (k: u128) {
        self.id
    }

    fn duplicate(&self) -> (copy: Self) {
        self.clone()
    }
}

impl Owned for Task {
    open spec fn view_owner(view: TaskView) -> u128 {
        view.tenant_id
    }

    fn owner(&self) -> (tenant: u128) {
        self.tenant_id
    }
}

/// Tasks are listed by the instant they are scheduled for.
impl Ranked for Task {
    open spec fn view_before(a: TaskView, b: TaskView) -> bool {
        a.scheduled_at <= b.scheduled_at
    }

    fn before(&self, other: &Self) -> (r: bool) {
        self.scheduled_at <= other.scheduled_at
    }

    proof fn before_total(a: TaskView, b: TaskView) {
    }

    proof fn before_transitive(a: TaskView, b: TaskView, c: TaskView) {
    }
}

impl Record for Workflow {
    open spec fn view_key(view: WorkflowView) -> u128 {
        view.id
    }

    fn key(&self) -> (k: u128) {
        self.id
    }

    fn duplicate(&self) -> (copy: Self) {
        self.clone()
    }
}

impl Owned for Workflow {
    open spec fn view_owner(view: WorkflowView) -> u128 {
        view.tenant_id
    }

    fn owner(&self) -> (tenant: u128) {
        self.tenant_id
    }
}

/// Workflows are listed by name.
impl Ranked for Workflow {
    open spec fn view_before(a: WorkflowView, b: WorkflowView) -> bool {
        text_before(a.name, b.name)
    }

    fn before(&self, other: &Self) -> (r: bool) {
        text_le(self.name.as_str(), other.name.as_str())
    }

    proof fn before_total(a: WorkflowView, b: WorkflowView) {
        lemma_text_before_total(a.name, b.name);
    }

    proof fn before_transitive(a: WorkflowView, b: WorkflowView, c: WorkflowView) {
        lemma_text_before_transitive(a.name, b.name, c.name);
    }
}

/// The position of the first key record with token prefix `prefix`, or the number of
/// records if none has it.
pub open spec fn prefix_position(keys: Seq<ApiKeyRecordView>, prefix: Seq<char>) -> int
    decreases keys.len(),
{
    if keys.len() == 0 {
        0
    } else if keys[0].token_prefix == prefix {
        0
    } else {
        1 + prefix_position(keys.drop_first(), prefix)
    }
}

/// The key record with token prefix `prefix`.
pub open spec fn key_by_prefix(keys: Seq<ApiKeyRecordView>, prefix: Seq<char>) -> Option<
    ApiKeyRecordView,
> {
    if prefix_position(keys, prefix) < keys.len() {
        Some(keys[prefix_position(keys, prefix)])
    } else {
        None
    }
}

/// No two key records share a token prefix.
pub open spec fn prefixes_distinct(keys: Seq<ApiKeyRecordView>) -> bool {
    forall|i: int, j: int|
        0 <= i < j < keys.len() ==> (#[trigger] keys[i]).token_prefix != (
        #[trigger] keys[j]).token_prefix
}

/// Whether a record other than the one with identifier `id` has token prefix `prefix`.
pub open spec fn prefix_taken_by_other(
    keys: Seq<ApiKeyRecordView>,
    prefix: Seq<char>,
    id: u128,
) -> bool {
    exists|i: int| 0 <= i < keys.len() && (#[trigger] keys[i]).token_prefix == prefix && keys[i].id != id
}

/// What `prefix_position` returns.
pub proof fn lemma_prefix_position(keys: Seq<ApiKeyRecordView>, prefix: Seq<char>)
    ensures
        0 <= prefix_position(keys, prefix) <= keys.len(),
        prefix_position(keys, prefix) < keys.len() ==> keys[prefix_position(
            keys,
            prefix,
        )].token_prefix == prefix,
        forall|j: int|
            0 <= j < prefix_position(keys, prefix) ==> (#[trigger] keys[j]).token_prefix != prefix,
    decreases keys.len(),
{
    if keys.len() > 0 && keys[0].token_prefix != prefix {
        let rest = keys.drop_first();
        lemma_prefix_position(rest, prefix);
        assert forall|j: int| 0 <= j < prefix_position(keys, prefix) implies (
        #[trigger] keys[j]).token_prefix != prefix by {
            if j > 0 {
                assert(keys[j] == rest[j - 1]);
            }
        }
    }
}

/// An index that holds `prefix` with no earlier index holding it is its position.
pub proof fn lemma_prefix_position_is(keys: Seq<ApiKeyRecordView>, prefix: Seq<char>, at: int)
    requires
        0 <= at <= keys.len(),
        at < keys.len() ==> keys[at].token_prefix == prefix,
        forall|j: int| 0 <= j < at ==> (#[trigger] keys[j]).token_prefix != prefix,
    ensures
        prefix_position(keys, prefix) == at,
{
    lemma_prefix_position(keys, prefix);
    let p = prefix_position(keys, prefix);
    if p < at {
        assert(keys[p].token_prefix == prefix);
    } else if p > at {
        assert(keys[at].token_prefix == prefix);
    }
}

/// The pending tasks of `tenant`, in table order.
pub open spec fn pending_of(tasks: Seq<TaskView>, tenant: u128) -> Seq<TaskView>
    decreases tasks.len(),
{
    if tasks.len() == 0 {
        Seq::empty()
    } else {
        let earlier = pending_of(tasks.drop_last(), tenant);
        if tasks.last().tenant_id == tenant && tasks.last().status == TaskStatus::Pending {
            earlier.push(tasks.last())
        } else {
            earlier
        }
    }
}

/// A task is among the pending tasks of a tenant exactly if it is a task of the table
/// that belongs to the tenant and is pending.
pub proof fn lemma_pending_of(tasks: Seq<TaskView>, tenant: u128)
    ensures
        forall|t: TaskView|
            #[trigger] pending_of(tasks, tenant).contains(t) <==> (tasks.contains(t) && t.tenant_id
                == tenant && t.status == TaskStatus::Pending),
    decreases tasks.len(),
{
    if tasks.len() > 0 {
        let shorter = tasks.drop_last();
        lemma_pending_of(shorter, tenant);
        let last = tasks.last();
        assert forall|t: TaskView|
            #[trigger] pending_of(tasks, tenant).contains(t) <==> (tasks.contains(t) && t.tenant_id
                == tenant && t.status == TaskStatus::Pending) by {
            let earlier = pending_of(shorter, tenant);
            if tasks.contains(t) {
                let k = choose|k: int| 0 <= k < tasks.len() && tasks[k] == t;
                if k < shorter.len() {
                    assert(shorter[k] == t);
                    assert(shorter.contains(t));
                }
            }
            if shorter.contains(t) {
                let k = choose|k: int| 0 <= k < shorter.len() && shorter[k] == t;
                assert(tasks[k] == t);
            }
            assert(tasks[tasks.len() - 1] == last);
            if last.tenant_id == tenant && last.status == TaskStatus::Pending {
                let grown = earlier.push(last);
                assert(grown[earlier.len() as int] == last);
                if earlier.contains(t) {
                    let k = choose|k: int| 0 <= k < earlier.len() && earlier[k] == t;
                    assert(grown[k] == t);
                }
                if grown.contains(t) {
                    let k = choose|k: int| 0 <= k < grown.len() && grown[k] == t;
                    if k < earlier.len() {
                        assert(earlier[k] == t);
                    }
                }
            }
        }
    }
}

/// The mathematical value of a store: its tables.
pub struct StoreView {
    pub tenants: Seq<TenantView>,
    pub projects: Seq<ProjectView>,
    pub agents: Seq<AgentView>,
    pub api_keys: Seq<ApiKeyRecordView>,
    pub tasks: Seq<TaskView>,
    /// The identifiers of the tasks in the order in which they became pending.
    pub queue: Seq<u128>,
    pub workflows: Seq<WorkflowView>,
    pub uploads: Seq<UploadSessionView>,
    pub content: Seq<ContentMetadataView>,
}

/// A queue without the entries of a task.
pub open spec fn unqueued(queue: Seq<u128>, id: u128) -> Seq<u128>
    decreases queue.len(),
{
    if queue.len() == 0 {
        Seq::empty()
    } else {
        let earlier = unqueued(queue.drop_last(), id);
        if queue.last() == id {
            earlier
        } else {
            earlier.push(queue.last())
        }
    }
}

/// A queue after a task was replaced: its old entries are gone, and it is at the end if
/// it is pending.
pub open spec fn requeued(queue: Seq<u128>, task: TaskView) -> Seq<u128> {
    if task.status == TaskStatus::Pending {
        unqueued(queue, task.id).push(task.id)
    } else {
        unqueued(queue, task.id)
    }
}

/// A store after a task entered it.
pub open spec fn enqueued(store: StoreView, task: TaskView) -> StoreView {
    StoreView { tasks: store.tasks.push(task), queue: store.queue.push(task.id), ..store }
}

/// A store after tasks entered it, one after the other.
pub open spec fn enqueued_all(store: StoreView, tasks: Seq<TaskView>) -> StoreView
    decreases tasks.len(),
{
    if tasks.len() == 0 {
        store
    } else {
        enqueued(enqueued_all(store, tasks.drop_last()), tasks.last())
    }
}

/// A store after the task of the same identifier was replaced.
pub open spec fn task_updated(store: StoreView, task: TaskView) -> StoreView {
    StoreView {
        tasks: replaced::<Task>(store.tasks, task),
        queue: requeued(store.queue, task),
        ..store
    }
}

/// Whether the queue entry `id` may be handed to a worker of `tenant`: it is a pending
/// task of the tenant.
pub open spec fn offered(tasks: Seq<TaskView>, id: u128, tenant: u128) -> bool {
    lookup::<Task>(tasks, id) matches Some(task) && task.tenant_id == tenant && task.status
        == TaskStatus::Pending
}

/// The position of the first queue entry that may be handed to a worker of `tenant`, or
/// the length of the queue if there is none.
pub open spec fn offer_position(tasks: Seq<TaskView>, queue: Seq<u128>, tenant: u128) -> int
    decreases queue.len(),
{
    if queue.len() == 0 {
        0
    } else if offered(tasks, queue[0], tenant) {
        0
    } else {
        1 + offer_position(tasks, queue.drop_first(), tenant)
    }
}

/// What `offer_position` returns.
pub proof fn lemma_offer_position(tasks: Seq<TaskView>, queue: Seq<u128>, tenant: u128)
    ensures
        0 <= offer_position(tasks, queue, tenant) <= queue.len(),
        offer_position(tasks, queue, tenant) < queue.len() ==> offered(
            tasks,
            queue[offer_position(tasks, queue, tenant)],
            tenant,
        ),
        forall|j: int|
            0 <= j < offer_position(tasks, queue, tenant) ==> !offered(
                tasks,
                #[trigger] queue[j],
                tenant,
            ),
    decreases queue.len(),
{
    if queue.len() > 0 && !offered(tasks, queue[0], tenant) {
        let rest = queue.drop_first();
        lemma_offer_position(tasks, rest, tenant);
        assert forall|j: int| 0 <= j < offer_position(tasks, queue, tenant) implies !offered(
            tasks,
            #[trigger] queue[j],
            tenant,
        ) by {
            if j > 0 {
                assert(queue[j] == rest[j - 1]);
            }
        }
    }
}

/// An index that is offered with no earlier index offered is the offer position.
pub proof fn lemma_offer_position_is(
    tasks: Seq<TaskView>,
    queue: Seq<u128>,
    tenant: u128,
    at: int,
)
    requires
        0 <= at <= queue.len(),
        at < queue.len() ==> offered(tasks, queue[at], tenant),
        forall|j: int| 0 <= j < at ==> !offered(tasks, #[trigger] queue[j], tenant),
    ensures
        offer_position(tasks, queue, tenant) == at,
{
    lemma_offer_position(tasks, queue, tenant);
    let p = offer_position(tasks, queue, tenant);
    if p < at {
        assert(offered(tasks, queue[p], tenant));
    } else if p > at {
        assert(offered(tasks, queue[at], tenant));
    }
}

/// What taking the next task of a tenant from the queue does at `now`: the first queue
/// entry that is a pending task of the tenant leaves the queue, and the task is set in
/// progress, started at `now`, and returned.
pub open spec fn peek_post(
    s0: StoreView,
    tenant: u128,
    now: Timestamp,
    s1: StoreView,
    r: PlatformResult<Option<TaskView>>,
) -> bool {
    let at = offer_position(s0.tasks, s0.queue, tenant);
    if 0 <= at < s0.queue.len() {
        let task = lookup::<Task>(s0.tasks, s0.queue[at])->0;
        let started = TaskView { status: TaskStatus::InProgress, started_at: Some(now), ..task };
        &&& r == Ok::<Option<TaskView>, PlatformError>(Some(started))
        &&& s1 == StoreView {
            tasks: replaced::<Task>(s0.tasks, started),
            queue: s0.queue.remove(at),
            ..s0
        }
    } else {
        r == Ok::<Option<TaskView>, PlatformError>(None) && s1 == s0
    }
}

/// What holds of every store: identifiers are unique within a table, and token prefixes
/// are unique among the key records.
pub open spec fn store_wf(store: StoreView) -> bool {
    &&& distinct::<Tenant>(store.tenants)
    &&& distinct::<Project>(store.projects)
    &&& distinct::<Agent>(store.agents)
    &&& distinct::<ApiKeyRecord>(store.api_keys)
    &&& prefixes_distinct(store.api_keys)
    &&& distinct::<Task>(store.tasks)
    &&& distinct::<Workflow>(store.workflows)
    &&& distinct::<UploadSession>(store.uploads)
    &&& distinct::<ContentMetadata>(store.content)
}

/// The stores, held in memory.
pub struct InMemoryPersistence {
    tenants: Vec<Tenant>,
    projects: Vec<Project>,
    agents: Vec<Agent>,
    api_keys: Vec<ApiKeyRecord>,
    tasks: Vec<Task>,
    queue: Vec<u128>,
    workflows: Vec<Workflow>,
    uploads: Vec<UploadSession>,
    content: Vec<ContentMetadata>,
}

impl View for InMemoryPersistence {
    type V = StoreView;

    closed spec fn view(&self) -> StoreView {
        StoreView {
            tenants: self.tenants.deep_view(),
            projects: self.projects.deep_view(),
            agents: self.agents.deep_view(),
            api_keys: self.api_keys.deep_view(),
            tasks: self.tasks.deep_view(),
            queue: self.queue@,
            workflows: self.workflows.deep_view(),
            uploads: self.uploads.deep_view(),
            content: self.content.deep_view(),
        }
    }
}

/// A store with empty tables.
pub open spec fn empty_store() -> StoreView {
    StoreView {
        tenants: Seq::empty(),
        projects: Seq::empty(),
        agents: Seq::empty(),
        api_keys: Seq::empty(),
        tasks: Seq::empty(),
        queue: Seq::empty(),
        workflows: Seq::empty(),
        uploads: Seq::empty(),
        content: Seq::empty(),
    }
}

impl InMemoryPersistence {
    /// Whether the store is well formed.
    pub open spec fn wf(&self) -> bool {
        store_wf(self@)
    }

    /// An empty store.
    pub fn new() -> (store: Self)
        ensures
            store.wf(),
            store@ == empty_store(),
    {
        let store = InMemoryPersistence {
            tenants: Vec::new(),
            projects: Vec::new(),
            agents: Vec::new(),
            api_keys: Vec::new(),
            tasks: Vec::new(),
            queue: Vec::new(),
            workflows: Vec::new(),
            uploads: Vec::new(),
            content: Vec::new(),
        };
        assert(store.tenants.deep_view() =~= Seq::empty());
        assert(store.projects.deep_view() =~= Seq::empty());
        assert(store.agents.deep_view() =~= Seq::empty());
        assert(store.api_keys.deep_view() =~= Seq::empty());
        assert(store.tasks.deep_view() =~= Seq::empty());
        assert(store.queue@ =~= Seq::empty());
        assert(store.workflows.deep_view() =~= Seq::empty());
        assert(store.uploads.deep_view() =~= Seq::empty());
        assert(store.content.deep_view() =~= Seq::empty());
        store
    }

    /// Adds a tenant. `Conflict("tenant")` where a tenant of that identifier exists.
    pub fn insert_tenant(&mut self, tenant: Tenant) -> (r: PlatformResult<()>)
        requires
            old(self).wf(),
        ensures
            final(self).wf(),
            present::<Tenant>(old(self)@.tenants, tenant.id) ==> r == Err::<(), PlatformError>(
                PlatformError::Conflict("tenant"),
            ) && final(self)@ == old(self)@,
            !present::<Tenant>(old(self)@.tenants, tenant.id) ==> r is Ok && final(self)@ == (
            StoreView { tenants: old(self)@.tenants.push(tenant.deep_view()), ..old(self)@ }),
    {
        if find(&self.tenants, tenant.id).is_some() {
            return Err(PlatformError::Conflict("tenant"));
        }
        proof {
            lemma_push::<Tenant>(self.tenants.deep_view(), tenant.deep_view());
        }
        push_row(&mut self.tenants, tenant);
        Ok(())
    }

    /// The tenant with identifier `id`.
    pub fn get_tenant(&self, id: u128) -> (r: PlatformResult<Option<Tenant>>)
        ensures
            r matches Ok(found) && found.deep_view() == lookup::<Tenant>(self@.tenants, id),
    {
        Ok(fetch(&self.tenants, id))
    }

    /// All tenants, by name.
    pub fn list_tenants(&self) -> (r: PlatformResult<Vec<Tenant>>)
        ensures
            r matches Ok(listing) && listing.deep_view() == arranged::<Tenant>(self@.tenants),
    {
        Ok(list_all(&self.tenants))
    }

    /// Adds a project. `NotFound("tenant")` where its tenant is absent, else
    /// `Conflict("project")` where a project of that identifier exists.
    pub fn insert_project(&mut self, project: Project) -> (r: PlatformResult<()>)
        requires
            old(self).wf(),
        ensures
            final(self).wf(),
            !present::<Tenant>(old(self)@.tenants, project.tenant_id) ==> r == Err::<
                (),
                PlatformError,
            >(PlatformError::NotFound("tenant")) && final(self)@ == old(self)@,
            present::<Tenant>(old(self)@.tenants, project.tenant_id) && present::<Project>(
                old(self)@.projects,
                project.id,
            ) ==> r == Err::<(), PlatformError>(PlatformError::Conflict("project")) && final(self)@
                == old(self)@,
            present::<Tenant>(old(self)@.tenants, project.tenant_id) && !present::<Project>(
                old(self)@.projects,
                project.id,
            ) ==> r is Ok && final(self)@ == (StoreView {
                projects: old(self)@.projects.push(project.deep_view()),
                ..old(self)@
            }),
    {
        if find(&self.tenants, project.tenant_id).is_none() {
            return Err(PlatformError::NotFound("tenant"));
        }
        if find(&self.projects, project.id).is_some() {
            return Err(PlatformError::Conflict("project"));
        }
        proof {
            lemma_push::<Project>(self.projects.deep_view(), project.deep_view());
        }
        push_row(&mut self.projects, project);
        Ok(())
    }

    /// The projects of a tenant, by name.
    pub fn list_projects(&self, tenant_id: u128) -> (r: PlatformResult<Vec<Project>>)
        ensures
            r matches Ok(listing) && listing.deep_view() == arranged::<Project>(
                owned_by::<Project>(self@.projects, tenant_id),
            ),
    {
        Ok(list_owned(&self.projects, tenant_id))
    }

    /// The project with identifier `id`.
    pub fn get_project(&self, id: u128) -> (r: PlatformResult<Option<Project>>)
        ensures
            r matches Ok(found) && found.deep_view() == lookup::<Project>(self@.projects, id),
    {
        Ok(fetch(&self.projects, id))
    }

    /// Adds an agent. `NotFound("tenant")` where its tenant is absent, else
    /// `NotFound("project")` where its project is absent, else `Conflict("agent")` where an
    /// agent of that identifier exists.
    pub fn insert_agent(&mut self, agent: Agent) -> (r: PlatformResult<()>)
        requires
            old(self).wf(),
        ensures
            final(self).wf(),
            r == insert_agent_result(old(self)@, agent.deep_view()),
            r is Err ==> final(self)@ == old(self)@,
            r is Ok ==> final(self)@ == (StoreView {
                agents: old(self)@.agents.push(agent.deep_view()),
                ..old(self)@
            }),
    {
        if find(&self.tenants, agent.tenant_id).is_none() {
            return Err(PlatformError::NotFound("tenant"));
        }
        if find(&self.projects, agent.project_id).is_none() {
            return Err(PlatformError::NotFound("project"));
        }
        if find(&self.agents, agent.id).is_some() {
            return Err(PlatformError::Conflict("agent"));
        }
        proof {
            lemma_push::<Agent>(self.agents.deep_view(), agent.deep_view());
        }
        push_row(&mut self.agents, agent);
        Ok(())
    }

    /// Replaces the agent of the same identifier. `NotFound("agent")` where there is none.
    pub fn update_agent(&mut self, agent: Agent) -> (r: PlatformResult<()>)
        requires
            old(self).wf(),
        ensures
            final(self).wf(),
            !present::<Agent>(old(self)@.agents, agent.id) ==> r == Err::<(), PlatformError>(
                PlatformError::NotFound("agent"),
            ) && final(self)@ == old(self)@,
            present::<Agent>(old(self)@.agents, agent.id) ==> r is Ok && final(self)@ == (
            StoreView {
                agents: replaced::<Agent>(old(self)@.agents, agent.deep_view()),
                ..old(self)@
            }),
    {
        match find(&self.agents, agent.id) {
            None => Err(PlatformError::NotFound("agent")),
            Some(at) => {
                proof {
                    lemma_replaced::<Agent>(self.agents.deep_view(), agent.deep_view());
                }
                set_row(&mut self.agents, at, agent);
                Ok(())
            },
        }
    }

    /// The agents of a tenant, by hostname.
    pub fn list_agents(&self, tenant_id: u128) -> (r: PlatformResult<Vec<Agent>>)
        ensures
            r matches Ok(listing) && listing.deep_view() == arranged::<Agent>(
                owned_by::<Agent>(self@.agents, tenant_id),
            ),
    {
        Ok(list_owned(&self.agents, tenant_id))
    }

    /// The agent with identifier `id`.
    pub fn get_agent(&self, id: u128) -> (r: PlatformResult<Option<Agent>>)
        ensures
            r matches Ok(found) && found.deep_view() == lookup::<Agent>(self@.agents, id),
    {
        Ok(fetch(&self.agents, id))
    }

    fn find_prefix(&self, prefix: &str) -> (found: Option<usize>)
        ensures
            match found {
                Some(at) => at < self.api_keys.len() && prefix_position(self@.api_keys, prefix@)
                    == at,
                None => prefix_position(self@.api_keys, prefix@) == self@.api_keys.len(),
            },
    {
        let mut i: usize = 0;
        while i < self.api_keys.len()
            invariant
                i <= self.api_keys.len(),
                forall|j: int| 0 <= j < i ==> (#[trigger] self.api_keys@[j]).token_prefix@ != prefix@,
            decreases self.api_keys.len() - i,
        {
            if same_text(self.api_keys[i].token_prefix.as_str(), prefix) {
                proof {
                    let views = self.api_keys.deep_view();
                    assert forall|j: int| 0 <= j < i implies (#[trigger] views[j]).token_prefix
                        != prefix@ by {
                        assert(views[j] == self.api_keys@[j].deep_view());
                    }
                    lemma_prefix_position_is(views, prefix@, i as int);
                }
                return Some(i);
            }
            i = i + 1;
        }
        proof {
            let views = self.api_keys.deep_view();
            assert forall|j: int| 0 <= j < views.len() implies (#[trigger] views[j]).token_prefix
                != prefix@ by {
                assert(views[j] == self.api_keys@[j].deep_view());
            }
            lemma_prefix_position_is(views, prefix@, views.len() as int);
        }
        None
    }

    /// Adds a key record. `Conflict("api_key")` where a record of that token prefix or of
    /// that identifier exists.
    pub fn insert_api_key(&mut self, record: ApiKeyRecord) -> (r: PlatformResult<()>)
        requires
            old(self).wf(),
        ensures
            final(self).wf(),
            (key_by_prefix(old(self)@.api_keys, record.token_prefix@) is Some || present::<
                ApiKeyRecord,
            >(old(self)@.api_keys, record.id)) ==> r == Err::<(), PlatformError>(
                PlatformError::Conflict("api_key"),
            ) && final(self)@ == old(self)@,
            !(key_by_prefix(old(self)@.api_keys, record.token_prefix@) is Some || present::<
                ApiKeyRecord,
            >(old(self)@.api_keys, record.id)) ==> r is Ok && final(self)@ == (StoreView {
                api_keys: old(self)@.api_keys.push(record.deep_view()),
                ..old(self)@
            }),
    {
        if self.find_prefix(record.token_prefix.as_str()).is_some() {
            return Err(PlatformError::Conflict("api_key"));
        }
        if find(&self.api_keys, record.id).is_some() {
            return Err(PlatformError::Conflict("api_key"));
        }
        proof {
            let keys = self.api_keys.deep_view();
            let added = record.deep_view();
            lemma_push::<ApiKeyRecord>(keys, added);
            lemma_prefix_position(keys, added.token_prefix);
            let grown = keys.push(added);
            assert forall|i: int, j: int| 0 <= i < j < grown.len() implies (
            #[trigger] grown[i]).token_prefix != (#[trigger] grown[j]).token_prefix by {
                assert(grown[i] == keys[i]);
                if j < keys.len() {
                    assert(grown[j] == keys[j]);
                }
            }
        }
        push_row(&mut self.api_keys, record);
        Ok(())
    }

    /// The key record with identifier `id`.
    pub fn get_api_key(&self, id: u128) -> (r: PlatformResult<Option<ApiKeyRecord>>)
        ensures
            r matches Ok(found) && found.deep_view() == lookup::<ApiKeyRecord>(
                self@.api_keys,
                id,
            ),
    {
        Ok(fetch(&self.api_keys, id))
    }

    /// The key record with token prefix `prefix`.
    pub fn get_api_key_by_prefix(&self, prefix: &str) -> (r: PlatformResult<
        Option<ApiKeyRecord>,
    >)
        ensures
            r matches Ok(found) && found.deep_view() == key_by_prefix(self@.api_keys, prefix@),
    {
        match self.find_prefix(prefix) {
            Some(at) => Ok(Some(self.api_keys[at].clone())),
            None => Ok(None),
        }
    }

    /// The key records of a tenant, by the instant of their creation.
    pub fn list_api_keys(&self, tenant_id: u128) -> (r: PlatformResult<Vec<ApiKeyRecord>>)
        ensures
            r matches Ok(listing) && listing.deep_view() == arranged::<ApiKeyRecord>(
                owned_by::<ApiKeyRecord>(self@.api_keys, tenant_id),
            ),
    {
        Ok(list_owned(&self.api_keys, tenant_id))
    }

    /// Replaces the key record of the same identifier. `NotFound("api_key")` where there is
    /// none, else `Conflict("api_key")` where another record has the new token prefix.
    pub fn update_api_key(&mut self, record: ApiKeyRecord) -> (r: PlatformResult<()>)
        requires
            old(self).wf(),
        ensures
            final(self).wf(),
            r == update_api_key_result(old(self)@, record.deep_view()),
            r is Err ==> final(self)@ == old(self)@,
            r is Ok ==> final(self)@ == (StoreView {
                api_keys: replaced::<ApiKeyRecord>(old(self)@.api_keys, record.deep_view()),
                ..old(self)@
            }),
    {
        let found = find(&self.api_keys, record.id);
        match found {
            None => Err(PlatformError::NotFound("api_key")),
            Some(at) => {
                let holder = self.find_prefix(record.token_prefix.as_str());
                proof {
                    let keys = self.api_keys.deep_view();
                    lemma_prefix_position(keys, record.token_prefix@);
                    lemma_position::<ApiKeyRecord>(keys, record.id);
                }
                match holder {
                    Some(other) => {
                        if other != at {
                            proof {
                                let keys = self.api_keys.deep_view();
                                assert(keys[other as int].token_prefix == record.token_prefix@);
                                if at < other {
                                    assert(keys[at as int].id != keys[other as int].id);
                                } else {
                                    assert(keys[other as int].id != keys[at as int].id);
                                }
                            }
                            return Err(PlatformError::Conflict("api_key"));
                        }
                    },
                    None => {},
                }
                proof {
                    let keys = self.api_keys.deep_view();
                    let added = record.deep_view();
                    lemma_replaced::<ApiKeyRecord>(keys, added);
                    let changed = replaced::<ApiKeyRecord>(keys, added);
                    assert forall|k: int| 0 <= k < keys.len() && k != at implies (
                    #[trigger] keys[k]).token_prefix != added.token_prefix by {
                        if keys[k].token_prefix == added.token_prefix {
                            // the first holder of the prefix is `at` or nobody
                            let p = prefix_position(keys, added.token_prefix);
                            assert(p <= k);
                            if p < k {
                                assert(keys[p].token_prefix != keys[k].token_prefix);
                            }
                        }
                    }
                    assert(!prefix_taken_by_other(keys, added.token_prefix, added.id)) by {
                        if prefix_taken_by_other(keys, added.token_prefix, added.id) {
                            let k = choose|k: int|
                                0 <= k < keys.len() && (#[trigger] keys[k]).token_prefix
                                    == added.token_prefix && keys[k].id != added.id;
                            assert(k != at);
                        }
                    }
                    assert forall|i: int, j: int| 0 <= i < j < changed.len() implies (
                    #[trigger] changed[i]).token_prefix != (#[trigger] changed[j]).token_prefix by {
                        if i != at && j != at {
                            assert(keys[i].token_prefix != keys[j].token_prefix);
                        }
                    }
                }
                set_row(&mut self.api_keys, at, record);
                Ok(())
            },
        }
    }

    /// Places a task in the table. `Conflict("task")` where a task of that identifier exists.
    pub fn enqueue_task(&mut self, task: Task) -> (r: PlatformResult<()>)
        requires
            old(self).wf(),
        ensures
            final(self).wf(),
            present::<Task>(old(self)@.tasks, task.id) ==> r == Err::<(), PlatformError>(
                PlatformError::Conflict("task"),
            ) && final(self)@ == old(self)@,
            !present::<Task>(old(self)@.tasks, task.id) ==> r is Ok && final(self)@ == enqueued(
                old(self)@,
                task.deep_view(),
            ),
    {
        if find(&self.tasks, task.id).is_some() {
            return Err(PlatformError::Conflict("task"));
        }
        proof {
            lemma_push::<Task>(self.tasks.deep_view(), task.deep_view());
        }
        self.queue.push(task.id);
        push_row(&mut self.tasks, task);
        Ok(())
    }

    /// Removes the entries of a task from the queue.
    fn unqueue(&mut self, id: u128)
        ensures
            final(self)@ == (StoreView { queue: unqueued(old(self)@.queue, id), ..old(self)@ }),
    {
        let mut kept: Vec<u128> = Vec::new();
        let mut i: usize = 0;
        assert(self.queue@.take(0) =~= Seq::empty());
        while i < self.queue.len()
            invariant
                i <= self.queue.len(),
                *self == *old(self),
                kept@ == unqueued(self.queue@.take(i as int), id),
            decreases self.queue.len() - i,
        {
            proof {
                assert(self.queue@.take(i + 1).drop_last() =~= self.queue@.take(i as int));
                assert(self.queue@.take(i + 1).last() == self.queue@[i as int]);
            }
            if self.queue[i] != id {
                kept.push(self.queue[i]);
            }
            i = i + 1;
        }
        assert(self.queue@.take(self.queue.len() as int) =~= self.queue@);
        self.queue = kept;
    }

    /// Takes the next task of a tenant from the queue at `now`.
    pub fn peek_next_task_at(&mut self, tenant_id: u128, now: Timestamp) -> (r: PlatformResult<
        Option<Task>,
    >)
        requires
            old(self).wf(),
        ensures
            final(self).wf(),
            peek_post(old(self)@, tenant_id, now, final(self)@, result_view(r)),
    {
        let mut i: usize = 0;
        while i < self.queue.len()
            invariant
                i <= self.queue.len(),
                *self == *old(self),
                self.wf(),
                forall|j: int|
                    0 <= j < i ==> !offered(self@.tasks, #[trigger] self@.queue[j], tenant_id),
            decreases self.queue.len() - i,
        {
            match find(&self.tasks, self.queue[i]) {
                Some(at) => {
                    assert(self.tasks.deep_view()[at as int] == self.tasks@[at as int].deep_view());
                    if self.tasks[at].tenant_id == tenant_id && self.tasks[at].status
                        == TaskStatus::Pending {
                        proof {
                            lemma_offer_position_is(self@.tasks, self@.queue, tenant_id, i as int);
                            lemma_position::<Task>(self@.tasks, self@.queue[i as int]);
                        }
                        let mut task = self.tasks[at].clone();
                        task.status = TaskStatus::InProgress;
                        task.started_at = Some(now);
                        proof {
                            lemma_replaced::<Task>(self.tasks.deep_view(), task.deep_view());
                        }
                        let _ = self.queue.remove(i);
                        set_row(&mut self.tasks, at, task.clone());
                        return Ok(Some(task));
                    }
                },
                None => {},
            }
            i = i + 1;
        }
        proof {
            lemma_offer_position_is(self@.tasks, self@.queue, tenant_id, self@.queue.len() as int);
        }
        Ok(None)
    }

    /// Takes the next task of a tenant from the queue: the first entry that is a pending
    /// task of the tenant leaves the queue and is set in progress.
    pub fn peek_next_task(&mut self, tenant_id: u128) -> (r: PlatformResult<Option<Task>>)
        requires
            old(self).wf(),
        ensures
            final(self).wf(),
            exists|now: Timestamp| #[trigger]
                peek_post(
                    old(self)@,
                    tenant_id,
                    now,
                    final(self)@,
                    result_view(r),
                ),
    {
        let now = crate::time::now_millis();
        self.peek_next_task_at(tenant_id, now)
    }

    /// Replaces the task of the same identifier. `NotFound("task")` where there is none.
    /// A task whose new status is not pending is at once absent from the pending listing.
    pub fn update_task(&mut self, task: Task) -> (r: PlatformResult<()>)
        requires
            old(self).wf(),
        ensures
            final(self).wf(),
            !present::<Task>(old(self)@.tasks, task.id) ==> r == Err::<(), PlatformError>(
                PlatformError::NotFound("task"),
            ) && final(self)@ == old(self)@,
            present::<Task>(old(self)@.tasks, task.id) ==> r is Ok && final(self)@
                == task_updated(old(self)@, task.deep_view()),
    {
        match find(&self.tasks, task.id) {
            None => Err(PlatformError::NotFound("task")),
            Some(at) => {
                proof {
                    lemma_replaced::<Task>(self.tasks.deep_view(), task.deep_view());
                }
                self.unqueue(task.id);
                if task.status == TaskStatus::Pending {
                    self.queue.push(task.id);
                }
                set_row(&mut self.tasks, at, task);
                Ok(())
            },
        }
    }

    /// The task with identifier `id`.
    pub fn get_task(&self, id: u128) -> (r: PlatformResult<Option<Task>>)
        ensures
            r matches Ok(found) && found.deep_view() == lookup::<Task>(self@.tasks, id),
    {
        Ok(fetch(&self.tasks, id))
    }

    /// The pending tasks of a tenant, earliest scheduled first.
    pub fn list_pending_tasks(&self, tenant_id: u128) -> (r: PlatformResult<Vec<Task>>)
        ensures
            r matches Ok(listing) && listing.deep_view() == arranged::<Task>(
                pending_of(self@.tasks, tenant_id),
            ),
    {
        let mut listing: Vec<Task> = Vec::new();
        let mut i: usize = 0;
        assert(self.tasks.deep_view().take(0) =~= Seq::empty());
        assert(listing.deep_view() =~= Seq::empty());
        while i < self.tasks.len()
            invariant
                i <= self.tasks.len(),
                listing.deep_view() == arranged::<Task>(
                    pending_of(self.tasks.deep_view().take(i as int), tenant_id),
                ),
            decreases self.tasks.len() - i,
        {
            proof {
                let views = self.tasks.deep_view();
                assert(views.take(i + 1).drop_last() =~= views.take(i as int));
                assert(views.take(i + 1).last() == self.tasks@[i as int].deep_view());
                let chosen = pending_of(views.take(i as int), tenant_id);
                assert(chosen.push(views[i as int]).drop_last() =~= chosen);
            }
            if self.tasks[i].tenant_id == tenant_id && self.tasks[i].status
                == TaskStatus::Pending {
                insert_ranked(&mut listing, self.tasks[i].clone());
            }
            i = i + 1;
        }
        assert(self.tasks.deep_view().take(self.tasks.len() as int) =~= self.tasks.deep_view());
        Ok(listing)
    }

    /// Adds a workflow. `Conflict("workflow")` where a workflow of that identifier exists.
    pub fn insert_workflow(&mut self, workflow: Workflow) -> (r: PlatformResult<()>)
        requires
            old(self).wf(),
        ensures
            final(self).wf(),
            present::<Workflow>(old(self)@.workflows, workflow.id) ==> r == Err::<
                (),
                PlatformError,
            >(PlatformError::Conflict("workflow")) && final(self)@ == old(self)@,
            !present::<Workflow>(old(self)@.workflows, workflow.id) ==> r is Ok && final(self)@
                == (StoreView {
                workflows: old(self)@.workflows.push(workflow.deep_view()),
                ..old(self)@
            }),
    {
        if find(&self.workflows, workflow.id).is_some() {
            return Err(PlatformError::Conflict("workflow"));
        }
        proof {
            lemma_push::<Workflow>(self.workflows.deep_view(), workflow.deep_view());
        }
        push_row(&mut self.workflows, workflow);
        Ok(())
    }

    /// The workflow with identifier `id`.
    pub fn get_workflow(&self, id: u128) -> (r: PlatformResult<Option<Workflow>>)
        ensures
            r matches Ok(found) && found.deep_view() == lookup::<Workflow>(self@.workflows, id),
    {
        Ok(fetch(&self.workflows, id))
    }

    /// The workflows of a tenant, by name.
    pub fn list_workflows(&self, tenant_id: u128) -> (r: PlatformResult<Vec<Workflow>>)
        ensures
            r matches Ok(listing) && listing.deep_view() == arranged::<Workflow>(
                owned_by::<Workflow>(self@.workflows, tenant_id),
            ),
    {
        Ok(list_owned(&self.workflows, tenant_id))
    }

    /// Adds an upload session. `NotFound("tenant")` where its tenant is absent, else
    /// `NotFound("project")` where its project is absent, else `Conflict("upload_session")`
    /// where a session of that identifier exists.
    pub fn create_upload_session(&mut self, session: UploadSession) -> (r: PlatformResult<()>)
        requires
            old(self).wf(),
        ensures
            final(self).wf(),
            r == create_upload_result(old(self)@, session.deep_view()),
            r is Ok ==> final(self)@ == (StoreView {
                uploads: old(self)@.uploads.push(session.deep_view()),
                ..old(self)@
            }),
            r is Err ==> final(self)@ == old(self)@,
    {
        if find(&self.tenants, session.tenant_id).is_none() {
            return Err(PlatformError::NotFound("tenant"));
        }
        if find(&self.projects, session.project_id).is_none() {
            return Err(PlatformError::NotFound("project"));
        }
        if find(&self.uploads, session.id).is_some() {
            return Err(PlatformError::Conflict("upload_session"));
        }
        proof {
            lemma_push::<UploadSession>(self.uploads.deep_view(), session.deep_view());
        }
        push_row(&mut self.uploads, session);
        Ok(())
    }

    /// Puts an upload session in the place of the one with its identifier.
    /// `NotFound("upload_session")` where there is none.
    pub fn update_upload_session(&mut self, session: UploadSession) -> (r: PlatformResult<()>)
        requires
            old(self).wf(),
        ensures
            final(self).wf(),
            !present::<UploadSession>(old(self)@.uploads, session.id) ==> r == Err::<
                (),
                PlatformError,
            >(PlatformError::NotFound("upload_session")) && final(self)@ == old(self)@,
            present::<UploadSession>(old(self)@.uploads, session.id) ==> r is Ok && final(self)@
                == (StoreView {
                uploads: replaced::<UploadSession>(old(self)@.uploads, session.deep_view()),
                ..old(self)@
            }),
    {
        match find(&self.uploads, session.id) {
            None => Err(PlatformError::NotFound("upload_session")),
            Some(at) => {
                proof {
                    lemma_replaced::<UploadSession>(self.uploads.deep_view(), session.deep_view());
                }
                set_row(&mut self.uploads, at, session);
                Ok(())
            },
        }
    }

    /// The upload session with identifier `id`.
    pub fn get_upload_session(&self, id: u128) -> (r: PlatformResult<Option<UploadSession>>)
        ensures
            r matches Ok(found) && found.deep_view() == lookup::<UploadSession>(self@.uploads, id),
    {
        Ok(fetch(&self.uploads, id))
    }

    /// Records what is known of a piece of content, in the place of what was known of it
    /// before. `NotFound("tenant")` where its tenant is absent, else `NotFound("project")`
    /// where its project is absent.
    pub fn record_content_metadata(&mut self, metadata: ContentMetadata) -> (r: PlatformResult<()>)
        requires
            old(self).wf(),
        ensures
            final(self).wf(),
            r == record_content_result(old(self)@, metadata.deep_view()),
            r is Ok ==> final(self)@ == (StoreView {
                content: put::<ContentMetadata>(old(self)@.content, metadata.deep_view()),
                ..old(self)@
            }),
            r is Err ==> final(self)@ == old(self)@,
    {
        if find(&self.tenants, metadata.tenant_id).is_none() {
            return Err(PlatformError::NotFound("tenant"));
        }
        if find(&self.projects, metadata.project_id).is_none() {
            return Err(PlatformError::NotFound("project"));
        }
        proof {
            lemma_put::<ContentMetadata>(self.content.deep_view(), metadata.deep_view());
        }
        put_row(&mut self.content, metadata);
        Ok(())
    }

    /// What is known of the piece of content with identifier `id`.
    pub fn get_content_metadata(&self, id: u128) -> (r: PlatformResult<Option<ContentMetadata>>)
        ensures
            r matches Ok(found) && found.deep_view() == lookup::<ContentMetadata>(
                self@.content,
                id,
            ),
    {
        Ok(fetch(&self.content, id))
    }

    /// The content that a query asks for, newest first, cut down to its page.
    pub fn list_content_metadata(&self, query: &ContentQuery) -> (r: PlatformResult<
        Vec<ContentMetadata>,
    >)
        ensures
            r matches Ok(listing) && listing.deep_view() == content_listing(
                self@.content,
                query.deep_view(),
            ),
    {
        Ok(list_content(&self.content, query))
    }
}

/// What creating an upload session answers.
pub open spec fn create_upload_result(store: StoreView, session: UploadSessionView)
    -> PlatformResult<()> {
    if !present::<Tenant>(store.tenants, session.tenant_id) {
        Err(PlatformError::NotFound("tenant"))
    } else if !present::<Project>(store.projects, session.project_id) {
        Err(PlatformError::NotFound("project"))
    } else if present::<UploadSession>(store.uploads, session.id) {
        Err(PlatformError::Conflict("upload_session"))
    } else {
        Ok(())
    }
}

/// What recording the metadata of a piece of content answers.
pub open spec fn record_content_result(store: StoreView, metadata: ContentMetadataView)
    -> PlatformResult<()> {
    if !present::<Tenant>(store.tenants, metadata.tenant_id) {
        Err(PlatformError::NotFound("tenant"))
    } else if !present::<Project>(store.projects, metadata.project_id) {
        Err(PlatformError::NotFound("project"))
    } else {
        Ok(())
    }
}

/// What inserting an agent answers.
pub open spec fn insert_agent_result(store: StoreView, agent: AgentView) -> PlatformResult<()> {
    if !present::<Tenant>(store.tenants, agent.tenant_id) {
        Err(PlatformError::NotFound("tenant"))
    } else if !present::<Project>(store.projects, agent.project_id) {
        Err(PlatformError::NotFound("project"))
    } else if present::<Agent>(store.agents, agent.id) {
        Err(PlatformError::Conflict("agent"))
    } else {
        Ok(())
    }
}

/// What replacing a key record answers.
pub open spec fn update_api_key_result(store: StoreView, record: ApiKeyRecordView) -> PlatformResult<
    (),
> {
    if !present::<ApiKeyRecord>(store.api_keys, record.id) {
        Err(PlatformError::NotFound("api_key"))
    } else if prefix_taken_by_other(store.api_keys, record.token_prefix, record.id) {
        Err(PlatformError::Conflict("api_key"))
    } else {
        Ok(())
    }
}

} // verus!
