//! The provisioning service: tenants, projects and agents, bootstrap idempotency, and
//! the sweep of agents that stopped sending heartbeats.
//!
//! The service remembers the bundle it returned for each idempotency key and repeats it
//! when the key comes again. The stores and the authentication service are handed to each
//! operation.
use vstd::prelude::*;
use vstd::string::StringExecFns;
use crate::auth::{
    issue_key_post, issue_token_post, scopes_verdict, AuthService, AuthServiceView,
};
use crate::crypto::random_secret;
use crate::error::{result_view, PlatformError, PlatformResult};
use crate::ids::{id_text, random_id, uuid_text};
use crate::models::{
    clone_opt_bytes, no_metadata, no_settings, Agent, AgentMetadata, AgentMetadataView,
    AgentStatus, AgentView, ApiKey, ApiKeyView, AuthContext, AuthContextView,
    AuthSessionMetadata, AuthSessionMetadataView, AuthToken, AuthTokenView, PrincipalType,
    Project, ProjectView, ProvisionedAgent, ProvisionedAgentView, Tenant, TenantId,
    TenantSettings, TenantSettingsView, TenantView,
};
use crate::persistence::{InMemoryPersistence, StoreView};
use crate::scope::{
    clone_scopes, default_roles, default_scope_registry, role_position, Scope, ScopeView,
};
use crate::table::{
    arranged, lemma_arranged, lemma_contains_present, lemma_position, lemma_replaced, lookup,
    owned_by, present, push_row, replaced,
};
use crate::text::{
    blank, clone_opt_text, clone_texts, find_text, is_blank, join, lemma_text_position,
    text_position,
};
use crate::table::lemma_owned_by;
use crate::time::{before, clamp, minutes, now_millis, Millis, Timestamp};

verus! {

/// What is asked for when a tenant is created.
#[derive(Debug)]
pub struct TenantCreateRequest {
    pub name: String,
    pub idempotency_key: Option<String>,
    pub settings: Option<TenantSettings>,
    pub bootstrap_scopes: Vec<Scope>,
    pub bootstrap_scripts: Vec<String>,
}

/// The mathematical value of a [`TenantCreateRequest`].
pub struct TenantCreateRequestView {
    pub name: Seq<char>,
    pub idempotency_key: Option<Seq<char>>,
    pub settings: Option<TenantSettingsView>,
    pub bootstrap_scopes: Seq<ScopeView>,
    pub bootstrap_scripts: Seq<Seq<char>>,
}

impl DeepView for TenantCreateRequest {
    type V = TenantCreateRequestView;

    open spec fn deep_view(&self) -> TenantCreateRequestView {
        TenantCreateRequestView {
            name: self.name@,
            idempotency_key: self.idempotency_key.deep_view(),
            settings: self.settings.deep_view(),
            bootstrap_scopes: self.bootstrap_scopes.deep_view(),
            bootstrap_scripts: self.bootstrap_scripts.deep_view(),
        }
    }
}

impl Clone for TenantCreateRequest {
    fn clone(&self) -> (copy: Self)
        ensures
            copy.deep_view() == self.deep_view(),
    {
        TenantCreateRequest {
            name: self.name.clone(),
            idempotency_key: clone_opt_text(&self.idempotency_key),
            settings: match &self.settings {
                Some(inner) => Some(inner.clone()),
                None => None,
            },
            bootstrap_scopes: clone_scopes(&self.bootstrap_scopes),
            bootstrap_scripts: clone_texts(&self.bootstrap_scripts),
        }
    }
}

/// What the creation of a tenant hands back: the tenant, its default key and its bootstrap scripts.
#[derive(Debug)]
pub struct TenantBootstrap {
    pub tenant: Tenant,
    pub default_api_key: Option<ApiKey>,
    pub bootstrap_scripts: Vec<String>,
}

/// The mathematical value of a [`TenantBootstrap`].
pub struct TenantBootstrapView {
    pub tenant: TenantView,
    pub default_api_key: Option<ApiKeyView>,
    pub bootstrap_scripts: Seq<Seq<char>>,
}

impl DeepView for TenantBootstrap {
    type V = TenantBootstrapView;

    open spec fn deep_view(&self) -> TenantBootstrapView {
        TenantBootstrapView {
            tenant: self.tenant.deep_view(),
            default_api_key: self.default_api_key.deep_view(),
            bootstrap_scripts: self.bootstrap_scripts.deep_view(),
        }
    }
}

impl Clone for TenantBootstrap {
    fn clone(&self) -> (copy: Self)
        ensures
            copy.deep_view() == self.deep_view(),
    {
        TenantBootstrap {
            tenant: self.tenant.clone(),
            default_api_key: match &self.default_api_key {
                Some(inner) => Some(inner.clone()),
                None => None,
            },
            bootstrap_scripts: clone_texts(&self.bootstrap_scripts),
        }
    }
}

/// What is asked for when a project is created.
#[derive(Debug)]
pub struct ProjectCreateRequest {
    pub tenant_id: TenantId,
    pub name: String,
    pub idempotency_key: Option<String>,
    pub bootstrap_scripts: Vec<String>,
}

/// The mathematical value of a [`ProjectCreateRequest`].
pub struct ProjectCreateRequestView {
    pub tenant_id: TenantId,
    pub name: Seq<char>,
    pub idempotency_key: Option<Seq<char>>,
    pub bootstrap_scripts: Seq<Seq<char>>,
}

impl DeepView for ProjectCreateRequest {
    type V = ProjectCreateRequestView;

    open spec fn deep_view(&self) -> ProjectCreateRequestView {
        ProjectCreateRequestView {
            tenant_id: self.tenant_id,
            name: self.name@,
            idempotency_key: self.idempotency_key.deep_view(),
            bootstrap_scripts: self.bootstrap_scripts.deep_view(),
        }
    }
}

impl Clone for ProjectCreateRequest {
    fn clone(&self) -> (copy: Self)
        ensures
            copy.deep_view() == self.deep_view(),
    {
        ProjectCreateRequest {
            tenant_id: self.tenant_id,
            name: self.name.clone(),
            idempotency_key: clone_opt_text(&self.idempotency_key),
            bootstrap_scripts: clone_texts(&self.bootstrap_scripts),
        }
    }
}

/// What the creation of a project hands back: the project and its bootstrap scripts.
#[derive(Debug)]
pub struct ProjectBootstrap {
    pub project: Project,
    pub bootstrap_scripts: Vec<String>,
}

/// The mathematical value of a [`ProjectBootstrap`].
pub struct ProjectBootstrapView {
    pub project: ProjectView,
    pub bootstrap_scripts: Seq<Seq<char>>,
}

impl DeepView for ProjectBootstrap {
    type V = ProjectBootstrapView;

    open spec fn deep_view(&self) -> ProjectBootstrapView {
        ProjectBootstrapView {
            project: self.project.deep_view(),
            bootstrap_scripts: self.bootstrap_scripts.deep_view(),
        }
    }
}

impl Clone for ProjectBootstrap {
    fn clone(&self) -> (copy: Self)
        ensures
            copy.deep_view() == self.deep_view(),
    {
        ProjectBootstrap {
            project: self.project.clone(),
            bootstrap_scripts: clone_texts(&self.bootstrap_scripts),
        }
    }
}

/// What may be given along when an agent is registered.
#[derive(Debug)]
pub struct AgentRegistrationOptions {
    pub metadata: Option<AgentMetadata>,
    pub bootstrap_commands: Vec<String>,
    pub certificate_bundle: Option<Vec<u8>>,
}

/// The mathematical value of a [`AgentRegistrationOptions`].
pub struct AgentRegistrationOptionsView {
    pub metadata: Option<AgentMetadataView>,
    pub bootstrap_commands: Seq<Seq<char>>,
    pub certificate_bundle: Option<Seq<u8>>,
}

impl DeepView for AgentRegistrationOptions {
    type V = AgentRegistrationOptionsView;

    open spec fn deep_view(&self) -> AgentRegistrationOptionsView {
        AgentRegistrationOptionsView {
            metadata: self.metadata.deep_view(),
            bootstrap_commands: self.bootstrap_commands.deep_view(),
            certificate_bundle: self.certificate_bundle.deep_view(),
        }
    }
}

impl Clone for AgentRegistrationOptions {
    fn clone(&self) -> (copy: Self)
        ensures
            copy.deep_view() == self.deep_view(),
    {
        AgentRegistrationOptions {
            metadata: match &self.metadata {
                Some(inner) => Some(inner.clone()),
                None => None,
            },
            bootstrap_commands: clone_texts(&self.bootstrap_commands),
            certificate_bundle: clone_opt_bytes(&self.certificate_bundle),
        }
    }
}


impl TenantCreateRequest {
    /// The value of a request that names only the tenant.
    pub open spec fn new_view(name: Seq<char>) -> TenantCreateRequestView {
        TenantCreateRequestView {
            name,
            idempotency_key: None,
            settings: None,
            bootstrap_scopes: seq![ScopeView::Admin],
            bootstrap_scripts: Seq::empty(),
        }
    }

    /// A request for a tenant called `name`: no idempotency key, default settings, the
    /// admin scope for the default key, and the default bootstrap script.
    pub fn new(name: &str) -> (request: Self)
        ensures
            request.deep_view() == Self::new_view(name@),
    {
        let request = TenantCreateRequest {
            name: String::from_str(name),
            idempotency_key: None,
            settings: None,
            bootstrap_scopes: vec![Scope::Admin],
            bootstrap_scripts: Vec::new(),
        };
        assert(request.bootstrap_scopes.deep_view() =~= seq![ScopeView::Admin]);
        assert(request.bootstrap_scripts.deep_view() =~= Seq::empty());
        request
    }
}

impl ProjectCreateRequest {
    /// A request for a project of the tenant called `name`: no idempotency key and the
    /// default bootstrap script.
    pub fn new(tenant_id: TenantId, name: &str) -> (request: Self)
        ensures
            request.deep_view() == (ProjectCreateRequestView {
                tenant_id,
                name: name@,
                idempotency_key: None,
                bootstrap_scripts: Seq::empty(),
            }),
    {
        let request = ProjectCreateRequest {
            tenant_id,
            name: String::from_str(name),
            idempotency_key: None,
            bootstrap_scripts: Vec::new(),
        };
        assert(request.bootstrap_scripts.deep_view() =~= Seq::empty());
        request
    }
}

impl Default for AgentRegistrationOptions {
    fn default() -> (options: Self)
        ensures
            options.deep_view() == (AgentRegistrationOptionsView {
                metadata: None,
                bootstrap_commands: Seq::empty(),
                certificate_bundle: None,
            }),
    {
        let options = AgentRegistrationOptions {
            metadata: None,
            bootstrap_commands: Vec::new(),
            certificate_bundle: None,
        };
        assert(options.bootstrap_commands.deep_view() =~= Seq::empty());
        options
    }
}

/// The label of the default key of a tenant.
pub open spec fn tenant_label(id: u128) -> Seq<char> {
    "tenant:"@ + uuid_text(id) + ":default"@
}

/// The bootstrap script of a tenant that names none.
pub open spec fn tenant_script(id: u128) -> Seq<char> {
    "cassctl bootstrap --tenant "@ + uuid_text(id)
}

/// The bootstrap script of a project that names none.
pub open spec fn project_script(id: u128) -> Seq<char> {
    "cassctl project init --project "@ + uuid_text(id)
}

/// The bootstrap command of an agent that names none.
pub open spec fn agent_command(id: u128) -> Seq<char> {
    "cass-agent enroll --agent "@ + uuid_text(id)
}

/// The label of the key of an agent.
pub open spec fn agent_label(hostname: Seq<char>) -> Seq<char> {
    "agent:"@ + hostname
}

/// The custom scope that ties a key or a token to a project.
pub open spec fn project_scope(project_id: u128) -> ScopeView {
    ScopeView::Custom("project:"@ + uuid_text(project_id))
}

/// The scopes of the key of an agent: those of the role `agent` and the scope of its
/// project.
pub open spec fn agent_key_scopes(project_id: u128) -> Seq<ScopeView> {
    seq![ScopeView::AgentExecute, ScopeView::WorkflowExecute, project_scope(project_id)]
}

/// The scopes of the token of an agent.
pub open spec fn agent_token_scopes(project_id: u128) -> Seq<ScopeView> {
    seq![ScopeView::AgentExecute, project_scope(project_id)]
}

/// What is given, or the one default where nothing is given.
pub open spec fn or_default(given: Seq<Seq<char>>, default: Seq<char>) -> Seq<Seq<char>> {
    if given.len() == 0 {
        seq![default]
    } else {
        given
    }
}

/// The mathematical value of the provisioning service: the bundles it remembers under
/// their idempotency keys, and the heartbeat timeout.
pub struct ProvisioningView {
    pub tenant_keys: Seq<Seq<char>>,
    pub tenant_bundles: Seq<TenantBootstrapView>,
    pub project_keys: Seq<Seq<char>>,
    pub project_bundles: Seq<ProjectBootstrapView>,
    pub heartbeat_timeout: Millis,
}

/// What holds of every provisioning service: each remembered key has its bundle.
pub open spec fn provisioning_wf(service: ProvisioningView) -> bool {
    &&& service.tenant_keys.len() == service.tenant_bundles.len()
    &&& service.project_keys.len() == service.project_bundles.len()
}

/// The tenant bundle remembered under an idempotency key.
pub open spec fn remembered_tenant(service: ProvisioningView, key: Option<Seq<char>>) -> Option<
    TenantBootstrapView,
> {
    match key {
        Some(k) => {
            let at = text_position(service.tenant_keys, k);
            if at < service.tenant_keys.len() && at < service.tenant_bundles.len() {
                Some(service.tenant_bundles[at])
            } else {
                None
            }
        },
        None => None,
    }
}

/// The project bundle remembered under an idempotency key.
pub open spec fn remembered_project(service: ProvisioningView, key: Option<Seq<char>>) -> Option<
    ProjectBootstrapView,
> {
    match key {
        Some(k) => {
            let at = text_position(service.project_keys, k);
            if at < service.project_keys.len() && at < service.project_bundles.len() {
                Some(service.project_bundles[at])
            } else {
                None
            }
        },
        None => None,
    }
}

/// The service after it remembered a tenant bundle under a key, if a key was given.
pub open spec fn remember_tenant(
    service: ProvisioningView,
    key: Option<Seq<char>>,
    bundle: TenantBootstrapView,
) -> ProvisioningView {
    match key {
        Some(k) => ProvisioningView {
            tenant_keys: service.tenant_keys.push(k),
            tenant_bundles: service.tenant_bundles.push(bundle),
            ..service
        },
        None => service,
    }
}

/// The service after it remembered a project bundle under a key, if a key was given.
pub open spec fn remember_project(
    service: ProvisioningView,
    key: Option<Seq<char>>,
    bundle: ProjectBootstrapView,
) -> ProvisioningView {
    match key {
        Some(k) => ProvisioningView {
            project_keys: service.project_keys.push(k),
            project_bundles: service.project_bundles.push(bundle),
            ..service
        },
        None => service,
    }
}

/// The scopes of the default key of a tenant: those asked for, or the admin scope.
pub open spec fn default_key_scopes(asked: Seq<ScopeView>) -> Seq<ScopeView> {
    if asked.len() == 0 {
        seq![ScopeView::Admin]
    } else {
        asked
    }
}

/// The tenant that a request asks for, under the identifier `id`, created at `now`.
pub open spec fn new_tenant(request: TenantCreateRequestView, id: u128, now: Timestamp)
    -> TenantView {
    TenantView {
        id,
        name: request.name,
        created_at: now,
        settings: match request.settings {
            Some(settings) => settings,
            None => no_settings(),
        },
    }
}

/// An agent as it is registered: never seen, with the metadata given or none.
pub open spec fn new_agent(
    tenant_id: u128,
    project_id: u128,
    hostname: Seq<char>,
    options: AgentRegistrationOptionsView,
    id: u128,
    now: Timestamp,
) -> AgentView {
    AgentView {
        id,
        tenant_id,
        project_id,
        hostname,
        status: AgentStatus::Registered,
        last_seen: None,
        created_at: now,
        metadata: match options.metadata {
            Some(metadata) => metadata,
            None => no_metadata(),
        },
    }
}

/// What the creation of a tenant answers before anything is drawn, if it is settled by
/// then: the remembered bundle for a remembered idempotency key, and else invalid input
/// for a blank name.
pub open spec fn tenant_settled(v0: ProvisioningView, request: TenantCreateRequestView) -> Option<
    PlatformResult<TenantBootstrapView>,
> {
    match remembered_tenant(v0, request.idempotency_key) {
        Some(bundle) => Some(Ok(bundle)),
        None => if is_blank(request.name) {
            Some(Err(PlatformError::InvalidInput("tenant name required")))
        } else {
            None
        },
    }
}

/// What creating a tenant does under the identifier `tenant_id` at `now`, with the default
/// key made under `key_id` from `secret`.
///
/// A request whose idempotency key is remembered gets the remembered bundle and changes
/// nothing. A blank name is invalid input, a taken identifier a conflict. Else the tenant
/// is stored, its default key is issued, and the bundle is returned and remembered under
/// the idempotency key. Where the key cannot be issued the error is returned and the
/// tenant stays stored.
pub open spec fn create_tenant_post(
    v0: ProvisioningView,
    s0: StoreView,
    request: TenantCreateRequestView,
    tenant_id: u128,
    key_id: u128,
    secret: Seq<u8>,
    now: Timestamp,
    v1: ProvisioningView,
    s1: StoreView,
    r: PlatformResult<TenantBootstrapView>,
) -> bool {
    match remembered_tenant(v0, request.idempotency_key) {
        Some(bundle) => r == Ok::<TenantBootstrapView, PlatformError>(bundle) && v1 == v0 && s1
            == s0,
        None => {
            if is_blank(request.name) {
                r == Err::<TenantBootstrapView, PlatformError>(
                    PlatformError::InvalidInput("tenant name required"),
                ) && v1 == v0 && s1 == s0
            } else if present::<Tenant>(s0.tenants, tenant_id) {
                r == Err::<TenantBootstrapView, PlatformError>(PlatformError::Conflict("tenant"))
                    && v1 == v0 && s1 == s0
            } else {
                let tenant = new_tenant(request, tenant_id, now);
                let stored = StoreView { tenants: s0.tenants.push(tenant), ..s0 };
                exists|issued: PlatformResult<ApiKeyView>|
                    {
                        &&& #[trigger] issue_key_post(
                            stored,
                            tenant_id,
                            tenant_label(tenant_id),
                            default_key_scopes(request.bootstrap_scopes),
                            key_id,
                            secret,
                            now,
                            s1,
                            issued,
                        )
                        &&& match issued {
                            Err(e) => r == Err::<TenantBootstrapView, PlatformError>(e) && v1
                                == v0,
                            Ok(key) => {
                                let bundle = TenantBootstrapView {
                                    tenant,
                                    default_api_key: Some(key),
                                    bootstrap_scripts: or_default(
                                        request.bootstrap_scripts,
                                        tenant_script(tenant_id),
                                    ),
                                };
                                r == Ok::<TenantBootstrapView, PlatformError>(bundle) && v1
                                    == remember_tenant(v0, request.idempotency_key, bundle)
                            },
                        }
                    }
            }
        },
    }
}

/// What creating a project does under the identifier `id` at `now`.
///
/// The tenant must exist. A request whose idempotency key is remembered gets the
/// remembered bundle and changes nothing. A blank name is invalid input, a taken
/// identifier a conflict. Else the project is stored and the bundle is returned and
/// remembered under the idempotency key.
pub open spec fn create_project_post(
    v0: ProvisioningView,
    s0: StoreView,
    request: ProjectCreateRequestView,
    id: u128,
    now: Timestamp,
    v1: ProvisioningView,
    s1: StoreView,
    r: PlatformResult<ProjectBootstrapView>,
) -> bool {
    if !present::<Tenant>(s0.tenants, request.tenant_id) {
        r == Err::<ProjectBootstrapView, PlatformError>(PlatformError::NotFound("tenant")) && v1
            == v0 && s1 == s0
    } else {
        match remembered_project(v0, request.idempotency_key) {
            Some(bundle) => r == Ok::<ProjectBootstrapView, PlatformError>(bundle) && v1 == v0
                && s1 == s0,
            None => {
                if is_blank(request.name) {
                    r == Err::<ProjectBootstrapView, PlatformError>(
                        PlatformError::InvalidInput("project name required"),
                    ) && v1 == v0 && s1 == s0
                } else if present::<Project>(s0.projects, id) {
                    r == Err::<ProjectBootstrapView, PlatformError>(
                        PlatformError::Conflict("project"),
                    ) && v1 == v0 && s1 == s0
                } else {
                    let project = ProjectView {
                        id,
                        tenant_id: request.tenant_id,
                        name: request.name,
                        created_at: now,
                    };
                    let bundle = ProjectBootstrapView {
                        project,
                        bootstrap_scripts: or_default(
                            request.bootstrap_scripts,
                            project_script(id),
                        ),
                    };
                    &&& r == Ok::<ProjectBootstrapView, PlatformError>(bundle)
                    &&& s1 == StoreView { projects: s0.projects.push(project), ..s0 }
                    &&& v1 == remember_project(v0, request.idempotency_key, bundle)
                }
            },
        }
    }
}

/// Why an agent cannot be registered, before anything is drawn: its project is not
/// found or is of another tenant, its tenant is not found, or its hostname is blank.
pub open spec fn agent_refusal(
    store: StoreView,
    tenant_id: u128,
    project_id: u128,
    hostname: Seq<char>,
) -> Option<PlatformError> {
    match lookup::<Project>(store.projects, project_id) {
        None => Some(PlatformError::NotFound("project")),
        Some(project) => if project.tenant_id != tenant_id {
            Some(PlatformError::Forbidden)
        } else if !present::<Tenant>(store.tenants, tenant_id) {
            Some(PlatformError::NotFound("tenant"))
        } else if is_blank(hostname) {
            Some(PlatformError::InvalidInput("hostname required"))
        } else {
            None
        },
    }
}

/// What registering an agent does under the identifier `agent_id` at `now`, with its key
/// made under `key_id` from `secret`.
///
/// The project must exist and belong to the tenant, the tenant must exist, and the
/// hostname must not be blank. The agent is stored as registered, never seen, and a key
/// is issued for it with the scopes of the role `agent` and the scope of its project.
/// Where the key cannot be issued the error is returned and the agent stays stored.
pub open spec fn register_agent_post(
    s0: StoreView,
    tenant_id: u128,
    project_id: u128,
    hostname: Seq<char>,
    options: AgentRegistrationOptionsView,
    agent_id: u128,
    key_id: u128,
    secret: Seq<u8>,
    now: Timestamp,
    s1: StoreView,
    r: PlatformResult<ProvisionedAgentView>,
) -> bool {
    match lookup::<Project>(s0.projects, project_id) {
        None => r == Err::<ProvisionedAgentView, PlatformError>(
            PlatformError::NotFound("project"),
        ) && s1 == s0,
        Some(project) => {
            if project.tenant_id != tenant_id {
                r == Err::<ProvisionedAgentView, PlatformError>(PlatformError::Forbidden) && s1
                    == s0
            } else if !present::<Tenant>(s0.tenants, tenant_id) {
                r == Err::<ProvisionedAgentView, PlatformError>(
                    PlatformError::NotFound("tenant"),
                ) && s1 == s0
            } else if is_blank(hostname) {
                r == Err::<ProvisionedAgentView, PlatformError>(
                    PlatformError::InvalidInput("hostname required"),
                ) && s1 == s0
            } else if present::<Agent>(s0.agents, agent_id) {
                r == Err::<ProvisionedAgentView, PlatformError>(PlatformError::Conflict("agent"))
                    && s1 == s0
            } else {
                let agent = new_agent(tenant_id, project_id, hostname, options, agent_id, now);
                let stored = StoreView { agents: s0.agents.push(agent), ..s0 };
                exists|issued: PlatformResult<ApiKeyView>|
                    {
                        &&& #[trigger] issue_key_post(
                            stored,
                            tenant_id,
                            agent_label(hostname),
                            agent_key_scopes(project_id),
                            key_id,
                            secret,
                            now,
                            s1,
                            issued,
                        )
                        &&& match issued {
                            Err(e) => r == Err::<ProvisionedAgentView, PlatformError>(e),
                            Ok(key) => r == Ok::<ProvisionedAgentView, PlatformError>(
                                ProvisionedAgentView {
                                    agent,
                                    api_key: key,
                                    bootstrap_commands: or_default(
                                        options.bootstrap_commands,
                                        agent_command(agent_id),
                                    ),
                                    certificate_bundle: options.certificate_bundle,
                                },
                            ),
                        }
                    }
            }
        },
    }
}

/// What changing an agent does: the agent must exist, and its record is replaced by the
/// changed one.
pub open spec fn agent_changed(
    s0: StoreView,
    agent_id: u128,
    changed: AgentView,
    s1: StoreView,
    r: PlatformResult<()>,
) -> bool {
    if present::<Agent>(s0.agents, agent_id) {
        r is Ok && s1 == (StoreView { agents: replaced::<Agent>(s0.agents, changed), ..s0 })
    } else {
        r == Err::<(), PlatformError>(PlatformError::NotFound("agent")) && s1 == s0
    }
}

/// What a heartbeat does at `now`: the agent is active and was last seen at the given
/// instant, or at `now` where none is given.
pub open spec fn heartbeat_post(
    s0: StoreView,
    agent_id: u128,
    when: Option<Timestamp>,
    now: Timestamp,
    s1: StoreView,
    r: PlatformResult<()>,
) -> bool {
    match lookup::<Agent>(s0.agents, agent_id) {
        None => r == Err::<(), PlatformError>(PlatformError::NotFound("agent")) && s1 == s0,
        Some(agent) => agent_changed(
            s0,
            agent_id,
            AgentView {
                last_seen: Some(
                    match when {
                        Some(at) => at,
                        None => now,
                    },
                ),
                status: AgentStatus::Active,
                ..agent
            },
            s1,
            r,
        ),
    }
}

/// What setting the status of an agent does.
pub open spec fn set_status_post(
    s0: StoreView,
    agent_id: u128,
    status: AgentStatus,
    s1: StoreView,
    r: PlatformResult<()>,
) -> bool {
    match lookup::<Agent>(s0.agents, agent_id) {
        None => r == Err::<(), PlatformError>(PlatformError::NotFound("agent")) && s1 == s0,
        Some(agent) => agent_changed(s0, agent_id, AgentView { status, ..agent }, s1, r),
    }
}

/// Whether an agent is due for suspension: it is not suspended, and it was never seen or
/// was last seen before the threshold.
pub open spec fn due(agent: AgentView, threshold: Timestamp) -> bool {
    agent.status != AgentStatus::Suspended && match agent.last_seen {
        Some(at) => at < threshold,
        None => true,
    }
}

/// An agent as suspended.
pub open spec fn suspended(agent: AgentView) -> AgentView {
    AgentView { status: AgentStatus::Suspended, ..agent }
}

/// The agents among `agents` that are due, suspended, in the order of `agents`.
pub open spec fn due_among(agents: Seq<AgentView>, threshold: Timestamp) -> Seq<AgentView>
    decreases agents.len(),
{
    if agents.len() == 0 {
        Seq::empty()
    } else {
        let earlier = due_among(agents.drop_last(), threshold);
        if due(agents.last(), threshold) {
            earlier.push(suspended(agents.last()))
        } else {
            earlier
        }
    }
}

/// The agents that a sweep suspends: tenant by tenant in the given order, within a
/// tenant by hostname.
pub open spec fn swept(tenants: Seq<TenantView>, agents: Seq<AgentView>, threshold: Timestamp)
    -> Seq<AgentView>
    decreases tenants.len(),
{
    if tenants.len() == 0 {
        Seq::empty()
    } else {
        swept(tenants.drop_last(), agents, threshold) + due_among(
            arranged::<Agent>(owned_by::<Agent>(agents, tenants.last().id)),
            threshold,
        )
    }
}

/// A table after each of `changes` replaced the row of its identifier, in order.
pub open spec fn all_replaced(agents: Seq<AgentView>, changes: Seq<AgentView>) -> Seq<AgentView>
    decreases changes.len(),
{
    if changes.len() == 0 {
        agents
    } else {
        replaced::<Agent>(all_replaced(agents, changes.drop_last()), changes.last())
    }
}

/// The instant a span before another, held at the ends of the representable range.
pub open spec fn earlier_by(at: Timestamp, span: Millis) -> Timestamp {
    clamp(at - span) as i64
}

/// What a sweep does at `now`: every agent of a known tenant that is not suspended and
/// was never seen, or was last seen more than the heartbeat timeout ago, is suspended; the
/// suspended agents are returned, tenants by name and agents by hostname.
pub open spec fn sweep_post(
    service: ProvisioningView,
    s0: StoreView,
    now: Timestamp,
    s1: StoreView,
    r: PlatformResult<Seq<AgentView>>,
) -> bool {
    let listing = swept(
        arranged::<Tenant>(s0.tenants),
        s0.agents,
        earlier_by(now, service.heartbeat_timeout),
    );
    &&& r == Ok::<Seq<AgentView>, PlatformError>(listing)
    &&& s1 == StoreView { agents: all_replaced(s0.agents, listing), ..s0 }
}

/// The context from which the token of an agent is issued.
pub open spec fn agent_context(agent: AgentView, now: Timestamp) -> AuthContextView {
    AuthContextView {
        principal_id: agent.id,
        principal_type: PrincipalType::Agent,
        tenant_id: agent.tenant_id,
        scopes: agent_token_scopes(agent.project_id),
        issued_at: now,
        expires_at: now,
        audience: Some("agents"@),
        issuer: None,
        session: Some(
            AuthSessionMetadataView {
                user_agent: None,
                ip_address: None,
                device_id: Some(agent.hostname),
            },
        ),
    }
}

/// What issuing the token of an agent does at `now`: the agent must exist, and a token
/// that lives for fifteen minutes is issued from its context.
pub open spec fn agent_token_post(
    auth: AuthServiceView,
    store: StoreView,
    agent_id: u128,
    now: Timestamp,
    nonce: Seq<char>,
    refresh_nonce: Seq<char>,
    r: PlatformResult<AuthTokenView>,
) -> bool {
    match lookup::<Agent>(store.agents, agent_id) {
        None => r == Err::<AuthTokenView, PlatformError>(PlatformError::NotFound("agent")),
        Some(agent) => issue_token_post(
            auth,
            store.tenants,
            agent_context(agent, now),
            Some(900_000i64),
            now,
            nonce,
            refresh_nonce,
            r,
        ),
    }
}

/// Every agent that a selection of due agents holds is the suspended copy of an agent
/// of the list it was selected from.
pub proof fn lemma_due_among(agents: Seq<AgentView>, threshold: Timestamp)
    ensures
        forall|x: AgentView|
            #[trigger] due_among(agents, threshold).contains(x) ==> exists|y: AgentView|
                #[trigger] agents.contains(y) && x == suspended(y),
    decreases agents.len(),
{
    if agents.len() > 0 {
        let shorter = agents.drop_last();
        lemma_due_among(shorter, threshold);
        let earlier = due_among(shorter, threshold);
        assert forall|x: AgentView| #[trigger]
            due_among(agents, threshold).contains(x) implies exists|y: AgentView|
            #[trigger] agents.contains(y) && x == suspended(y) by {
            let picked = due_among(agents, threshold);
            let k = choose|k: int| 0 <= k < picked.len() && picked[k] == x;
            if k < earlier.len() {
                assert(earlier[k] == x);
                assert(earlier.contains(x));
                let y = choose|y: AgentView| #[trigger] shorter.contains(y) && x == suspended(y);
                let j = choose|j: int| 0 <= j < shorter.len() && shorter[j] == y;
                assert(agents[j] == y);
                assert(agents.contains(y));
            } else {
                assert(agents[agents.len() - 1] == agents.last());
                assert(agents.contains(agents.last()));
            }
        }
    }
}

/// Every agent that a sweep suspends is found in the table of agents.
pub proof fn lemma_swept_present(
    tenants: Seq<TenantView>,
    agents: Seq<AgentView>,
    threshold: Timestamp,
)
    ensures
        forall|k: int|
            0 <= k < swept(tenants, agents, threshold).len() ==> present::<Agent>(
                agents,
                (#[trigger] swept(tenants, agents, threshold)[k]).id,
            ),
    decreases tenants.len(),
{
    broadcast use vstd::seq_lib::group_to_multiset_ensures;

    if tenants.len() > 0 {
        lemma_swept_present(tenants.drop_last(), agents, threshold);
        let before = swept(tenants.drop_last(), agents, threshold);
        let owned = owned_by::<Agent>(agents, tenants.last().id);
        let listed = arranged::<Agent>(owned);
        let picked = due_among(listed, threshold);
        lemma_due_among(listed, threshold);
        lemma_arranged::<Agent>(owned);
        lemma_owned_by::<Agent>(agents, tenants.last().id);
        let all = swept(tenants, agents, threshold);
        assert forall|k: int| 0 <= k < all.len() implies present::<Agent>(
            agents,
            (#[trigger] all[k]).id,
        ) by {
            if k < before.len() {
                assert(all[k] == before[k]);
            } else {
                let x = picked[k - before.len()];
                assert(all[k] == x);
                assert(picked.contains(x));
                let y = choose|y: AgentView| #[trigger] listed.contains(y) && x == suspended(y);
                assert(listed.to_multiset().count(y) > 0);
                assert(owned.contains(y));
                assert(agents.contains(y));
                lemma_contains_present::<Agent>(agents, y);
            }
        }
    }
}

/// The scopes of the role `agent`.
fn agent_role_scopes() -> (scopes: Vec<Scope>)
    ensures
        scopes.deep_view() == seq![ScopeView::AgentExecute, ScopeView::WorkflowExecute],
{
    let registry = default_scope_registry();
    proof {
        reveal_with_fuel(role_position, 4);
        reveal_strlit("admin");
        reveal_strlit("operator");
        reveal_strlit("agent");
        assert("admin"@[1] == 'd');
        assert("agent"@[1] == 'g');
        assert("operator"@.len() == 8);
        assert("agent"@.len() == 5);
        let roles = default_roles();
        assert(roles[0].name != "agent"@);
        assert(roles[1].name != "agent"@);
        assert(roles.drop_first()[0] == roles[1]);
        assert(roles.drop_first().drop_first()[0] == roles[2]);
        assert(role_position(roles, "agent"@) == 2);
    }
    match registry.get_role("agent") {
        Some(role) => clone_scopes(&role.scopes),
        None => vec![Scope::AgentExecute],
    }
}

/// The custom scope that ties a key or a token to a project.
fn project_scope_of(project_id: u128) -> (scope: Scope)
    ensures
        scope.deep_view() == project_scope(project_id),
{
    Scope::Custom(join("project:", id_text(project_id).as_str()))
}

/// The provisioning service.
pub struct ProvisioningService {
    tenant_keys: Vec<String>,
    tenant_bundles: Vec<TenantBootstrap>,
    project_keys: Vec<String>,
    project_bundles: Vec<ProjectBootstrap>,
    heartbeat_timeout: Millis,
}

impl View for ProvisioningService {
    type V = ProvisioningView;

    closed spec fn view(&self) -> ProvisioningView {
        ProvisioningView {
            tenant_keys: self.tenant_keys.deep_view(),
            tenant_bundles: self.tenant_bundles.deep_view(),
            project_keys: self.project_keys.deep_view(),
            project_bundles: self.project_bundles.deep_view(),
            heartbeat_timeout: self.heartbeat_timeout,
        }
    }
}

/// The provisioning service as it starts: nothing remembered, a heartbeat timeout of
/// five minutes.
pub open spec fn fresh_provisioning() -> ProvisioningView {
    ProvisioningView {
        tenant_keys: Seq::empty(),
        tenant_bundles: Seq::empty(),
        project_keys: Seq::empty(),
        project_bundles: Seq::empty(),
        heartbeat_timeout: 300_000,
    }
}

impl ProvisioningService {
    /// Whether the service is well formed.
    pub open spec fn wf(&self) -> bool {
        provisioning_wf(self@)
    }

    /// A new service.
    pub fn new() -> (service: Self)
        ensures
            service.wf(),
            service@ == fresh_provisioning(),
    {
        let service = ProvisioningService {
            tenant_keys: Vec::new(),
            tenant_bundles: Vec::new(),
            project_keys: Vec::new(),
            project_bundles: Vec::new(),
            heartbeat_timeout: minutes(5),
        };
        assert(service.tenant_keys.deep_view() =~= Seq::empty());
        assert(service.tenant_bundles.deep_view() =~= Seq::empty());
        assert(service.project_keys.deep_view() =~= Seq::empty());
        assert(service.project_bundles.deep_view() =~= Seq::empty());
        service
    }

    /// The service with another heartbeat timeout.
    pub fn with_heartbeat_timeout(self, timeout: Millis) -> (service: Self)
        requires
            self.wf(),
        ensures
            service.wf(),
            service@ == (ProvisioningView { heartbeat_timeout: timeout, ..self@ }),
    {
        let mut service = self;
        service.heartbeat_timeout = timeout;
        service
    }

    /// Creates a tenant under the identifier `tenant_id` at `now`, its default key under
    /// `key_id` from `secret`.
    pub fn create_tenant_with(
        &mut self,
        store: &mut InMemoryPersistence,
        auth: &AuthService,
        request: TenantCreateRequest,
        tenant_id: u128,
        key_id: u128,
        secret: &[u8],
        now: Timestamp,
    ) -> (r: PlatformResult<TenantBootstrap>)
        requires
            old(self).wf(),
            old(store).wf(),
        ensures
            final(self).wf(),
            final(store).wf(),
            create_tenant_post(
                old(self)@,
                old(store)@,
                request.deep_view(),
                tenant_id,
                key_id,
                secret@,
                now,
                final(self)@,
                final(store)@,
                result_view(r),
            ),
    {
        match &request.idempotency_key {
            Some(key) => match find_text(&self.tenant_keys, key.as_str()) {
                Some(at) => {
                    assert(self.tenant_bundles.deep_view()[at as int]
                        == self.tenant_bundles@[at as int].deep_view());
                    return Ok(self.tenant_bundles[at].clone());
                },
                None => {},
            },
            None => {},
        }
        if blank(request.name.as_str()) {
            return Err(PlatformError::InvalidInput("tenant name required"));
        }
        let ghost asked = request.deep_view();
        let TenantCreateRequest {
            name,
            idempotency_key,
            settings,
            bootstrap_scopes,
            bootstrap_scripts,
        } = request;
        let tenant = Tenant {
            id: tenant_id,
            name,
            created_at: now,
            settings: match settings {
                Some(settings) => settings,
                None => TenantSettings::default(),
            },
        };
        match store.insert_tenant(tenant.clone()) {
            Ok(()) => {},
            Err(e) => {
                return Err(e);
            },
        }
        let scopes = if bootstrap_scopes.len() == 0 {
            let only = vec![Scope::Admin];
            assert(only.deep_view() =~= seq![ScopeView::Admin]);
            only
        } else {
            bootstrap_scopes
        };
        let label = join(join("tenant:", id_text(tenant.id).as_str()).as_str(), ":default");
        let ghost stored = store@;
        let issued = auth.issue_api_key_with(
            store,
            tenant.id,
            label.as_str(),
            scopes,
            key_id,
            secret,
            now,
        );
        let key = match issued {
            Ok(key) => key,
            Err(e) => {
                proof {
                    let outcome = Err::<ApiKeyView, PlatformError>(e);
                    assert(issue_key_post(
                        stored,
                        tenant_id,
                        tenant_label(tenant_id),
                        default_key_scopes(asked.bootstrap_scopes),
                        key_id,
                        secret@,
                        now,
                        store@,
                        outcome,
                    ));
                    assert(create_tenant_post(
                        old(self)@,
                        old(store)@,
                        asked,
                        tenant_id,
                        key_id,
                        secret@,
                        now,
                        self@,
                        store@,
                        Err::<TenantBootstrapView, PlatformError>(e),
                    ));
                }
                return Err(e);
            },
        };
        let scripts = if bootstrap_scripts.len() == 0 {
            let only = vec![join("cassctl bootstrap --tenant ", id_text(tenant.id).as_str())];
            assert(only.deep_view() =~= seq![tenant_script(tenant_id)]);
            only
        } else {
            bootstrap_scripts
        };
        let bundle = TenantBootstrap {
            tenant,
            default_api_key: Some(key),
            bootstrap_scripts: scripts,
        };
        proof {
            assert(issue_key_post(
                stored,
                tenant_id,
                tenant_label(tenant_id),
                default_key_scopes(asked.bootstrap_scopes),
                key_id,
                secret@,
                now,
                store@,
                Ok::<ApiKeyView, PlatformError>(bundle.default_api_key->0.deep_view()),
            ));
        }
        match idempotency_key {
            Some(key) => {
                let ghost keys = self.tenant_keys.deep_view();
                let ghost bundles = self.tenant_bundles.deep_view();
                let ghost added = key@;
                self.tenant_keys.push(key);
                self.tenant_bundles.push(bundle.clone());
                assert(self.tenant_keys.deep_view() =~= keys.push(added));
                assert(self.tenant_bundles.deep_view() =~= bundles.push(bundle.deep_view()));
            },
            None => {},
        }
        proof {
            assert(self@ == remember_tenant(old(self)@, asked.idempotency_key, bundle.deep_view()));
            assert(create_tenant_post(
                old(self)@,
                old(store)@,
                asked,
                tenant_id,
                key_id,
                secret@,
                now,
                self@,
                store@,
                Ok::<TenantBootstrapView, PlatformError>(bundle.deep_view()),
            ));
        }
        Ok(bundle)
    }

    /// Creates a tenant: validates the name, stores the tenant, issues its default key and
    /// hands back the bootstrap bundle. A request with an idempotency key that was seen
    /// before gets the bundle that was returned then.
    ///
    /// The remembered bundle and the refusal of a blank name are answered whatever else
    /// happens. Only then are the secret and the identifiers drawn: where the operating
    /// system gives no random bytes, the error is internal and nothing changes.
    pub fn create_tenant_with_options(
        &mut self,
        store: &mut InMemoryPersistence,
        auth: &AuthService,
        request: TenantCreateRequest,
    ) -> (r: PlatformResult<TenantBootstrap>)
        requires
            old(self).wf(),
            old(store).wf(),
        ensures
            final(self).wf(),
            final(store).wf(),
            tenant_settled(old(self)@, request.deep_view()) matches Some(answer) ==> result_view(r)
                == answer && final(self)@ == old(self)@ && final(store)@ == old(store)@,
            tenant_settled(old(self)@, request.deep_view()) is None ==> (r == Err::<
                TenantBootstrap,
                PlatformError,
            >(PlatformError::Internal("entropy unavailable")) && final(self)@ == old(self)@
                && final(store)@ == old(store)@) || exists|
                tenant_id: u128,
                key_id: u128,
                secret: Seq<u8>,
                now: Timestamp,
            |
                secret.len() == 32 && #[trigger] create_tenant_post(
                    old(self)@,
                    old(store)@,
                    request.deep_view(),
                    tenant_id,
                    key_id,
                    secret,
                    now,
                    final(self)@,
                    final(store)@,
                    result_view(r),
                ),
    {
        match &request.idempotency_key {
            Some(key) => match find_text(&self.tenant_keys, key.as_str()) {
                Some(at) => {
                    assert(self.tenant_bundles.deep_view()[at as int]
                        == self.tenant_bundles@[at as int].deep_view());
                    return Ok(self.tenant_bundles[at].clone());
                },
                None => {},
            },
            None => {},
        }
        if blank(request.name.as_str()) {
            return Err(PlatformError::InvalidInput("tenant name required"));
        }
        let secret = match random_secret() {
            Some(secret) => secret,
            None => {
                return Err(PlatformError::Internal("entropy unavailable"));
            },
        };
        let tenant_id = random_id();
        let key_id = random_id();
        let now = now_millis();
        self.create_tenant_with(store, auth, request, tenant_id, key_id, secret.as_slice(), now)
    }

    /// Creates a tenant called `name` with the default options and returns it.
    pub fn create_tenant(
        &mut self,
        store: &mut InMemoryPersistence,
        auth: &AuthService,
        name: &str,
    ) -> (r: PlatformResult<Tenant>)
        requires
            old(self).wf(),
            old(store).wf(),
        ensures
            final(self).wf(),
            final(store).wf(),
            is_blank(name@) ==> r == Err::<Tenant, PlatformError>(
                PlatformError::InvalidInput("tenant name required"),
            ) && final(self)@ == old(self)@ && final(store)@ == old(store)@,
            !is_blank(name@) ==> (r == Err::<Tenant, PlatformError>(
                PlatformError::Internal("entropy unavailable"),
            ) && final(self)@ == old(self)@ && final(store)@ == old(store)@) || exists|
                tenant_id: u128,
                key_id: u128,
                secret: Seq<u8>,
                now: Timestamp,
                bundle: PlatformResult<TenantBootstrapView>,
            |
                secret.len() == 32 && #[trigger] create_tenant_post(
                    old(self)@,
                    old(store)@,
                    TenantCreateRequest::new_view(name@),
                    tenant_id,
                    key_id,
                    secret,
                    now,
                    final(self)@,
                    final(store)@,
                    bundle,
                ) && result_view(r) == tenant_of(bundle),
    {
        let ghost s0 = store@;
        let ghost v0 = self@;
        let made = self.create_tenant_with_options(store, auth, TenantCreateRequest::new(name));
        let ghost bundle = result_view(made);
        let r = match made {
            Ok(bundle) => Ok(bundle.tenant),
            Err(e) => Err(e),
        };
        proof {
            if !is_blank(name@) && !(r == Err::<Tenant, PlatformError>(
                PlatformError::Internal("entropy unavailable"),
            ) && self@ == v0 && store@ == s0) {
                let (tenant_id, key_id, secret, now) = choose|
                    tenant_id: u128,
                    key_id: u128,
                    secret: Seq<u8>,
                    now: Timestamp,
                |
                    secret.len() == 32 && #[trigger] create_tenant_post(
                        v0,
                        s0,
                        TenantCreateRequest::new_view(name@),
                        tenant_id,
                        key_id,
                        secret,
                        now,
                        self@,
                        store@,
                        bundle,
                    );
                assert(result_view(r) == tenant_of(bundle));
            }
        }
        r
    }
}

/// The tenant of a bundle, or the error in its place.
pub open spec fn tenant_of(bundle: PlatformResult<TenantBootstrapView>) -> PlatformResult<
    TenantView,
> {
    match bundle {
        Ok(made) => Ok(made.tenant),
        Err(e) => Err(e),
    }
}

/// The project of a bundle, or the error in its place.
pub open spec fn project_of(bundle: PlatformResult<ProjectBootstrapView>) -> PlatformResult<
    ProjectView,
> {
    match bundle {
        Ok(made) => Ok(made.project),
        Err(e) => Err(e),
    }
}

impl ProvisioningService {
    /// Creates a project under the identifier `id` at `now`.
    pub fn create_project_with(
        &mut self,
        store: &mut InMemoryPersistence,
        request: ProjectCreateRequest,
        id: u128,
        now: Timestamp,
    ) -> (r: PlatformResult<ProjectBootstrap>)
        requires
            old(self).wf(),
            old(store).wf(),
        ensures
            final(self).wf(),
            final(store).wf(),
            create_project_post(
                old(self)@,
                old(store)@,
                request.deep_view(),
                id,
                now,
                final(self)@,
                final(store)@,
                result_view(r),
            ),
    {
        match store.get_tenant(request.tenant_id) {
            Ok(Some(_)) => {},
            Ok(None) => {
                return Err(PlatformError::NotFound("tenant"));
            },
            Err(e) => {
                return Err(e);
            },
        }
        match &request.idempotency_key {
            Some(key) => match find_text(&self.project_keys, key.as_str()) {
                Some(at) => {
                    assert(self.project_bundles.deep_view()[at as int]
                        == self.project_bundles@[at as int].deep_view());
                    return Ok(self.project_bundles[at].clone());
                },
                None => {},
            },
            None => {},
        }
        if blank(request.name.as_str()) {
            return Err(PlatformError::InvalidInput("project name required"));
        }
        let ghost asked = request.deep_view();
        let ProjectCreateRequest { tenant_id, name, idempotency_key, bootstrap_scripts } = request;
        let project = Project { id, tenant_id, name, created_at: now };
        match store.insert_project(project.clone()) {
            Ok(()) => {},
            Err(e) => {
                return Err(e);
            },
        }
        let scripts = if bootstrap_scripts.len() == 0 {
            let only = vec![join("cassctl project init --project ", id_text(project.id).as_str())];
            assert(only.deep_view() =~= seq![project_script(id)]);
            only
        } else {
            bootstrap_scripts
        };
        let bundle = ProjectBootstrap { project, bootstrap_scripts: scripts };
        match idempotency_key {
            Some(key) => {
                let ghost keys = self.project_keys.deep_view();
                let ghost bundles = self.project_bundles.deep_view();
                let ghost added = key@;
                self.project_keys.push(key);
                self.project_bundles.push(bundle.clone());
                assert(self.project_keys.deep_view() =~= keys.push(added));
                assert(self.project_bundles.deep_view() =~= bundles.push(bundle.deep_view()));
            },
            None => {},
        }
        Ok(bundle)
    }

    /// Creates a project under a tenant and hands back the bootstrap bundle. A request
    /// with an idempotency key that was seen before gets the bundle that was returned
    /// then.
    pub fn create_project_with_options(
        &mut self,
        store: &mut InMemoryPersistence,
        request: ProjectCreateRequest,
    ) -> (r: PlatformResult<ProjectBootstrap>)
        requires
            old(self).wf(),
            old(store).wf(),
        ensures
            final(self).wf(),
            final(store).wf(),
            exists|id: u128, now: Timestamp| #[trigger]
                create_project_post(
                    old(self)@,
                    old(store)@,
                    request.deep_view(),
                    id,
                    now,
                    final(self)@,
                    final(store)@,
                    result_view(r),
                ),
    {
        let id = random_id();
        let now = now_millis();
        self.create_project_with(store, request, id, now)
    }

    /// Creates a project called `name` under a tenant and returns it.
    pub fn create_project(&mut self, store: &mut InMemoryPersistence, tenant_id: u128, name: &str)
        -> (r: PlatformResult<Project>)
        requires
            old(self).wf(),
            old(store).wf(),
        ensures
            final(self).wf(),
            final(store).wf(),
            exists|id: u128, now: Timestamp, bundle: PlatformResult<ProjectBootstrapView>| #[trigger]
                create_project_post(
                    old(self)@,
                    old(store)@,
                    ProjectCreateRequestView {
                        tenant_id,
                        name: name@,
                        idempotency_key: None,
                        bootstrap_scripts: Seq::empty(),
                    },
                    id,
                    now,
                    final(self)@,
                    final(store)@,
                    bundle,
                ) && result_view(r) == project_of(bundle),
    {
        let ghost s0 = store@;
        let ghost v0 = self@;
        let request = ProjectCreateRequest::new(tenant_id, name);
        let ghost asked = request.deep_view();
        let made = self.create_project_with_options(store, request);
        let ghost bundle = result_view(made);
        let r = match made {
            Ok(bundle) => Ok(bundle.project),
            Err(e) => Err(e),
        };
        proof {
            let (id, now) = choose|id: u128, now: Timestamp| #[trigger]
                create_project_post(v0, s0, asked, id, now, self@, store@, bundle);
            assert(result_view(r) == project_of(bundle));
        }
        r
    }

    /// Why an agent cannot be registered, before anything is drawn.
    fn check_registration(
        &self,
        store: &InMemoryPersistence,
        tenant_id: u128,
        project_id: u128,
        hostname: &str,
    ) -> (refusal: Option<PlatformError>)
        ensures
            refusal == agent_refusal(store@, tenant_id, project_id, hostname@),
    {
        let project = match store.get_project(project_id) {
            Ok(Some(project)) => project,
            Ok(None) => {
                return Some(PlatformError::NotFound("project"));
            },
            Err(e) => {
                return Some(e);
            },
        };
        if project.tenant_id != tenant_id {
            return Some(PlatformError::Forbidden);
        }
        match store.get_tenant(tenant_id) {
            Ok(Some(_)) => {},
            Ok(None) => {
                return Some(PlatformError::NotFound("tenant"));
            },
            Err(e) => {
                return Some(e);
            },
        }
        proof {
            lemma_position::<Tenant>(store@.tenants, tenant_id);
        }
        if blank(hostname) {
            return Some(PlatformError::InvalidInput("hostname required"));
        }
        None
    }

    /// Registers an agent under the identifier `agent_id` at `now`, its key under `key_id`
    /// from `secret`.
    pub fn register_agent_with(
        &self,
        store: &mut InMemoryPersistence,
        auth: &AuthService,
        tenant_id: u128,
        project_id: u128,
        hostname: &str,
        options: AgentRegistrationOptions,
        agent_id: u128,
        key_id: u128,
        secret: &[u8],
        now: Timestamp,
    ) -> (r: PlatformResult<ProvisionedAgent>)
        requires
            old(store).wf(),
        ensures
            final(store).wf(),
            register_agent_post(
                old(store)@,
                tenant_id,
                project_id,
                hostname@,
                options.deep_view(),
                agent_id,
                key_id,
                secret@,
                now,
                final(store)@,
                result_view(r),
            ),
    {
        let project = match store.get_project(project_id) {
            Ok(Some(project)) => project,
            Ok(None) => {
                return Err(PlatformError::NotFound("project"));
            },
            Err(e) => {
                return Err(e);
            },
        };
        if project.tenant_id != tenant_id {
            return Err(PlatformError::Forbidden);
        }
        match store.get_tenant(tenant_id) {
            Ok(Some(_)) => {},
            Ok(None) => {
                return Err(PlatformError::NotFound("tenant"));
            },
            Err(e) => {
                return Err(e);
            },
        }
        if blank(hostname) {
            return Err(PlatformError::InvalidInput("hostname required"));
        }
        let ghost asked = options.deep_view();
        let AgentRegistrationOptions { metadata, bootstrap_commands, certificate_bundle } = options;
        let agent = Agent {
            id: agent_id,
            tenant_id,
            project_id,
            hostname: String::from_str(hostname),
            status: AgentStatus::Registered,
            last_seen: None,
            created_at: now,
            metadata: match metadata {
                Some(metadata) => metadata,
                None => AgentMetadata::default(),
            },
        };
        proof {
            lemma_position::<Project>(store@.projects, project_id);
        }
        match store.insert_agent(agent.clone()) {
            Ok(()) => {},
            Err(e) => {
                return Err(e);
            },
        }
        let mut scopes = agent_role_scopes();
        let ghost role = scopes.deep_view();
        push_row(&mut scopes, project_scope_of(project_id));
        assert(scopes.deep_view() =~= agent_key_scopes(project_id));
        let label = join("agent:", hostname);
        let ghost stored = store@;
        let api_key = match auth.issue_api_key_with(
            store,
            tenant_id,
            label.as_str(),
            scopes,
            key_id,
            secret,
            now,
        ) {
            Ok(key) => key,
            Err(e) => {
                proof {
                    assert(issue_key_post(
                        stored,
                        tenant_id,
                        agent_label(hostname@),
                        agent_key_scopes(project_id),
                        key_id,
                        secret@,
                        now,
                        store@,
                        Err::<ApiKeyView, PlatformError>(e),
                    ));
                }
                return Err(e);
            },
        };
        let commands = if bootstrap_commands.len() == 0 {
            let only = vec![join("cass-agent enroll --agent ", id_text(agent.id).as_str())];
            assert(only.deep_view() =~= seq![agent_command(agent_id)]);
            only
        } else {
            bootstrap_commands
        };
        proof {
            assert(issue_key_post(
                stored,
                tenant_id,
                agent_label(hostname@),
                agent_key_scopes(project_id),
                key_id,
                secret@,
                now,
                store@,
                Ok::<ApiKeyView, PlatformError>(api_key.deep_view()),
            ));
        }
        Ok(ProvisionedAgent { agent, api_key, bootstrap_commands: commands, certificate_bundle })
    }

    /// Registers an agent of a project: stores the agent and issues its key, scoped to
    /// the execution of tasks and to the project.
    ///
    /// A project that is not found or is of another tenant, a tenant that is not found
    /// and a blank hostname are refused whatever else happens. Only then are the secret
    /// and the identifiers drawn: where the operating system gives no random bytes, the
    /// error is internal and nothing changes.
    pub fn register_agent_with_options(
        &self,
        store: &mut InMemoryPersistence,
        auth: &AuthService,
        tenant_id: u128,
        project_id: u128,
        hostname: &str,
        options: AgentRegistrationOptions,
    ) -> (r: PlatformResult<ProvisionedAgent>)
        requires
            old(store).wf(),
        ensures
            final(store).wf(),
            agent_refusal(old(store)@, tenant_id, project_id, hostname@) matches Some(e) ==> r
                == Err::<ProvisionedAgent, PlatformError>(e) && final(store)@ == old(store)@,
            agent_refusal(old(store)@, tenant_id, project_id, hostname@) is None ==> (r == Err::<
                ProvisionedAgent,
                PlatformError,
            >(PlatformError::Internal("entropy unavailable")) && final(store)@ == old(store)@)
                || exists|
                agent_id: u128,
                key_id: u128,
                secret: Seq<u8>,
                now: Timestamp,
            |
                secret.len() == 32 && #[trigger] register_agent_post(
                    old(store)@,
                    tenant_id,
                    project_id,
                    hostname@,
                    options.deep_view(),
                    agent_id,
                    key_id,
                    secret,
                    now,
                    final(store)@,
                    result_view(r),
                ),
    {
        match self.check_registration(store, tenant_id, project_id, hostname) {
            Some(e) => {
                return Err(e);
            },
            None => {},
        }
        let secret = match random_secret() {
            Some(secret) => secret,
            None => {
                return Err(PlatformError::Internal("entropy unavailable"));
            },
        };
        let agent_id = random_id();
        let key_id = random_id();
        let now = now_millis();
        self.register_agent_with(
            store,
            auth,
            tenant_id,
            project_id,
            hostname,
            options,
            agent_id,
            key_id,
            secret.as_slice(),
            now,
        )
    }

    /// Registers an agent of a project with the default options.
    pub fn register_agent(
        &self,
        store: &mut InMemoryPersistence,
        auth: &AuthService,
        tenant_id: u128,
        project_id: u128,
        hostname: &str,
    ) -> (r: PlatformResult<ProvisionedAgent>)
        requires
            old(store).wf(),
        ensures
            final(store).wf(),
            agent_refusal(old(store)@, tenant_id, project_id, hostname@) matches Some(e) ==> r
                == Err::<ProvisionedAgent, PlatformError>(e) && final(store)@ == old(store)@,
            agent_refusal(old(store)@, tenant_id, project_id, hostname@) is None ==> (r == Err::<
                ProvisionedAgent,
                PlatformError,
            >(PlatformError::Internal("entropy unavailable")) && final(store)@ == old(store)@)
                || exists|
                agent_id: u128,
                key_id: u128,
                secret: Seq<u8>,
                now: Timestamp,
            |
                secret.len() == 32 && #[trigger] register_agent_post(
                    old(store)@,
                    tenant_id,
                    project_id,
                    hostname@,
                    AgentRegistrationOptionsView {
                        metadata: None,
                        bootstrap_commands: Seq::empty(),
                        certificate_bundle: None,
                    },
                    agent_id,
                    key_id,
                    secret,
                    now,
                    final(store)@,
                    result_view(r),
                ),
    {
        self.register_agent_with_options(
            store,
            auth,
            tenant_id,
            project_id,
            hostname,
            AgentRegistrationOptions::default(),
        )
    }

    /// Issues a key for a service account of a tenant. The tenant must exist.
    pub fn provision_service_account(
        &self,
        store: &mut InMemoryPersistence,
        auth: &AuthService,
        tenant_id: u128,
        label: &str,
        scopes: Vec<Scope>,
    ) -> (r: PlatformResult<ApiKey>)
        requires
            old(store).wf(),
        ensures
            final(store).wf(),
            !present::<Tenant>(old(store)@.tenants, tenant_id) ==> r == Err::<
                ApiKey,
                PlatformError,
            >(PlatformError::NotFound("tenant")) && final(store)@ == old(store)@,
            present::<Tenant>(old(store)@.tenants, tenant_id) ==> (scopes_verdict(
                scopes.deep_view(),
            ) matches Err(e) ==> r == Err::<ApiKey, PlatformError>(e) && final(store)@ == old(
                store,
            )@),
            present::<Tenant>(old(store)@.tenants, tenant_id) && scopes_verdict(
                scopes.deep_view(),
            ) is Ok ==> (r == Err::<ApiKey, PlatformError>(
                PlatformError::Internal("entropy unavailable"),
            ) && final(store)@ == old(store)@)
                || exists|id: u128, secret: Seq<u8>, now: Timestamp|
                secret.len() == 32 && #[trigger] issue_key_post(
                    old(store)@,
                    tenant_id,
                    label@,
                    scopes.deep_view(),
                    id,
                    secret,
                    now,
                    final(store)@,
                    result_view(r),
                ),
    {
        match store.get_tenant(tenant_id) {
            Ok(Some(_)) => {},
            Ok(None) => {
                return Err(PlatformError::NotFound("tenant"));
            },
            Err(e) => {
                return Err(e);
            },
        }
        auth.issue_api_key(store, tenant_id, label, scopes)
    }

    /// Records a heartbeat of an agent at `now`.
    pub fn record_agent_heartbeat_at(
        &self,
        store: &mut InMemoryPersistence,
        agent_id: u128,
        when: Option<Timestamp>,
        now: Timestamp,
    ) -> (r: PlatformResult<()>)
        requires
            old(store).wf(),
        ensures
            final(store).wf(),
            heartbeat_post(old(store)@, agent_id, when, now, final(store)@, r),
    {
        let mut agent = match store.get_agent(agent_id) {
            Ok(Some(agent)) => agent,
            Ok(None) => {
                return Err(PlatformError::NotFound("agent"));
            },
            Err(e) => {
                return Err(e);
            },
        };
        proof {
            lemma_position::<Agent>(store@.agents, agent_id);
        }
        agent.last_seen = Some(
            match when {
                Some(at) => at,
                None => now,
            },
        );
        agent.status = AgentStatus::Active;
        store.update_agent(agent)
    }

    /// Records a heartbeat of an agent: the agent is active and was last seen at the
    /// given instant, or now where none is given.
    pub fn record_agent_heartbeat(
        &self,
        store: &mut InMemoryPersistence,
        agent_id: u128,
        when: Option<Timestamp>,
    ) -> (r: PlatformResult<()>)
        requires
            old(store).wf(),
        ensures
            final(store).wf(),
            exists|now: Timestamp| #[trigger]
                heartbeat_post(old(store)@, agent_id, when, now, final(store)@, r),
    {
        let now = now_millis();
        self.record_agent_heartbeat_at(store, agent_id, when, now)
    }

    /// Sets the status of an agent.
    pub fn set_agent_status(
        &self,
        store: &mut InMemoryPersistence,
        agent_id: u128,
        status: AgentStatus,
    ) -> (r: PlatformResult<()>)
        requires
            old(store).wf(),
        ensures
            final(store).wf(),
            set_status_post(old(store)@, agent_id, status, final(store)@, r),
    {
        let mut agent = match store.get_agent(agent_id) {
            Ok(Some(agent)) => agent,
            Ok(None) => {
                return Err(PlatformError::NotFound("agent"));
            },
            Err(e) => {
                return Err(e);
            },
        };
        proof {
            lemma_position::<Agent>(store@.agents, agent_id);
        }
        agent.status = status;
        store.update_agent(agent)
    }

    /// The agents of a tenant, by hostname.
    pub fn list_agents(&self, store: &InMemoryPersistence, tenant_id: u128) -> (r: PlatformResult<
        Vec<Agent>,
    >)
        ensures
            r matches Ok(listing) && listing.deep_view() == arranged::<Agent>(
                owned_by::<Agent>(store@.agents, tenant_id),
            ),
    {
        store.list_agents(tenant_id)
    }

    /// Suspends at `now` the agents that stopped sending heartbeats.
    #[verifier::rlimit(60)]
    pub fn sweep_inactive_agents_at(&self, store: &mut InMemoryPersistence, now: Timestamp) -> (r:
        PlatformResult<Vec<Agent>>)
        requires
            old(store).wf(),
        ensures
            final(store).wf(),
            sweep_post(self@, old(store)@, now, final(store)@, result_view(r)),
    {
        let tenants = match store.list_tenants() {
            Ok(tenants) => tenants,
            Err(e) => {
                return Err(e);
            },
        };
        let threshold = before(now, self.heartbeat_timeout);
        let ghost s0 = store@;
        let ghost order = tenants.deep_view();
        let mut listing: Vec<Agent> = Vec::new();
        let mut k: usize = 0;
        proof {
            assert(order.take(0) =~= Seq::empty());
            assert(listing.deep_view() =~= Seq::empty());
        }
        while k < tenants.len()
            invariant
                k <= tenants.len(),
                store@ == s0,
                order == tenants.deep_view(),
                listing.deep_view() == swept(order.take(k as int), s0.agents, threshold),
            decreases tenants.len() - k,
        {
            let agents = match store.list_agents(tenants[k].id) {
                Ok(agents) => agents,
                Err(e) => {
                    return Err(e);
                },
            };
            let ghost listed = agents.deep_view();
            let ghost before_tenant = listing.deep_view();
            let mut i: usize = 0;
            proof {
                assert(order[k as int] == tenants@[k as int].deep_view());
                assert(order.take(k + 1).drop_last() =~= order.take(k as int));
                assert(order.take(k + 1).last() == order[k as int]);
                assert(listed.take(0) =~= Seq::empty());
                assert(before_tenant + due_among(listed.take(0), threshold) =~= before_tenant);
            }
            while i < agents.len()
                invariant
                    i <= agents.len(),
                    listed == agents.deep_view(),
                    listing.deep_view() == before_tenant + due_among(
                        listed.take(i as int),
                        threshold,
                    ),
                decreases agents.len() - i,
            {
                proof {
                    assert(listed[i as int] == agents@[i as int].deep_view());
                    assert(listed.take(i + 1).drop_last() =~= listed.take(i as int));
                    assert(listed.take(i + 1).last() == listed[i as int]);
                }
                let stale = match agents[i].last_seen {
                    Some(at) => at < threshold,
                    None => true,
                };
                let is_suspended = match agents[i].status {
                    AgentStatus::Suspended => true,
                    _ => false,
                };
                if stale && !is_suspended {
                    let mut agent = agents[i].clone();
                    agent.status = AgentStatus::Suspended;
                    let ghost so_far = listing.deep_view();
                    let ghost added = agent.deep_view();
                    listing.push(agent);
                    proof {
                        let picked = due_among(listed.take(i as int), threshold);
                        assert(listing.deep_view() =~= so_far.push(added));
                        assert(so_far.push(added) =~= before_tenant + picked.push(added));
                    }
                }
                i = i + 1;
            }
            proof {
                assert(listed.take(agents.len() as int) =~= listed);
            }
            k = k + 1;
        }
        proof {
            assert(order.take(tenants.len() as int) =~= order);
            lemma_swept_present(order, s0.agents, threshold);
        }
        let ghost all = listing.deep_view();
        let mut j: usize = 0;
        while j < listing.len()
            invariant
                j <= listing.len(),
                all == listing.deep_view(),
                store.wf(),
                store@ == (StoreView {
                    agents: all_replaced(s0.agents, all.take(j as int)),
                    ..s0
                }),
                forall|m: int|
                    0 <= m < all.len() ==> present::<Agent>(store@.agents, (#[trigger] all[m]).id),
            decreases listing.len() - j,
        {
            proof {
                assert(all[j as int] == listing@[j as int].deep_view());
                assert(all.take(j + 1).drop_last() =~= all.take(j as int));
                assert(all.take(j + 1).last() == all[j as int]);
                lemma_replaced::<Agent>(store@.agents, all[j as int]);
            }
            match store.update_agent(listing[j].clone()) {
                Ok(()) => {},
                Err(e) => {
                    return Err(e);
                },
            }
            j = j + 1;
        }
        proof {
            assert(all.take(listing.len() as int) =~= all);
        }
        Ok(listing)
    }

    /// Suspends the agents that were never seen, or were last seen longer ago than the
    /// heartbeat timeout, and returns them.
    pub fn sweep_inactive_agents(&self, store: &mut InMemoryPersistence) -> (r: PlatformResult<
        Vec<Agent>,
    >)
        requires
            old(store).wf(),
        ensures
            final(store).wf(),
            exists|now: Timestamp| #[trigger]
                sweep_post(self@, old(store)@, now, final(store)@, result_view(r)),
    {
        let now = now_millis();
        self.sweep_inactive_agents_at(store, now)
    }

    /// Issues the token of an agent at `now`, with the nonces of its access and refresh
    /// tokens.
    pub fn issue_agent_token_with(
        &self,
        store: &InMemoryPersistence,
        auth: &AuthService,
        agent_id: u128,
        now: Timestamp,
        nonce: &str,
        refresh_nonce: &str,
    ) -> (r: PlatformResult<AuthToken>)
        ensures
            agent_token_post(
                auth@,
                store@,
                agent_id,
                now,
                nonce@,
                refresh_nonce@,
                result_view(r),
            ),
    {
        let agent = match store.get_agent(agent_id) {
            Ok(Some(agent)) => agent,
            Ok(None) => {
                return Err(PlatformError::NotFound("agent"));
            },
            Err(e) => {
                return Err(e);
            },
        };
        let mut scopes: Vec<Scope> = Vec::new();
        assert(scopes.deep_view() =~= Seq::empty());
        push_row(&mut scopes, Scope::AgentExecute);
        push_row(&mut scopes, project_scope_of(agent.project_id));
        assert(scopes.deep_view() =~= agent_token_scopes(agent.project_id));
        let context = AuthContext {
            principal_id: agent.id,
            principal_type: PrincipalType::Agent,
            tenant_id: agent.tenant_id,
            scopes,
            issued_at: now,
            expires_at: now,
            audience: Some(String::from_str("agents")),
            issuer: None,
            session: Some(
                AuthSessionMetadata {
                    user_agent: None,
                    ip_address: None,
                    device_id: Some(agent.hostname.clone()),
                },
            ),
        };
        auth.issue_token_from_context_with(
            store,
            context,
            Some(minutes(15)),
            now,
            nonce,
            refresh_nonce,
        )
    }

    /// Issues a token for an agent: the agent is the principal, the token is for the
    /// audience `agents`, scoped to the execution of tasks and to the project of the
    /// agent, and lives for fifteen minutes.
    pub fn issue_agent_token(&self, store: &InMemoryPersistence, auth: &AuthService, agent_id: u128)
        -> (r: PlatformResult<AuthToken>)
        ensures
            exists|now: Timestamp, nonce: Seq<char>, refresh_nonce: Seq<char>| #[trigger]
                agent_token_post(
                    auth@,
                    store@,
                    agent_id,
                    now,
                    nonce,
                    refresh_nonce,
                    result_view(r),
                ),
    {
        let now = now_millis();
        let nonce = id_text(random_id());
        let refresh_nonce = id_text(random_id());
        self.issue_agent_token_with(
            store,
            auth,
            agent_id,
            now,
            nonce.as_str(),
            refresh_nonce.as_str(),
        )
    }
}

/// A request that repeats an idempotency key under which a tenant was created gets the
/// bundle of that tenant, with the same identifier, and changes nothing.
pub proof fn law_tenant_idempotent(
    v0: ProvisioningView,
    s0: StoreView,
    first: TenantCreateRequestView,
    tenant_id: u128,
    key_id: u128,
    secret: Seq<u8>,
    now: Timestamp,
    v1: ProvisioningView,
    s1: StoreView,
    bundle: TenantBootstrapView,
    second: TenantCreateRequestView,
    other_tenant_id: u128,
    other_key_id: u128,
    other_secret: Seq<u8>,
    later: Timestamp,
    v2: ProvisioningView,
    s2: StoreView,
    r: PlatformResult<TenantBootstrapView>,
)
    requires
        provisioning_wf(v0),
        first.idempotency_key is Some,
        second.idempotency_key == first.idempotency_key,
        create_tenant_post(
            v0,
            s0,
            first,
            tenant_id,
            key_id,
            secret,
            now,
            v1,
            s1,
            Ok::<TenantBootstrapView, PlatformError>(bundle),
        ),
        create_tenant_post(
            v1,
            s1,
            second,
            other_tenant_id,
            other_key_id,
            other_secret,
            later,
            v2,
            s2,
            r,
        ),
    ensures
        r == Ok::<TenantBootstrapView, PlatformError>(bundle),
        v2 == v1,
        s2 == s1,
{
    let key = first.idempotency_key->0;
    lemma_text_position(v0.tenant_keys, key);
    if remembered_tenant(v0, first.idempotency_key) is None {
        let grown = v0.tenant_keys.push(key);
        assert forall|j: int| 0 <= j < v0.tenant_keys.len() implies #[trigger] grown[j]
            != key by {
            assert(grown[j] == v0.tenant_keys[j]);
        }
        crate::text::lemma_text_position_is(grown, key, v0.tenant_keys.len() as int);
    }
}

} // verus!
