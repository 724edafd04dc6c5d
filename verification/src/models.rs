//! The records of the identity graph, of authentication and of orchestration.
//!
//! Identifiers are opaque 128-bit values and instants are milliseconds since the epoch.
//! Every record has a mathematical value, its `deep_view`, in which texts are sequences
//! of characters and lists are sequences; contracts speak of those values.
use vstd::prelude::*;
use vstd::string::StringExecFns;
use crate::error::{PlatformError, PlatformResult};
use crate::json::{clone_opt_json, JsonModel, JsonValue};
use crate::scope::{clone_scopes, Scope, ScopeView};
use crate::text::{clone_opt_text, clone_texts, same_text};
use crate::time::Timestamp;

verus! {

pub type TenantId = u128;

pub type ProjectId = u128;

pub type AgentId = u128;

pub type ApiKeyId = u128;

pub type TaskId = u128;

pub type WorkflowId = u128;

/// Lifecycle of an agent: registered on enrollment, active on heartbeat, suspended by the
/// sweep or by an operator.
#[derive(Debug, Clone, Copy, PartialEq, Eq, Structural)]
pub enum AgentStatus {
    Registered,
    Active,
    Suspended,
}

/// What kind of principal an authentication context stands for.
#[derive(Debug, Clone, Copy, PartialEq, Eq, Structural)]
pub enum PrincipalType {
    Tenant,
    Agent,
    Service,
    ServiceAccount,
}

/// Lifecycle of a task. `Completed` and `Failed` are terminal.
#[derive(Debug, Clone, Copy, PartialEq, Eq, Structural)]
pub enum TaskStatus {
    Pending,
    InProgress,
    Completed,
    Failed,
}

/// Lifecycle of a workflow run. `Completed`, `Failed` and `Cancelled` are terminal.
#[derive(Debug, Clone, Copy, PartialEq, Eq, Structural)]
pub enum WorkflowRunStatus {
    Pending,
    Running,
    Completed,
    Failed,
    Cancelled,
}

/// Hints that a task policy hands on to a task and to its leases.
#[derive(Debug, Clone, Copy, PartialEq, Eq)]
pub struct TaskTimeouts {
    pub lease_seconds: Option<u64>,
    pub execution_seconds: Option<u64>,
    pub retry_backoff_seconds: Option<u64>,
}

/// Copies an optional byte string.
pub fn clone_opt_bytes(bytes: &Option<Vec<u8>>) -> (copy: Option<Vec<u8>>)
    ensures
        copy.deep_view() == bytes.deep_view(),
{
    match bytes {
        Some(inner) => {
            let mut copy: Vec<u8> = Vec::new();
            let mut i: usize = 0;
            while i < inner.len()
                invariant
                    i <= inner.len(),
                    copy@ == inner@.take(i as int),
                decreases inner.len() - i,
            {
                copy.push(inner[i]);
                i = i + 1;
            }
            assert(copy.deep_view() =~= inner.deep_view());
            Some(copy)
        },
        None => None,
    }
}

/// Where a project keeps its objects.
#[derive(Debug, PartialEq, Eq)]
pub struct ProjectStorageSettings {
    pub bucket: Option<String>,
    pub prefix: Option<String>,
    pub max_object_size_bytes: Option<u64>,
}

/// The mathematical value of a [`ProjectStorageSettings`].
pub struct ProjectStorageSettingsView {
    pub bucket: Option<Seq<char>>,
    pub prefix: Option<Seq<char>>,
    pub max_object_size_bytes: Option<u64>,
}

impl DeepView for ProjectStorageSettings {
    type V = ProjectStorageSettingsView;

    open spec fn deep_view(&self) -> ProjectStorageSettingsView {
        ProjectStorageSettingsView {
            bucket: self.bucket.deep_view(),
            prefix: self.prefix.deep_view(),
            max_object_size_bytes: self.max_object_size_bytes,
        }
    }
}

impl Clone for ProjectStorageSettings {
    fn clone(&self) -> (copy: Self)
        ensures
            copy.deep_view() == self.deep_view(),
    {
        ProjectStorageSettings {
            bucket: clone_opt_text(&self.bucket),
            prefix: clone_opt_text(&self.prefix),
            max_object_size_bytes: self.max_object_size_bytes,
        }
    }
}

/// Per-tenant settings: allowed origins, token lifetimes and default storage.
#[derive(Debug, PartialEq, Eq)]
pub struct TenantSettings {
    pub allowed_origins: Vec<String>,
    pub token_ttl_seconds: Option<i64>,
    pub refresh_token_ttl_seconds: Option<i64>,
    pub default_storage: Option<ProjectStorageSettings>,
}

/// The mathematical value of a [`TenantSettings`].
pub struct TenantSettingsView {
    pub allowed_origins: Seq<Seq<char>>,
    pub token_ttl_seconds: Option<i64>,
    pub refresh_token_ttl_seconds: Option<i64>,
    pub default_storage: Option<ProjectStorageSettingsView>,
}

impl DeepView for TenantSettings {
    type V = TenantSettingsView;

    open spec fn deep_view(&self) -> TenantSettingsView {
        TenantSettingsView {
            allowed_origins: self.allowed_origins.deep_view(),
            token_ttl_seconds: self.token_ttl_seconds,
            refresh_token_ttl_seconds: self.refresh_token_ttl_seconds,
            default_storage: self.default_storage.deep_view(),
        }
    }
}

impl Clone for TenantSettings {
    fn clone(&self) -> (copy: Self)
        ensures
            copy.deep_view() == self.deep_view(),
    {
        TenantSettings {
            allowed_origins: clone_texts(&self.allowed_origins),
            token_ttl_seconds: self.token_ttl_seconds,
            refresh_token_ttl_seconds: self.refresh_token_ttl_seconds,
            default_storage: match &self.default_storage {
                Some(inner) => Some(inner.clone()),
                None => None,
            },
        }
    }
}

/// The top-level isolation boundary; owns projects, agents and API keys.
#[derive(Debug, PartialEq, Eq)]
pub struct Tenant {
    pub id: TenantId,
    pub name: String,
    pub created_at: Timestamp,
    pub settings: TenantSettings,
}

/// The mathematical value of a [`Tenant`].
pub struct TenantView {
    pub id: TenantId,
    pub name: Seq<char>,
    pub created_at: Timestamp,
    pub settings: TenantSettingsView,
}

impl DeepView for Tenant {
    type V = TenantView;

    open spec fn deep_view(&self) -> TenantView {
        TenantView {
            id: self.id,
            name: self.name@,
            created_at: self.created_at,
            settings: self.settings.deep_view(),
        }
    }
}

impl Clone for Tenant {
    fn clone(&self) -> (copy: Self)
        ensures
            copy.deep_view() == self.deep_view(),
    {
        Tenant {
            id: self.id,
            name: self.name.clone(),
            created_at: self.created_at,
            settings: self.settings.clone(),
        }
    }
}

/// A namespace within a tenant; agents belong to exactly one project.
#[derive(Debug, PartialEq, Eq)]
pub struct Project {
    pub id: ProjectId,
    pub tenant_id: TenantId,
    pub name: String,
    pub created_at: Timestamp,
}

/// The mathematical value of a [`Project`].
pub struct ProjectView {
    pub id: ProjectId,
    pub tenant_id: TenantId,
    pub name: Seq<char>,
    pub created_at: Timestamp,
}

impl DeepView for Project {
    type V = ProjectView;

    open spec fn deep_view(&self) -> ProjectView {
        ProjectView {
            id: self.id,
            tenant_id: self.tenant_id,
            name: self.name@,
            created_at: self.created_at,
        }
    }
}

impl Clone for Project {
    fn clone(&self) -> (copy: Self)
        ensures
            copy.deep_view() == self.deep_view(),
    {
        Project {
            id: self.id,
            tenant_id: self.tenant_id,
            name: self.name.clone(),
            created_at: self.created_at,
        }
    }
}

/// A named tag on an agent.
#[derive(Debug, PartialEq, Eq)]
pub struct Tag {
    pub key: String,
    pub value: String,
}

/// The mathematical value of a [`Tag`].
pub struct TagView {
    pub key: Seq<char>,
    pub value: Seq<char>,
}

impl DeepView for Tag {
    type V = TagView;

    open spec fn deep_view(&self) -> TagView {
        TagView {
            key: self.key@,
            value: self.value@,
        }
    }
}

impl Clone for Tag {
    fn clone(&self) -> (copy: Self)
        ensures
            copy.deep_view() == self.deep_view(),
    {
        Tag {
            key: self.key.clone(),
            value: self.value.clone(),
        }
    }
}

/// Copies a list of tags.
pub fn clone_tags(items: &Vec<Tag>) -> (copy: Vec<Tag>)
    ensures
        copy.deep_view() == items.deep_view(),
{
    let mut copy: Vec<Tag> = Vec::new();
    let mut i: usize = 0;
    while i < items.len()
        invariant
            i <= items.len(),
            copy@.len() == i,
            forall|j: int| 0 <= j < i ==> (#[trigger] copy@[j]).deep_view() == items@[j].deep_view(),
        decreases items.len() - i,
    {
        copy.push(items[i].clone());
        i = i + 1;
    }
    assert(copy.deep_view() =~= items.deep_view());
    copy
}

/// What an agent says of itself: capabilities and tags.
#[derive(Debug, PartialEq, Eq)]
pub struct AgentMetadata {
    pub capabilities: Vec<String>,
    pub tags: Vec<Tag>,
}

/// The mathematical value of a [`AgentMetadata`].
pub struct AgentMetadataView {
    pub capabilities: Seq<Seq<char>>,
    pub tags: Seq<TagView>,
}

impl DeepView for AgentMetadata {
    type V = AgentMetadataView;

    open spec fn deep_view(&self) -> AgentMetadataView {
        AgentMetadataView {
            capabilities: self.capabilities.deep_view(),
            tags: self.tags.deep_view(),
        }
    }
}

impl Clone for AgentMetadata {
    fn clone(&self) -> (copy: Self)
        ensures
            copy.deep_view() == self.deep_view(),
    {
        AgentMetadata {
            capabilities: clone_texts(&self.capabilities),
            tags: clone_tags(&self.tags),
        }
    }
}

/// A remote worker registered against a tenant and a project.
#[derive(Debug, PartialEq, Eq)]
pub struct Agent {
    pub id: AgentId,
    pub tenant_id: TenantId,
    pub project_id: ProjectId,
    pub hostname: String,
    pub status: AgentStatus,
    pub last_seen: Option<Timestamp>,
    pub created_at: Timestamp,
    pub metadata: AgentMetadata,
}

/// The mathematical value of a [`Agent`].
pub struct AgentView {
    pub id: AgentId,
    pub tenant_id: TenantId,
    pub project_id: ProjectId,
    pub hostname: Seq<char>,
    pub status: AgentStatus,
    pub last_seen: Option<Timestamp>,
    pub created_at: Timestamp,
    pub metadata: AgentMetadataView,
}

impl DeepView for Agent {
    type V = AgentView;

    open spec fn deep_view(&self) -> AgentView {
        AgentView {
            id: self.id,
            tenant_id: self.tenant_id,
            project_id: self.project_id,
            hostname: self.hostname@,
            status: self.status,
            last_seen: self.last_seen,
            created_at: self.created_at,
            metadata: self.metadata.deep_view(),
        }
    }
}

impl Clone for Agent {
    fn clone(&self) -> (copy: Self)
        ensures
            copy.deep_view() == self.deep_view(),
    {
        Agent {
            id: self.id,
            tenant_id: self.tenant_id,
            project_id: self.project_id,
            hostname: self.hostname.clone(),
            status: self.status,
            last_seen: self.last_seen,
            created_at: self.created_at,
            metadata: self.metadata.clone(),
        }
    }
}

/// An API key as persisted: the prefix and the hash of the secret, never the secret.
#[derive(Debug, PartialEq, Eq)]
pub struct ApiKeyRecord {
    pub id: ApiKeyId,
    pub tenant_id: TenantId,
    pub label: String,
    pub scopes: Vec<Scope>,
    pub token_prefix: String,
    pub token_hash: String,
    pub created_at: Timestamp,
    pub last_used_at: Option<Timestamp>,
    pub revoked: bool,
    pub deleted_at: Option<Timestamp>,
    pub rotated_from: Option<u128>,
    pub rotated_to: Option<u128>,
}

/// The mathematical value of a [`ApiKeyRecord`].
pub struct ApiKeyRecordView {
    pub id: ApiKeyId,
    pub tenant_id: TenantId,
    pub label: Seq<char>,
    pub scopes: Seq<ScopeView>,
    pub token_prefix: Seq<char>,
    pub token_hash: Seq<char>,
    pub created_at: Timestamp,
    pub last_used_at: Option<Timestamp>,
    pub revoked: bool,
    pub deleted_at: Option<Timestamp>,
    pub rotated_from: Option<u128>,
    pub rotated_to: Option<u128>,
}

impl DeepView for ApiKeyRecord {
    type V = ApiKeyRecordView;

    open spec fn deep_view(&self) -> ApiKeyRecordView {
        ApiKeyRecordView {
            id: self.id,
            tenant_id: self.tenant_id,
            label: self.label@,
            scopes: self.scopes.deep_view(),
            token_prefix: self.token_prefix@,
            token_hash: self.token_hash@,
            created_at: self.created_at,
            last_used_at: self.last_used_at,
            revoked: self.revoked,
            deleted_at: self.deleted_at,
            rotated_from: self.rotated_from,
            rotated_to: self.rotated_to,
        }
    }
}

impl Clone for ApiKeyRecord {
    fn clone(&self) -> (copy: Self)
        ensures
            copy.deep_view() == self.deep_view(),
    {
        ApiKeyRecord {
            id: self.id,
            tenant_id: self.tenant_id,
            label: self.label.clone(),
            scopes: clone_scopes(&self.scopes),
            token_prefix: self.token_prefix.clone(),
            token_hash: self.token_hash.clone(),
            created_at: self.created_at,
            last_used_at: self.last_used_at,
            revoked: self.revoked,
            deleted_at: self.deleted_at,
            rotated_from: self.rotated_from,
            rotated_to: self.rotated_to,
        }
    }
}

/// An API key as handed to its owner; `value` is the only copy of the plaintext.
#[derive(Debug, PartialEq, Eq)]
pub struct ApiKey {
    pub id: ApiKeyId,
    pub value: String,
    pub tenant_id: TenantId,
    pub label: String,
    pub scopes: Vec<Scope>,
    pub created_at: Timestamp,
    pub rotation_parent: Option<u128>,
}

/// The mathematical value of a [`ApiKey`].
pub struct ApiKeyView {
    pub id: ApiKeyId,
    pub value: Seq<char>,
    pub tenant_id: TenantId,
    pub label: Seq<char>,
    pub scopes: Seq<ScopeView>,
    pub created_at: Timestamp,
    pub rotation_parent: Option<u128>,
}

impl DeepView for ApiKey {
    type V = ApiKeyView;

    open spec fn deep_view(&self) -> ApiKeyView {
        ApiKeyView {
            id: self.id,
            value: self.value@,
            tenant_id: self.tenant_id,
            label: self.label@,
            scopes: self.scopes.deep_view(),
            created_at: self.created_at,
            rotation_parent: self.rotation_parent,
        }
    }
}

impl Clone for ApiKey {
    fn clone(&self) -> (copy: Self)
        ensures
            copy.deep_view() == self.deep_view(),
    {
        ApiKey {
            id: self.id,
            value: self.value.clone(),
            tenant_id: self.tenant_id,
            label: self.label.clone(),
            scopes: clone_scopes(&self.scopes),
            created_at: self.created_at,
            rotation_parent: self.rotation_parent,
        }
    }
}

/// What enrollment hands back: the agent, its key and its bootstrap material.
#[derive(Debug, PartialEq, Eq)]
pub struct ProvisionedAgent {
    pub agent: Agent,
    pub api_key: ApiKey,
    pub bootstrap_commands: Vec<String>,
    pub certificate_bundle: Option<Vec<u8>>,
}

/// The mathematical value of a [`ProvisionedAgent`].
pub struct ProvisionedAgentView {
    pub agent: AgentView,
    pub api_key: ApiKeyView,
    pub bootstrap_commands: Seq<Seq<char>>,
    pub certificate_bundle: Option<Seq<u8>>,
}

impl DeepView for ProvisionedAgent {
    type V = ProvisionedAgentView;

    open spec fn deep_view(&self) -> ProvisionedAgentView {
        ProvisionedAgentView {
            agent: self.agent.deep_view(),
            api_key: self.api_key.deep_view(),
            bootstrap_commands: self.bootstrap_commands.deep_view(),
            certificate_bundle: self.certificate_bundle.deep_view(),
        }
    }
}

impl Clone for ProvisionedAgent {
    fn clone(&self) -> (copy: Self)
        ensures
            copy.deep_view() == self.deep_view(),
    {
        ProvisionedAgent {
            agent: self.agent.clone(),
            api_key: self.api_key.clone(),
            bootstrap_commands: clone_texts(&self.bootstrap_commands),
            certificate_bundle: clone_opt_bytes(&self.certificate_bundle),
        }
    }
}

/// Optional facts about the session a token was issued in.
#[derive(Debug, PartialEq, Eq)]
pub struct AuthSessionMetadata {
    pub user_agent: Option<String>,
    pub ip_address: Option<String>,
    pub device_id: Option<String>,
}

/// The mathematical value of a [`AuthSessionMetadata`].
pub struct AuthSessionMetadataView {
    pub user_agent: Option<Seq<char>>,
    pub ip_address: Option<Seq<char>>,
    pub device_id: Option<Seq<char>>,
}

impl DeepView for AuthSessionMetadata {
    type V = AuthSessionMetadataView;

    open spec fn deep_view(&self) -> AuthSessionMetadataView {
        AuthSessionMetadataView {
            user_agent: self.user_agent.deep_view(),
            ip_address: self.ip_address.deep_view(),
            device_id: self.device_id.deep_view(),
        }
    }
}

impl Clone for AuthSessionMetadata {
    fn clone(&self) -> (copy: Self)
        ensures
            copy.deep_view() == self.deep_view(),
    {
        AuthSessionMetadata {
            user_agent: clone_opt_text(&self.user_agent),
            ip_address: clone_opt_text(&self.ip_address),
            device_id: clone_opt_text(&self.device_id),
        }
    }
}

/// Who is acting, for which tenant, with which scopes, and for how long.
#[derive(Debug, PartialEq, Eq)]
pub struct AuthContext {
    pub principal_id: u128,
    pub principal_type: PrincipalType,
    pub tenant_id: TenantId,
    pub scopes: Vec<Scope>,
    pub issued_at: Timestamp,
    pub expires_at: Timestamp,
    pub audience: Option<String>,
    pub issuer: Option<String>,
    pub session: Option<AuthSessionMetadata>,
}

/// The mathematical value of a [`AuthContext`].
pub struct AuthContextView {
    pub principal_id: u128,
    pub principal_type: PrincipalType,
    pub tenant_id: TenantId,
    pub scopes: Seq<ScopeView>,
    pub issued_at: Timestamp,
    pub expires_at: Timestamp,
    pub audience: Option<Seq<char>>,
    pub issuer: Option<Seq<char>>,
    pub session: Option<AuthSessionMetadataView>,
}

impl DeepView for AuthContext {
    type V = AuthContextView;

    open spec fn deep_view(&self) -> AuthContextView {
        AuthContextView {
            principal_id: self.principal_id,
            principal_type: self.principal_type,
            tenant_id: self.tenant_id,
            scopes: self.scopes.deep_view(),
            issued_at: self.issued_at,
            expires_at: self.expires_at,
            audience: self.audience.deep_view(),
            issuer: self.issuer.deep_view(),
            session: self.session.deep_view(),
        }
    }
}

impl Clone for AuthContext {
    fn clone(&self) -> (copy: Self)
        ensures
            copy.deep_view() == self.deep_view(),
    {
        AuthContext {
            principal_id: self.principal_id,
            principal_type: self.principal_type,
            tenant_id: self.tenant_id,
            scopes: clone_scopes(&self.scopes),
            issued_at: self.issued_at,
            expires_at: self.expires_at,
            audience: clone_opt_text(&self.audience),
            issuer: clone_opt_text(&self.issuer),
            session: match &self.session {
                Some(inner) => Some(inner.clone()),
                None => None,
            },
        }
    }
}

/// A signed access token, the context it carries and, unless disabled, a refresh token.
#[derive(Debug, PartialEq, Eq)]
pub struct AuthToken {
    pub token: String,
    pub context: AuthContext,
    pub refresh_token: Option<String>,
}

/// The mathematical value of a [`AuthToken`].
pub struct AuthTokenView {
    pub token: Seq<char>,
    pub context: AuthContextView,
    pub refresh_token: Option<Seq<char>>,
}

impl DeepView for AuthToken {
    type V = AuthTokenView;

    open spec fn deep_view(&self) -> AuthTokenView {
        AuthTokenView {
            token: self.token@,
            context: self.context.deep_view(),
            refresh_token: self.refresh_token.deep_view(),
        }
    }
}

impl Clone for AuthToken {
    fn clone(&self) -> (copy: Self)
        ensures
            copy.deep_view() == self.deep_view(),
    {
        AuthToken {
            token: self.token.clone(),
            context: self.context.clone(),
            refresh_token: clone_opt_text(&self.refresh_token),
        }
    }
}

/// A unit of work with a kind and an opaque payload.
#[derive(Debug, PartialEq, Eq)]
pub struct Task {
    pub id: TaskId,
    pub tenant_id: TenantId,
    pub kind: String,
    pub payload: JsonValue,
    pub status: TaskStatus,
    pub attempts: u32,
    pub scheduled_at: Timestamp,
    pub started_at: Option<Timestamp>,
    pub completed_at: Option<Timestamp>,
    pub last_error: Option<String>,
    pub result: Option<JsonValue>,
    pub timeouts: Option<TaskTimeouts>,
}

/// The mathematical value of a [`Task`].
pub struct TaskView {
    pub id: TaskId,
    pub tenant_id: TenantId,
    pub kind: Seq<char>,
    pub payload: JsonModel,
    pub status: TaskStatus,
    pub attempts: u32,
    pub scheduled_at: Timestamp,
    pub started_at: Option<Timestamp>,
    pub completed_at: Option<Timestamp>,
    pub last_error: Option<Seq<char>>,
    pub result: Option<JsonModel>,
    pub timeouts: Option<TaskTimeouts>,
}

impl DeepView for Task {
    type V = TaskView;

    open spec fn deep_view(&self) -> TaskView {
        TaskView {
            id: self.id,
            tenant_id: self.tenant_id,
            kind: self.kind@,
            payload: self.payload.deep_view(),
            status: self.status,
            attempts: self.attempts,
            scheduled_at: self.scheduled_at,
            started_at: self.started_at,
            completed_at: self.completed_at,
            last_error: self.last_error.deep_view(),
            result: self.result.deep_view(),
            timeouts: self.timeouts,
        }
    }
}

impl Clone for Task {
    fn clone(&self) -> (copy: Self)
        ensures
            copy.deep_view() == self.deep_view(),
    {
        Task {
            id: self.id,
            tenant_id: self.tenant_id,
            kind: self.kind.clone(),
            payload: self.payload.clone(),
            status: self.status,
            attempts: self.attempts,
            scheduled_at: self.scheduled_at,
            started_at: self.started_at,
            completed_at: self.completed_at,
            last_error: clone_opt_text(&self.last_error),
            result: clone_opt_json(&self.result),
            timeouts: self.timeouts,
        }
    }
}

/// A request to enqueue a task.
#[derive(Debug, PartialEq, Eq)]
pub struct TaskRequest {
    pub tenant_id: TenantId,
    pub kind: String,
    pub payload: JsonValue,
}

/// The mathematical value of a [`TaskRequest`].
pub struct TaskRequestView {
    pub tenant_id: TenantId,
    pub kind: Seq<char>,
    pub payload: JsonModel,
}

impl DeepView for TaskRequest {
    type V = TaskRequestView;

    open spec fn deep_view(&self) -> TaskRequestView {
        TaskRequestView {
            tenant_id: self.tenant_id,
            kind: self.kind@,
            payload: self.payload.deep_view(),
        }
    }
}

impl Clone for TaskRequest {
    fn clone(&self) -> (copy: Self)
        ensures
            copy.deep_view() == self.deep_view(),
    {
        TaskRequest {
            tenant_id: self.tenant_id,
            kind: self.kind.clone(),
            payload: self.payload.clone(),
        }
    }
}

/// An exclusive, time-bounded claim on an in-progress task held by one worker.
#[derive(Debug, PartialEq, Eq)]
pub struct TaskLease {
    pub task: Task,
    pub worker_id: u128,
    pub leased_at: Timestamp,
    pub lease_expires_at: Timestamp,
    pub lease_version: u64,
    pub lease_token: u128,
}

/// The mathematical value of a [`TaskLease`].
pub struct TaskLeaseView {
    pub task: TaskView,
    pub worker_id: u128,
    pub leased_at: Timestamp,
    pub lease_expires_at: Timestamp,
    pub lease_version: u64,
    pub lease_token: u128,
}

impl DeepView for TaskLease {
    type V = TaskLeaseView;

    open spec fn deep_view(&self) -> TaskLeaseView {
        TaskLeaseView {
            task: self.task.deep_view(),
            worker_id: self.worker_id,
            leased_at: self.leased_at,
            lease_expires_at: self.lease_expires_at,
            lease_version: self.lease_version,
            lease_token: self.lease_token,
        }
    }
}

impl Clone for TaskLease {
    fn clone(&self) -> (copy: Self)
        ensures
            copy.deep_view() == self.deep_view(),
    {
        TaskLease {
            task: self.task.clone(),
            worker_id: self.worker_id,
            leased_at: self.leased_at,
            lease_expires_at: self.lease_expires_at,
            lease_version: self.lease_version,
            lease_token: self.lease_token,
        }
    }
}

/// What a workflow step waits for: an earlier step of a task kind that reached a status.
#[derive(Debug, PartialEq, Eq)]
pub struct TaskDependency {
    pub task_kind: String,
    pub required_status: TaskStatus,
}

/// The mathematical value of a [`TaskDependency`].
pub struct TaskDependencyView {
    pub task_kind: Seq<char>,
    pub required_status: TaskStatus,
}

impl DeepView for TaskDependency {
    type V = TaskDependencyView;

    open spec fn deep_view(&self) -> TaskDependencyView {
        TaskDependencyView {
            task_kind: self.task_kind@,
            required_status: self.required_status,
        }
    }
}

impl Clone for TaskDependency {
    fn clone(&self) -> (copy: Self)
        ensures
            copy.deep_view() == self.deep_view(),
    {
        TaskDependency {
            task_kind: self.task_kind.clone(),
            required_status: self.required_status,
        }
    }
}

/// Copies a list of dependencies.
pub fn clone_dependencies(items: &Vec<TaskDependency>) -> (copy: Vec<TaskDependency>)
    ensures
        copy.deep_view() == items.deep_view(),
{
    let mut copy: Vec<TaskDependency> = Vec::new();
    let mut i: usize = 0;
    while i < items.len()
        invariant
            i <= items.len(),
            copy@.len() == i,
            forall|j: int| 0 <= j < i ==> (#[trigger] copy@[j]).deep_view() == items@[j].deep_view(),
        decreases items.len() - i,
    {
        copy.push(items[i].clone());
        i = i + 1;
    }
    assert(copy.deep_view() =~= items.deep_view());
    copy
}

/// One step of a workflow: the kind of task to run and what it waits for.
#[derive(Debug, PartialEq, Eq)]
pub struct WorkflowStep {
    pub id: u128,
    pub name: String,
    pub task_kind: String,
    pub dependencies: Vec<TaskDependency>,
}

/// The mathematical value of a [`WorkflowStep`].
pub struct WorkflowStepView {
    pub id: u128,
    pub name: Seq<char>,
    pub task_kind: Seq<char>,
    pub dependencies: Seq<TaskDependencyView>,
}

impl DeepView for WorkflowStep {
    type V = WorkflowStepView;

    open spec fn deep_view(&self) -> WorkflowStepView {
        WorkflowStepView {
            id: self.id,
            name: self.name@,
            task_kind: self.task_kind@,
            dependencies: self.dependencies.deep_view(),
        }
    }
}

impl Clone for WorkflowStep {
    fn clone(&self) -> (copy: Self)
        ensures
            copy.deep_view() == self.deep_view(),
    {
        WorkflowStep {
            id: self.id,
            name: self.name.clone(),
            task_kind: self.task_kind.clone(),
            dependencies: clone_dependencies(&self.dependencies),
        }
    }
}

/// Copies a list of workflow steps.
pub fn clone_steps(items: &Vec<WorkflowStep>) -> (copy: Vec<WorkflowStep>)
    ensures
        copy.deep_view() == items.deep_view(),
{
    let mut copy: Vec<WorkflowStep> = Vec::new();
    let mut i: usize = 0;
    while i < items.len()
        invariant
            i <= items.len(),
            copy@.len() == i,
            forall|j: int| 0 <= j < i ==> (#[trigger] copy@[j]).deep_view() == items@[j].deep_view(),
        decreases items.len() - i,
    {
        copy.push(items[i].clone());
        i = i + 1;
    }
    assert(copy.deep_view() =~= items.deep_view());
    copy
}

/// An immutable template of steps and their dependencies.
#[derive(Debug, PartialEq, Eq)]
pub struct Workflow {
    pub id: WorkflowId,
    pub tenant_id: TenantId,
    pub name: String,
    pub steps: Vec<WorkflowStep>,
    pub created_at: Timestamp,
}

/// The mathematical value of a [`Workflow`].
pub struct WorkflowView {
    pub id: WorkflowId,
    pub tenant_id: TenantId,
    pub name: Seq<char>,
    pub steps: Seq<WorkflowStepView>,
    pub created_at: Timestamp,
}

impl DeepView for Workflow {
    type V = WorkflowView;

    open spec fn deep_view(&self) -> WorkflowView {
        WorkflowView {
            id: self.id,
            tenant_id: self.tenant_id,
            name: self.name@,
            steps: self.steps.deep_view(),
            created_at: self.created_at,
        }
    }
}

impl Clone for Workflow {
    fn clone(&self) -> (copy: Self)
        ensures
            copy.deep_view() == self.deep_view(),
    {
        Workflow {
            id: self.id,
            tenant_id: self.tenant_id,
            name: self.name.clone(),
            steps: clone_steps(&self.steps),
            created_at: self.created_at,
        }
    }
}

/// One execution of a workflow.
#[derive(Debug, PartialEq, Eq)]
pub struct WorkflowRun {
    pub id: u128,
    pub tenant_id: TenantId,
    pub workflow_id: WorkflowId,
    pub status: WorkflowRunStatus,
    pub current_step: Option<u128>,
    pub created_at: Timestamp,
    pub updated_at: Timestamp,
    pub started_at: Option<Timestamp>,
    pub completed_at: Option<Timestamp>,
    pub context: JsonValue,
}

/// The mathematical value of a [`WorkflowRun`].
pub struct WorkflowRunView {
    pub id: u128,
    pub tenant_id: TenantId,
    pub workflow_id: WorkflowId,
    pub status: WorkflowRunStatus,
    pub current_step: Option<u128>,
    pub created_at: Timestamp,
    pub updated_at: Timestamp,
    pub started_at: Option<Timestamp>,
    pub completed_at: Option<Timestamp>,
    pub context: JsonModel,
}

impl DeepView for WorkflowRun {
    type V = WorkflowRunView;

    open spec fn deep_view(&self) -> WorkflowRunView {
        WorkflowRunView {
            id: self.id,
            tenant_id: self.tenant_id,
            workflow_id: self.workflow_id,
            status: self.status,
            current_step: self.current_step,
            created_at: self.created_at,
            updated_at: self.updated_at,
            started_at: self.started_at,
            completed_at: self.completed_at,
            context: self.context.deep_view(),
        }
    }
}

impl Clone for WorkflowRun {
    fn clone(&self) -> (copy: Self)
        ensures
            copy.deep_view() == self.deep_view(),
    {
        WorkflowRun {
            id: self.id,
            tenant_id: self.tenant_id,
            workflow_id: self.workflow_id,
            status: self.status,
            current_step: self.current_step,
            created_at: self.created_at,
            updated_at: self.updated_at,
            started_at: self.started_at,
            completed_at: self.completed_at,
            context: self.context.clone(),
        }
    }
}

impl Default for ProjectStorageSettings {
    fn default() -> (settings: Self)
        ensures
            settings.deep_view() == (ProjectStorageSettingsView {
                bucket: None,
                prefix: None,
                max_object_size_bytes: None,
            }),
    {
        ProjectStorageSettings { bucket: None, prefix: None, max_object_size_bytes: None }
    }
}

/// The settings of a tenant that sets nothing.
pub open spec fn no_settings() -> TenantSettingsView {
    TenantSettingsView {
        allowed_origins: Seq::empty(),
        token_ttl_seconds: None,
        refresh_token_ttl_seconds: None,
        default_storage: None,
    }
}

impl Default for TenantSettings {
    fn default() -> (settings: Self)
        ensures
            settings.deep_view() == no_settings(),
    {
        let settings = TenantSettings {
            allowed_origins: Vec::new(),
            token_ttl_seconds: None,
            refresh_token_ttl_seconds: None,
            default_storage: None,
        };
        assert(settings.allowed_origins.deep_view() =~= Seq::empty());
        settings
    }
}

/// The metadata of an agent that says nothing of itself.
pub open spec fn no_metadata() -> AgentMetadataView {
    AgentMetadataView { capabilities: Seq::empty(), tags: Seq::empty() }
}

impl Default for AgentMetadata {
    fn default() -> (metadata: Self)
        ensures
            metadata.deep_view() == no_metadata(),
    {
        let metadata = AgentMetadata { capabilities: Vec::new(), tags: Vec::new() };
        assert(metadata.capabilities.deep_view() =~= Seq::empty());
        assert(metadata.tags.deep_view() =~= Seq::empty());
        metadata
    }
}

impl Default for AuthSessionMetadata {
    fn default() -> (session: Self)
        ensures
            session.deep_view() == (AuthSessionMetadataView {
                user_agent: None,
                ip_address: None,
                device_id: None,
            }),
    {
        AuthSessionMetadata { user_agent: None, ip_address: None, device_id: None }
    }
}

/// State of an upload session.
#[derive(Debug, Clone, Copy, PartialEq, Eq, Structural)]
pub enum UploadStatus {
    Pending,
    Uploading,
    Completed,
    Failed,
    Cancelled,
}

/// The lower-case name of an upload status.
pub open spec fn upload_status_text(status: UploadStatus) -> Seq<char> {
    match status {
        UploadStatus::Pending => "pending"@,
        UploadStatus::Uploading => "uploading"@,
        UploadStatus::Completed => "completed"@,
        UploadStatus::Failed => "failed"@,
        UploadStatus::Cancelled => "cancelled"@,
    }
}

/// The upload status that a text names.
pub open spec fn upload_status_of(text: Seq<char>) -> Option<UploadStatus> {
    if text == "pending"@ {
        Some(UploadStatus::Pending)
    } else if text == "uploading"@ {
        Some(UploadStatus::Uploading)
    } else if text == "completed"@ {
        Some(UploadStatus::Completed)
    } else if text == "failed"@ {
        Some(UploadStatus::Failed)
    } else if text == "cancelled"@ {
        Some(UploadStatus::Cancelled)
    } else {
        None
    }
}

impl UploadStatus {
    /// The lower-case name of the status.
    pub fn as_str(&self) -> (text: &'static str)
        ensures
            text@ == upload_status_text(*self),
    {
        match self {
            UploadStatus::Pending => "pending",
            UploadStatus::Uploading => "uploading",
            UploadStatus::Completed => "completed",
            UploadStatus::Failed => "failed",
            UploadStatus::Cancelled => "cancelled",
        }
    }

    /// Reads a status name; anything but the five names is invalid input.
    pub fn parse(text: &str) -> (status: PlatformResult<UploadStatus>)
        ensures
            match upload_status_of(text@) {
                Some(named) => status == Ok::<UploadStatus, PlatformError>(named),
                None => status == Err::<UploadStatus, PlatformError>(
                    PlatformError::InvalidInput("invalid upload status"),
                ),
            },
    {
        if same_text(text, "pending") {
            Ok(UploadStatus::Pending)
        } else if same_text(text, "uploading") {
            Ok(UploadStatus::Uploading)
        } else if same_text(text, "completed") {
            Ok(UploadStatus::Completed)
        } else if same_text(text, "failed") {
            Ok(UploadStatus::Failed)
        } else if same_text(text, "cancelled") {
            Ok(UploadStatus::Cancelled)
        } else {
            Err(PlatformError::InvalidInput("invalid upload status"))
        }
    }
}

/// Every upload status is the one its name is read as.
pub proof fn law_upload_status_round_trip(status: UploadStatus)
    ensures
        upload_status_of(upload_status_text(status)) == Some(status),
{
    reveal_strlit("pending");
    reveal_strlit("uploading");
    reveal_strlit("completed");
    reveal_strlit("failed");
    reveal_strlit("cancelled");
    assert("pending"@.len() == 7);
    assert("uploading"@.len() == 9);
    assert("completed"@.len() == 9);
    assert("failed"@.len() == 6);
    assert("cancelled"@.len() == 9);
    assert("uploading"@[0] == 'u');
    assert("completed"@[1] == 'o');
    assert("cancelled"@[1] == 'a');
}

/// Who may see a piece of content.
#[derive(Debug, Clone, Copy, PartialEq, Eq, Structural)]
pub enum ContentVisibility {
    Private,
    Project,
    Tenant,
    Public,
}

/// The lower-case name of a visibility.
pub open spec fn visibility_text(visibility: ContentVisibility) -> Seq<char> {
    match visibility {
        ContentVisibility::Private => "private"@,
        ContentVisibility::Project => "project"@,
        ContentVisibility::Tenant => "tenant"@,
        ContentVisibility::Public => "public"@,
    }
}

/// The visibility that a text names.
pub open spec fn visibility_of(text: Seq<char>) -> Option<ContentVisibility> {
    if text == "private"@ {
        Some(ContentVisibility::Private)
    } else if text == "project"@ {
        Some(ContentVisibility::Project)
    } else if text == "tenant"@ {
        Some(ContentVisibility::Tenant)
    } else if text == "public"@ {
        Some(ContentVisibility::Public)
    } else {
        None
    }
}

impl ContentVisibility {
    /// The lower-case name of the visibility.
    pub fn as_str(&self) -> (text: &'static str)
        ensures
            text@ == visibility_text(*self),
    {
        match self {
            ContentVisibility::Private => "private",
            ContentVisibility::Project => "project",
            ContentVisibility::Tenant => "tenant",
            ContentVisibility::Public => "public",
        }
    }

    /// Reads a visibility name; anything but the four names is invalid input.
    pub fn parse(text: &str) -> (visibility: PlatformResult<ContentVisibility>)
        ensures
            match visibility_of(text@) {
                Some(named) => visibility == Ok::<ContentVisibility, PlatformError>(named),
                None => visibility == Err::<ContentVisibility, PlatformError>(
                    PlatformError::InvalidInput("invalid content visibility"),
                ),
            },
    {
        if same_text(text, "private") {
            Ok(ContentVisibility::Private)
        } else if same_text(text, "project") {
            Ok(ContentVisibility::Project)
        } else if same_text(text, "tenant") {
            Ok(ContentVisibility::Tenant)
        } else if same_text(text, "public") {
            Ok(ContentVisibility::Public)
        } else {
            Err(PlatformError::InvalidInput("invalid content visibility"))
        }
    }
}

/// The visibility of an upload that names none: the project.
pub fn default_visibility() -> (visibility: ContentVisibility)
    ensures
        visibility == ContentVisibility::Project,
{
    ContentVisibility::Project
}

} // verus!

