//! Capabilities ("scopes") attached to API keys and tokens, and the named roles that
//! bundle them.
use vstd::prelude::*;
use vstd::string::StringExecFns;
use crate::text::{same_text, clone_opt_text};

verus! {

/// A named capability. The set is open: besides the built-in scopes any text can be
/// carried as a custom scope, which is how project-scoped capabilities are expressed.
#[derive(Debug, Hash)]
pub enum Scope {
    Admin,
    TenantRead,
    TenantWrite,
    ProvisioningManage,
    OrchestrationManage,
    ApiKeyManage,
    AgentExecute,
    WorkflowExecute,
    Custom(String),
}

/// The mathematical value of a [`Scope`].
pub enum ScopeView {
    Admin,
    TenantRead,
    TenantWrite,
    ProvisioningManage,
    OrchestrationManage,
    ApiKeyManage,
    AgentExecute,
    WorkflowExecute,
    Custom(Seq<char>),
}

impl DeepView for Scope {
    type V = ScopeView;

    open spec fn deep_view(&self) -> ScopeView {
        match self {
            Scope::Admin => ScopeView::Admin,
            Scope::TenantRead => ScopeView::TenantRead,
            Scope::TenantWrite => ScopeView::TenantWrite,
            Scope::ProvisioningManage => ScopeView::ProvisioningManage,
            Scope::OrchestrationManage => ScopeView::OrchestrationManage,
            Scope::ApiKeyManage => ScopeView::ApiKeyManage,
            Scope::AgentExecute => ScopeView::AgentExecute,
            Scope::WorkflowExecute => ScopeView::WorkflowExecute,
            Scope::Custom(value) => ScopeView::Custom(value@),
        }
    }
}

/// The wire text of a scope.
pub open spec fn scope_text(scope: ScopeView) -> Seq<char> {
    match scope {
        ScopeView::Admin => "admin"@,
        ScopeView::TenantRead => "tenant:read"@,
        ScopeView::TenantWrite => "tenant:write"@,
        ScopeView::ProvisioningManage => "provisioning:manage"@,
        ScopeView::OrchestrationManage => "orchestration:manage"@,
        ScopeView::ApiKeyManage => "apikey:manage"@,
        ScopeView::AgentExecute => "agent:execute"@,
        ScopeView::WorkflowExecute => "workflow:execute"@,
        ScopeView::Custom(value) => value,
    }
}

/// The scope that a wire text denotes: the built-in scope of that name, else a custom one.
pub open spec fn scope_of_text(text: Seq<char>) -> ScopeView {
    if text == "admin"@ {
        ScopeView::Admin
    } else if text == "tenant:read"@ {
        ScopeView::TenantRead
    } else if text == "tenant:write"@ {
        ScopeView::TenantWrite
    } else if text == "provisioning:manage"@ {
        ScopeView::ProvisioningManage
    } else if text == "orchestration:manage"@ {
        ScopeView::OrchestrationManage
    } else if text == "apikey:manage"@ {
        ScopeView::ApiKeyManage
    } else if text == "agent:execute"@ {
        ScopeView::AgentExecute
    } else if text == "workflow:execute"@ {
        ScopeView::WorkflowExecute
    } else {
        ScopeView::Custom(text)
    }
}

/// Whether reading a scope's wire text gives the scope back. It does for every built-in
/// scope, and for a custom scope unless its text is the name of a built-in one.
pub open spec fn scope_survives_text(scope: ScopeView) -> bool {
    scope is Custom ==> scope_of_text(scope->0) is Custom
}

/// Writing a scope as text and reading the text gives the same scope, for every scope
/// that is not a custom one named like a built-in scope.
pub proof fn law_scope_text_round_trip(scope: ScopeView)
    requires
        scope_survives_text(scope),
    ensures
        scope_of_text(scope_text(scope)) == scope,
{
    reveal_strlit("admin");
    reveal_strlit("tenant:read");
    reveal_strlit("tenant:write");
    reveal_strlit("provisioning:manage");
    reveal_strlit("orchestration:manage");
    reveal_strlit("apikey:manage");
    reveal_strlit("agent:execute");
    reveal_strlit("workflow:execute");
    assert("admin"@.len() == 5);
    assert("tenant:read"@.len() == 11);
    assert("tenant:write"@.len() == 12);
    assert("provisioning:manage"@.len() == 19);
    assert("orchestration:manage"@.len() == 20);
    assert("apikey:manage"@.len() == 13);
    assert("agent:execute"@.len() == 13);
    assert("workflow:execute"@.len() == 16);
    assert("apikey:manage"@[1] == 'p');
    assert("agent:execute"@[1] == 'g');
}

impl Scope {
    /// The wire text of the scope, such as `tenant:read`.
    pub fn as_str(&self) -> (text: &str)
        ensures
            text@ == scope_text(self.deep_view()),
    {
        match self {
            Scope::Admin => "admin",
            Scope::TenantRead => "tenant:read",
            Scope::TenantWrite => "tenant:write",
            Scope::ProvisioningManage => "provisioning:manage",
            Scope::OrchestrationManage => "orchestration:manage",
            Scope::ApiKeyManage => "apikey:manage",
            Scope::AgentExecute => "agent:execute",
            Scope::WorkflowExecute => "workflow:execute",
            Scope::Custom(value) => value.as_str(),
        }
    }

    /// Whether this is a free-form scope.
    pub fn is_custom(&self) -> (custom: bool)
        ensures
            custom == (self.deep_view() is Custom),
    {
        match self {
            Scope::Custom(_) => true,
            _ => false,
        }
    }

    /// Reads a wire text: a built-in name gives the built-in scope, any other text a
    /// custom scope holding that text.
    pub fn from_str(value: &str) -> (scope: Scope)
        ensures
            scope.deep_view() == scope_of_text(value@),
    {
        if same_text(value, "admin") {
            Scope::Admin
        } else if same_text(value, "tenant:read") {
            Scope::TenantRead
        } else if same_text(value, "tenant:write") {
            Scope::TenantWrite
        } else if same_text(value, "provisioning:manage") {
            Scope::ProvisioningManage
        } else if same_text(value, "orchestration:manage") {
            Scope::OrchestrationManage
        } else if same_text(value, "apikey:manage") {
            Scope::ApiKeyManage
        } else if same_text(value, "agent:execute") {
            Scope::AgentExecute
        } else if same_text(value, "workflow:execute") {
            Scope::WorkflowExecute
        } else {
            Scope::Custom(String::from_str(value))
        }
    }

    /// The position of a built-in scope in the declaration order; 8 for a custom scope.
    pub open spec fn rank(scope: ScopeView) -> int {
        match scope {
            ScopeView::Admin => 0,
            ScopeView::TenantRead => 1,
            ScopeView::TenantWrite => 2,
            ScopeView::ProvisioningManage => 3,
            ScopeView::OrchestrationManage => 4,
            ScopeView::ApiKeyManage => 5,
            ScopeView::AgentExecute => 6,
            ScopeView::WorkflowExecute => 7,
            ScopeView::Custom(_) => 8,
        }
    }

    fn is_variant(&self, rank: u8) -> (same: bool)
        ensures
            same == (Self::rank(self.deep_view()) == rank),
    {
        match self {
            Scope::Admin => rank == 0,
            Scope::TenantRead => rank == 1,
            Scope::TenantWrite => rank == 2,
            Scope::ProvisioningManage => rank == 3,
            Scope::OrchestrationManage => rank == 4,
            Scope::ApiKeyManage => rank == 5,
            Scope::AgentExecute => rank == 6,
            Scope::WorkflowExecute => rank == 7,
            Scope::Custom(_) => rank == 8,
        }
    }

    /// The wire text as an owned string.
    pub fn to_text(&self) -> (text: String)
        ensures
            text@ == scope_text(self.deep_view()),
    {
        String::from_str(self.as_str())
    }
}

impl Clone for Scope {
    fn clone(&self) -> (copy: Self)
        ensures
            copy.deep_view() == self.deep_view(),
    {
        match self {
            Scope::Admin => Scope::Admin,
            Scope::TenantRead => Scope::TenantRead,
            Scope::TenantWrite => Scope::TenantWrite,
            Scope::ProvisioningManage => Scope::ProvisioningManage,
            Scope::OrchestrationManage => Scope::OrchestrationManage,
            Scope::ApiKeyManage => Scope::ApiKeyManage,
            Scope::AgentExecute => Scope::AgentExecute,
            Scope::WorkflowExecute => Scope::WorkflowExecute,
            Scope::Custom(value) => Scope::Custom(value.clone()),
        }
    }
}

impl PartialEq for Scope {
    fn eq(&self, other: &Self) -> (same: bool) {
        match self {
            Scope::Admin => other.is_variant(0),
            Scope::TenantRead => other.is_variant(1),
            Scope::TenantWrite => other.is_variant(2),
            Scope::ProvisioningManage => other.is_variant(3),
            Scope::OrchestrationManage => other.is_variant(4),
            Scope::ApiKeyManage => other.is_variant(5),
            Scope::AgentExecute => other.is_variant(6),
            Scope::WorkflowExecute => other.is_variant(7),
            Scope::Custom(a) => match other {
                Scope::Custom(b) => *a == *b,
                _ => false,
            },
        }
    }
}

impl vstd::std_specs::cmp::PartialEqSpecImpl for Scope {
    open spec fn obeys_eq_spec() -> bool {
        true
    }

    open spec fn eq_spec(&self, other: &Self) -> bool {
        self.deep_view() == other.deep_view()
    }
}

impl Eq for Scope {}

/// Copies a list of scopes.
pub fn clone_scopes(scopes: &Vec<Scope>) -> (copy: Vec<Scope>)
    ensures
        copy.deep_view() == scopes.deep_view(),
{
    let mut copy: Vec<Scope> = Vec::new();
    let mut i: usize = 0;
    while i < scopes.len()
        invariant
            i <= scopes.len(),
            copy@.len() == i,
            forall|j: int| 0 <= j < i ==> copy@[j].deep_view() == scopes@[j].deep_view(),
        decreases scopes.len() - i,
    {
        copy.push(scopes[i].clone());
        i = i + 1;
    }
    assert(copy.deep_view() =~= scopes.deep_view());
    copy
}

/// A named bundle of scopes.
#[derive(Debug, PartialEq, Eq)]
pub struct Role {
    pub name: String,
    pub description: Option<String>,
    pub scopes: Vec<Scope>,
}

/// The mathematical value of a [`Role`].
pub struct RoleView {
    pub name: Seq<char>,
    pub description: Option<Seq<char>>,
    pub scopes: Seq<ScopeView>,
}

impl DeepView for Role {
    type V = RoleView;

    open spec fn deep_view(&self) -> RoleView {
        RoleView {
            name: self.name@,
            description: self.description.deep_view(),
            scopes: self.scopes.deep_view(),
        }
    }
}

impl Clone for Role {
    fn clone(&self) -> (copy: Self)
        ensures
            copy.deep_view() == self.deep_view(),
    {
        Role {
            name: self.name.clone(),
            description: clone_opt_text(&self.description),
            scopes: clone_scopes(&self.scopes),
        }
    }
}

/// The roles every registry starts with.
pub open spec fn default_roles() -> Seq<RoleView> {
    seq![
        RoleView {
            name: "admin"@,
            description: Some("Full administrative access"@),
            scopes: seq![ScopeView::Admin],
        },
        RoleView {
            name: "operator"@,
            description: Some("Manage provisioning and orchestration"@),
            scopes: seq![
                ScopeView::TenantRead,
                ScopeView::TenantWrite,
                ScopeView::ProvisioningManage,
                ScopeView::OrchestrationManage,
                ScopeView::ApiKeyManage,
            ],
        },
        RoleView {
            name: "agent"@,
            description: Some("Execute workflows and tasks"@),
            scopes: seq![ScopeView::AgentExecute, ScopeView::WorkflowExecute],
        },
        RoleView {
            name: "viewer"@,
            description: Some("Read-only access to tenant resources"@),
            scopes: seq![ScopeView::TenantRead],
        },
    ]
}

/// The position of the first role called `name`, or the number of roles if there is none.
pub open spec fn role_position(roles: Seq<RoleView>, name: Seq<char>) -> int
    decreases roles.len(),
{
    if roles.len() == 0 {
        0
    } else if roles[0].name == name {
        0
    } else {
        1 + role_position(roles.drop_first(), name)
    }
}

/// The first role called `name`.
pub open spec fn find_role(roles: Seq<RoleView>, name: Seq<char>) -> Option<RoleView> {
    let at = role_position(roles, name);
    if at < roles.len() {
        Some(roles[at])
    } else {
        None
    }
}

/// `roles` with `role` in the place of the first role of the same name, or at the end
/// if no role has that name.
pub open spec fn with_role(roles: Seq<RoleView>, role: RoleView) -> Seq<RoleView> {
    let at = role_position(roles, role.name);
    if at < roles.len() {
        roles.update(at, role)
    } else {
        roles.push(role)
    }
}

/// What `role_position` returns: an index within bounds that holds the name with no
/// earlier index holding it, or the length when no index holds it.
pub proof fn lemma_role_position(roles: Seq<RoleView>, name: Seq<char>)
    ensures
        0 <= role_position(roles, name) <= roles.len(),
        role_position(roles, name) < roles.len() ==> roles[role_position(roles, name)].name
            == name,
        forall|j: int| 0 <= j < role_position(roles, name) ==> (#[trigger] roles[j]).name != name,
    decreases roles.len(),
{
    if roles.len() > 0 && roles[0].name != name {
        let rest = roles.drop_first();
        lemma_role_position(rest, name);
        assert forall|j: int| 0 <= j < role_position(roles, name) implies (#[trigger] roles[j]).name
            != name by {
            if j > 0 {
                assert(roles[j] == rest[j - 1]);
            }
        }
    }
}

/// An index that holds `name` with no earlier index holding it is the position of `name`.
pub proof fn lemma_role_position_is(roles: Seq<RoleView>, name: Seq<char>, at: int)
    requires
        0 <= at <= roles.len(),
        at < roles.len() ==> roles[at].name == name,
        forall|j: int| 0 <= j < at ==> (#[trigger] roles[j]).name != name,
    ensures
        role_position(roles, name) == at,
{
    lemma_role_position(roles, name);
    let p = role_position(roles, name);
    if p < at {
        assert(roles[p].name == name);
    } else if p > at {
        assert(roles[at].name == name);
    }
}

/// The registry of named roles.
#[derive(Debug)]
pub struct ScopeRegistry {
    roles: Vec<Role>,
}

impl View for ScopeRegistry {
    type V = Seq<RoleView>;

    closed spec fn view(&self) -> Seq<RoleView> {
        self.roles.deep_view()
    }
}

impl Default for ScopeRegistry {
    fn default() -> (registry: Self)
        ensures
            registry@ == default_roles(),
    {
        let mut registry = ScopeRegistry { roles: Vec::new() };
        registry.seed_defaults();
        registry
    }
}

impl ScopeRegistry {
    /// A registry holding the four default roles: admin, operator, agent and viewer.
    pub fn new() -> (registry: Self)
        ensures
            registry@ == default_roles(),
    {
        let mut registry = ScopeRegistry { roles: Vec::new() };
        registry.seed_defaults();
        registry
    }

    fn seed_defaults(&mut self)
        requires
            old(self)@.len() == 0,
        ensures
            final(self)@ == default_roles(),
    {
        self.roles.push(Role {
            name: String::from_str("admin"),
            description: Some(String::from_str("Full administrative access")),
            scopes: vec![Scope::Admin],
        });
        self.roles.push(Role {
            name: String::from_str("operator"),
            description: Some(String::from_str("Manage provisioning and orchestration")),
            scopes: vec![
                Scope::TenantRead,
                Scope::TenantWrite,
                Scope::ProvisioningManage,
                Scope::OrchestrationManage,
                Scope::ApiKeyManage,
            ],
        });
        self.roles.push(Role {
            name: String::from_str("agent"),
            description: Some(String::from_str("Execute workflows and tasks")),
            scopes: vec![Scope::AgentExecute, Scope::WorkflowExecute],
        });
        self.roles.push(Role {
            name: String::from_str("viewer"),
            description: Some(String::from_str("Read-only access to tenant resources")),
            scopes: vec![Scope::TenantRead],
        });
        proof {
            let got = self.roles.deep_view();
            let want = default_roles();
            assert(got.len() == 4);
            assert(got[0].scopes =~= want[0].scopes);
            assert(got[1].scopes =~= want[1].scopes);
            assert(got[2].scopes =~= want[2].scopes);
            assert(got[3].scopes =~= want[3].scopes);
            assert(got =~= want);
        }
    }

    /// Adds a role, or replaces the role of the same name.
    pub fn register_role(&mut self, role: Role)
        ensures
            final(self)@ == with_role(old(self)@, role.deep_view()),
    {
        let mut i: usize = 0;
        while i < self.roles.len()
            invariant
                i <= self.roles.len(),
                self.roles == old(self).roles,
                forall|j: int| 0 <= j < i ==> (#[trigger] self.roles@[j]).name@ != role.name@,
            decreases self.roles.len() - i,
        {
            if self.roles[i].name == role.name {
                proof {
                    let views = self.roles.deep_view();
                    assert forall|j: int| 0 <= j < i implies (#[trigger] views[j]).name
                        != role.name@ by {
                        assert(views[j] == self.roles@[j].deep_view());
                    }
                    lemma_role_position_is(views, role.name@, i as int);
                }
                let ghost before = self.roles.deep_view();
                let ghost added = role.deep_view();
                self.roles.set(i, role);
                assert(self.roles.deep_view() =~= before.update(i as int, added));
                return;
            }
            i = i + 1;
        }
        proof {
            let views = self.roles.deep_view();
            assert forall|j: int| 0 <= j < views.len() implies (#[trigger] views[j]).name
                != role.name@ by {
                assert(views[j] == self.roles@[j].deep_view());
            }
            lemma_role_position_is(views, role.name@, views.len() as int);
        }
        let ghost before = self.roles.deep_view();
        let ghost added = role.deep_view();
        self.roles.push(role);
        assert(self.roles.deep_view() =~= before.push(added));
    }

    /// The first role called `name`.
    pub fn get_role(&self, name: &str) -> (role: Option<&Role>)
        ensures
            role.deep_view() == find_role(self@, name@),
    {
        let mut i: usize = 0;
        while i < self.roles.len()
            invariant
                i <= self.roles.len(),
                forall|j: int| 0 <= j < i ==> (#[trigger] self.roles@[j]).name@ != name@,
            decreases self.roles.len() - i,
        {
            if same_text(self.roles[i].name.as_str(), name) {
                proof {
                    let views = self.roles.deep_view();
                    assert forall|j: int| 0 <= j < i implies (#[trigger] views[j]).name
                        != name@ by {
                        assert(views[j] == self.roles@[j].deep_view());
                    }
                    lemma_role_position_is(views, name@, i as int);
                }
                return Some(&self.roles[i]);
            }
            i = i + 1;
        }
        proof {
            let views = self.roles.deep_view();
            assert forall|j: int| 0 <= j < views.len() implies (#[trigger] views[j]).name
                != name@ by {
                assert(views[j] == self.roles@[j].deep_view());
            }
            lemma_role_position_is(views, name@, views.len() as int);
        }
        None
    }

    /// All roles, in registration order.
    pub fn roles(&self) -> (roles: &Vec<Role>)
        ensures
            roles.deep_view() == self@,
    {
        &self.roles
    }
}

/// A registry with the default roles.
pub fn default_scope_registry() -> (registry: ScopeRegistry)
    ensures
        registry@ == default_roles(),
{
    ScopeRegistry::new()
}

} // verus!
