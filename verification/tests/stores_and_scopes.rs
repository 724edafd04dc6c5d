use cncore::build_info::build_info;
use cncore::config::{AppConfig, DatabaseConfig};
use cncore::error::{map_error, map_store_failure, PlatformError, StoreFailure};
use cncore::gateway::{
    bearer_token, is_public_path, normalize_path, scopes_listed, validate_api_key,
    AgentPresenceFilter, AuthStatus, RateWindow,
};
use cncore::json::Member;
use cncore::stores::{TaskStore, TenantStore};
use cncore::models::{
    default_visibility, Agent, AgentMetadata, AgentStatus, ApiKeyRecord, ContentVisibility, Project,
    Task, TaskStatus, Tenant, TenantSettings, UploadStatus, Workflow,
};
use cncore::json::JsonValue;
use cncore::persistence::InMemoryPersistence;
use cncore::scope::{default_scope_registry, Role, Scope, ScopeRegistry};
use cncore::text::{blank, text_le, to_ascii_lower};
use cncore::time::{after, before, hours, minutes, seconds, span_of_seconds, to_seconds};

fn tenant(id: u128, name: &str) -> Tenant {
    Tenant { id, name: name.into(), created_at: 0, settings: TenantSettings::default() }
}

fn project(id: u128, tenant_id: u128, name: &str) -> Project {
    Project { id, tenant_id, name: name.into(), created_at: 0 }
}

fn agent(id: u128, tenant_id: u128, project_id: u128, hostname: &str) -> Agent {
    Agent {
        id,
        tenant_id,
        project_id,
        hostname: hostname.into(),
        status: AgentStatus::Registered,
        last_seen: None,
        created_at: 0,
        metadata: AgentMetadata::default(),
    }
}

fn key(id: u128, tenant_id: u128, prefix: &str, created_at: i64) -> ApiKeyRecord {
    ApiKeyRecord {
        id,
        tenant_id,
        label: "k".into(),
        scopes: vec![Scope::Admin],
        token_prefix: prefix.into(),
        token_hash: "h".into(),
        created_at,
        last_used_at: None,
        revoked: false,
        deleted_at: None,
        rotated_from: None,
        rotated_to: None,
    }
}

fn task(id: u128, tenant_id: u128, status: TaskStatus, scheduled_at: i64) -> Task {
    Task {
        id,
        tenant_id,
        kind: "k".into(),
        payload: JsonValue::Null,
        status,
        attempts: 0,
        scheduled_at,
        started_at: None,
        completed_at: None,
        last_error: None,
        result: None,
        timeouts: None,
    }
}

#[test]
fn build_info_has_version() {
    let info = build_info();
    assert!(!info.version.is_empty());
    assert_eq!(info.package, "cncore");
}

#[test]
fn normalize_path_reduces_ids() {
    assert_eq!(normalize_path("/agents").as_str(), "/agents");
    assert_eq!(normalize_path("/agents/123").as_str(), "/agents/:id");
    assert_eq!(
        normalize_path("/agents/550e8400-e29b-41d4-a716-446655440000").as_str(),
        "/agents/:id"
    );
}

#[test]
fn normalize_path_keeps_what_is_no_identifier() {
    assert_eq!(normalize_path(""), "");
    assert_eq!(normalize_path("/"), "/");
    assert_eq!(normalize_path("/health"), "/health");
    assert_eq!(normalize_path("//a//"), "//a//");
    assert_eq!(normalize_path("42"), ":id");
    assert_eq!(normalize_path("/tenants/7/projects/08/x"), "/tenants/:id/projects/:id/x");
    assert_eq!(normalize_path("/a/12a"), "/a/12a");
    // Eight characters at least, two hyphens at least, hexadecimal digits and hyphens.
    assert_eq!(normalize_path("/a/ab-cd-ef"), "/a/:id");
    assert_eq!(normalize_path("/a/AB-CD-EF"), "/a/:id");
    assert_eq!(normalize_path("/a/ab-cd-e"), "/a/ab-cd-e");
    assert_eq!(normalize_path("/a/abcdef-12"), "/a/abcdef-12");
    assert_eq!(normalize_path("/a/ab-cd-eg"), "/a/ab-cd-eg");
    assert_eq!(normalize_path("/a/--------"), "/a/:id");
    assert_eq!(normalize_path("/\u{e9}/1"), "/\u{e9}/:id");
}

#[test]
fn scope_texts_round_trip() {
    let all = [
        (Scope::Admin, "admin"),
        (Scope::TenantRead, "tenant:read"),
        (Scope::TenantWrite, "tenant:write"),
        (Scope::ProvisioningManage, "provisioning:manage"),
        (Scope::OrchestrationManage, "orchestration:manage"),
        (Scope::ApiKeyManage, "apikey:manage"),
        (Scope::AgentExecute, "agent:execute"),
        (Scope::WorkflowExecute, "workflow:execute"),
    ];
    for (scope, text) in all {
        assert_eq!(scope.as_str(), text);
        assert_eq!(scope.to_text(), text);
        assert_eq!(Scope::from_str(text), scope);
        assert!(!scope.is_custom());
        assert_eq!(scope.clone(), scope);
    }
    let custom = Scope::from_str("project:42");
    assert_eq!(custom, Scope::Custom("project:42".into()));
    assert!(custom.is_custom());
    assert_eq!(custom.as_str(), "project:42");
    assert_ne!(Scope::Custom("admin".into()), Scope::Admin);
    assert_ne!(Scope::Custom("a".into()), Scope::Custom("b".into()));
    assert_eq!(Scope::from_str(""), Scope::Custom(String::new()));
    assert_eq!(Scope::from_str("Admin"), Scope::Custom("Admin".into()));
}

#[test]
fn registry_has_the_default_roles() {
    let registry = ScopeRegistry::new();
    let names: Vec<&str> = registry.roles().iter().map(|r| r.name.as_str()).collect();
    assert_eq!(names, vec!["admin", "operator", "agent", "viewer"]);
    assert_eq!(registry.get_role("admin").unwrap().scopes, vec![Scope::Admin]);
    assert_eq!(
        registry.get_role("operator").unwrap().scopes,
        vec![
            Scope::TenantRead,
            Scope::TenantWrite,
            Scope::ProvisioningManage,
            Scope::OrchestrationManage,
            Scope::ApiKeyManage,
        ]
    );
    assert_eq!(
        registry.get_role("agent").unwrap().scopes,
        vec![Scope::AgentExecute, Scope::WorkflowExecute]
    );
    assert_eq!(
        registry.get_role("viewer").unwrap().description.as_deref(),
        Some("Read-only access to tenant resources")
    );
    assert!(registry.get_role("nobody").is_none());
    assert_eq!(default_scope_registry().roles().len(), 4);
    assert_eq!(ScopeRegistry::default().roles().len(), 4);
}

#[test]
fn registering_a_role_adds_or_replaces() {
    let mut registry = ScopeRegistry::new();
    registry.register_role(Role {
        name: "auditor".into(),
        description: None,
        scopes: vec![Scope::TenantRead],
    });
    assert_eq!(registry.roles().len(), 5);
    assert_eq!(registry.roles()[4].name, "auditor");
    registry.register_role(Role {
        name: "operator".into(),
        description: Some("narrowed".into()),
        scopes: vec![Scope::TenantRead],
    });
    assert_eq!(registry.roles().len(), 5);
    assert_eq!(registry.roles()[1].name, "operator");
    assert_eq!(registry.get_role("operator").unwrap().scopes, vec![Scope::TenantRead]);
    assert_eq!(
        registry.get_role("operator").unwrap().description.as_deref(),
        Some("narrowed")
    );
    assert_eq!(registry.get_role("admin").unwrap().scopes, vec![Scope::Admin]);
}

#[test]
fn errors_have_messages_statuses_and_codes() {
    let all = [
        (PlatformError::NotFound("task"), "not found: task", 404, -1),
        (PlatformError::Conflict("tenant"), "conflict: tenant", 409, -1),
        (PlatformError::Unauthorized, "unauthorized", 401, -2),
        (PlatformError::Forbidden, "forbidden", 403, -2),
        (PlatformError::InvalidInput("bad"), "invalid input: bad", 400, -1),
        (PlatformError::Internal("oops"), "internal error: oops", 500, -3),
    ];
    for (error, message, status, code) in all {
        assert_eq!(error.message(), message);
        assert_eq!(error.http_status(), status);
        assert_eq!(map_error(error), code);
    }
}

#[test]
fn status_names_are_read_back() {
    for status in [
        UploadStatus::Pending,
        UploadStatus::Uploading,
        UploadStatus::Completed,
        UploadStatus::Failed,
        UploadStatus::Cancelled,
    ] {
        assert_eq!(UploadStatus::parse(status.as_str()), Ok(status));
    }
    assert_eq!(UploadStatus::Uploading.as_str(), "uploading");
    assert_eq!(
        UploadStatus::parse("Pending"),
        Err(PlatformError::InvalidInput("invalid upload status"))
    );
    for visibility in [
        ContentVisibility::Private,
        ContentVisibility::Project,
        ContentVisibility::Tenant,
        ContentVisibility::Public,
    ] {
        assert_eq!(ContentVisibility::parse(visibility.as_str()), Ok(visibility));
    }
    assert_eq!(ContentVisibility::Tenant.as_str(), "tenant");
    assert_eq!(
        ContentVisibility::parse(""),
        Err(PlatformError::InvalidInput("invalid content visibility"))
    );
    assert_eq!(default_visibility(), ContentVisibility::Project);
}

#[test]
fn presence_filter_reads_names_and_ages() {
    assert_eq!(AgentPresenceFilter::parse("active"), Some(AgentPresenceFilter::Active));
    assert_eq!(AgentPresenceFilter::parse("STALE"), Some(AgentPresenceFilter::Stale));
    assert_eq!(AgentPresenceFilter::parse("Offline"), Some(AgentPresenceFilter::Offline));
    assert_eq!(AgentPresenceFilter::parse("gone"), None);
    assert_eq!(to_ascii_lower("AbC-\u{c9}z"), "abc-\u{c9}z");
    let now = 1_000_000;
    assert!(AgentPresenceFilter::Active.matches(Some(now - 30_000), now));
    assert!(!AgentPresenceFilter::Active.matches(Some(now - 30_001), now));
    assert!(AgentPresenceFilter::Stale.matches(Some(now - 30_001), now));
    assert!(AgentPresenceFilter::Stale.matches(Some(now - 300_000), now));
    assert!(!AgentPresenceFilter::Stale.matches(Some(now - 300_001), now));
    assert!(AgentPresenceFilter::Offline.matches(Some(now - 300_001), now));
    assert!(AgentPresenceFilter::Offline.matches(None, now));
    assert!(!AgentPresenceFilter::Active.matches(None, now));
    assert!(AgentPresenceFilter::Active.matches(Some(i64::MAX), i64::MIN));
    assert!(AgentPresenceFilter::Offline.matches(Some(i64::MIN), i64::MAX));
}

#[test]
fn spans_and_instants_saturate() {
    assert_eq!(seconds(2), 2_000);
    assert_eq!(minutes(5), 300_000);
    assert_eq!(hours(12), 43_200_000);
    assert_eq!(minutes(-1), -60_000);
    assert_eq!(seconds(i64::MAX), i64::MAX);
    assert_eq!(hours(i64::MIN), i64::MIN);
    assert_eq!(span_of_seconds(30), 30_000);
    assert_eq!(span_of_seconds(u64::MAX), i64::MAX);
    assert_eq!(span_of_seconds(9_223_372_036_854_775), 9_223_372_036_854_775_000);
    assert_eq!(span_of_seconds(9_223_372_036_854_776), i64::MAX);
    assert_eq!(after(10, 5), 15);
    assert_eq!(after(10, -15), -5);
    assert_eq!(after(i64::MAX, 1), i64::MAX);
    assert_eq!(after(i64::MIN, -1), i64::MIN);
    assert_eq!(before(10, 15), -5);
    assert_eq!(before(i64::MIN, 1), i64::MIN);
    assert_eq!(before(0, i64::MIN), i64::MAX);
    assert_eq!(to_seconds(0), 0);
    assert_eq!(to_seconds(999), 0);
    assert_eq!(to_seconds(1_000), 1);
    assert_eq!(to_seconds(-1), -1);
    assert_eq!(to_seconds(-1_000), -1);
    assert_eq!(to_seconds(-1_001), -2);
    assert_eq!(to_seconds(i64::MIN), -9_223_372_036_854_776);
}

#[test]
fn texts_are_ordered_like_strings() {
    let samples = ["", "a", "ab", "b", "B", "\u{e9}", "a\u{0}", "aa"];
    for a in samples {
        for b in samples {
            assert_eq!(text_le(a, b), a <= b, "{a:?} <= {b:?}");
        }
    }
    assert!(blank(""));
    assert!(blank(" \t\r\n\u{3000}"));
    assert!(!blank(" x "));
    assert!(!blank("\u{200b}"));
}

#[test]
fn stores_reject_duplicates_and_missing_targets() {
    let mut store = InMemoryPersistence::new();
    store.insert_tenant(tenant(1, "one")).unwrap();
    assert_eq!(
        store.insert_tenant(tenant(1, "again")).unwrap_err(),
        PlatformError::Conflict("tenant")
    );
    assert_eq!(store.get_tenant(1).unwrap().unwrap().name, "one");
    assert_eq!(store.get_tenant(2).unwrap(), None);

    assert_eq!(
        store.insert_project(project(10, 2, "p")).unwrap_err(),
        PlatformError::NotFound("tenant")
    );
    store.insert_project(project(10, 1, "p")).unwrap();
    assert_eq!(
        store.insert_project(project(10, 1, "q")).unwrap_err(),
        PlatformError::Conflict("project")
    );
    assert_eq!(store.get_project(10).unwrap().unwrap().name, "p");

    assert_eq!(
        store.insert_agent(agent(100, 2, 10, "h")).unwrap_err(),
        PlatformError::NotFound("tenant")
    );
    assert_eq!(
        store.insert_agent(agent(100, 1, 11, "h")).unwrap_err(),
        PlatformError::NotFound("project")
    );
    store.insert_agent(agent(100, 1, 10, "h")).unwrap();
    assert_eq!(
        store.insert_agent(agent(100, 1, 10, "h")).unwrap_err(),
        PlatformError::Conflict("agent")
    );
    assert_eq!(
        store.update_agent(agent(101, 1, 10, "h")).unwrap_err(),
        PlatformError::NotFound("agent")
    );
    let mut changed = agent(100, 1, 10, "renamed");
    changed.status = AgentStatus::Active;
    store.update_agent(changed.clone()).unwrap();
    assert_eq!(store.get_agent(100).unwrap(), Some(changed));

    store.insert_api_key(key(1000, 1, "aaaa", 5)).unwrap();
    assert_eq!(
        store.insert_api_key(key(1001, 1, "aaaa", 5)).unwrap_err(),
        PlatformError::Conflict("api_key")
    );
    assert_eq!(
        store.insert_api_key(key(1000, 1, "bbbb", 5)).unwrap_err(),
        PlatformError::Conflict("api_key")
    );
    store.insert_api_key(key(1001, 1, "bbbb", 3)).unwrap();
    assert_eq!(store.get_api_key_by_prefix("bbbb").unwrap().unwrap().id, 1001);
    assert_eq!(store.get_api_key_by_prefix("cccc").unwrap(), None);
    assert_eq!(
        store.update_api_key(key(1002, 1, "cccc", 5)).unwrap_err(),
        PlatformError::NotFound("api_key")
    );
    // A record may not take the prefix of another.
    assert_eq!(
        store.update_api_key(key(1001, 1, "aaaa", 3)).unwrap_err(),
        PlatformError::Conflict("api_key")
    );
    let mut revoked = key(1001, 1, "bbbb", 3);
    revoked.revoked = true;
    store.update_api_key(revoked).unwrap();
    assert!(store.get_api_key(1001).unwrap().unwrap().revoked);

    store.enqueue_task(task(1, 1, TaskStatus::Pending, 5)).unwrap();
    assert_eq!(
        store.enqueue_task(task(1, 1, TaskStatus::Pending, 5)).unwrap_err(),
        PlatformError::Conflict("task")
    );
    assert_eq!(
        store.update_task(task(2, 1, TaskStatus::Pending, 5)).unwrap_err(),
        PlatformError::NotFound("task")
    );
    assert_eq!(store.get_task(2).unwrap(), None);

    let workflow = Workflow { id: 7, tenant_id: 1, name: "w".into(), steps: vec![], created_at: 0 };
    store.insert_workflow(workflow.clone()).unwrap();
    assert_eq!(
        store.insert_workflow(workflow.clone()).unwrap_err(),
        PlatformError::Conflict("workflow")
    );
    assert_eq!(store.get_workflow(7).unwrap(), Some(workflow));
    assert_eq!(store.get_workflow(8).unwrap(), None);
}

#[test]
fn listings_are_sorted_and_stable() {
    let mut store = InMemoryPersistence::new();
    for (id, name) in [(1, "beta"), (2, "alpha"), (3, "beta"), (4, "Alpha")] {
        store.insert_tenant(tenant(id, name)).unwrap();
    }
    let ids: Vec<u128> = store.list_tenants().unwrap().iter().map(|t| t.id).collect();
    assert_eq!(ids, vec![4, 2, 1, 3]);

    for (id, owner, name) in [(10, 1, "z"), (11, 2, "a"), (12, 1, "a"), (13, 1, "m")] {
        store.insert_project(project(id, owner, name)).unwrap();
    }
    let ids: Vec<u128> = store.list_projects(1).unwrap().iter().map(|p| p.id).collect();
    assert_eq!(ids, vec![12, 13, 10]);
    assert!(store.list_projects(9).unwrap().is_empty());

    for (id, host) in [(100, "web-2"), (101, "db"), (102, "web-1")] {
        store.insert_agent(agent(id, 1, 10, host)).unwrap();
    }
    let hosts: Vec<String> =
        store.list_agents(1).unwrap().into_iter().map(|a| a.hostname).collect();
    assert_eq!(hosts, vec!["db", "web-1", "web-2"]);

    for (id, prefix, created) in [(1000, "aaaa", 30), (1001, "bbbb", 10), (1002, "cccc", 20)] {
        store.insert_api_key(key(id, 1, prefix, created)).unwrap();
    }
    let ids: Vec<u128> = store.list_api_keys(1).unwrap().iter().map(|k| k.id).collect();
    assert_eq!(ids, vec![1001, 1002, 1000]);

    for (id, owner, name) in [(7, 1, "b"), (8, 1, "a"), (9, 2, "0")] {
        store
            .insert_workflow(Workflow { id, tenant_id: owner, name: name.into(), steps: vec![], created_at: 0 })
            .unwrap();
    }
    let ids: Vec<u128> = store.list_workflows(1).unwrap().iter().map(|w| w.id).collect();
    assert_eq!(ids, vec![8, 7]);
}

#[test]
fn pending_listing_follows_the_status() {
    let mut store = InMemoryPersistence::new();
    store.enqueue_task(task(1, 1, TaskStatus::Pending, 30)).unwrap();
    store.enqueue_task(task(2, 1, TaskStatus::Pending, 10)).unwrap();
    store.enqueue_task(task(3, 2, TaskStatus::Pending, 5)).unwrap();
    store.enqueue_task(task(4, 1, TaskStatus::InProgress, 1)).unwrap();
    store.enqueue_task(task(5, 1, TaskStatus::Pending, 10)).unwrap();
    let ids = |store: &InMemoryPersistence| -> Vec<u128> {
        store.list_pending_tasks(1).unwrap().iter().map(|t| t.id).collect()
    };
    assert_eq!(ids(&store), vec![2, 5, 1]);
    // A task that leaves the pending status leaves the listing at once.
    store.update_task(task(2, 1, TaskStatus::InProgress, 10)).unwrap();
    assert_eq!(ids(&store), vec![5, 1]);
    store.update_task(task(5, 1, TaskStatus::Completed, 10)).unwrap();
    store.update_task(task(1, 1, TaskStatus::Failed, 30)).unwrap();
    assert!(ids(&store).is_empty());
    // And comes back when it is pending again.
    store.update_task(task(2, 1, TaskStatus::Pending, 99)).unwrap();
    store.update_task(task(4, 1, TaskStatus::Pending, 98)).unwrap();
    assert_eq!(ids(&store), vec![4, 2]);
}

#[test]
fn queue_hands_out_pending_tasks_in_the_order_they_became_pending() {
    let mut store = InMemoryPersistence::new();
    store.enqueue_task(task(1, 1, TaskStatus::Pending, 30)).unwrap();
    store.enqueue_task(task(2, 2, TaskStatus::Pending, 10)).unwrap();
    store.enqueue_task(task(3, 1, TaskStatus::InProgress, 5)).unwrap();
    store.enqueue_task(task(4, 1, TaskStatus::Pending, 1)).unwrap();
    // The order of the queue counts, not the instants the tasks are scheduled for.
    let first = store.peek_next_task_at(1, 777).unwrap().unwrap();
    assert_eq!(first.id, 1);
    assert_eq!(first.status, TaskStatus::InProgress);
    assert_eq!(first.started_at, Some(777));
    assert_eq!(store.get_task(1).unwrap(), Some(first));
    // A task that is pending again goes to the end of the queue.
    store.update_task(task(1, 1, TaskStatus::Pending, 30)).unwrap();
    assert_eq!(store.peek_next_task_at(1, 778).unwrap().unwrap().id, 4);
    assert_eq!(store.peek_next_task_at(1, 779).unwrap().unwrap().id, 1);
    assert_eq!(store.peek_next_task_at(1, 780).unwrap(), None);
    assert_eq!(store.peek_next_task(2).unwrap().unwrap().id, 2);
    assert_eq!(store.peek_next_task(2).unwrap(), None);
    assert!(store.list_pending_tasks(1).unwrap().is_empty());
}

#[test]
fn gateway_admits_keys_bearers_and_listed_scopes() {
    assert_eq!(validate_api_key(Some("k")), AuthStatus::Allow);
    assert_eq!(validate_api_key(Some("")), AuthStatus::Deny);
    assert_eq!(validate_api_key(None), AuthStatus::Deny);
    assert_eq!(bearer_token("Bearer abc.def"), Some("abc.def".to_string()));
    assert_eq!(bearer_token("Bearer "), Some(String::new()));
    assert_eq!(bearer_token("bearer abc"), None);
    assert_eq!(bearer_token("Bearer"), None);
    assert_eq!(bearer_token("Basic abc"), None);
    for path in ["/health", "/version", "/metrics", "/docs", "/api-docs/openapi.json"] {
        assert!(is_public_path(path));
    }
    assert!(!is_public_path("/agents"));
    assert!(!is_public_path("/health/"));
    let payload = JsonValue::Object(vec![
        Member { name: "sub".into(), value: JsonValue::text("demo") },
        Member {
            name: "scopes".into(),
            value: JsonValue::Array(vec![
                JsonValue::Number(1),
                JsonValue::text("ugc:read"),
                JsonValue::text("ugc:write"),
            ]),
        },
    ]);
    assert!(scopes_listed(&payload, "ugc:write"));
    assert!(scopes_listed(&payload, "ugc:read"));
    assert!(!scopes_listed(&payload, "ugc"));
    assert!(!scopes_listed(&JsonValue::Null, "ugc:read"));
    let not_a_list = JsonValue::Object(vec![Member {
        name: "scopes".into(),
        value: JsonValue::text("ugc:read"),
    }]);
    assert!(!scopes_listed(&not_a_list, "ugc:read"));

    let mut window = RateWindow::new(1_000);
    assert!(window.check_and_increment(1_000, 2, 60_000));
    assert!(window.check_and_increment(1_500, 2, 60_000));
    assert!(!window.check_and_increment(2_000, 2, 60_000));
    assert_eq!(window, RateWindow { window_start: 1_000, count: 2 });
    assert!(!window.check_and_increment(60_999, 2, 60_000));
    // A window as old as the span begins anew.
    assert!(window.check_and_increment(61_000, 2, 60_000));
    assert_eq!(window, RateWindow { window_start: 61_000, count: 1 });
    assert!(!RateWindow::new(0).check_and_increment(5, 0, 10));
}

#[test]
fn defaults_and_store_failures() {
    let config = AppConfig::default();
    assert_eq!(config.service_name, "cassandra-gateway");
    assert_eq!(config.log_level.as_deref(), Some("info"));
    assert_eq!(config.http.bind_addr, "127.0.0.1:8080");
    assert_eq!(config.database, DatabaseConfig::default());
    assert_eq!(config.database.url, "postgres://localhost:5432/cassandra");
    assert_eq!(config.database.max_connections, 5);
    assert_eq!(map_store_failure(StoreFailure::RowNotFound), PlatformError::NotFound("record"));
    assert_eq!(
        map_store_failure(StoreFailure::UniqueViolation),
        PlatformError::Conflict("record")
    );
    assert_eq!(
        map_store_failure(StoreFailure::Other),
        PlatformError::Internal("database error")
    );
}

fn fill_through_interfaces<S: TenantStore + TaskStore>(store: &mut S) -> usize {
    TenantStore::insert_tenant(store, tenant(1, "one")).unwrap();
    assert_eq!(
        TenantStore::insert_tenant(store, tenant(1, "one")).unwrap_err(),
        PlatformError::Conflict("tenant")
    );
    TaskStore::enqueue_task(store, task(5, 1, TaskStatus::Pending, 3)).unwrap();
    TaskStore::update_task(store, task(5, 1, TaskStatus::Completed, 3)).unwrap();
    TaskStore::list_pending_tasks(store, 1).unwrap().len()
        + TenantStore::list_tenants(store).unwrap().len()
}

#[test]
fn stores_answer_through_their_interfaces() {
    let mut store = InMemoryPersistence::new();
    assert_eq!(fill_through_interfaces(&mut store), 1);
    assert_eq!(TenantStore::get_tenant(&store, 1).unwrap().unwrap().name, "one");
}

#[test]
fn whitespace_is_what_std_takes_for_whitespace() {
    let mut buffer = [0u8; 4];
    for code in 0..=0x10ffffu32 {
        if let Some(c) = char::from_u32(code) {
            let text: &str = c.encode_utf8(&mut buffer);
            assert_eq!(blank(text), c.is_whitespace(), "U+{code:04X}");
        }
    }
    assert!(blank(" \t\r\n\u{b}\u{c}\u{85}\u{a0}\u{1680}\u{2000}\u{200a}\u{2028}\u{2029}\u{202f}\u{205f}\u{3000}"));
    assert!(!blank("Acme"));
    assert!(!blank(" \u{200b} "));
    assert!(!blank("\u{feff}"));
    assert!(blank(""));
}
