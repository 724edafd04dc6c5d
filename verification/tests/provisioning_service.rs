use cncore::auth::AuthService;
use cncore::error::PlatformError;
use cncore::models::{AgentMetadata, AgentStatus, PrincipalType, Tag, TenantSettings};
use cncore::persistence::InMemoryPersistence;
use cncore::provisioning::{
    AgentRegistrationOptions, ProjectCreateRequest, ProvisioningService, TenantCreateRequest,
};
use cncore::registry::PlatformServices;
use cncore::scope::Scope;
use cncore::time::minutes;

fn now() -> i64 {
    chrono::Utc::now().timestamp_millis()
}

fn text_of(id: u128) -> String {
    uuid::Uuid::from_u128(id).to_string()
}

#[test]
fn tenant_and_agent_flow() {
    let mut storage = InMemoryPersistence::new();
    let auth = AuthService::new(b"secret".to_vec());
    let mut provisioning = ProvisioningService::new().with_heartbeat_timeout(minutes(1));

    let mut tenant_request = TenantCreateRequest::new("Example");
    tenant_request.idempotency_key = Some("tenant-key".into());
    tenant_request.bootstrap_scripts = vec!["setup.sh".into()];
    let tenant_bundle = provisioning
        .create_tenant_with_options(&mut storage, &auth, tenant_request)
        .unwrap();
    let tenant = tenant_bundle.tenant.clone();
    assert!(tenant_bundle.default_api_key.is_some());
    // idempotency returns same tenant
    let mut tenant_retry = TenantCreateRequest::new("Example");
    tenant_retry.idempotency_key = Some("tenant-key".into());
    let tenant_second = provisioning
        .create_tenant_with_options(&mut storage, &auth, tenant_retry)
        .unwrap();
    assert_eq!(tenant_second.tenant.id, tenant.id);

    let mut project_request = ProjectCreateRequest::new(tenant.id, "ExampleGame");
    project_request.idempotency_key = Some("project-key".into());
    project_request.bootstrap_scripts = vec!["deploy.sh".into()];
    let project_bundle = provisioning
        .create_project_with_options(&mut storage, project_request)
        .unwrap();
    let project = project_bundle.project.clone();
    assert_eq!(project_bundle.bootstrap_scripts.len(), 1);
    let mut project_retry = ProjectCreateRequest::new(tenant.id, "ExampleGame");
    project_retry.idempotency_key = Some("project-key".into());
    let project_second = provisioning
        .create_project_with_options(&mut storage, project_retry)
        .unwrap();
    assert_eq!(project_second.project.id, project.id);

    let metadata_tags = vec![Tag { key: "region".into(), value: "us-east".into() }];
    let mut agent_options = AgentRegistrationOptions::default();
    agent_options.metadata = Some(AgentMetadata {
        capabilities: vec!["compute".into()],
        tags: metadata_tags,
    });
    agent_options.bootstrap_commands = vec!["install.sh".into()];
    let provisioned = provisioning
        .register_agent_with_options(&mut storage, &auth, tenant.id, project.id, "agent-1", agent_options)
        .unwrap();
    assert_eq!(provisioned.agent.tenant_id, tenant.id);
    assert_eq!(provisioned.api_key.tenant_id, tenant.id);
    assert_eq!(provisioned.bootstrap_commands.len(), 1);

    provisioning
        .record_agent_heartbeat(&mut storage, provisioned.agent.id, None)
        .unwrap();
    // make agent stale and ensure suspension sweep works
    let mut stale_agent = storage.get_agent(provisioned.agent.id).unwrap().unwrap();
    stale_agent.last_seen = Some(now() - minutes(5));
    stale_agent.status = AgentStatus::Active;
    storage.update_agent(stale_agent).unwrap();
    let suspended = provisioning.sweep_inactive_agents(&mut storage).unwrap();
    assert_eq!(suspended.len(), 1);
    assert_eq!(suspended[0].status, AgentStatus::Suspended);

    let svc_key = provisioning
        .provision_service_account(
            &mut storage,
            &auth,
            tenant.id,
            "svc:metrics",
            vec![Scope::ProvisioningManage],
        )
        .unwrap();
    assert_eq!(svc_key.tenant_id, tenant.id);
}

#[test]
fn tenant_bootstrap() {
    let mut services = PlatformServices::in_memory(b"dev-secret".to_vec());
    let mut request = TenantCreateRequest::new("Acme");
    request.idempotency_key = Some("t1".into());
    request.bootstrap_scopes = vec![Scope::Admin];
    let bundle = services
        .provisioning
        .create_tenant_with_options(&mut services.storage, &services.auth, request)
        .unwrap();
    assert_eq!(bundle.tenant.name, "Acme");
    assert_eq!(bundle.tenant.settings, TenantSettings::default());
    let key = bundle.default_api_key.clone().unwrap();
    assert_eq!(key.scopes, vec![Scope::Admin]);
    assert_eq!(key.tenant_id, bundle.tenant.id);
    assert_eq!(key.label, format!("tenant:{}:default", text_of(bundle.tenant.id)));
    assert_eq!(
        bundle.bootstrap_scripts,
        vec![format!("cassctl bootstrap --tenant {}", text_of(bundle.tenant.id))]
    );
    let mut again = TenantCreateRequest::new("Another name");
    again.idempotency_key = Some("t1".into());
    let second = services
        .provisioning
        .create_tenant_with_options(&mut services.storage, &services.auth, again)
        .unwrap();
    assert_eq!(second.tenant.id, bundle.tenant.id);
    assert_eq!(second.tenant.name, "Acme");
    assert_eq!(second.default_api_key.unwrap().id, key.id);
    assert_eq!(second.bootstrap_scripts, bundle.bootstrap_scripts);
    assert_eq!(services.storage.list_tenants().unwrap().len(), 1);
    // The default key authenticates for the tenant.
    let ctx = services
        .auth
        .authenticate_api_key(&mut services.storage, &key.value)
        .unwrap();
    assert_eq!(ctx.tenant_id, bundle.tenant.id);
    // Without a key every request makes a tenant of its own.
    let a = services
        .provisioning
        .create_tenant(&mut services.storage, &services.auth, "Solo")
        .unwrap();
    let b = services
        .provisioning
        .create_tenant(&mut services.storage, &services.auth, "Solo")
        .unwrap();
    assert_ne!(a.id, b.id);
    assert_eq!(services.auth().list_keys(services.storage(), a.id).unwrap().len(), 1);
}

#[test]
fn tenant_with_fixed_inputs_is_exact() {
    let mut storage = InMemoryPersistence::new();
    let auth = AuthService::new(b"s".to_vec());
    let mut provisioning = ProvisioningService::new();
    let mut request = TenantCreateRequest::new("Fixed");
    request.bootstrap_scopes = vec![];
    request.settings = Some(TenantSettings {
        token_ttl_seconds: Some(60),
        ..TenantSettings::default()
    });
    let bundle = provisioning
        .create_tenant_with(&mut storage, &auth, request, 1, 2, &[9u8; 32], 5_000)
        .unwrap();
    assert_eq!(bundle.tenant.id, 1);
    assert_eq!(bundle.tenant.created_at, 5_000);
    assert_eq!(bundle.tenant.settings.token_ttl_seconds, Some(60));
    let key = bundle.default_api_key.unwrap();
    assert_eq!(key.id, 2);
    assert_eq!(key.scopes, vec![Scope::Admin]);
    assert_eq!(key.label, "tenant:00000000-0000-0000-0000-000000000001:default");
    assert_eq!(
        bundle.bootstrap_scripts,
        vec!["cassctl bootstrap --tenant 00000000-0000-0000-0000-000000000001".to_string()]
    );
    assert_eq!(
        provisioning
            .create_tenant_with(&mut storage, &auth, TenantCreateRequest::new("Dup"), 1, 3, &[9u8; 32], 6_000)
            .unwrap_err(),
        PlatformError::Conflict("tenant")
    );
    // Where the key cannot be issued, the error is returned and the tenant stays stored.
    assert_eq!(
        provisioning
            .create_tenant_with(&mut storage, &auth, TenantCreateRequest::new("KeyClash"), 7, 2, &[9u8; 32], 6_000)
            .unwrap_err(),
        PlatformError::Conflict("api_key")
    );
    assert!(storage.get_tenant(7).unwrap().is_some());
    let mut twice = TenantCreateRequest::new("Twice");
    twice.bootstrap_scopes = vec![Scope::TenantRead, Scope::TenantRead];
    assert_eq!(
        provisioning
            .create_tenant_with(&mut storage, &auth, twice, 8, 4, &[9u8; 32], 6_000)
            .unwrap_err(),
        PlatformError::InvalidInput("duplicate scopes")
    );
}

#[test]
fn blank_names_are_invalid_input() {
    let mut storage = InMemoryPersistence::new();
    let auth = AuthService::new(b"s".to_vec());
    let mut provisioning = ProvisioningService::new();
    for name in ["", " ", "\t\n", "\u{2003}\u{a0}"] {
        assert_eq!(
            provisioning.create_tenant(&mut storage, &auth, name).unwrap_err(),
            PlatformError::InvalidInput("tenant name required")
        );
    }
    assert!(storage.list_tenants().unwrap().is_empty());
    let tenant = provisioning.create_tenant(&mut storage, &auth, " a ").unwrap();
    assert_eq!(tenant.name, " a ");
    assert_eq!(
        provisioning.create_project(&mut storage, tenant.id, "  ").unwrap_err(),
        PlatformError::InvalidInput("project name required")
    );
    assert_eq!(
        provisioning.create_project(&mut storage, 12345, "p").unwrap_err(),
        PlatformError::NotFound("tenant")
    );
    let project = provisioning.create_project(&mut storage, tenant.id, "p").unwrap();
    assert_eq!(project.tenant_id, tenant.id);
    assert_eq!(
        provisioning
            .register_agent(&mut storage, &auth, tenant.id, project.id, " ")
            .unwrap_err(),
        PlatformError::InvalidInput("hostname required")
    );
    assert_eq!(
        provisioning
            .register_agent(&mut storage, &auth, tenant.id, 999, "h")
            .unwrap_err(),
        PlatformError::NotFound("project")
    );
    let other = provisioning.create_tenant(&mut storage, &auth, "other").unwrap();
    assert_eq!(
        provisioning
            .register_agent(&mut storage, &auth, other.id, project.id, "h")
            .unwrap_err(),
        PlatformError::Forbidden
    );
    assert_eq!(
        provisioning
            .provision_service_account(&mut storage, &auth, 999, "svc", vec![Scope::Admin])
            .unwrap_err(),
        PlatformError::NotFound("tenant")
    );
}

#[test]
fn project_bootstrap_defaults_and_idempotency() {
    let mut storage = InMemoryPersistence::new();
    let auth = AuthService::new(b"s".to_vec());
    let mut provisioning = ProvisioningService::new();
    let tenant = provisioning.create_tenant(&mut storage, &auth, "T").unwrap();
    let mut request = ProjectCreateRequest::new(tenant.id, "P");
    request.idempotency_key = Some("v1".into());
    let bundle = provisioning
        .create_project_with(&mut storage, request, 0xabc, 4_000)
        .unwrap();
    assert_eq!(bundle.project.id, 0xabc);
    assert_eq!(bundle.project.created_at, 4_000);
    assert_eq!(
        bundle.bootstrap_scripts,
        vec!["cassctl project init --project 00000000-0000-0000-0000-000000000abc".to_string()]
    );
    let mut retry = ProjectCreateRequest::new(tenant.id, "");
    retry.idempotency_key = Some("v1".into());
    let second = provisioning
        .create_project_with(&mut storage, retry, 0xdef, 5_000)
        .unwrap();
    assert_eq!(second.project.id, 0xabc);
    assert_eq!(storage.list_projects(tenant.id).unwrap().len(), 1);
    assert_eq!(
        provisioning
            .create_project_with(&mut storage, ProjectCreateRequest::new(tenant.id, "Q"), 0xabc, 1)
            .unwrap_err(),
        PlatformError::Conflict("project")
    );
}

#[test]
fn agent_lifecycle() {
    let mut storage = InMemoryPersistence::new();
    let auth = AuthService::new(b"s".to_vec());
    let mut provisioning = ProvisioningService::new();
    let tenant = provisioning.create_tenant(&mut storage, &auth, "T").unwrap();
    let project = provisioning.create_project(&mut storage, tenant.id, "P").unwrap();
    let provisioned = provisioning
        .register_agent(&mut storage, &auth, tenant.id, project.id, "host-1")
        .unwrap();
    let agent = provisioned.agent.clone();
    assert_eq!(agent.status, AgentStatus::Registered);
    assert_eq!(agent.hostname, "host-1");
    assert_eq!(agent.last_seen, None);
    assert_eq!(agent.metadata, AgentMetadata::default());
    let project_scope = Scope::Custom(format!("project:{}", text_of(project.id)));
    assert_eq!(
        provisioned.api_key.scopes,
        vec![Scope::AgentExecute, Scope::WorkflowExecute, project_scope.clone()]
    );
    assert_eq!(provisioned.api_key.label, "agent:host-1");
    assert_eq!(
        provisioned.bootstrap_commands,
        vec![format!("cass-agent enroll --agent {}", text_of(agent.id))]
    );
    assert_eq!(provisioned.certificate_bundle, None);

    provisioning.record_agent_heartbeat(&mut storage, agent.id, None).unwrap();
    let seen = storage.get_agent(agent.id).unwrap().unwrap();
    assert_eq!(seen.status, AgentStatus::Active);
    assert!(seen.last_seen.is_some());

    let at = now();
    provisioning
        .record_agent_heartbeat_at(&mut storage, agent.id, Some(at - minutes(6)), at)
        .unwrap();
    let swept = provisioning.sweep_inactive_agents_at(&mut storage, at).unwrap();
    assert_eq!(swept.len(), 1);
    assert_eq!(swept[0].id, agent.id);
    assert_eq!(swept[0].status, AgentStatus::Suspended);
    assert_eq!(
        storage.get_agent(agent.id).unwrap().unwrap().status,
        AgentStatus::Suspended
    );
    // A suspended agent is not swept again.
    assert!(provisioning.sweep_inactive_agents_at(&mut storage, at).unwrap().is_empty());

    provisioning.set_agent_status(&mut storage, agent.id, AgentStatus::Active).unwrap();
    assert_eq!(
        provisioning.list_agents(&storage, tenant.id).unwrap()[0].status,
        AgentStatus::Active
    );
    assert_eq!(
        provisioning.record_agent_heartbeat(&mut storage, 404, None).unwrap_err(),
        PlatformError::NotFound("agent")
    );
    assert_eq!(
        provisioning
            .set_agent_status(&mut storage, 404, AgentStatus::Active)
            .unwrap_err(),
        PlatformError::NotFound("agent")
    );
}

#[test]
fn sweep_uses_the_heartbeat_timeout() {
    let mut storage = InMemoryPersistence::new();
    let auth = AuthService::new(b"s".to_vec());
    let mut provisioning = ProvisioningService::new();
    let zeta = provisioning.create_tenant(&mut storage, &auth, "zeta").unwrap();
    let alpha = provisioning.create_tenant(&mut storage, &auth, "alpha").unwrap();
    let pz = provisioning.create_project(&mut storage, zeta.id, "p").unwrap();
    let pa = provisioning.create_project(&mut storage, alpha.id, "p").unwrap();
    let mut register = |tenant: u128, project: u128, host: &str, seen: Option<i64>| {
        let agent = provisioning
            .register_agent(&mut storage, &auth, tenant, project, host)
            .unwrap()
            .agent;
        if let Some(at) = seen {
            provisioning
                .record_agent_heartbeat_at(&mut storage, agent.id, Some(at), at)
                .unwrap();
        }
        agent.id
    };
    let now = 10_000_000;
    let never = register(zeta.id, pz.id, "z-never", None);
    let old = register(zeta.id, pz.id, "a-old", Some(now - 300_001));
    let edge = register(zeta.id, pz.id, "m-edge", Some(now - 300_000));
    let fresh = register(alpha.id, pa.id, "fresh", Some(now - 1));
    let stale = register(alpha.id, pa.id, "stale", Some(now - 400_000));
    let swept = provisioning.sweep_inactive_agents_at(&mut storage, now).unwrap();
    // Tenants by name, agents by hostname; seen exactly the timeout ago is not stale.
    let ids: Vec<u128> = swept.iter().map(|a| a.id).collect();
    assert_eq!(ids, vec![stale, old, never]);
    assert!(swept.iter().all(|a| a.status == AgentStatus::Suspended));
    assert_eq!(storage.get_agent(edge).unwrap().unwrap().status, AgentStatus::Active);
    assert_eq!(storage.get_agent(fresh).unwrap().unwrap().status, AgentStatus::Active);
    assert_eq!(storage.get_agent(never).unwrap().unwrap().status, AgentStatus::Suspended);
    let short = ProvisioningService::new().with_heartbeat_timeout(0);
    let swept = short.sweep_inactive_agents_at(&mut storage, now).unwrap();
    let ids: Vec<u128> = swept.iter().map(|a| a.id).collect();
    assert_eq!(ids, vec![fresh, edge]);
}

#[test]
fn agent_token_is_for_the_agent() {
    let mut storage = InMemoryPersistence::new();
    let auth = AuthService::new(b"s".to_vec());
    let mut provisioning = ProvisioningService::new();
    let tenant = provisioning.create_tenant(&mut storage, &auth, "T").unwrap();
    let project = provisioning.create_project(&mut storage, tenant.id, "P").unwrap();
    let agent = provisioning
        .register_agent(&mut storage, &auth, tenant.id, project.id, "host-9")
        .unwrap()
        .agent;
    let token = provisioning.issue_agent_token(&storage, &auth, agent.id).unwrap();
    assert_eq!(token.context.expires_at - token.context.issued_at, minutes(15));
    let back = auth.validate_token(&token.token).unwrap();
    assert_eq!(back.principal_id, agent.id);
    assert_eq!(back.principal_type, PrincipalType::Agent);
    assert_eq!(back.tenant_id, tenant.id);
    assert_eq!(
        back.scopes,
        vec![
            Scope::AgentExecute,
            Scope::Custom(format!("project:{}", text_of(project.id)))
        ]
    );
    assert_eq!(back.audience.as_deref(), Some("agents"));
    assert_eq!(back.session.unwrap().device_id.as_deref(), Some("host-9"));
    assert_eq!(
        provisioning.issue_agent_token(&storage, &auth, 404).unwrap_err(),
        PlatformError::NotFound("agent")
    );
}

#[test]
fn in_memory_bundle_is_wired() {
    let mut services = PlatformServices::in_memory(b"dev-secret".to_vec());
    let tenant = services
        .provisioning
        .create_tenant(&mut services.storage, &services.auth, "demo")
        .expect("tenant created");
    let list = services.auth().list_keys(services.storage(), tenant.id).unwrap();
    assert_eq!(list.len(), 1);
    assert_eq!(services.provisioning().list_agents(services.storage(), tenant.id).unwrap().len(), 0);
    assert!(services.orchestration().get_workflow_run(1).is_none());
}
