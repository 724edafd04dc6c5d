use base64::engine::general_purpose::URL_SAFE_NO_PAD;
use base64::Engine;
use cncore::agents::{
    agent_criteria, agent_last_seen, agent_meets, agent_upsert_at, build_agent_query,
    filter_agent_summaries, filter_agent_summaries_at, heartbeat_record_at, list_agents,
    list_agents_at, map_agent_record, parse_uuid_opt, sighting_of, AgentHeartbeatRecord,
    AgentQuery, AgentRegistry, AgentReport, AgentSummary, AgentSummaryRecord, AgentUpsert,
    ControlError, HeartbeatRequest, HeartbeatResponse, InMemoryAgentControl, ListAgentsParams,
    RegisterAgentRequest,
};
use cncore::content::{
    content_meets, content_mentions, list_content, ContentMetadata, ContentQuery, UploadSession,
};
use cncore::error::PlatformError;
use cncore::config::AppConfig;
use cncore::gateway::{
    health, version, ErrorResponse, HealthResponse, ListLogsParams, VersionResponse,
};
use cncore::gateway::{
    admit_request, bearer_payload, has_scope, hs256_generate, hs256_validate, is_server_error,
    recent_from, request_id, request_id_with, scopes_allow, validate_jwt, AgentPresenceFilter,
    AuthStatus, HttpError, RateLimiter,
};
use cncore::json::{JsonValue, Member};
use cncore::models::{
    AgentMetadata, AgentStatus, ContentVisibility, Project, Tag, Tenant, TenantSettings,
    UploadStatus,
};
use cncore::persistence::InMemoryPersistence;
use cncore::stores::ContentStore;
use cncore::table::page_rows;
use cncore::text::{contains_bytes, contains_fragment, contains_word, trim_text};
use cncore::uploads::{
    build_storage_path, check_session, complete_upload_session, complete_upload_session_at,
    create_upload_session, create_upload_session_with, from_session, list_content_metadata,
    list_content_metadata_at, upload_url, CompleteUploadRequest, CreateUploadRequest, ListContentParams,
};
use hmac::{Hmac, Mac};
use sha2::Sha256;

const TENANT: u128 = 0x0123_4567_89ab_4def_8123_4567_89ab_cdef;
const PROJECT: u128 = 0x1111_2222_3333_4444_8555_6666_7777_8888;
const CONTENT: u128 = 0xaaaa_bbbb_cccc_4ddd_8eee_ffff_0000_1111;
const UPLOAD: u128 = 0x9999_8888_7777_4666_8555_4444_3333_2222;
const TENANT_TEXT: &str = "01234567-89ab-4def-8123-456789abcdef";
const PROJECT_TEXT: &str = "11112222-3333-4444-8555-666677778888";
const CONTENT_TEXT: &str = "aaaabbbb-cccc-4ddd-8eee-ffff00001111";

fn report(id: &str, hostname: &str) -> AgentReport {
    AgentReport {
        id: id.into(),
        hostname: hostname.into(),
        cpu_percent_bits: 0,
        memory_used_bytes: 0,
        tenant_id: None,
        project_id: None,
        lifecycle_status: None,
        last_seen_override: None,
    }
}

fn registration(node_id: &str, hostname: &str, tenant_id: &str, project_id: &str) -> RegisterAgentRequest {
    RegisterAgentRequest {
        node_id: node_id.into(),
        hostname: hostname.into(),
        os: "os".into(),
        arch: "arch".into(),
        cpu_cores: 4,
        memory_bytes: 1024,
        tenant_id: tenant_id.into(),
        project_id: project_id.into(),
    }
}

fn stored(id: u128, hostname: &str) -> AgentSummaryRecord {
    AgentSummaryRecord {
        id,
        hostname: hostname.into(),
        tenant_id: None,
        project_id: None,
        lifecycle_status: None,
        last_seen: None,
        cpu_percent_bits: None,
        memory_used_bytes: None,
        metadata: AgentMetadata::default(),
    }
}

fn summary(id: &str, hostname: &str, last_seen_unix_ms: u64) -> AgentSummary {
    AgentSummary {
        id: id.into(),
        hostname: hostname.into(),
        last_seen_unix_ms,
        cpu_percent_bits: 0,
        memory_used_bytes: 0,
        tenant_id: None,
        project_id: None,
        lifecycle_status: None,
    }
}

fn ids(agents: &[AgentSummary]) -> Vec<&str> {
    agents.iter().map(|agent| agent.id.as_str()).collect()
}

fn store_with_project() -> InMemoryPersistence {
    let mut store = InMemoryPersistence::new();
    store
        .insert_tenant(Tenant {
            id: TENANT,
            name: "tenant".into(),
            created_at: 0,
            settings: TenantSettings::default(),
        })
        .unwrap();
    store
        .insert_project(Project { id: PROJECT, tenant_id: TENANT, name: "project".into(), created_at: 0 })
        .unwrap();
    store
}

fn tag(key: &str, value: &str) -> Tag {
    Tag { key: key.into(), value: value.into() }
}

fn create_request() -> CreateUploadRequest {
    CreateUploadRequest {
        filename: "avatar.png".into(),
        mime_type: Some("image/png".into()),
        size_bytes: Some(1024),
        labels: vec!["avatar".into(), "profile".into()],
        attributes: vec![tag("resolution", "512x512")],
        visibility: ContentVisibility::Tenant,
        expires_in_seconds: None,
    }
}

fn complete_request() -> CompleteUploadRequest {
    CompleteUploadRequest {
        filename: "avatar.png".into(),
        mime_type: Some("image/png".into()),
        size_bytes: 1024,
        checksum: Some("abc123".into()),
        storage_path: None,
        labels: vec!["avatar".into(), "profile".into()],
        attributes: vec![tag("resolution", "512x512")],
        uploaded_by: None,
        visibility: ContentVisibility::Tenant,
    }
}

fn content(id: u128, filename: &str, created_at: i64) -> ContentMetadata {
    ContentMetadata {
        id,
        tenant_id: TENANT,
        project_id: PROJECT,
        filename: filename.into(),
        mime_type: None,
        size_bytes: None,
        checksum: None,
        storage_path: None,
        labels: Vec::new(),
        attributes: Vec::new(),
        created_at,
        updated_at: created_at,
        uploaded_by: None,
        visibility: ContentVisibility::Project,
    }
}

fn query() -> ContentQuery {
    ContentQuery { tenant_id: TENANT, ..ContentQuery::default() }
}

fn session(id: u128, status: UploadStatus, expires_at: Option<i64>) -> UploadSession {
    UploadSession {
        id,
        tenant_id: TENANT,
        project_id: PROJECT,
        content_id: CONTENT,
        status,
        created_at: 1_000,
        updated_at: 1_000,
        expires_at,
        upload_url: None,
        headers: Vec::new(),
    }
}

fn refusal(status: u16, message: &'static str) -> HttpError {
    HttpError { status, message }
}

fn token_with_header(header: &[u8], payload: &[u8], secret: &[u8]) -> String {
    let signing = format!("{}.{}", URL_SAFE_NO_PAD.encode(header), URL_SAFE_NO_PAD.encode(payload));
    let mut mac = Hmac::<Sha256>::new_from_slice(secret).unwrap();
    mac.update(signing.as_bytes());
    format!("{signing}.{}", URL_SAFE_NO_PAD.encode(mac.finalize().into_bytes()))
}

#[test]
fn agents_list_after_grpc_heartbeat() {
    let mut control = InMemoryAgentControl::new(AgentRegistry::new());
    let registered = control
        .register_agent(registration("node1", "host1", "", ""))
        .unwrap();
    assert_eq!(registered.assigned_id, "node1");
    assert_eq!(registered.session_token, "session-placeholder");
    assert_eq!(registered.heartbeat_interval_seconds, 5);
    let answer = control.heartbeat(HeartbeatRequest {
        assigned_id: "node1",
        cpu_percent_bits: 10.0f64.to_bits(),
        memory_used_bytes: 2048,
        timestamp_unix_ms: 0,
    });
    assert_eq!(answer, HeartbeatResponse { ok: true, rotate_credentials: false });
    let listing = filter_agent_summaries(control.registry.list(), &ListAgentsParams::default());
    assert!(listing.iter().any(|agent| agent.id == "node1"));
    assert_eq!(listing.len(), 1);
    assert_eq!(f64::from_bits(listing[0].cpu_percent_bits), 10.0);
    assert_eq!(listing[0].memory_used_bytes, 2048);
    assert_eq!(listing[0].hostname, "unknown");
    assert_eq!(listing[0].lifecycle_status.as_deref(), Some("active"));
    assert!(listing[0].last_seen_unix_ms > 0);
}

#[test]
fn agents_filtering_by_hostname() {
    let mut registry = AgentRegistry::new();
    registry.upsert(
        "alpha".into(),
        "host-alpha".into(),
        20.0f64.to_bits(),
        512,
        None,
        None,
        None,
        None,
    );
    registry.upsert(
        "beta".into(),
        "host-beta".into(),
        10.0f64.to_bits(),
        256,
        None,
        None,
        None,
        None,
    );
    let params = ListAgentsParams { hostname: Some("alpha".into()), ..ListAgentsParams::default() };
    let items = filter_agent_summaries(registry.list(), &params);
    assert_eq!(items.len(), 1);
    assert_eq!(items[0].id, "alpha");
}

#[test]
fn registration_reads_tenant_and_project() {
    let mut control = InMemoryAgentControl::new(AgentRegistry::new());
    let answer = control
        .register_agent_with(
            registration("", "h", "01234567-89AB-4DEF-8123-456789ABCDEF", "  "),
            7_000,
            CONTENT,
        )
        .unwrap();
    assert_eq!(answer.assigned_id, CONTENT_TEXT);
    let known = control.registry.list();
    assert_eq!(known.len(), 1);
    assert_eq!(known[0].id, "");
    assert_eq!(known[0].tenant_id.as_deref(), Some(TENANT_TEXT));
    assert_eq!(known[0].project_id, None);
    assert_eq!(known[0].lifecycle_status.as_deref(), Some("registered"));
    assert_eq!(known[0].last_seen_unix_ms, 7_000);

    let refused = control.register_agent_with(
        registration("n", "h", "not-an-id", ""),
        8_000,
        CONTENT,
    );
    assert_eq!(refused, Err(ControlError::InvalidArgument("invalid uuid")));
    assert_eq!(control.registry.list().len(), 1);
    assert_eq!(parse_uuid_opt(""), Ok(None));
    assert_eq!(parse_uuid_opt(PROJECT_TEXT), Ok(Some(PROJECT)));
    assert_eq!(parse_uuid_opt("x"), Err(ControlError::InvalidArgument("invalid uuid")));
}

#[test]
fn a_report_keeps_what_it_does_not_name() {
    let mut registry = AgentRegistry::new();
    registry.upsert_at(
        AgentReport {
            tenant_id: Some("t".into()),
            project_id: Some("p".into()),
            lifecycle_status: Some("registered".into()),
            last_seen_override: Some(0),
            ..report("b", "first")
        },
        100,
    );
    registry.upsert_at(report("a", "other"), 150);
    registry.upsert_at(
        AgentReport {
            cpu_percent_bits: 3,
            memory_used_bytes: 9,
            lifecycle_status: Some("active".into()),
            last_seen_override: Some(250),
            ..report("b", "second")
        },
        200,
    );
    let known = registry.list();
    assert_eq!(ids(&known), vec!["a", "b"]);
    assert_eq!(
        known[1],
        AgentSummary {
            id: "b".into(),
            hostname: "second".into(),
            last_seen_unix_ms: 250,
            cpu_percent_bits: 3,
            memory_used_bytes: 9,
            tenant_id: Some("t".into()),
            project_id: Some("p".into()),
            lifecycle_status: Some("active".into()),
        }
    );
    assert_eq!(known[0].last_seen_unix_ms, 150);
}

#[test]
fn agents_are_listed_most_recent_first_then_by_id() {
    let agents = vec![
        summary("d", "h", 100),
        summary("b", "h", 300),
        summary("c", "h", 100),
        summary("a", "h", 200),
    ];
    let all = filter_agent_summaries_at(agents.clone(), &ListAgentsParams::default(), 1_000);
    assert_eq!(ids(&all), vec!["b", "a", "c", "d"]);
    let paged = filter_agent_summaries_at(
        agents.clone(),
        &ListAgentsParams { offset: Some(1), limit: Some(2), ..ListAgentsParams::default() },
        1_000,
    );
    assert_eq!(ids(&paged), vec!["a", "c"]);
    let beyond = filter_agent_summaries_at(
        agents.clone(),
        &ListAgentsParams { offset: Some(9), ..ListAgentsParams::default() },
        1_000,
    );
    assert!(beyond.is_empty());
    let none = filter_agent_summaries_at(
        agents,
        &ListAgentsParams { limit: Some(0), ..ListAgentsParams::default() },
        1_000,
    );
    assert!(none.is_empty());
    assert_eq!(page_rows(vec![1u64, 2, 3], Some(2), Some(5)), vec![3]);
    assert_eq!(page_rows(vec![1u64, 2, 3], None, None), vec![1, 2, 3]);
}

#[test]
fn agents_are_filtered_by_presence_and_lifecycle() {
    let now: i64 = 1_000_000;
    let mut fresh = summary("fresh", "Host-A", 1_000_000 - 30_000);
    fresh.lifecycle_status = Some("Active".into());
    fresh.tenant_id = Some("Tenant-A".into());
    let mut stale = summary("stale", "host-b", 1_000_000 - 30_001);
    stale.lifecycle_status = Some("draining".into());
    stale.project_id = Some("Proj-A".into());
    let edge = summary("edge", "host-c", 1_000_000 - 300_000);
    let gone = summary("gone", "host-d", 1_000_000 - 300_001);
    let never = summary("never", "host-e", 0);
    let agents = vec![fresh, stale, edge, gone, never];
    let by = |params: ListAgentsParams| -> Vec<String> {
        filter_agent_summaries_at(agents.clone(), &params, now)
            .into_iter()
            .map(|agent| agent.id)
            .collect()
    };
    let status = |name: &str| ListAgentsParams { status: Some(name.into()), ..ListAgentsParams::default() };
    assert_eq!(by(status("ACTIVE")), vec!["fresh"]);
    assert_eq!(by(status("stale")), vec!["stale", "edge"]);
    assert_eq!(by(status("Offline")), vec!["gone", "never"]);
    assert_eq!(by(status("draining")), vec!["stale"]);
    assert_eq!(
        by(ListAgentsParams {
            status: Some("draining".into()),
            lifecycle_status: Some("ACTIVE".into()),
            ..ListAgentsParams::default()
        }),
        vec!["fresh"]
    );
    assert_eq!(
        by(ListAgentsParams {
            status: Some("offline".into()),
            lifecycle_status: Some("active".into()),
            ..ListAgentsParams::default()
        }),
        Vec::<String>::new()
    );
    assert_eq!(
        by(ListAgentsParams { tenant_id: Some("tenant-a".into()), ..ListAgentsParams::default() }),
        vec!["fresh"]
    );
    assert_eq!(
        by(ListAgentsParams { project_id: Some("proj-a".into()), ..ListAgentsParams::default() }),
        vec!["stale"]
    );
    assert_eq!(
        by(ListAgentsParams { hostname: Some("HOST-".into()), ..ListAgentsParams::default() }),
        vec!["fresh", "stale", "edge", "gone", "never"]
    );
    assert_eq!(
        by(ListAgentsParams {
            last_seen_after: Some(700_000),
            last_seen_before: Some(969_999),
            ..ListAgentsParams::default()
        }),
        vec!["stale", "edge"]
    );
    assert_eq!(
        by(ListAgentsParams { last_seen_after: Some(-5), ..ListAgentsParams::default() }).len(),
        5
    );
    assert_eq!(
        by(ListAgentsParams { last_seen_before: Some(-5), ..ListAgentsParams::default() }),
        vec!["never"]
    );

    let asked = agent_criteria(&status("stale"));
    assert_eq!(asked.presence, Some(AgentPresenceFilter::Stale));
    assert_eq!(asked.lifecycle, None);
    let seen = agent_last_seen(&agents[1]);
    assert_eq!(seen, Some(1_000_000 - 30_001));
    assert!(agent_meets(&agents[1], &asked, seen, now));
    assert!(!agent_meets(&agents[1], &asked, None, now));
    assert_eq!(sighting_of(5, true), Some(5));
    assert_eq!(sighting_of(5, false), None);
    assert_eq!(sighting_of(0, true), None);
    assert_eq!(sighting_of(u64::MAX, true), None);
    assert_eq!(agent_last_seen(&summary("far", "h", i64::MAX as u64)), None);
    assert_eq!(agent_last_seen(&summary("far", "h", u64::MAX)), None);
}

#[test]
fn fragments_words_and_trimming() {
    assert!(contains_fragment("host-alpha", "alpha"));
    assert!(contains_fragment("host-alpha", ""));
    assert!(contains_fragment("", ""));
    assert!(!contains_fragment("", "a"));
    assert!(!contains_fragment("alph", "alpha"));
    assert!(contains_fragment("aab", "ab"));
    assert!(contains_bytes(b"{\"alg\":\"HS256\"}", b"HS256"));
    assert!(!contains_bytes(b"{\"alg\":\"HS25\"}", b"HS256"));
    assert!(contains_word("ugc:read ugc:write", "ugc:write"));
    assert!(contains_word("  ugc:read\tugc:write\n", "ugc:read"));
    assert!(!contains_word("ugc:read ugc:write", "ugc"));
    assert!(!contains_word("ugc:read ugc:write", "ugc:read ugc:write"));
    assert!(!contains_word("ugc:read", ""));
    assert!(!contains_word("xugc:read", "ugc:read"));
    assert!(contains_word("a\u{2003}b", "b"));
    assert_eq!(trim_text("  a b \n"), "a b");
    assert_eq!(trim_text(" \t "), "");
    assert_eq!(trim_text(""), "");
    assert_eq!(trim_text("x"), "x");
    assert_eq!(trim_text("\u{a0}x\u{3000}"), "x");
}

#[test]
fn content_store_checks_tenant_project_and_identifier() {
    let mut store = store_with_project();
    assert_eq!(store.create_upload_session(session(1, UploadStatus::Pending, None)), Ok(()));
    assert_eq!(
        store.create_upload_session(session(1, UploadStatus::Pending, None)),
        Err(PlatformError::Conflict("upload_session"))
    );
    let mut foreign = session(2, UploadStatus::Pending, None);
    foreign.tenant_id = 5;
    assert_eq!(store.create_upload_session(foreign), Err(PlatformError::NotFound("tenant")));
    let mut stray = session(2, UploadStatus::Pending, None);
    stray.project_id = 5;
    assert_eq!(store.create_upload_session(stray), Err(PlatformError::NotFound("project")));
    assert_eq!(
        store.update_upload_session(session(2, UploadStatus::Failed, None)),
        Err(PlatformError::NotFound("upload_session"))
    );
    assert_eq!(store.update_upload_session(session(1, UploadStatus::Uploading, Some(9))), Ok(()));
    assert_eq!(
        store.get_upload_session(1),
        Ok(Some(session(1, UploadStatus::Uploading, Some(9))))
    );
    assert_eq!(store.get_upload_session(2), Ok(None));

    let mut lost = content(7, "a", 1);
    lost.tenant_id = 5;
    assert_eq!(store.record_content_metadata(lost), Err(PlatformError::NotFound("tenant")));
    let mut adrift = content(7, "a", 1);
    adrift.project_id = 5;
    assert_eq!(store.record_content_metadata(adrift), Err(PlatformError::NotFound("project")));
    assert_eq!(store.record_content_metadata(content(7, "a", 1)), Ok(()));
    assert_eq!(store.record_content_metadata(content(7, "b", 2)), Ok(()));
    assert_eq!(store.get_content_metadata(7), Ok(Some(content(7, "b", 2))));
    assert_eq!(store.get_content_metadata(8), Ok(None));
    assert_eq!(store.list_content_metadata(&query()), Ok(vec![content(7, "b", 2)]));
    assert_eq!(ContentStore::get_upload_session(&store, 2), Ok(None));
    assert_eq!(
        ContentStore::list_content_metadata(&store, &query()),
        Ok(vec![content(7, "b", 2)])
    );
}

#[test]
fn content_is_found_by_term_tags_and_project() {
    let mut first = content(1, "Avatar.PNG", 10);
    first.labels = vec!["avatar".into(), "profile".into()];
    first.attributes = vec![tag("Resolution", "512x512")];
    let mut second = content(2, "notes.txt", 30);
    second.labels = vec!["profile".into()];
    second.attributes = vec![tag("kind", "AVATAR-notes")];
    let mut third = content(3, "clip.mp4", 20);
    third.project_id = 99;
    let mut fourth = content(4, "other.bin", 30);
    fourth.tenant_id = 98;
    let rows = vec![first, second, third, fourth];
    let found = |query: ContentQuery| -> Vec<u128> {
        list_content(&rows, &query).into_iter().map(|item| item.id).collect()
    };
    assert_eq!(found(query()), vec![2, 3, 1]);
    assert_eq!(found(ContentQuery { project_id: Some(PROJECT), ..query() }), vec![2, 1]);
    assert_eq!(found(ContentQuery { search_term: Some("avatar".into()), ..query() }), vec![2, 1]);
    assert_eq!(found(ContentQuery { search_term: Some("RESOL".into()), ..query() }), vec![1]);
    assert_eq!(found(ContentQuery { search_term: Some("512X".into()), ..query() }), vec![1]);
    assert_eq!(found(ContentQuery { search_term: Some("zip".into()), ..query() }), Vec::<u128>::new());
    assert_eq!(found(ContentQuery { tags: vec!["profile".into()], ..query() }), vec![2, 1]);
    assert_eq!(
        found(ContentQuery { tags: vec!["profile".into(), "avatar".into()], ..query() }),
        vec![1]
    );
    assert_eq!(found(ContentQuery { tags: vec!["Profile".into()], ..query() }), Vec::<u128>::new());
    assert_eq!(found(ContentQuery { offset: Some(1), limit: Some(1), ..query() }), vec![3]);
    assert_eq!(found(ContentQuery { limit: Some(2), ..query() }), vec![2, 3]);
    assert_eq!(found(ContentQuery::default()), Vec::<u128>::new());
    assert!(content_mentions(&rows[0], "avatar"));
    assert!(!content_mentions(&rows[0], "Avatar"));
    assert!(content_meets(&rows[0], &ContentQuery { search_term: Some("Avatar".into()), ..query() }));

    let same_instant = vec![content(5, "a", 7), content(6, "b", 7), content(7, "c", 8)];
    let listed: Vec<u128> =
        list_content(&same_instant, &query()).into_iter().map(|item| item.id).collect();
    assert_eq!(listed, vec![7, 5, 6]);
}

#[test]
fn ugc_upload_flow_round_trip() {
    let mut store = store_with_project();
    let mut limiter = RateLimiter::new();
    let allowed = has_scope(Some("test-key"), None, "ugc:write");
    assert!(allowed);
    let session = create_upload_session(
        &mut store,
        &mut limiter,
        TENANT,
        PROJECT,
        allowed,
        &create_request(),
        None,
    )
    .unwrap();
    assert_eq!(session.status, "pending");

    let metadata = complete_upload_session(
        &mut store,
        &mut limiter,
        TENANT,
        PROJECT,
        session.upload_id,
        allowed,
        complete_request(),
        None,
    )
    .unwrap();
    assert_eq!(metadata.filename, "avatar.png");
    assert_eq!(metadata.size_bytes, Some(1024));
    assert_eq!(metadata.id, session.content_id);

    let entries = list_content_metadata(
        &store,
        &mut limiter,
        TENANT,
        PROJECT,
        has_scope(Some("test-key"), None, "ugc:read"),
        ListContentParams { search: None, tags: Vec::new(), limit: None, offset: None },
    )
    .unwrap();
    assert!(entries.iter().any(|m| m.id == metadata.id));
    assert_eq!(entries.len(), 1);
}

#[test]
fn opened_session_has_the_exact_record() {
    let mut store = store_with_project();
    let mut limiter = RateLimiter::new();
    let mut request = create_request();
    request.filename = "  my file.png \n".into();
    request.expires_in_seconds = Some(90);
    let response = create_upload_session_with(
        &mut store,
        &mut limiter,
        TENANT,
        PROJECT,
        true,
        &request,
        None,
        5_000,
        0,
        CONTENT,
        UPLOAD,
    )
    .unwrap();
    let path = format!("tenants/{TENANT_TEXT}/projects/{PROJECT_TEXT}/{CONTENT_TEXT}/my file.png");
    assert_eq!(build_storage_path(TENANT, PROJECT, CONTENT, "  my file.png \n"), path);
    let headers = vec![tag("content-type", "image/png"), tag("content-length", "1024")];
    assert_eq!(response.upload_id, UPLOAD);
    assert_eq!(response.content_id, CONTENT);
    assert_eq!(response.status, "pending");
    assert_eq!(response.upload_url, Some(format!("s3://cassandranet/{path}")));
    assert_eq!(response.storage_path, path);
    assert_eq!(response.headers, headers);
    assert_eq!(response.created_at, 5_000);
    assert_eq!(response.updated_at, 5_000);
    assert_eq!(response.expires_at, Some(95_000));
    let stored = store.get_upload_session(UPLOAD).unwrap().unwrap();
    assert_eq!(
        stored,
        UploadSession {
            id: UPLOAD,
            tenant_id: TENANT,
            project_id: PROJECT,
            content_id: CONTENT,
            status: UploadStatus::Pending,
            created_at: 5_000,
            updated_at: 5_000,
            expires_at: Some(95_000),
            upload_url: Some(format!("s3://cassandranet/{path}")),
            headers,
        }
    );
    assert_eq!(from_session(&stored, "p".into()).storage_path, "p");

    let mut bare = create_request();
    bare.mime_type = None;
    bare.size_bytes = Some(0);
    bare.expires_in_seconds = Some(0);
    let second = create_upload_session_with(
        &mut store,
        &mut limiter,
        TENANT,
        PROJECT,
        true,
        &bare,
        Some("https://cdn.example"),
        6_000,
        0,
        CONTENT,
        UPLOAD + 1,
    )
    .unwrap();
    assert_eq!(second.headers, vec![tag("content-length", "0")]);
    assert_eq!(second.expires_at, None);
    assert_eq!(
        second.upload_url,
        Some(format!(
            "https://cdn.example/tenants/{TENANT_TEXT}/projects/{PROJECT_TEXT}/{CONTENT_TEXT}/avatar.png"
        ))
    );
    assert_eq!(upload_url(Some("  "), "p", "else".into()), "else");
    assert_eq!(upload_url(None, "p", "else".into()), "else");
    assert_eq!(upload_url(Some("b"), "p", "else".into()), "b/p");
}

#[test]
fn opening_an_upload_is_refused_in_order() {
    let mut store = store_with_project();
    let mut limiter = RateLimiter::new();
    let mut open = |store: &mut InMemoryPersistence,
                    limiter: &mut RateLimiter,
                    tenant: u128,
                    allowed: bool,
                    filename: &str,
                    tick: u64,
                    upload: u128| {
        let mut request = create_request();
        request.filename = filename.into();
        create_upload_session_with(
            store, limiter, tenant, PROJECT, allowed, &request, None, 0, tick, CONTENT, upload,
        )
    };
    assert_eq!(
        open(&mut store, &mut limiter, TENANT, false, " ", 0, 1).unwrap_err(),
        refusal(400, "filename required")
    );
    assert_eq!(
        open(&mut store, &mut limiter, TENANT, false, "a", 0, 1).unwrap_err(),
        refusal(403, "scope required")
    );
    assert_eq!(
        open(&mut store, &mut limiter, 77, true, "a", 0, 1).unwrap_err(),
        refusal(404, "not found")
    );
    assert!(open(&mut store, &mut limiter, TENANT, true, "a", 0, 1).is_ok());
    assert_eq!(
        open(&mut store, &mut limiter, TENANT, true, "a", 0, 1).unwrap_err(),
        refusal(409, "conflict")
    );
    for n in 0..58u128 {
        assert!(open(&mut store, &mut limiter, TENANT, true, "a", 59_999, 10 + n).is_ok());
    }
    assert_eq!(
        open(&mut store, &mut limiter, TENANT, true, "a", 59_999, 100).unwrap_err(),
        refusal(429, "rate limit exceeded")
    );
    assert_eq!(store.get_upload_session(100), Ok(None));
    assert!(open(&mut store, &mut limiter, TENANT, true, "a", 60_000, 100).is_ok());
}

#[test]
fn completing_an_upload_is_refused_in_order() {
    let mut store = store_with_project();
    let mut limiter = RateLimiter::new();
    store.create_upload_session(session(1, UploadStatus::Pending, Some(2_000))).unwrap();
    store.create_upload_session(session(2, UploadStatus::Uploading, None)).unwrap();
    store.create_upload_session(session(3, UploadStatus::Completed, None)).unwrap();
    store.create_upload_session(session(4, UploadStatus::Cancelled, Some(1))).unwrap();
    let mut complete = |store: &mut InMemoryPersistence,
                        tenant: u128,
                        project: u128,
                        upload: u128,
                        allowed: bool,
                        now: i64| {
        complete_upload_session_at(
            store,
            &mut limiter,
            tenant,
            project,
            upload,
            allowed,
            complete_request(),
            None,
            now,
            0,
        )
    };
    assert_eq!(
        complete(&mut store, TENANT, PROJECT, 1, false, 0).unwrap_err(),
        refusal(403, "scope required")
    );
    assert_eq!(
        complete(&mut store, TENANT, PROJECT, 9, true, 0).unwrap_err(),
        refusal(404, "upload session not found")
    );
    assert_eq!(
        complete(&mut store, TENANT, 5, 1, true, 0).unwrap_err(),
        refusal(403, "upload session scope mismatch")
    );
    assert_eq!(
        complete(&mut store, 5, PROJECT, 1, true, 0).unwrap_err(),
        refusal(403, "upload session scope mismatch")
    );
    assert_eq!(
        complete(&mut store, TENANT, PROJECT, 1, true, 2_001).unwrap_err(),
        refusal(410, "upload session expired")
    );
    assert_eq!(
        complete(&mut store, TENANT, PROJECT, 4, true, 2).unwrap_err(),
        refusal(410, "upload session expired")
    );
    assert_eq!(
        complete(&mut store, TENANT, PROJECT, 3, true, 0).unwrap_err(),
        refusal(400, "upload session closed")
    );
    assert_eq!(store.get_content_metadata(CONTENT), Ok(None));

    let done = complete(&mut store, TENANT, PROJECT, 1, true, 2_000).unwrap();
    let path = format!("tenants/{TENANT_TEXT}/projects/{PROJECT_TEXT}/{CONTENT_TEXT}/avatar.png");
    assert_eq!(
        done,
        ContentMetadata {
            id: CONTENT,
            tenant_id: TENANT,
            project_id: PROJECT,
            filename: "avatar.png".into(),
            mime_type: Some("image/png".into()),
            size_bytes: Some(1024),
            checksum: Some("abc123".into()),
            storage_path: Some(path.clone()),
            labels: vec!["avatar".into(), "profile".into()],
            attributes: vec![tag("resolution", "512x512")],
            created_at: 2_000,
            updated_at: 2_000,
            uploaded_by: None,
            visibility: ContentVisibility::Tenant,
        }
    );
    assert_eq!(store.get_content_metadata(CONTENT), Ok(Some(done)));
    let closed = store.get_upload_session(1).unwrap().unwrap();
    assert_eq!(closed.status, UploadStatus::Completed);
    assert_eq!(closed.updated_at, 2_000);
    assert_eq!(closed.created_at, 1_000);
    assert_eq!(closed.upload_url, Some(path));
    assert_eq!(
        complete(&mut store, TENANT, PROJECT, 1, true, 2_000).unwrap_err(),
        refusal(400, "upload session closed")
    );
    assert!(complete(&mut store, TENANT, PROJECT, 2, true, 9_000).is_ok());
    assert_eq!(check_session(&None, TENANT, PROJECT, 0), Some(refusal(404, "upload session not found")));
    assert_eq!(
        check_session(&Some(session(1, UploadStatus::Uploading, Some(5))), TENANT, PROJECT, 5),
        None
    );
}

#[test]
fn completed_upload_goes_where_the_request_says() {
    let mut store = store_with_project();
    let mut limiter = RateLimiter::new();
    store.create_upload_session(session(1, UploadStatus::Pending, None)).unwrap();
    let mut request = complete_request();
    request.storage_path = Some("custom/place".into());
    request.uploaded_by = Some(42);
    let done = complete_upload_session_at(
        &mut store,
        &mut limiter,
        TENANT,
        PROJECT,
        1,
        true,
        request,
        Some("https://cdn.example"),
        3_000,
        0,
    )
    .unwrap();
    assert_eq!(done.storage_path.as_deref(), Some("custom/place"));
    assert_eq!(done.uploaded_by, Some(42));
    let closed = store.get_upload_session(1).unwrap().unwrap();
    assert_eq!(closed.upload_url.as_deref(), Some("https://cdn.example/custom/place"));
}

#[test]
fn listing_content_is_refused_without_scope_or_beyond_the_limit() {
    let mut store = store_with_project();
    let mut limiter = RateLimiter::new();
    store.record_content_metadata(content(1, "a", 1)).unwrap();
    let mut other = content(2, "b", 2);
    other.tenant_id = TENANT;
    other.project_id = PROJECT;
    other.labels = vec!["x".into()];
    store.record_content_metadata(other).unwrap();
    let params = |tags: Vec<String>| ListContentParams { search: None, tags, limit: None, offset: None };
    assert_eq!(
        list_content_metadata_at(&store, &mut limiter, TENANT, PROJECT, false, params(vec![]), 0).unwrap_err(),
        refusal(403, "scope required")
    );
    for _ in 0..119 {
        assert!(list_content_metadata_at(&store, &mut limiter, TENANT, PROJECT, true, params(vec![]), 0).is_ok());
    }
    let listed =
        list_content_metadata_at(&store, &mut limiter, TENANT, PROJECT, true, params(vec!["x".into()]), 0)
            .unwrap();
    assert_eq!(listed.len(), 1);
    assert_eq!(listed[0].id, 2);
    assert_eq!(
        list_content_metadata_at(&store, &mut limiter, TENANT, PROJECT, true, params(vec![]), 0).unwrap_err(),
        refusal(429, "rate limit exceeded")
    );
    assert!(list_content_metadata_at(&store, &mut limiter, 5, PROJECT, true, params(vec![]), 0)
        .unwrap()
        .is_empty());
}

#[test]
fn rate_limiter_counts_each_tenant_and_route_apart() {
    let mut limiter = RateLimiter::new();
    assert!(limiter.check_and_increment_at(1, "a", 2, 1_000, 10));
    assert!(limiter.check_and_increment_at(1, "a", 2, 1_000, 20));
    assert!(!limiter.check_and_increment_at(1, "a", 2, 1_000, 30));
    assert!(limiter.check_and_increment_at(1, "b", 2, 1_000, 30));
    assert!(limiter.check_and_increment_at(2, "a", 2, 1_000, 30));
    assert!(!limiter.check_and_increment_at(1, "a", 2, 1_000, 1_009));
    assert!(limiter.check_and_increment_at(1, "a", 2, 1_000, 1_010));
    assert!(limiter.check_and_increment_at(1, "a", 2, 1_000, 1_011));
    assert!(!limiter.check_and_increment_at(1, "a", 2, 1_000, 1_012));
    assert!(!limiter.check_and_increment_at(3, "a", 0, 1_000, 0));
    assert!(!limiter.check_and_increment_at(1, "a", 2, 1_000, 5));
    assert!(limiter.check_and_increment_at(1, "a", 3, 1_000, 5));
    let mut clocked = RateLimiter::new();
    assert!(clocked.check_and_increment(1, "a", 1, 60_000));
    assert!(!clocked.check_and_increment(1, "a", 1, 60_000));
    assert!(clocked.check_and_increment(1, "a", 1, 0));
    assert!(clocked.tick() < 60_000);
}

#[test]
fn errors_surface_as_refusals() {
    assert_eq!(HttpError::from(PlatformError::NotFound("x")), refusal(404, "not found"));
    assert_eq!(HttpError::from(PlatformError::Conflict("x")), refusal(409, "conflict"));
    assert_eq!(HttpError::from(PlatformError::Unauthorized), refusal(401, "unauthorized"));
    assert_eq!(HttpError::from(PlatformError::Forbidden), refusal(403, "forbidden"));
    assert_eq!(HttpError::from(PlatformError::InvalidInput("x")), refusal(400, "invalid input"));
    assert_eq!(HttpError::from(PlatformError::Internal("x")), refusal(500, "internal error"));
    assert_eq!(HttpError::new(418, "teapot"), refusal(418, "teapot"));
}

#[test]
fn hs256_roundtrip() {
    let token = hs256_generate("demo", b"test-secret", 1_700_000_000).unwrap();
    assert!(hs256_validate(&token, b"test-secret"));
    assert!(!hs256_validate(&token, b"other-secret"));
    assert!(!hs256_validate(&token, b""));
}

#[test]
fn generated_token_has_the_exact_payload() {
    let token = hs256_generate("de\"mo", b"k", 1_700_000_000).unwrap();
    let expected =
        token_with_header(b"{\"alg\":\"HS256\",\"typ\":\"JWT\"}", b"{\"exp\":1700003600,\"sub\":\"de\\\"mo\"}", b"k");
    assert_eq!(token, expected);
    assert_eq!(
        hs256_generate("demo", b"", 0),
        Err(PlatformError::InvalidInput("CASS_JWT_SECRET not set"))
    );
    let late = hs256_generate("s", b"k", u64::MAX).unwrap();
    let header = format!("Bearer {late}");
    assert_eq!(
        bearer_payload(Some(&header), b"k"),
        Some(b"{\"exp\":18446744073709551615,\"sub\":\"s\"}".to_vec())
    );
}

#[test]
fn bearer_tokens_need_three_parts_a_header_that_names_hs256_and_the_tag() {
    let secret = b"test-secret";
    let loose = token_with_header(b"{\"typ\":\"JWT\",\"alg\":\"HS256\"}", b"{}", secret);
    assert!(hs256_validate(&loose, secret));
    let other = token_with_header(b"{\"alg\":\"HS512\"}", b"{}", secret);
    assert!(!hs256_validate(&other, secret));
    assert!(!hs256_validate("a.b", secret));
    assert!(!hs256_validate(&format!("{loose}.x"), secret));
    assert!(!hs256_validate("", secret));
    let parts: Vec<&str> = loose.split('.').collect();
    assert!(!hs256_validate(&format!("{}.{}.", parts[0], parts[1]), secret));
    assert!(!hs256_validate(&format!("{}.{}.{}", parts[0], parts[1], "!!"), secret));
    assert!(!hs256_validate(&format!("!!.{}.{}", parts[1], parts[2]), secret));
    assert!(!hs256_validate(&format!("{}.e30x.{}", parts[0], parts[2]), secret));

    let header = format!("Bearer {loose}");
    assert_eq!(validate_jwt(Some(&header), secret), AuthStatus::Allow);
    assert_eq!(validate_jwt(Some(&header), b"other"), AuthStatus::Deny);
    assert_eq!(validate_jwt(Some(&loose), secret), AuthStatus::Deny);
    assert_eq!(validate_jwt(None, secret), AuthStatus::Deny);
    assert_eq!(bearer_payload(Some(&header), secret), Some(b"{}".to_vec()));
    assert_eq!(bearer_payload(Some(&header), b"other"), None);
    assert_eq!(bearer_payload(None, secret), None);
    assert_eq!(bearer_payload(Some("Basic abc"), secret), None);
}

#[test]
fn scopes_are_granted_by_list_or_by_words() {
    let listed = JsonValue::Object(vec![Member {
        name: "scopes".into(),
        value: JsonValue::Array(vec![JsonValue::text("ugc:read")]),
    }]);
    let worded = JsonValue::Object(vec![Member {
        name: "scope".into(),
        value: JsonValue::text("ugc:read  ugc:write"),
    }]);
    let both = JsonValue::Object(vec![
        Member { name: "scopes".into(), value: JsonValue::Array(vec![JsonValue::text("a")]) },
        Member { name: "scope".into(), value: JsonValue::text("b") },
    ]);
    let odd = JsonValue::Object(vec![Member { name: "scope".into(), value: JsonValue::Number(1) }]);
    assert!(scopes_allow(&listed, "ugc:read"));
    assert!(!scopes_allow(&listed, "ugc:write"));
    assert!(scopes_allow(&worded, "ugc:write"));
    assert!(scopes_allow(&worded, "ugc:read"));
    assert!(!scopes_allow(&worded, "ugc"));
    assert!(scopes_allow(&both, "a"));
    assert!(scopes_allow(&both, "b"));
    assert!(!scopes_allow(&both, "c"));
    assert!(!scopes_allow(&odd, "1"));
    assert!(!scopes_allow(&JsonValue::Null, "a"));

    assert!(has_scope(Some("k"), None, "anything"));
    assert!(!has_scope(Some(""), None, "a"));
    assert!(!has_scope(None, None, "a"));
    assert!(has_scope(None, Some(&both), "b"));
    assert!(!has_scope(Some(""), Some(&both), "c"));
}

#[test]
fn requests_are_admitted_by_path_key_or_token() {
    let secret = b"s3";
    let token = hs256_generate("demo", secret, 0).unwrap();
    let bearer = format!("Bearer {token}");
    let open = admit_request("/health", None, None, secret);
    assert_eq!(open.path, "/health");
    assert!(open.allowed);
    let closed = admit_request("/agents/123", None, None, secret);
    assert_eq!(closed.path, "/agents/:id");
    assert!(!closed.allowed);
    assert!(admit_request("/agents", Some("k"), None, secret).allowed);
    assert!(!admit_request("/agents", Some(""), None, secret).allowed);
    assert!(admit_request("/agents", None, Some(&bearer), secret).allowed);
    assert!(!admit_request("/agents", None, Some(&bearer), b"other").allowed);
    assert!(!admit_request("/agents", None, Some(&bearer), b"").allowed);
    assert!(admit_request("/api-docs/openapi.json", None, None, b"").allowed);

    assert_eq!(request_id_with(Some("abc"), CONTENT), "abc");
    assert_eq!(request_id_with(Some(""), CONTENT), CONTENT_TEXT);
    assert_eq!(request_id_with(None, CONTENT), CONTENT_TEXT);
    assert_eq!(request_id(Some("abc")), "abc");
    assert_eq!(request_id(None).len(), 36);

    assert!(is_server_error(500));
    assert!(is_server_error(503));
    assert!(is_server_error(599));
    assert!(!is_server_error(499));
    assert!(!is_server_error(600));
    assert!(!is_server_error(200));
    assert!(!is_server_error(401));
    assert!(is_server_error(5));
    assert!(is_server_error(50_000));
    assert!(!is_server_error(0));

    assert_eq!(recent_from(10, None), 0);
    assert_eq!(recent_from(150, None), 50);
    assert_eq!(recent_from(150, Some(20)), 130);
    assert_eq!(recent_from(1_000, Some(900)), 500);
    assert_eq!(recent_from(1_000, Some(500)), 500);
    assert_eq!(recent_from(3, Some(0)), 3);
}

#[test]
fn a_durable_store_is_asked_what_the_parameters_say() {
    let params = ListAgentsParams {
        hostname: Some("Host".into()),
        status: Some("active".into()),
        lifecycle_status: Some("DRAINING".into()),
        tenant_id: Some(TENANT_TEXT.into()),
        project_id: Some("  ".into()),
        last_seen_after: Some(1_000),
        last_seen_before: Some(i64::MAX),
        limit: Some(10),
        offset: Some(u32::MAX),
    };
    assert_eq!(
        build_agent_query(&params),
        Ok(AgentQuery {
            tenant_id: Some(TENANT),
            project_id: None,
            hostname_fragment: Some("Host".into()),
            lifecycle_status: Some("draining".into()),
            last_seen_after: Some(1_000),
            last_seen_before: None,
            limit: Some(10),
            offset: Some(4_294_967_295),
        })
    );
    assert_eq!(
        build_agent_query(&ListAgentsParams::default()),
        Ok(AgentQuery {
            tenant_id: None,
            project_id: None,
            hostname_fragment: None,
            lifecycle_status: None,
            last_seen_after: None,
            last_seen_before: None,
            limit: None,
            offset: None,
        })
    );
    assert_eq!(
        build_agent_query(&ListAgentsParams { tenant_id: Some("x".into()), ..ListAgentsParams::default() }),
        Err(refusal(400, "invalid tenant_id"))
    );
    assert_eq!(
        build_agent_query(&ListAgentsParams {
            tenant_id: Some("x".into()),
            project_id: Some("y".into()),
            ..ListAgentsParams::default()
        }),
        Err(refusal(400, "invalid tenant_id"))
    );
    assert_eq!(
        build_agent_query(&ListAgentsParams { project_id: Some("y".into()), ..ListAgentsParams::default() }),
        Err(refusal(400, "invalid project_id"))
    );
}

#[test]
fn stored_agents_are_listed_in_place_of_known_ones() {
    let full = AgentSummaryRecord {
        tenant_id: Some(TENANT),
        project_id: Some(PROJECT),
        lifecycle_status: Some("active".into()),
        last_seen: Some(5_000),
        cpu_percent_bits: Some(12.5f64.to_bits()),
        memory_used_bytes: Some(77),
        ..stored(CONTENT, "host-a")
    };
    assert_eq!(
        map_agent_record(full),
        AgentSummary {
            id: CONTENT_TEXT.into(),
            hostname: "host-a".into(),
            last_seen_unix_ms: 5_000,
            cpu_percent_bits: 12.5f64.to_bits(),
            memory_used_bytes: 77,
            tenant_id: Some(TENANT_TEXT.into()),
            project_id: Some(PROJECT_TEXT.into()),
            lifecycle_status: Some("active".into()),
        }
    );
    let bare = map_agent_record(AgentSummaryRecord {
        last_seen: Some(-1),
        memory_used_bytes: Some(-5),
        ..stored(UPLOAD, "host-b")
    });
    assert_eq!(bare.last_seen_unix_ms, 0);
    assert_eq!(bare.memory_used_bytes, 0);
    assert_eq!(f64::from_bits(bare.cpu_percent_bits), 0.0);
    assert_eq!(map_agent_record(stored(UPLOAD, "h")).last_seen_unix_ms, 0);

    let known = vec![summary("known", "host-k", 10)];
    let records = Some(vec![
        AgentSummaryRecord { last_seen: Some(20), ..stored(PROJECT, "host-p") },
        AgentSummaryRecord { last_seen: Some(30), ..stored(TENANT, "host-t") },
    ]);
    let listed = list_agents_at(&records, known.clone(), &ListAgentsParams::default(), 100);
    assert_eq!(ids(&listed), vec![TENANT_TEXT, PROJECT_TEXT]);
    let fallback = list_agents_at(&None, known.clone(), &ListAgentsParams::default(), 100);
    assert_eq!(ids(&fallback), vec!["known"]);
    let narrowed = list_agents(
        &records,
        known,
        &ListAgentsParams { hostname: Some("-P".into()), ..ListAgentsParams::default() },
    );
    assert_eq!(ids(&narrowed), vec![PROJECT_TEXT]);
}

#[test]
fn a_durable_store_is_told_of_agents_that_go_by_an_identifier() {
    let mut request = registration(CONTENT_TEXT, "host1", TENANT_TEXT, "");
    request.cpu_cores = u32::MAX;
    request.memory_bytes = 1 << 63;
    assert_eq!(
        agent_upsert_at(&request, 9_000),
        Ok(Some(AgentUpsert {
            id: CONTENT,
            hostname: "host1".into(),
            os: Some("os".into()),
            arch: Some("arch".into()),
            cpu_cores: Some(-1),
            memory_bytes: Some(i64::MIN),
            tenant_id: Some(TENANT),
            project_id: None,
            metadata: AgentMetadata::default(),
            status: Some(AgentStatus::Registered),
            last_seen: Some(9_000),
        }))
    );
    let plain = agent_upsert_at(&registration(CONTENT_TEXT, "h", "", ""), 1).unwrap().unwrap();
    assert_eq!(plain.cpu_cores, Some(4));
    assert_eq!(plain.memory_bytes, Some(1024));
    assert_eq!(agent_upsert_at(&registration("node1", "h", "", ""), 1), Ok(None));
    assert_eq!(
        agent_upsert_at(&registration(CONTENT_TEXT, "h", "", "zz"), 1),
        Err(ControlError::InvalidArgument("invalid uuid"))
    );

    let heartbeat = HeartbeatRequest {
        assigned_id: CONTENT_TEXT,
        cpu_percent_bits: 1.5f64.to_bits(),
        memory_used_bytes: 2048,
        timestamp_unix_ms: 4_000,
    };
    assert_eq!(
        heartbeat_record_at(heartbeat, 9_000),
        Some(AgentHeartbeatRecord {
            agent_id: CONTENT,
            cpu_percent_bits: 1.5f64.to_bits(),
            memory_used_bytes: 2048,
            timestamp: 4_000,
        })
    );
    let undated = heartbeat_record_at(HeartbeatRequest { timestamp_unix_ms: 0, ..heartbeat }, 9_000);
    assert_eq!(undated.unwrap().timestamp, 0);
    let beyond =
        heartbeat_record_at(HeartbeatRequest { timestamp_unix_ms: u64::MAX / 2, ..heartbeat }, 9_000);
    assert_eq!(beyond.unwrap().timestamp, 9_000);
    assert_eq!(
        heartbeat_record_at(HeartbeatRequest { assigned_id: "node1", ..heartbeat }, 9_000),
        None
    );
}

#[test]
fn health_and_version_name_the_service() {
    let config = AppConfig::default();
    assert_eq!(
        health(&config),
        HealthResponse { status: "ok", service: "cassandra-gateway".into() }
    );
    assert_eq!(
        version(&config),
        VersionResponse {
            service: "cassandra-gateway".into(),
            version: "0.1.0".into(),
            git_sha: "unknown".into(),
            git_tag: "none".into(),
            build_ts: "unknown".into(),
        }
    );
    assert_eq!(ErrorResponse::of(refusal(404, "not found")).error, "not found");
    let asked = ListLogsParams { limit: Some(7) };
    assert_eq!(recent_from(10, asked.limit), 3);
}

#[test]
fn instants_are_held_between_the_ends_of_the_calendar() {
    let first: i64 = -8_334_601_228_800_000;
    let last: i64 = 8_210_266_876_799_999;
    let held = |at: i64| -> Option<i64> {
        build_agent_query(&ListAgentsParams { last_seen_after: Some(at), ..ListAgentsParams::default() })
            .unwrap()
            .last_seen_after
    };
    assert_eq!(held(first), Some(first));
    assert_eq!(held(first - 1), None);
    assert_eq!(held(last), Some(last));
    assert_eq!(held(last + 1), None);
    assert_eq!(held(0), Some(0));
    assert_eq!(held(i64::MIN), None);
    assert_eq!(held(i64::MAX), None);
    assert_eq!(agent_last_seen(&summary("a", "h", last as u64)), Some(last));
    assert_eq!(agent_last_seen(&summary("a", "h", last as u64 + 1)), None);
}
