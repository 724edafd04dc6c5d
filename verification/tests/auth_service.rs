use cncore::auth::{hash_secret, parse_api_key, validate_scopes, AuthService};
use cncore::claims::{claims_from_text, claims_to_text, decode_claims, encode_claims, TokenClaims, TokenUse};
use cncore::error::PlatformError;
use cncore::models::{
    AuthContext, AuthSessionMetadata, PrincipalType, Tenant, TenantSettings,
};
use cncore::persistence::InMemoryPersistence;
use cncore::scope::Scope;
use cncore::time::{hours, minutes, seconds};
use cncore::token::{sign_jwt, sign_payload, verify_jwt, verify_payload};

fn fresh_id() -> u128 {
    uuid::Uuid::new_v4().as_u128()
}

fn now() -> i64 {
    chrono::Utc::now().timestamp_millis()
}

fn tenant(id: u128, name: &str, settings: TenantSettings) -> Tenant {
    Tenant { id, name: name.to_string(), created_at: now(), settings }
}

fn context(tenant_id: u128, scopes: Vec<Scope>) -> AuthContext {
    AuthContext {
        principal_id: fresh_id(),
        principal_type: PrincipalType::Tenant,
        tenant_id,
        scopes,
        issued_at: now(),
        expires_at: now(),
        audience: None,
        issuer: None,
        session: None,
    }
}

#[test]
fn api_key_issue_and_authenticate() {
    let mut storage = InMemoryPersistence::new();
    let service = AuthService::new(b"secret".to_vec());
    let tenant_id = fresh_id();
    storage
        .insert_tenant(tenant(tenant_id, "Test", TenantSettings::default()))
        .unwrap();
    let key = service
        .issue_api_key(&mut storage, tenant_id, "default", vec![Scope::TenantRead])
        .unwrap();
    let ctx = service
        .authenticate_api_key(&mut storage, &key.value)
        .expect("should authenticate");
    assert_eq!(ctx.tenant_id, tenant_id);
    assert_eq!(ctx.scopes, vec![Scope::TenantRead]);
    assert_eq!(ctx.issuer.as_deref(), Some("cassantranet"));
}

#[test]
fn token_cycle() {
    let mut storage = InMemoryPersistence::new();
    let service = AuthService::new(b"another-secret".to_vec()).with_default_audience("cncore");
    let tenant_id = fresh_id();
    storage
        .insert_tenant(tenant(tenant_id, "Demo", TenantSettings::default()))
        .unwrap();
    let context = AuthContext {
        principal_id: fresh_id(),
        principal_type: PrincipalType::Tenant,
        tenant_id,
        scopes: vec![Scope::Admin],
        issued_at: now(),
        expires_at: now(),
        audience: Some("cncore".into()),
        issuer: Some("cassantranet".into()),
        session: Some(AuthSessionMetadata::default()),
    };
    let token = service
        .issue_token_from_context(&storage, context.clone(), Some(minutes(5)))
        .unwrap();
    let validated = service.validate_token(&token.token).unwrap();
    assert_eq!(validated.principal_id, context.principal_id);
    assert_eq!(validated.scopes, context.scopes);
    assert!(token.refresh_token.is_some());
    let refreshed = service
        .refresh_access_token(&storage, token.refresh_token.as_ref().unwrap())
        .unwrap();
    let refreshed_ctx = service.validate_token(&refreshed.token).unwrap();
    assert_eq!(refreshed_ctx.tenant_id, tenant_id);
}

#[test]
fn api_key_rotation_and_soft_delete() {
    let mut storage = InMemoryPersistence::new();
    let service = AuthService::new(b"rotate-secret".to_vec());
    let tenant_id = fresh_id();
    storage
        .insert_tenant(tenant(tenant_id, "Rotate", TenantSettings::default()))
        .unwrap();
    let key = service
        .issue_api_key(&mut storage, tenant_id, "primary", vec![Scope::ApiKeyManage])
        .unwrap();
    let rotated = service.rotate_api_key(&mut storage, key.id).unwrap();
    assert_eq!(rotated.rotation_parent, Some(key.id));
    let parent = storage.get_api_key(key.id).unwrap().unwrap();
    assert!(parent.revoked);
    assert_eq!(parent.rotated_to, Some(rotated.id));
    service.soft_delete_api_key(&mut storage, rotated.id).unwrap();
    let rotated_record = storage.get_api_key(rotated.id).unwrap().unwrap();
    assert!(rotated_record.deleted_at.is_some());
}

#[test]
fn rotation_links_both_records_and_keeps_scopes() {
    let mut storage = InMemoryPersistence::new();
    let service = AuthService::new(b"s".to_vec());
    let tenant_id = fresh_id();
    let scopes = vec![Scope::TenantRead, Scope::Custom("project:x".into())];
    let key = service
        .issue_api_key(&mut storage, tenant_id, "primary", scopes.clone())
        .unwrap();
    let rotated = service.rotate_api_key(&mut storage, key.id).unwrap();
    let old = storage.get_api_key(key.id).unwrap().unwrap();
    let new = storage.get_api_key(rotated.id).unwrap().unwrap();
    assert!(old.revoked);
    assert!(old.deleted_at.is_some());
    assert_eq!(old.rotated_to, Some(rotated.id));
    assert_eq!(new.rotated_from, Some(key.id));
    assert_eq!(new.scopes, scopes);
    assert_eq!(rotated.scopes, scopes);
    assert_eq!(rotated.label, "primary");
    assert!(!new.revoked);
    // The old key no longer authenticates, the new one does.
    assert_eq!(
        service.authenticate_api_key(&mut storage, &key.value).unwrap_err(),
        PlatformError::Forbidden
    );
    assert!(service.authenticate_api_key(&mut storage, &rotated.value).is_ok());
}

#[test]
fn rotating_an_inactive_key_is_a_conflict() {
    let mut storage = InMemoryPersistence::new();
    let service = AuthService::new(b"s".to_vec());
    let key = service
        .issue_api_key(&mut storage, fresh_id(), "k", vec![Scope::Admin])
        .unwrap();
    service.revoke_api_key(&mut storage, key.id).unwrap();
    assert_eq!(
        service.rotate_api_key(&mut storage, key.id).unwrap_err(),
        PlatformError::Conflict("api_key")
    );
    assert_eq!(
        service.rotate_api_key(&mut storage, fresh_id()).unwrap_err(),
        PlatformError::NotFound("api_key")
    );
    assert_eq!(
        service.revoke_api_key(&mut storage, fresh_id()).unwrap_err(),
        PlatformError::NotFound("api_key")
    );
    assert_eq!(
        service.soft_delete_api_key(&mut storage, fresh_id()).unwrap_err(),
        PlatformError::NotFound("api_key")
    );
}

#[test]
fn issued_key_has_the_wire_format() {
    let mut storage = InMemoryPersistence::new();
    let service = AuthService::new(b"s".to_vec());
    let tenant_id = fresh_id();
    let key = service
        .issue_api_key(&mut storage, tenant_id, "wire", vec![Scope::Admin])
        .unwrap();
    let (prefix, secret) = key.value.split_once('.').unwrap();
    let id_text = uuid::Uuid::from_u128(key.id).to_string();
    assert_eq!(prefix, &id_text[..8]);
    let decoded = base64::Engine::decode(
        &base64::engine::general_purpose::URL_SAFE_NO_PAD,
        secret,
    )
    .unwrap();
    assert_eq!(decoded.len(), 32);
    let record = storage.get_api_key(key.id).unwrap().unwrap();
    assert_eq!(record.token_prefix, prefix);
    assert_eq!(record.token_hash, hash_secret(secret));
    assert_ne!(record.token_hash, secret);
    assert_eq!(record.tenant_id, tenant_id);
    assert_eq!(record.label, "wire");
    assert_eq!(record.last_used_at, None);
    // Authentication notes the use.
    service.authenticate_api_key(&mut storage, &key.value).unwrap();
    assert!(storage.get_api_key(key.id).unwrap().unwrap().last_used_at.is_some());
    assert_eq!(service.list_keys(&storage, tenant_id).unwrap().len(), 1);
}

#[test]
fn issue_with_fixed_inputs_gives_the_exact_key() {
    let mut storage = InMemoryPersistence::new();
    let service = AuthService::new(b"s".to_vec());
    let id = 0x550e8400_e29b_41d4_a716_446655440000u128;
    let secret = [7u8; 32];
    let key = service
        .issue_api_key_with(&mut storage, 9, "fixed", vec![Scope::Admin], id, &secret, 1_000)
        .unwrap();
    assert_eq!(key.id, id);
    assert_eq!(key.created_at, 1_000);
    assert_eq!(key.value, "550e8400.BwcHBwcHBwcHBwcHBwcHBwcHBwcHBwcHBwcHBwcHBwc");
    // The same identifier again is a conflict, and so is the same prefix.
    assert_eq!(
        service
            .issue_api_key_with(&mut storage, 9, "again", vec![Scope::Admin], id, &secret, 2_000)
            .unwrap_err(),
        PlatformError::Conflict("api_key")
    );
    assert_eq!(
        service
            .issue_api_key_with(
                &mut storage,
                9,
                "prefix",
                vec![Scope::Admin],
                0x550e8400_0000_0000_0000_000000000001u128,
                &secret,
                2_000
            )
            .unwrap_err(),
        PlatformError::Conflict("api_key")
    );
    let ctx = service
        .authenticate_api_key_at(&mut storage, &key.value, 5_000)
        .unwrap();
    assert_eq!(ctx.principal_id, id);
    assert_eq!(ctx.principal_type, PrincipalType::ServiceAccount);
    assert_eq!(ctx.tenant_id, 9);
    assert_eq!(ctx.issued_at, 5_000);
    assert_eq!(ctx.expires_at, 5_000 + 3_600_000);
    assert_eq!(ctx.audience, None);
    assert_eq!(ctx.session, None);
}

#[test]
fn scopes_must_be_present_and_distinct() {
    assert_eq!(
        validate_scopes(&vec![]).unwrap_err(),
        PlatformError::InvalidInput("scopes required")
    );
    assert_eq!(
        validate_scopes(&vec![Scope::Admin, Scope::TenantRead, Scope::Admin]).unwrap_err(),
        PlatformError::InvalidInput("duplicate scopes")
    );
    assert_eq!(
        validate_scopes(&vec![Scope::Custom("a".into()), Scope::Custom("a".into())])
            .unwrap_err(),
        PlatformError::InvalidInput("duplicate scopes")
    );
    assert!(validate_scopes(&vec![Scope::Admin, Scope::Custom("admin".into())]).is_ok());
    let mut storage = InMemoryPersistence::new();
    let service = AuthService::new(b"s".to_vec());
    assert_eq!(
        service.issue_api_key(&mut storage, 1, "none", vec![]).unwrap_err(),
        PlatformError::InvalidInput("scopes required")
    );
    assert_eq!(service.list_keys(&storage, 1).unwrap().len(), 0);
}

#[test]
fn malformed_api_keys_are_invalid_input() {
    let malformed = PlatformError::InvalidInput("malformed api key");
    assert_eq!(parse_api_key("abcd.efgh.ijkl").unwrap_err(), malformed);
    assert_eq!(parse_api_key("a.b.c.d").unwrap_err(), malformed);
    assert_eq!(parse_api_key("nodots").unwrap_err(), malformed);
    assert_eq!(parse_api_key("abc.secret").unwrap_err(), malformed);
    assert_eq!(parse_api_key("").unwrap_err(), malformed);
    assert_eq!(
        parse_api_key("abcd.secret").unwrap(),
        ("abcd".to_string(), "secret".to_string())
    );
    assert_eq!(parse_api_key("abcd.").unwrap(), ("abcd".to_string(), String::new()));
    // The prefix is measured in bytes: two characters of two bytes each are enough.
    assert_eq!(
        parse_api_key("\u{e9}\u{e9}.s").unwrap(),
        ("\u{e9}\u{e9}".to_string(), "s".to_string())
    );
    let mut storage = InMemoryPersistence::new();
    let service = AuthService::new(b"s".to_vec());
    assert_eq!(
        service.authenticate_api_key(&mut storage, "a.b.c").unwrap_err(),
        malformed
    );
}

#[test]
fn unknown_prefix_and_wrong_secret_are_unauthorized() {
    let mut storage = InMemoryPersistence::new();
    let service = AuthService::new(b"s".to_vec());
    let key = service
        .issue_api_key(&mut storage, 1, "k", vec![Scope::Admin])
        .unwrap();
    assert_eq!(
        service.authenticate_api_key(&mut storage, "deadbeef.secret").unwrap_err(),
        PlatformError::Unauthorized
    );
    let (prefix, _) = key.value.split_once('.').unwrap();
    let forged = format!("{prefix}.wrong");
    assert_eq!(
        service.authenticate_api_key(&mut storage, &forged).unwrap_err(),
        PlatformError::Unauthorized
    );
    service.soft_delete_api_key(&mut storage, key.id).unwrap();
    assert_eq!(
        service.authenticate_api_key(&mut storage, &key.value).unwrap_err(),
        PlatformError::Forbidden
    );
}

#[test]
fn secret_hash_is_the_base64_of_the_sha256() {
    assert_eq!(hash_secret("abc"), "ungWv48Bz-pBQUDeXa4iI7ADYaOWF3qctBD_YfIAFa0");
    assert_eq!(hash_secret(""), "47DEQpj8HBSa-_TImW-5JCeuQeRkm5NMpJWZG3hSuFU");
}

#[test]
fn token_has_three_parts_and_the_fixed_header() {
    let token = sign_payload(b"{}", b"key").unwrap();
    let parts: Vec<&str> = token.split('.').collect();
    assert_eq!(parts.len(), 3);
    assert_eq!(parts[0], "eyJhbGciOiJIUzI1NiIsInR5cCI6IkpXVCJ9");
    assert_eq!(parts[1], "e30");
    let mut mac = <hmac::Hmac<sha2::Sha256> as hmac::Mac>::new_from_slice(b"key").unwrap();
    hmac::Mac::update(&mut mac, format!("{}.{}", parts[0], parts[1]).as_bytes());
    let expected = base64::Engine::encode(
        &base64::engine::general_purpose::URL_SAFE_NO_PAD,
        hmac::Mac::finalize(mac).into_bytes(),
    );
    assert_eq!(parts[2], expected);
    assert_eq!(verify_payload(&token, b"key").unwrap(), b"{}".to_vec());
}

#[test]
fn tampered_or_foreign_tokens_are_unauthorized() {
    let token = sign_payload(b"payload", b"key").unwrap();
    assert_eq!(
        verify_payload(&token, b"other").unwrap_err(),
        PlatformError::Unauthorized
    );
    assert_eq!(
        verify_payload(&format!("{token}.extra"), b"key").unwrap_err(),
        PlatformError::Unauthorized
    );
    assert_eq!(verify_payload("a.b", b"key").unwrap_err(), PlatformError::Unauthorized);
    assert_eq!(verify_payload("", b"key").unwrap_err(), PlatformError::Unauthorized);
    let parts: Vec<&str> = token.split('.').collect();
    let other_payload = format!("{}.{}.{}", parts[0], "cGF5bG9hZDI", parts[2]);
    assert_eq!(
        verify_payload(&other_payload, b"key").unwrap_err(),
        PlatformError::Unauthorized
    );
    // A header that names another algorithm is rejected whatever the signature.
    let header = base64::Engine::encode(
        &base64::engine::general_purpose::URL_SAFE_NO_PAD,
        br#"{"alg":"none","typ":"JWT"}"#,
    );
    let mut mac = <hmac::Hmac<sha2::Sha256> as hmac::Mac>::new_from_slice(b"key").unwrap();
    hmac::Mac::update(&mut mac, format!("{}.{}", header, parts[1]).as_bytes());
    let signature = base64::Engine::encode(
        &base64::engine::general_purpose::URL_SAFE_NO_PAD,
        hmac::Mac::finalize(mac).into_bytes(),
    );
    assert_eq!(
        verify_payload(&format!("{}.{}.{}", header, parts[1], signature), b"key").unwrap_err(),
        PlatformError::Unauthorized
    );
    assert_eq!(
        verify_payload(&format!("{}.{}.{}", parts[0], parts[1], "!!!"), b"key").unwrap_err(),
        PlatformError::Unauthorized
    );
}

#[test]
fn signing_secret_mismatch_is_unauthorized() {
    let storage = InMemoryPersistence::new();
    let issuer = AuthService::new(b"secret-a".to_vec());
    let other = AuthService::new(b"secret-b".to_vec());
    let token = issuer
        .issue_token_from_context(&storage, context(1, vec![Scope::Admin]), None)
        .unwrap();
    assert!(issuer.validate_token(&token.token).is_ok());
    assert_eq!(
        other.validate_token(&token.token).unwrap_err(),
        PlatformError::Unauthorized
    );
}

#[test]
fn claims_have_the_exact_text() {
    let claims = TokenClaims {
        sub: "550e8400-e29b-41d4-a716-446655440000".into(),
        tenant_id: "00000000-0000-0000-0000-000000000001".into(),
        scopes: vec!["admin".into(), "tenant:read".into()],
        prn_type: "Tenant".into(),
        aud: None,
        iss: "cassantranet".into(),
        token_use: TokenUse::Access,
        nonce: "n-1".into(),
        session: Some(AuthSessionMetadata {
            user_agent: None,
            ip_address: Some("10.0.0.1".into()),
            device_id: Some("host \"a\"\n".into()),
        }),
        iat: 1_700_000_000,
        exp: -5,
    };
    let text = claims_to_text(&claims);
    assert_eq!(
        text,
        concat_all(&[
            r#"{"sub":"550e8400-e29b-41d4-a716-446655440000","#,
            r#""tenant_id":"00000000-0000-0000-0000-000000000001","#,
            r#""scopes":["admin","tenant:read"],"prn_type":"Tenant","aud":null,"#,
            r#""iss":"cassantranet","use":"access","nonce":"n-1","#,
            r#""session":{"user_agent":null,"ip_address":"10.0.0.1","device_id":"host \"a\"\n"},"#,
            r#""iat":1700000000,"exp":-5}"#,
        ])
    );
    // The text is the JSON that other readers expect.
    let parsed: serde_json::Value = serde_json::from_str(&text).unwrap();
    assert_eq!(parsed["use"], "access");
    assert_eq!(parsed["exp"], -5);
    assert_eq!(parsed["session"]["device_id"], "host \"a\"\n");
    assert_eq!(claims_from_text(&text), Some(claims.clone()));
    assert_eq!(decode_claims(&encode_claims(&claims)), Some(claims));
}

fn concat_all(pieces: &[&str]) -> String {
    pieces.concat()
}

#[test]
fn claims_survive_the_round_trip_with_awkward_texts() {
    let awkward = [
        "",
        "plain",
        "quote\" and \\ backslash",
        "\u{0}\u{1}\u{8}\u{9}\u{a}\u{b}\u{c}\u{d}\u{1f}",
        "\u{7f}\u{e9}\u{4e2d}\u{1f600}",
        "\\u0041 /",
    ];
    for text in awkward {
        for number in [0i64, 1, -1, 9, 10, 1_234_567_890_123, i64::MAX, i64::MIN] {
            let claims = TokenClaims {
                sub: text.into(),
                tenant_id: text.into(),
                scopes: vec![text.into(), "b".into()],
                prn_type: text.into(),
                aud: Some(text.into()),
                iss: text.into(),
                token_use: TokenUse::Refresh,
                nonce: text.into(),
                session: None,
                iat: number,
                exp: number,
            };
            let bytes = encode_claims(&claims);
            assert_eq!(decode_claims(&bytes), Some(claims.clone()));
            // serde_json reads the same values from the text.
            let parsed: serde_json::Value = serde_json::from_slice(&bytes).unwrap();
            assert_eq!(parsed["sub"], text);
            assert_eq!(parsed["iat"], number);
            assert_eq!(parsed["use"], "refresh");
            // And writes the same text for the same values.
            let empty_scopes = TokenClaims { scopes: vec![], ..claims.clone() };
            let text_of_empty = claims_to_text(&empty_scopes);
            assert!(text_of_empty.contains(r#""scopes":[],"#));
            assert_eq!(claims_from_text(&text_of_empty), Some(empty_scopes));
        }
    }
}

#[test]
fn only_the_canonical_text_is_read_as_claims() {
    let claims = TokenClaims {
        sub: "s".into(),
        tenant_id: "t".into(),
        scopes: vec![],
        prn_type: "Agent".into(),
        aud: None,
        iss: "i".into(),
        token_use: TokenUse::Access,
        nonce: "n".into(),
        session: None,
        iat: 1,
        exp: 2,
    };
    let text = claims_to_text(&claims);
    assert_eq!(claims_from_text(&text), Some(claims));
    assert_eq!(claims_from_text(&format!("{text} ")), None);
    assert_eq!(claims_from_text(&format!(" {text}")), None);
    assert_eq!(claims_from_text(&text.replace("\"iat\":1", "\"iat\":01")), None);
    assert_eq!(claims_from_text(&text.replace("\"iat\":1", "\"iat\":-0")), None);
    assert_eq!(claims_from_text(&text.replace("\"iat\":1", "\"iat\":1.5")), None);
    assert_eq!(
        claims_from_text(&text.replace("\"iat\":1", "\"iat\":9223372036854775808")),
        None
    );
    assert_eq!(claims_from_text(&text.replace("\"use\":\"access\"", "\"use\":\"other\"")), None);
    assert_eq!(claims_from_text(&text.replace("\"sub\":\"s\"", "\"sub\":\"\\u0073\"")), None);
    assert_eq!(claims_from_text(&text.replace("\"aud\":null", "\"aud\":nil")), None);
    assert_eq!(claims_from_text(""), None);
    assert_eq!(claims_from_text("{}"), None);
    assert_eq!(decode_claims(&[0xff, 0xfe]), None);
    assert_eq!(decode_claims(b""), None);
}

#[test]
fn signed_claims_verify_under_the_same_secret() {
    let claims = TokenClaims {
        sub: "s".into(),
        tenant_id: "t".into(),
        scopes: vec!["admin".into()],
        prn_type: "Service".into(),
        aud: Some("a".into()),
        iss: "i".into(),
        token_use: TokenUse::Access,
        nonce: "n".into(),
        session: None,
        iat: 10,
        exp: 20,
    };
    let token = sign_jwt(&claims, b"k").unwrap();
    assert_eq!(verify_jwt(&token, b"k").unwrap(), claims);
    assert_eq!(verify_jwt(&token, b"j").unwrap_err(), PlatformError::Unauthorized);
    // A payload that is signed but is not the text of claims is unauthorized too.
    let other = sign_payload(br#"{"sub":"demo","exp":1}"#, b"k").unwrap();
    assert_eq!(verify_jwt(&other, b"k").unwrap_err(), PlatformError::Unauthorized);
}

#[test]
fn token_lifetime_is_override_then_tenant_then_default() {
    let mut storage = InMemoryPersistence::new();
    let service = AuthService::new(b"s".to_vec());
    storage
        .insert_tenant(tenant(
            1,
            "short",
            TenantSettings { token_ttl_seconds: Some(120), ..TenantSettings::default() },
        ))
        .unwrap();
    storage
        .insert_tenant(tenant(
            2,
            "zero",
            TenantSettings {
                token_ttl_seconds: Some(0),
                refresh_token_ttl_seconds: Some(0),
                ..TenantSettings::default()
            },
        ))
        .unwrap();
    assert_eq!(service.resolve_access_ttl(&storage, 1, Some(5)).unwrap(), 5);
    assert_eq!(service.resolve_access_ttl(&storage, 1, None).unwrap(), 120_000);
    assert_eq!(service.resolve_access_ttl(&storage, 2, None).unwrap(), 3_600_000);
    assert_eq!(service.resolve_access_ttl(&storage, 3, None).unwrap(), 3_600_000);
    assert_eq!(service.resolve_refresh_ttl(&storage, 1).unwrap(), 43_200_000);
    assert_eq!(service.resolve_refresh_ttl(&storage, 2).unwrap(), 0);
    assert_eq!(service.resolve_refresh_ttl(&storage, 3).unwrap(), hours(12));
    let with_defaults = AuthService::new(b"s".to_vec())
        .with_ttl(minutes(1))
        .with_refresh_ttl(seconds(30));
    assert_eq!(with_defaults.resolve_access_ttl(&storage, 3, None).unwrap(), 60_000);
    assert_eq!(with_defaults.resolve_refresh_ttl(&storage, 3).unwrap(), 30_000);
    // Refresh is disabled for the tenant that sets zero.
    let token = service
        .issue_token_from_context(&storage, context(2, vec![Scope::Admin]), None)
        .unwrap();
    assert!(token.refresh_token.is_none());
}

#[test]
fn issued_token_is_stamped() {
    let storage = InMemoryPersistence::new();
    let service = AuthService::new(b"s".to_vec())
        .with_issuer("issuer-x")
        .with_default_audience("aud-x");
    let ctx = context(7, vec![Scope::AgentExecute, Scope::Custom("project:p".into())]);
    let token = service
        .issue_token_from_context_with(&storage, ctx.clone(), Some(90_000), 1_700_000_000_123, "n1", "n2")
        .unwrap();
    assert_eq!(token.context.issued_at, 1_700_000_000_123);
    assert_eq!(token.context.expires_at, 1_700_000_090_123);
    assert_eq!(token.context.issuer.as_deref(), Some("issuer-x"));
    assert_eq!(token.context.audience.as_deref(), Some("aud-x"));
    assert_eq!(token.context.principal_id, ctx.principal_id);
    let claims = verify_jwt(&token.token, b"s").unwrap();
    assert_eq!(claims.token_use, TokenUse::Access);
    assert_eq!(claims.nonce, "n1");
    assert_eq!(claims.iat, 1_700_000_000);
    assert_eq!(claims.exp, 1_700_000_090);
    assert_eq!(claims.iss, "issuer-x");
    assert_eq!(claims.sub, uuid::Uuid::from_u128(ctx.principal_id).to_string());
    assert_eq!(claims.scopes, vec!["agent:execute".to_string(), "project:p".to_string()]);
    let refresh = verify_jwt(token.refresh_token.as_ref().unwrap(), b"s").unwrap();
    assert_eq!(refresh.token_use, TokenUse::Refresh);
    assert_eq!(refresh.nonce, "n2");
    assert_eq!(refresh.exp, 1_700_000_000 + 43_200);
    // The two signings differ, and the same inputs sign to the same token.
    assert_ne!(token.token, *token.refresh_token.as_ref().unwrap());
    let again = service
        .issue_token_from_context_with(&storage, ctx, Some(90_000), 1_700_000_000_123, "n1", "n2")
        .unwrap();
    assert_eq!(again.token, token.token);
}

#[test]
fn validation_checks_use_expiry_issuer_and_audience() {
    let storage = InMemoryPersistence::new();
    let service = AuthService::new(b"s".to_vec()).with_default_audience("aud-x");
    let ctx = context(7, vec![Scope::Admin]);
    let token = service
        .issue_token_from_context_with(&storage, ctx.clone(), Some(10_000), 1_000_000, "n1", "n2")
        .unwrap();
    // Expires at 1_010_000, which the claims hold as 1010 seconds.
    let back = service.validate_token_at(&token.token, 1_010_000).unwrap();
    assert_eq!(back.principal_id, ctx.principal_id);
    assert_eq!(back.tenant_id, 7);
    assert_eq!(back.scopes, vec![Scope::Admin]);
    assert_eq!(back.principal_type, PrincipalType::Tenant);
    assert_eq!(back.issued_at, 1_000_000);
    assert_eq!(back.expires_at, 1_010_000);
    assert_eq!(
        service.validate_token_at(&token.token, 1_010_001).unwrap_err(),
        PlatformError::Unauthorized
    );
    // A refresh token is no access token, and an access token no refresh token.
    let refresh = token.refresh_token.clone().unwrap();
    assert_eq!(
        service.validate_token_at(&refresh, 1_000_000).unwrap_err(),
        PlatformError::Unauthorized
    );
    assert_eq!(
        service
            .refresh_access_token_with(&storage, &token.token, 1_000_000, "a", "b")
            .unwrap_err(),
        PlatformError::Unauthorized
    );
    // Another issuer or another audience does not validate.
    let other_issuer = AuthService::new(b"s".to_vec())
        .with_default_audience("aud-x")
        .with_issuer("someone-else");
    assert_eq!(
        other_issuer.validate_token_at(&token.token, 1_000_000).unwrap_err(),
        PlatformError::Unauthorized
    );
    let other_audience = AuthService::new(b"s".to_vec()).with_default_audience("aud-y");
    assert_eq!(
        other_audience.validate_token_at(&token.token, 1_000_000).unwrap_err(),
        PlatformError::Unauthorized
    );
    // A service without a default audience accepts any audience.
    let any_audience = AuthService::new(b"s".to_vec());
    assert!(any_audience.validate_token_at(&token.token, 1_000_000).is_ok());
}

#[test]
fn refreshed_token_keeps_principal_tenant_and_scopes() {
    let mut storage = InMemoryPersistence::new();
    let service = AuthService::new(b"s".to_vec());
    storage
        .insert_tenant(tenant(5, "five", TenantSettings::default()))
        .unwrap();
    let ctx = context(5, vec![Scope::TenantRead, Scope::WorkflowExecute]);
    let token = service.issue_token_from_context(&storage, ctx.clone(), None).unwrap();
    let refreshed = service
        .refresh_access_token(&storage, token.refresh_token.as_ref().unwrap())
        .unwrap();
    let back = service.validate_token(&refreshed.token).unwrap();
    assert_eq!(back.principal_id, ctx.principal_id);
    assert_eq!(back.tenant_id, ctx.tenant_id);
    assert_eq!(back.scopes, ctx.scopes);
}

#[test]
fn custom_scope_named_like_a_builtin_comes_back_as_the_builtin() {
    let storage = InMemoryPersistence::new();
    let service = AuthService::new(b"s".to_vec());
    let ctx = context(5, vec![Scope::Custom("admin".into()), Scope::Custom("x".into())]);
    let token = service.issue_token_from_context(&storage, ctx, None).unwrap();
    let back = service.validate_token(&token.token).unwrap();
    assert_eq!(back.scopes, vec![Scope::Admin, Scope::Custom("x".into())]);
}

#[test]
fn token_for_api_key_carries_the_key_as_principal() {
    let mut storage = InMemoryPersistence::new();
    let service = AuthService::new(b"s".to_vec());
    let key = service
        .issue_api_key(&mut storage, 11, "k", vec![Scope::OrchestrationManage])
        .unwrap();
    let token = service
        .issue_token_for_api_key(&mut storage, &key.value, None)
        .unwrap();
    let back = service.validate_token(&token.token).unwrap();
    assert_eq!(back.principal_id, key.id);
    assert_eq!(back.principal_type, PrincipalType::ServiceAccount);
    assert_eq!(back.tenant_id, 11);
    assert_eq!(back.scopes, vec![Scope::OrchestrationManage]);
    assert_eq!(
        service.issue_token_for_api_key(&mut storage, "bad", None).unwrap_err(),
        PlatformError::InvalidInput("malformed api key")
    );
}
