//! The authentication service: API keys, signed access and refresh tokens, and the
//! token lifetimes of each tenant.
//!
//! The service holds only its configuration. The stores are handed to each operation.
use vstd::prelude::*;
use vstd::string::StringExecFns;
use vstd::string::StrSliceExecFns;
use crate::claims::{claims_bytes, TokenClaims, TokenClaimsView, TokenUse};
use crate::crypto::{
    base64url, base64url_encode, constant_time_eq, random_secret, sha256, sha256_digest,
};
use crate::error::{result_view, PlatformError, PlatformResult};
use crate::ids::{id_text, is_uuid_char, parse_id, random_id, uuid_parse, uuid_text};
use crate::models::{
    ApiKey, ApiKeyRecord, ApiKeyRecordView, ApiKeyView, AuthContext, AuthContextView, AuthToken,
    AuthTokenView, PrincipalType, Tenant, TenantView,
};
use crate::persistence::{
    key_by_prefix, lemma_prefix_position, prefix_position, prefix_taken_by_other,
    prefixes_distinct, InMemoryPersistence, StoreView,
};
use crate::scope::{
    clone_scopes, law_scope_text_round_trip, scope_of_text, scope_survives_text, scope_text,
    Scope, ScopeView,
};
use crate::table::{
    arranged, distinct, lemma_position, lookup, owned_by, position, present, replaced, Record,
};
use crate::text::{byte_len, clone_opt_text, find_char, same_text, text_of_range, to_chars};
use crate::time::{after, clamp, hours, minutes, now_millis, seconds, shifted, to_seconds,
    whole_seconds, Millis, Timestamp};
use crate::token::{
    dot_position, lemma_base64_dot_free, lemma_dot_position, lemma_dot_position_is, sign_jwt,
    token_claims, token_text, verify_jwt,
};

verus! {

/// The two parts of an API key.
pub struct KeyParts {
    pub prefix: Seq<char>,
    pub secret: Seq<char>,
}

/// The parts of an API key: what stands before and behind its one dot, where the prefix
/// is at least four bytes long. Any other text is no API key.
pub open spec fn api_key_parts(token: Seq<char>) -> Option<KeyParts> {
    let first = dot_position(token);
    if first >= token.len() {
        None
    } else {
        let secret = token.skip(first + 1);
        if dot_position(secret) < secret.len() {
            None
        } else if vstd::utf8::encode_utf8(token.take(first)).len() < 4 {
            None
        } else {
            Some(KeyParts { prefix: token.take(first), secret })
        }
    }
}

/// Splits an API key into its prefix and its secret. Anything but `<prefix>.<secret>`
/// with one dot and a prefix of four bytes or more is a malformed key.
pub fn parse_api_key(token: &str) -> (r: PlatformResult<(String, String)>)
    ensures
        match api_key_parts(token@) {
            Some(parts) => r matches Ok(pair) && pair.0@ == parts.prefix && pair.1@
                == parts.secret,
            None => r == Err::<(String, String), PlatformError>(
                PlatformError::InvalidInput("malformed api key"),
            ),
        },
{
    let chars = to_chars(token);
    let first = match find_char(&chars, '.', 0) {
        Some(at) => at,
        None => {
            proof {
                lemma_dot_position_is(chars@, chars@.len() as int);
            }
            return Err(PlatformError::InvalidInput("malformed api key"));
        },
    };
    proof {
        lemma_dot_position_is(chars@, first as int);
    }
    let ghost behind = chars@.skip(first + 1);
    match find_char(&chars, '.', first + 1) {
        Some(second) => {
            proof {
                lemma_dot_position(behind);
                assert(behind[second - first - 1] == chars@[second as int]);
            }
            return Err(PlatformError::InvalidInput("malformed api key"));
        },
        None => {
            proof {
                assert forall|j: int| 0 <= j < behind.len() implies #[trigger] behind[j]
                    != '.' by {
                    assert(behind[j] == chars@[first + 1 + j]);
                }
                lemma_dot_position_is(behind, behind.len() as int);
            }
        },
    }
    let prefix = text_of_range(&chars, 0, first);
    let secret = text_of_range(&chars, first + 1, chars.len());
    proof {
        assert(prefix@ =~= chars@.take(first as int));
        assert(secret@ =~= behind);
    }
    if byte_len(prefix.as_str()) < 4 {
        return Err(PlatformError::InvalidInput("malformed api key"));
    }
    Ok((prefix, secret))
}

/// The hash under which the secret of an API key is stored: the base64 text of the
/// SHA-256 digest of the secret text.
pub open spec fn secret_hash(secret: Seq<char>) -> Seq<char> {
    base64url(sha256(vstd::utf8::encode_utf8(secret)))
}

/// The hash under which a secret is stored.
pub fn hash_secret(secret: &str) -> (hash: String)
    ensures
        hash@ == secret_hash(secret@),
{
    let digest = sha256_digest(secret.as_bytes());
    base64url_encode(digest.as_slice())
}

/// Whether a list of scopes may be given to a key: it must not be empty and must not
/// hold a scope twice.
pub open spec fn scopes_verdict(scopes: Seq<ScopeView>) -> PlatformResult<()> {
    if scopes.len() == 0 {
        Err(PlatformError::InvalidInput("scopes required"))
    } else if exists|i: int, j: int| 0 <= i < j < scopes.len() && scopes[i] == scopes[j] {
        Err(PlatformError::InvalidInput("duplicate scopes"))
    } else {
        Ok(())
    }
}

/// Checks the scopes asked for a key.
pub fn validate_scopes(scopes: &Vec<Scope>) -> (r: PlatformResult<()>)
    ensures
        r == scopes_verdict(scopes.deep_view()),
{
    if scopes.len() == 0 {
        return Err(PlatformError::InvalidInput("scopes required"));
    }
    let ghost views = scopes.deep_view();
    let mut j: usize = 1;
    while j < scopes.len()
        invariant
            1 <= j <= scopes.len(),
            views == scopes.deep_view(),
            forall|a: int, b: int| 0 <= a < b < j ==> views[a] != views[b],
        decreases scopes.len() - j,
    {
        let mut i: usize = 0;
        while i < j
            invariant
                i <= j < scopes.len(),
                views == scopes.deep_view(),
                forall|a: int| 0 <= a < i ==> views[a] != views[j as int],
            decreases j - i,
        {
            assert(views[i as int] == scopes@[i as int].deep_view());
            assert(views[j as int] == scopes@[j as int].deep_view());
            if scopes[i] == scopes[j] {
                return Err(PlatformError::InvalidInput("duplicate scopes"));
            }
            i = i + 1;
        }
        j = j + 1;
    }
    Ok(())
}

/// The name of a principal type.
pub open spec fn principal_name(kind: PrincipalType) -> Seq<char> {
    match kind {
        PrincipalType::Tenant => "Tenant"@,
        PrincipalType::Agent => "Agent"@,
        PrincipalType::Service => "Service"@,
        PrincipalType::ServiceAccount => "ServiceAccount"@,
    }
}

/// The principal type that a name stands for; an unknown name stands for a service.
pub open spec fn principal_of_name(name: Seq<char>) -> PrincipalType {
    if name == "Tenant"@ {
        PrincipalType::Tenant
    } else if name == "Agent"@ {
        PrincipalType::Agent
    } else if name == "ServiceAccount"@ {
        PrincipalType::ServiceAccount
    } else {
        PrincipalType::Service
    }
}

/// Every principal type is the one its name stands for.
pub proof fn lemma_principal_name_round_trip(kind: PrincipalType)
    ensures
        principal_of_name(principal_name(kind)) == kind,
{
    reveal_strlit("Tenant");
    reveal_strlit("Agent");
    reveal_strlit("Service");
    reveal_strlit("ServiceAccount");
    assert("Tenant"@.len() == 6);
    assert("Agent"@.len() == 5);
    assert("Service"@.len() == 7);
    assert("ServiceAccount"@.len() == 14);
}

/// The wire texts of a list of scopes.
pub open spec fn scope_texts(scopes: Seq<ScopeView>) -> Seq<Seq<char>> {
    Seq::new(scopes.len(), |i: int| scope_text(scopes[i]))
}

/// The scopes that a list of wire texts denotes.
pub open spec fn scopes_of_texts(texts: Seq<Seq<char>>) -> Seq<ScopeView> {
    Seq::new(texts.len(), |i: int| scope_of_text(texts[i]))
}

/// The issuer of a context that names none.
pub open spec fn default_issuer() -> Seq<char> {
    "cassantranet"@
}

/// The claims that stand for a context in a token of the given use and nonce. Instants
/// are cut to whole seconds.
pub open spec fn claims_of_context(ctx: AuthContextView, token_use: TokenUse, nonce: Seq<char>)
    -> TokenClaimsView {
    TokenClaimsView {
        sub: uuid_text(ctx.principal_id),
        tenant_id: uuid_text(ctx.tenant_id),
        scopes: scope_texts(ctx.scopes),
        prn_type: principal_name(ctx.principal_type),
        aud: ctx.audience,
        iss: match ctx.issuer {
            Some(issuer) => issuer,
            None => default_issuer(),
        },
        token_use,
        nonce,
        session: ctx.session,
        iat: whole_seconds(ctx.issued_at as int) as i64,
        exp: whole_seconds(ctx.expires_at as int) as i64,
    }
}

/// The identifier that a text denotes, or the nil identifier.
pub open spec fn id_or_nil(text: Seq<char>) -> u128 {
    match uuid_parse(text) {
        Some(id) => id,
        None => 0,
    }
}

/// The context that claims stand for. A subject or tenant that is no identifier gives
/// the nil identifier.
pub open spec fn context_of_claims(claims: TokenClaimsView) -> AuthContextView {
    AuthContextView {
        principal_id: id_or_nil(claims.sub),
        principal_type: principal_of_name(claims.prn_type),
        tenant_id: id_or_nil(claims.tenant_id),
        scopes: scopes_of_texts(claims.scopes),
        issued_at: clamp(claims.iat * 1000) as i64,
        expires_at: clamp(claims.exp * 1000) as i64,
        audience: claims.aud,
        issuer: Some(claims.iss),
        session: claims.session,
    }
}

/// Whether the identifiers of a context are read back from their texts.
pub open spec fn ids_read_back(ctx: AuthContextView) -> bool {
    &&& uuid_parse(uuid_text(ctx.principal_id)) == Some(ctx.principal_id)
    &&& uuid_parse(uuid_text(ctx.tenant_id)) == Some(ctx.tenant_id)
}

/// The name of a principal type.
pub fn principal_type_name(kind: PrincipalType) -> (name: &'static str)
    ensures
        name@ == principal_name(kind),
{
    match kind {
        PrincipalType::Tenant => "Tenant",
        PrincipalType::Agent => "Agent",
        PrincipalType::Service => "Service",
        PrincipalType::ServiceAccount => "ServiceAccount",
    }
}

/// The principal type that a name stands for.
pub fn principal_type_of(name: &str) -> (kind: PrincipalType)
    ensures
        kind == principal_of_name(name@),
{
    if same_text(name, "Tenant") {
        PrincipalType::Tenant
    } else if same_text(name, "Agent") {
        PrincipalType::Agent
    } else if same_text(name, "ServiceAccount") {
        PrincipalType::ServiceAccount
    } else {
        PrincipalType::Service
    }
}

impl TokenClaims {
    /// The claims that stand for a context. The identifiers of the context are read back
    /// from the claims.
    pub fn from_context(ctx: &AuthContext, token_use: TokenUse, nonce: String) -> (claims: Self)
        ensures
            claims.deep_view() == claims_of_context(ctx.deep_view(), token_use, nonce@),
            ids_read_back(ctx.deep_view()),
    {
        let mut scopes: Vec<String> = Vec::new();
        let mut i: usize = 0;
        let ghost views = ctx.scopes.deep_view();
        while i < ctx.scopes.len()
            invariant
                i <= ctx.scopes.len(),
                views == ctx.scopes.deep_view(),
                scopes@.len() == i,
                forall|j: int| 0 <= j < i ==> (#[trigger] scopes@[j])@ == scope_text(views[j]),
            decreases ctx.scopes.len() - i,
        {
            assert(views[i as int] == ctx.scopes@[i as int].deep_view());
            scopes.push(ctx.scopes[i].to_text());
            i = i + 1;
        }
        assert(scopes.deep_view() =~= scope_texts(views));
        let iss = match &ctx.issuer {
            Some(issuer) => issuer.clone(),
            None => String::from_str("cassantranet"),
        };
        TokenClaims {
            sub: id_text(ctx.principal_id),
            tenant_id: id_text(ctx.tenant_id),
            scopes,
            prn_type: String::from_str(principal_type_name(ctx.principal_type)),
            aud: clone_opt_text(&ctx.audience),
            iss,
            token_use,
            nonce,
            session: match &ctx.session {
                Some(session) => Some(session.clone()),
                None => None,
            },
            iat: to_seconds(ctx.issued_at),
            exp: to_seconds(ctx.expires_at),
        }
    }

    /// The context that the claims stand for.
    pub fn into_context(self) -> (ctx: AuthContext)
        ensures
            ctx.deep_view() == context_of_claims(self.deep_view()),
    {
        let mut scopes: Vec<Scope> = Vec::new();
        let mut i: usize = 0;
        let ghost texts = self.scopes.deep_view();
        while i < self.scopes.len()
            invariant
                i <= self.scopes.len(),
                texts == self.scopes.deep_view(),
                scopes@.len() == i,
                forall|j: int|
                    0 <= j < i ==> (#[trigger] scopes@[j]).deep_view() == scope_of_text(
                        texts[j],
                    ),
            decreases self.scopes.len() - i,
        {
            assert(texts[i as int] == self.scopes@[i as int]@);
            scopes.push(Scope::from_str(self.scopes[i].as_str()));
            i = i + 1;
        }
        assert(scopes.deep_view() =~= scopes_of_texts(texts));
        let principal_id = match parse_id(self.sub.as_str()) {
            Some(id) => id,
            None => 0,
        };
        let tenant_id = match parse_id(self.tenant_id.as_str()) {
            Some(id) => id,
            None => 0,
        };
        AuthContext {
            principal_id,
            principal_type: principal_type_of(self.prn_type.as_str()),
            tenant_id,
            scopes,
            issued_at: seconds(self.iat),
            expires_at: seconds(self.exp),
            audience: self.aud,
            issuer: Some(self.iss),
            session: self.session,
        }
    }
}

/// The context that a context becomes when it travels in a token and back: the same
/// principal, tenant, principal type, audience and session, the scopes as their texts
/// are read, the issuer named, and the instants cut to whole seconds.
pub proof fn law_context_round_trip(ctx: AuthContextView, token_use: TokenUse, nonce: Seq<char>)
    requires
        ids_read_back(ctx),
    ensures
        ({
            let back = context_of_claims(claims_of_context(ctx, token_use, nonce));
            &&& back.principal_id == ctx.principal_id
            &&& back.tenant_id == ctx.tenant_id
            &&& back.principal_type == ctx.principal_type
            &&& back.audience == ctx.audience
            &&& back.session == ctx.session
            &&& back.scopes.len() == ctx.scopes.len()
            &&& forall|i: int|
                0 <= i < ctx.scopes.len() && scope_survives_text(ctx.scopes[i])
                    ==> #[trigger] back.scopes[i] == ctx.scopes[i]
        }),
{
    lemma_principal_name_round_trip(ctx.principal_type);
    let back = context_of_claims(claims_of_context(ctx, token_use, nonce));
    assert forall|i: int|
        0 <= i < ctx.scopes.len() && scope_survives_text(ctx.scopes[i]) implies #[trigger] back.scopes[i]
        == ctx.scopes[i] by {
        law_scope_text_round_trip(ctx.scopes[i]);
    }
}

/// The token prefix of the key with identifier `id`: the first eight characters of the
/// text of the identifier.
pub open spec fn key_prefix(id: u128) -> Seq<char> {
    uuid_text(id).take(8)
}

/// The plaintext of the key with identifier `id` and the secret bytes `secret`: the
/// prefix, a dot and the base64 text of the secret.
pub open spec fn key_value(id: u128, secret: Seq<u8>) -> Seq<char> {
    key_prefix(id) + (seq!['.'] + base64url(secret))
}

/// The record of a new key: active, never used, holding the hash of the secret.
pub open spec fn new_key_record(
    tenant_id: u128,
    label: Seq<char>,
    scopes: Seq<ScopeView>,
    id: u128,
    secret: Seq<u8>,
    now: Timestamp,
    parent: Option<u128>,
) -> ApiKeyRecordView {
    ApiKeyRecordView {
        id,
        tenant_id,
        label,
        scopes,
        token_prefix: key_prefix(id),
        token_hash: secret_hash(base64url(secret)),
        created_at: now,
        last_used_at: None,
        revoked: false,
        deleted_at: None,
        rotated_from: parent,
        rotated_to: None,
    }
}

/// A new key as handed to its owner.
pub open spec fn new_key(
    tenant_id: u128,
    label: Seq<char>,
    scopes: Seq<ScopeView>,
    id: u128,
    secret: Seq<u8>,
    now: Timestamp,
    parent: Option<u128>,
) -> ApiKeyView {
    ApiKeyView {
        id,
        value: key_value(id, secret),
        tenant_id,
        label,
        scopes,
        created_at: now,
        rotation_parent: parent,
    }
}

/// Whether a record may enter the key table: neither its prefix nor its identifier is
/// taken.
pub open spec fn key_fits(store: StoreView, record: ApiKeyRecordView) -> bool {
    key_by_prefix(store.api_keys, record.token_prefix) is None && !present::<ApiKeyRecord>(
        store.api_keys,
        record.id,
    )
}

/// What creating a key does: the record enters the table and the key is returned, whose
/// plaintext splits into the prefix of the record and the text of the secret; or prefix
/// or identifier are taken, which is a conflict that changes nothing.
pub open spec fn key_created(
    s0: StoreView,
    record: ApiKeyRecordView,
    key: ApiKeyView,
    secret: Seq<u8>,
    s1: StoreView,
    r: PlatformResult<ApiKeyView>,
) -> bool {
    if key_fits(s0, record) {
        &&& r == Ok::<ApiKeyView, PlatformError>(key)
        &&& s1 == StoreView { api_keys: s0.api_keys.push(record), ..s0 }
        &&& api_key_parts(key.value) == Some(
            KeyParts { prefix: record.token_prefix, secret: base64url(secret) },
        )
    } else {
        r == Err::<ApiKeyView, PlatformError>(PlatformError::Conflict("api_key")) && s1 == s0
    }
}

/// What issuing a key does under the identifier `id`, the secret bytes `secret` and the
/// instant `now`: scopes that are empty or hold a scope twice are invalid input; else the
/// key is created for the tenant.
pub open spec fn issue_key_post(
    s0: StoreView,
    tenant_id: u128,
    label: Seq<char>,
    scopes: Seq<ScopeView>,
    id: u128,
    secret: Seq<u8>,
    now: Timestamp,
    s1: StoreView,
    r: PlatformResult<ApiKeyView>,
) -> bool {
    match scopes_verdict(scopes) {
        Err(e) => r == Err::<ApiKeyView, PlatformError>(e) && s1 == s0,
        Ok(_) => key_created(
            s0,
            new_key_record(tenant_id, label, scopes, id, secret, now, None),
            new_key(tenant_id, label, scopes, id, secret, now, None),
            secret,
            s1,
            r,
        ),
    }
}

/// A key record as it is retired by a rotation at `now` in favour of the key `next`.
pub open spec fn retired(record: ApiKeyRecordView, next: u128, now: Timestamp)
    -> ApiKeyRecordView {
    ApiKeyRecordView { revoked: true, deleted_at: Some(now), rotated_to: Some(next), ..record }
}

/// Whether a key record is active: neither revoked nor deleted.
pub open spec fn key_active(record: ApiKeyRecordView) -> bool {
    !record.revoked && record.deleted_at is None
}

/// Why a key cannot be rotated, if it cannot: a key that is not stored is not found, and
/// a key that is revoked or deleted is a conflict.
pub open spec fn rotate_refusal(store: StoreView, id: u128) -> Option<PlatformError> {
    match lookup::<ApiKeyRecord>(store.api_keys, id) {
        None => Some(PlatformError::NotFound("api_key")),
        Some(existing) => if key_active(existing) {
            None
        } else {
            Some(PlatformError::Conflict("api_key"))
        },
    }
}

/// What rotating the key `id` does under the new identifier `next`, the secret bytes
/// `secret` and the instant `now`.
///
/// The key must exist and be active. A new key with its label and scopes is created and
/// linked to it, and the old record is revoked, deleted and linked to the new one.
pub open spec fn rotate_key_post(
    s0: StoreView,
    id: u128,
    next: u128,
    secret: Seq<u8>,
    now: Timestamp,
    s1: StoreView,
    r: PlatformResult<ApiKeyView>,
) -> bool {
    match lookup::<ApiKeyRecord>(s0.api_keys, id) {
        None => r == Err::<ApiKeyView, PlatformError>(PlatformError::NotFound("api_key")) && s1
            == s0,
        Some(existing) => {
            let record = new_key_record(
                existing.tenant_id,
                existing.label,
                existing.scopes,
                next,
                secret,
                now,
                Some(existing.id),
            );
            let key = new_key(
                existing.tenant_id,
                existing.label,
                existing.scopes,
                next,
                secret,
                now,
                Some(existing.id),
            );
            if !key_active(existing) || !key_fits(s0, record) {
                r == Err::<ApiKeyView, PlatformError>(PlatformError::Conflict("api_key")) && s1
                    == s0
            } else {
                &&& r == Ok::<ApiKeyView, PlatformError>(key)
                &&& s1 == StoreView {
                    api_keys: replaced::<ApiKeyRecord>(
                        s0.api_keys.push(record),
                        retired(existing, next, now),
                    ),
                    ..s0
                }
                &&& api_key_parts(key.value) == Some(
                    KeyParts { prefix: record.token_prefix, secret: base64url(secret) },
                )
            }
        },
    }
}

/// What revoking a key does: the key must exist, and its record is revoked.
pub open spec fn revoke_key_post(s0: StoreView, id: u128, s1: StoreView, r: PlatformResult<()>)
    -> bool {
    match lookup::<ApiKeyRecord>(s0.api_keys, id) {
        None => r == Err::<(), PlatformError>(PlatformError::NotFound("api_key")) && s1 == s0,
        Some(existing) => r is Ok && s1 == (StoreView {
            api_keys: replaced::<ApiKeyRecord>(
                s0.api_keys,
                ApiKeyRecordView { revoked: true, ..existing },
            ),
            ..s0
        }),
    }
}

/// What deleting a key softly does at `now`: the key must exist, and its record is
/// revoked and deleted at `now`.
pub open spec fn soft_delete_key_post(
    s0: StoreView,
    id: u128,
    now: Timestamp,
    s1: StoreView,
    r: PlatformResult<()>,
) -> bool {
    match lookup::<ApiKeyRecord>(s0.api_keys, id) {
        None => r == Err::<(), PlatformError>(PlatformError::NotFound("api_key")) && s1 == s0,
        Some(existing) => r is Ok && s1 == (StoreView {
            api_keys: replaced::<ApiKeyRecord>(
                s0.api_keys,
                ApiKeyRecordView { revoked: true, deleted_at: Some(now), ..existing },
            ),
            ..s0
        }),
    }
}

/// The mathematical value of the service: its configuration.
pub struct AuthServiceView {
    pub secret: Seq<u8>,
    pub default_ttl: Millis,
    pub default_refresh_ttl: Millis,
    pub issuer: Seq<char>,
    pub default_audience: Option<Seq<char>>,
}

/// The span of a number of seconds, in milliseconds.
pub open spec fn span_of(secs: i64) -> Millis {
    clamp(secs * 1000) as i64
}

/// The lifetime of an access token: the override, else the positive lifetime that the
/// tenant sets, else the default of the service.
pub open spec fn access_ttl(
    auth: AuthServiceView,
    tenants: Seq<TenantView>,
    tenant_id: u128,
    override_ttl: Option<Millis>,
) -> Millis {
    match override_ttl {
        Some(ttl) => ttl,
        None => match lookup::<Tenant>(tenants, tenant_id) {
            Some(tenant) => match tenant.settings.token_ttl_seconds {
                Some(secs) => if secs > 0 {
                    span_of(secs)
                } else {
                    auth.default_ttl
                },
                None => auth.default_ttl,
            },
            None => auth.default_ttl,
        },
    }
}

/// The lifetime of a refresh token: what the tenant sets, where zero or less disables
/// refresh, else the default of the service.
pub open spec fn refresh_ttl(auth: AuthServiceView, tenants: Seq<TenantView>, tenant_id: u128)
    -> Millis {
    match lookup::<Tenant>(tenants, tenant_id) {
        Some(tenant) => match tenant.settings.refresh_token_ttl_seconds {
            Some(secs) => if secs > 0 {
                span_of(secs)
            } else {
                0
            },
            None => auth.default_refresh_ttl,
        },
        None => auth.default_refresh_ttl,
    }
}

/// The context of a key that authenticated at `now`.
pub open spec fn key_context(
    auth: AuthServiceView,
    tenants: Seq<TenantView>,
    record: ApiKeyRecordView,
    now: Timestamp,
) -> AuthContextView {
    AuthContextView {
        principal_id: record.id,
        principal_type: PrincipalType::ServiceAccount,
        tenant_id: record.tenant_id,
        scopes: record.scopes,
        issued_at: now,
        expires_at: shifted(
            now as int,
            access_ttl(auth, tenants, record.tenant_id, None) as int,
        ) as i64,
        audience: auth.default_audience,
        issuer: Some(auth.issuer),
        session: None,
    }
}

/// What authenticating a raw API key does at `now`.
///
/// A text that is no API key is invalid input. A prefix that no record has is
/// unauthorized, a record that is revoked or deleted forbidden, a secret whose hash is not
/// the stored one unauthorized. Else the record notes the use and the context of the key
/// is returned, dated from `now` and expiring after the lifetime of the tenant.
pub open spec fn authenticate_post(
    auth: AuthServiceView,
    s0: StoreView,
    token: Seq<char>,
    now: Timestamp,
    s1: StoreView,
    r: PlatformResult<AuthContextView>,
) -> bool {
    match api_key_parts(token) {
        None => r == Err::<AuthContextView, PlatformError>(
            PlatformError::InvalidInput("malformed api key"),
        ) && s1 == s0,
        Some(parts) => match key_by_prefix(s0.api_keys, parts.prefix) {
            None => r == Err::<AuthContextView, PlatformError>(PlatformError::Unauthorized) && s1
                == s0,
            Some(record) => {
                if !key_active(record) {
                    r == Err::<AuthContextView, PlatformError>(PlatformError::Forbidden) && s1
                        == s0
                } else if record.token_hash != secret_hash(parts.secret) {
                    r == Err::<AuthContextView, PlatformError>(PlatformError::Unauthorized)
                        && s1 == s0
                } else {
                    &&& r == Ok::<AuthContextView, PlatformError>(
                        key_context(auth, s0.tenants, record, now),
                    )
                    &&& s1 == StoreView {
                        api_keys: replaced::<ApiKeyRecord>(
                            s0.api_keys,
                            ApiKeyRecordView { last_used_at: Some(now), ..record },
                        ),
                        ..s0
                    }
                }
            },
        },
    }
}

/// The context that a token carries when it is issued from `ctx` at `now`: dated from
/// `now`, expiring after the resolved lifetime, for the audience of the context or else
/// the default audience, issued by the service.
pub open spec fn stamped(
    auth: AuthServiceView,
    tenants: Seq<TenantView>,
    ctx: AuthContextView,
    ttl: Option<Millis>,
    now: Timestamp,
) -> AuthContextView {
    AuthContextView {
        issued_at: now,
        expires_at: shifted(now as int, access_ttl(auth, tenants, ctx.tenant_id, ttl) as int) as i64,
        audience: if ctx.audience is None {
            auth.default_audience
        } else {
            ctx.audience
        },
        issuer: Some(auth.issuer),
        ..ctx
    }
}

/// What issuing a token from a context does at `now` with the two nonces.
///
/// The access token carries the claims of the stamped context under the secret of the
/// service. Unless the refresh lifetime is zero or less, a refresh token carries the same
/// claims marked for refresh, expiring after the refresh lifetime.
pub open spec fn issue_token_post(
    auth: AuthServiceView,
    tenants: Seq<TenantView>,
    ctx: AuthContextView,
    ttl: Option<Millis>,
    now: Timestamp,
    nonce: Seq<char>,
    refresh_nonce: Seq<char>,
    r: PlatformResult<AuthTokenView>,
) -> bool {
    let context = stamped(auth, tenants, ctx, ttl, now);
    let access = claims_of_context(context, TokenUse::Access, nonce);
    let span = refresh_ttl(auth, tenants, ctx.tenant_id);
    let renewal = claims_of_context(
        AuthContextView { expires_at: shifted(now as int, span as int) as i64, ..context },
        TokenUse::Refresh,
        refresh_nonce,
    );
    &&& r matches Ok(token)
    &&& token.context == context
    &&& token.token == token_text(claims_bytes(access), auth.secret)
    &&& token_claims(token.token, auth.secret) == Some(access)
    &&& ids_read_back(context)
    &&& span <= 0 ==> token.refresh_token is None
    &&& span > 0 ==> token.refresh_token == Some(token_text(claims_bytes(renewal), auth.secret))
        && token_claims(token.refresh_token->0, auth.secret) == Some(renewal)
}

/// Whether claims are valid for a use at `now`: they are marked for that use, have not
/// expired, were issued by the service and, where the service has a default audience, are
/// for that audience.
pub open spec fn claims_valid(
    auth: AuthServiceView,
    claims: TokenClaimsView,
    expected: TokenUse,
    now: Timestamp,
) -> bool {
    &&& claims.token_use == expected
    &&& span_of(claims.exp) >= now
    &&& claims.iss == auth.issuer
    &&& auth.default_audience is Some ==> claims.aud == auth.default_audience
}

/// What a token is validated as for a use at `now`: the context of its claims, where it
/// carries claims under the secret of the service and they are valid; unauthorized
/// otherwise.
pub open spec fn validated(
    auth: AuthServiceView,
    token: Seq<char>,
    expected: TokenUse,
    now: Timestamp,
) -> PlatformResult<AuthContextView> {
    match token_claims(token, auth.secret) {
        None => Err(PlatformError::Unauthorized),
        Some(claims) => if claims_valid(auth, claims, expected, now) {
            Ok(context_of_claims(claims))
        } else {
            Err(PlatformError::Unauthorized)
        },
    }
}

/// What refreshing does at `now`: the refresh token is validated for refresh, and a token
/// is issued from its context.
pub open spec fn refresh_post(
    auth: AuthServiceView,
    tenants: Seq<TenantView>,
    refresh_token: Seq<char>,
    now: Timestamp,
    nonce: Seq<char>,
    refresh_nonce: Seq<char>,
    r: PlatformResult<AuthTokenView>,
) -> bool {
    match validated(auth, refresh_token, TokenUse::Refresh, now) {
        Err(e) => r == Err::<AuthTokenView, PlatformError>(e),
        Ok(ctx) => issue_token_post(auth, tenants, ctx, None, now, nonce, refresh_nonce, r),
    }
}

/// In a well-formed table the record at an index is the only one with its prefix.
pub proof fn lemma_own_prefix(keys: Seq<ApiKeyRecordView>, at: int)
    requires
        prefixes_distinct(keys),
        distinct::<ApiKeyRecord>(keys),
        0 <= at < keys.len(),
    ensures
        !prefix_taken_by_other(keys, keys[at].token_prefix, keys[at].id),
        prefix_position(keys, keys[at].token_prefix) == at,
        key_by_prefix(keys, keys[at].token_prefix) == Some(keys[at]),
{
    let prefix = keys[at].token_prefix;
    if prefix_taken_by_other(keys, prefix, keys[at].id) {
        let k = choose|k: int|
            0 <= k < keys.len() && (#[trigger] keys[k]).token_prefix == prefix && keys[k].id
                != keys[at].id;
        if k < at {
            assert(keys[k].token_prefix != keys[at].token_prefix);
        } else if at < k {
            assert(keys[at].token_prefix != keys[k].token_prefix);
        }
    }
    lemma_prefix_position(keys, prefix);
    let p = prefix_position(keys, prefix);
    if p < at {
        assert(keys[p].token_prefix != keys[at].token_prefix);
    }
}

/// A record found by its prefix is a record of the table, found by its identifier too.
pub proof fn lemma_found_by_prefix(keys: Seq<ApiKeyRecordView>, prefix: Seq<char>)
    requires
        distinct::<ApiKeyRecord>(keys),
        key_by_prefix(keys, prefix) is Some,
    ensures
        lookup::<ApiKeyRecord>(keys, key_by_prefix(keys, prefix)->0.id) == key_by_prefix(
            keys,
            prefix,
        ),
        key_by_prefix(keys, prefix)->0.token_prefix == prefix,
{
    lemma_prefix_position(keys, prefix);
    crate::table::lemma_lookup_at::<ApiKeyRecord>(keys, prefix_position(keys, prefix));
}

/// The authentication service.
pub struct AuthService {
    secret: Vec<u8>,
    default_ttl: Millis,
    default_refresh_ttl: Millis,
    issuer: String,
    default_audience: Option<String>,
}

impl View for AuthService {
    type V = AuthServiceView;

    closed spec fn view(&self) -> AuthServiceView {
        AuthServiceView {
            secret: self.secret@,
            default_ttl: self.default_ttl,
            default_refresh_ttl: self.default_refresh_ttl,
            issuer: self.issuer@,
            default_audience: self.default_audience.deep_view(),
        }
    }
}

/// Replaces a key record that is in the table by a copy with the same prefix.
fn store_key(store: &mut InMemoryPersistence, record: ApiKeyRecord) -> (r: PlatformResult<()>)
    requires
        old(store).wf(),
        lookup::<ApiKeyRecord>(old(store)@.api_keys, record.id) matches Some(existing)
            && existing.token_prefix == record.token_prefix@,
    ensures
        final(store).wf(),
        r is Ok,
        final(store)@ == (StoreView {
            api_keys: replaced::<ApiKeyRecord>(old(store)@.api_keys, record.deep_view()),
            ..old(store)@
        }),
{
    proof {
        let keys = store@.api_keys;
        lemma_position::<ApiKeyRecord>(keys, record.id);
        lemma_own_prefix(keys, position::<ApiKeyRecord>(keys, record.id));
    }
    store.update_api_key(record)
}

impl AuthService {
    /// A service that signs with `secret`: access tokens live for an hour and refresh
    /// tokens for twelve unless a tenant says otherwise, the issuer is `cassantranet`,
    /// and there is no default audience.
    pub fn new(secret: Vec<u8>) -> (service: Self)
        ensures
            service@ == (AuthServiceView {
                secret: secret@,
                default_ttl: 3_600_000,
                default_refresh_ttl: 43_200_000,
                issuer: default_issuer(),
                default_audience: None,
            }),
    {
        AuthService {
            secret,
            default_ttl: minutes(60),
            default_refresh_ttl: hours(12),
            issuer: String::from_str("cassantranet"),
            default_audience: None,
        }
    }

    /// The service with another default lifetime of access tokens.
    pub fn with_ttl(self, ttl: Millis) -> (service: Self)
        ensures
            service@ == (AuthServiceView { default_ttl: ttl, ..self@ }),
    {
        let mut service = self;
        service.default_ttl = ttl;
        service
    }

    /// The service with another default lifetime of refresh tokens.
    pub fn with_refresh_ttl(self, ttl: Millis) -> (service: Self)
        ensures
            service@ == (AuthServiceView { default_refresh_ttl: ttl, ..self@ }),
    {
        let mut service = self;
        service.default_refresh_ttl = ttl;
        service
    }

    /// The service with another issuer.
    pub fn with_issuer(self, issuer: &str) -> (service: Self)
        ensures
            service@ == (AuthServiceView { issuer: issuer@, ..self@ }),
    {
        let mut service = self;
        service.issuer = String::from_str(issuer);
        service
    }

    /// The service with a default audience.
    pub fn with_default_audience(self, audience: &str) -> (service: Self)
        ensures
            service@ == (AuthServiceView { default_audience: Some(audience@), ..self@ }),
    {
        let mut service = self;
        service.default_audience = Some(String::from_str(audience));
        service
    }

    /// Creates a key under the identifier `id` from the secret bytes `secret`.
    fn create_api_key(
        &self,
        store: &mut InMemoryPersistence,
        tenant_id: u128,
        label: String,
        scopes: Vec<Scope>,
        rotation_parent: Option<u128>,
        id: u128,
        secret: &[u8],
        now: Timestamp,
    ) -> (r: PlatformResult<ApiKey>)
        requires
            old(store).wf(),
        ensures
            final(store).wf(),
            key_created(
                old(store)@,
                new_key_record(
                    tenant_id,
                    label@,
                    scopes.deep_view(),
                    id,
                    secret@,
                    now,
                    rotation_parent,
                ),
                new_key(tenant_id, label@, scopes.deep_view(), id, secret@, now, rotation_parent),
                secret@,
                final(store)@,
                result_view(r),
            ),
    {
        let secret_b64 = base64url_encode(secret);
        let id_chars = to_chars(id_text(id).as_str());
        let token_prefix = text_of_range(&id_chars, 0, 8);
        let token_hash = hash_secret(secret_b64.as_str());
        let record = ApiKeyRecord {
            id,
            tenant_id,
            label: label.clone(),
            scopes: clone_scopes(&scopes),
            token_prefix: token_prefix.clone(),
            token_hash,
            created_at: now,
            last_used_at: None,
            revoked: false,
            deleted_at: None,
            rotated_from: rotation_parent,
            rotated_to: None,
        };
        proof {
            assert(token_prefix@ =~= key_prefix(id));
        }
        match store.insert_api_key(record) {
            Ok(()) => {},
            Err(e) => {
                return Err(e);
            },
        }
        let mut value = token_prefix;
        value.append(".");
        value.append(secret_b64.as_str());
        proof {
            reveal_strlit(".");
            assert("."@ =~= seq!['.']);
            let prefix = key_prefix(id);
            let text = base64url(secret@);
            let joined = prefix + (seq!['.'] + text);
            assert(value@ =~= joined);
            // The prefix is ASCII without a dot, and the secret text has no dot.
            assert forall|j: int| 0 <= j < prefix.len() implies #[trigger] joined[j] != '.' by {
                assert(joined[j] == prefix[j]);
                assert(prefix[j] == uuid_text(id)[j]);
                assert(is_uuid_char(uuid_text(id)[j]));
            }
            assert(joined[8] == '.');
            lemma_dot_position_is(joined, 8);
            assert(joined.skip(9) =~= text);
            lemma_base64_dot_free(text);
            lemma_dot_position(text);
            assert(joined.take(8) =~= prefix);
            assert forall|j: int| 0 <= j < prefix.len() implies '\0' <= #[trigger] prefix[j]
                <= '\u{7f}' by {
                assert(prefix[j] == uuid_text(id)[j]);
                assert(is_uuid_char(uuid_text(id)[j]));
            }
            vstd::utf8::is_ascii_chars_encode_utf8(prefix);
        }
        Ok(
            ApiKey {
                id,
                value,
                tenant_id,
                label,
                scopes,
                created_at: now,
                rotation_parent,
            },
        )
    }

    /// Issues a key for a tenant under the identifier `id`, from the secret bytes `secret`,
    /// at `now`.
    pub fn issue_api_key_with(
        &self,
        store: &mut InMemoryPersistence,
        tenant_id: u128,
        label: &str,
        scopes: Vec<Scope>,
        id: u128,
        secret: &[u8],
        now: Timestamp,
    ) -> (r: PlatformResult<ApiKey>)
        requires
            old(store).wf(),
        ensures
            final(store).wf(),
            issue_key_post(
                old(store)@,
                tenant_id,
                label@,
                scopes.deep_view(),
                id,
                secret@,
                now,
                final(store)@,
                result_view(r),
            ),
    {
        match validate_scopes(&scopes) {
            Ok(()) => {},
            Err(e) => {
                return Err(e);
            },
        }
        self.create_api_key(store, tenant_id, String::from_str(label), scopes, None, id, secret, now)
    }

    /// Issues a key for a tenant. The value of the key that is returned is the only copy
    /// of its plaintext: the store keeps the hash of the secret and the prefix.
    ///
    /// Scopes that are empty or hold a scope twice are invalid input, whatever else
    /// happens. Only then are the secret and the identifier drawn: where the operating
    /// system gives no random bytes, the error is internal and nothing changes.
    pub fn issue_api_key(
        &self,
        store: &mut InMemoryPersistence,
        tenant_id: u128,
        label: &str,
        scopes: Vec<Scope>,
    ) -> (r: PlatformResult<ApiKey>)
        requires
            old(store).wf(),
        ensures
            final(store).wf(),
            scopes_verdict(scopes.deep_view()) matches Err(e) ==> r == Err::<ApiKey, PlatformError>(
                e,
            ) && final(store)@ == old(store)@,
            scopes_verdict(scopes.deep_view()) is Ok ==> (r == Err::<ApiKey, PlatformError>(
                PlatformError::Internal("entropy unavailable"),
            ) && final(store)@ == old(store)@) || exists|
                id: u128,
                secret: Seq<u8>,
                now: Timestamp,
            |
                secret.len() == 32 && #[trigger] issue_key_post(
                    old(store)@,
                    tenant_id,
                    label@,
                    scopes.deep_view(),
                    id,
                    secret,
                    now,
                    final(store)@,
                    result_view(r),
                ),
    {
        match validate_scopes(&scopes) {
            Ok(()) => {},
            Err(e) => {
                return Err(e);
            },
        }
        let secret = match random_secret() {
            Some(secret) => secret,
            None => {
                return Err(PlatformError::Internal("entropy unavailable"));
            },
        };
        let id = random_id();
        let now = now_millis();
        self.issue_api_key_with(store, tenant_id, label, scopes, id, secret.as_slice(), now)
    }

    /// Rotates the key `id` into a new key under the identifier `next`, from the secret
    /// bytes `secret`, at `now`.
    pub fn rotate_api_key_with(
        &self,
        store: &mut InMemoryPersistence,
        id: u128,
        next: u128,
        secret: &[u8],
        now: Timestamp,
    ) -> (r: PlatformResult<ApiKey>)
        requires
            old(store).wf(),
        ensures
            final(store).wf(),
            rotate_key_post(old(store)@, id, next, secret@, now, final(store)@, result_view(r)),
    {
        let mut existing = match store.get_api_key(id) {
            Ok(Some(record)) => record,
            Ok(None) => {
                return Err(PlatformError::NotFound("api_key"));
            },
            Err(e) => {
                return Err(e);
            },
        };
        proof {
            lemma_position::<ApiKeyRecord>(store@.api_keys, id);
        }
        if existing.revoked || existing.deleted_at.is_some() {
            return Err(PlatformError::Conflict("api_key"));
        }
        let new_key = match self.create_api_key(
            store,
            existing.tenant_id,
            existing.label.clone(),
            clone_scopes(&existing.scopes),
            Some(existing.id),
            next,
            secret,
            now,
        ) {
            Ok(key) => key,
            Err(e) => {
                return Err(e);
            },
        };
        existing.revoked = true;
        existing.deleted_at = Some(now);
        existing.rotated_to = Some(new_key.id);
        proof {
            let before = old(store)@.api_keys;
            let added = new_key_record(
                existing.tenant_id,
                existing.label@,
                existing.scopes.deep_view(),
                next,
                secret@,
                now,
                Some(id),
            );
            crate::table::lemma_push::<ApiKeyRecord>(before, added);
        }
        match store_key(store, existing) {
            Ok(()) => {},
            Err(e) => {
                return Err(e);
            },
        }
        Ok(new_key)
    }

    /// Creates a new key that inherits label and scopes of the key `id`, links the two,
    /// and marks the old record revoked and deleted.
    ///
    /// A key that is not stored is not found, and a key that is not active is a conflict,
    /// whatever else happens. Only then are the secret and the identifier drawn: where the
    /// operating system gives no random bytes, the error is internal and nothing changes.
    pub fn rotate_api_key(&self, store: &mut InMemoryPersistence, id: u128) -> (r: PlatformResult<
        ApiKey,
    >)
        requires
            old(store).wf(),
        ensures
            final(store).wf(),
            rotate_refusal(old(store)@, id) matches Some(e) ==> r == Err::<ApiKey, PlatformError>(e)
                && final(store)@ == old(store)@,
            rotate_refusal(old(store)@, id) is None ==> (r == Err::<ApiKey, PlatformError>(
                PlatformError::Internal("entropy unavailable"),
            ) && final(store)@ == old(store)@) || exists|
                next: u128,
                secret: Seq<u8>,
                now: Timestamp,
            |
                secret.len() == 32 && #[trigger] rotate_key_post(
                    old(store)@,
                    id,
                    next,
                    secret,
                    now,
                    final(store)@,
                    result_view(r),
                ),
    {
        match store.get_api_key(id) {
            Ok(Some(record)) => {
                if record.revoked || record.deleted_at.is_some() {
                    return Err(PlatformError::Conflict("api_key"));
                }
            },
            Ok(None) => {
                return Err(PlatformError::NotFound("api_key"));
            },
            Err(e) => {
                return Err(e);
            },
        }
        let secret = match random_secret() {
            Some(secret) => secret,
            None => {
                return Err(PlatformError::Internal("entropy unavailable"));
            },
        };
        let next = random_id();
        let now = now_millis();
        self.rotate_api_key_with(store, id, next, secret.as_slice(), now)
    }

    /// Marks the key `id` revoked and deleted at `now`.
    pub fn soft_delete_api_key_at(&self, store: &mut InMemoryPersistence, id: u128, now: Timestamp)
        -> (r: PlatformResult<()>)
        requires
            old(store).wf(),
        ensures
            final(store).wf(),
            soft_delete_key_post(old(store)@, id, now, final(store)@, r),
    {
        match store.get_api_key(id) {
            Ok(Some(record)) => {
                proof {
                    lemma_position::<ApiKeyRecord>(store@.api_keys, id);
                }
                let mut record = record;
                record.deleted_at = Some(now);
                record.revoked = true;
                store_key(store, record)
            },
            Ok(None) => Err(PlatformError::NotFound("api_key")),
            Err(e) => Err(e),
        }
    }

    /// Marks the key `id` revoked and deleted now.
    pub fn soft_delete_api_key(&self, store: &mut InMemoryPersistence, id: u128) -> (r:
        PlatformResult<()>)
        requires
            old(store).wf(),
        ensures
            final(store).wf(),
            exists|now: Timestamp| #[trigger]
                soft_delete_key_post(old(store)@, id, now, final(store)@, r),
    {
        let now = now_millis();
        self.soft_delete_api_key_at(store, id, now)
    }

    /// Marks the key `id` revoked.
    pub fn revoke_api_key(&self, store: &mut InMemoryPersistence, id: u128) -> (r: PlatformResult<
        (),
    >)
        requires
            old(store).wf(),
        ensures
            final(store).wf(),
            revoke_key_post(old(store)@, id, final(store)@, r),
    {
        match store.get_api_key(id) {
            Ok(Some(record)) => {
                proof {
                    lemma_position::<ApiKeyRecord>(store@.api_keys, id);
                }
                let mut record = record;
                record.revoked = true;
                store_key(store, record)
            },
            Ok(None) => Err(PlatformError::NotFound("api_key")),
            Err(e) => Err(e),
        }
    }

    /// The key records of a tenant, by the instant of their creation.
    pub fn list_keys(&self, store: &InMemoryPersistence, tenant_id: u128) -> (r: PlatformResult<
        Vec<ApiKeyRecord>,
    >)
        ensures
            r matches Ok(listing) && listing.deep_view() == arranged::<ApiKeyRecord>(
                owned_by::<ApiKeyRecord>(store@.api_keys, tenant_id),
            ),
    {
        store.list_api_keys(tenant_id)
    }

    /// The lifetime of an access token of a tenant.
    pub fn resolve_access_ttl(
        &self,
        store: &InMemoryPersistence,
        tenant_id: u128,
        override_ttl: Option<Millis>,
    ) -> (r: PlatformResult<Millis>)
        ensures
            r == Ok::<Millis, PlatformError>(
                access_ttl(self@, store@.tenants, tenant_id, override_ttl),
            ),
    {
        match override_ttl {
            Some(ttl) => {
                return Ok(ttl);
            },
            None => {},
        }
        let tenant = match store.get_tenant(tenant_id) {
            Ok(tenant) => tenant,
            Err(e) => {
                return Err(e);
            },
        };
        match tenant {
            Some(tenant) => match tenant.settings.token_ttl_seconds {
                Some(secs) => {
                    if secs > 0 {
                        return Ok(seconds(secs));
                    }
                },
                None => {},
            },
            None => {},
        }
        Ok(self.default_ttl)
    }

    /// The lifetime of a refresh token of a tenant; zero disables refresh.
    pub fn resolve_refresh_ttl(&self, store: &InMemoryPersistence, tenant_id: u128) -> (r:
        PlatformResult<Millis>)
        ensures
            r == Ok::<Millis, PlatformError>(refresh_ttl(self@, store@.tenants, tenant_id)),
    {
        let tenant = match store.get_tenant(tenant_id) {
            Ok(tenant) => tenant,
            Err(e) => {
                return Err(e);
            },
        };
        match tenant {
            Some(tenant) => match tenant.settings.refresh_token_ttl_seconds {
                Some(secs) => {
                    if secs > 0 {
                        return Ok(seconds(secs));
                    } else {
                        return Ok(0);
                    }
                },
                None => {},
            },
            None => {},
        }
        Ok(self.default_refresh_ttl)
    }

    /// Authenticates a raw API key at `now`.
    pub fn authenticate_api_key_at(
        &self,
        store: &mut InMemoryPersistence,
        token: &str,
        now: Timestamp,
    ) -> (r: PlatformResult<AuthContext>)
        requires
            old(store).wf(),
        ensures
            final(store).wf(),
            authenticate_post(self@, old(store)@, token@, now, final(store)@, result_view(r)),
    {
        let (prefix, secret) = match parse_api_key(token) {
            Ok(parts) => parts,
            Err(e) => {
                return Err(e);
            },
        };
        let mut record = match store.get_api_key_by_prefix(prefix.as_str()) {
            Ok(Some(record)) => record,
            Ok(None) => {
                return Err(PlatformError::Unauthorized);
            },
            Err(e) => {
                return Err(e);
            },
        };
        proof {
            lemma_found_by_prefix(store@.api_keys, prefix@);
        }
        if record.revoked || record.deleted_at.is_some() {
            return Err(PlatformError::Forbidden);
        }
        let computed = hash_secret(secret.as_str());
        proof {
            vstd::utf8::encode_utf8_decode_utf8(record.token_hash@);
            vstd::utf8::encode_utf8_decode_utf8(computed@);
        }
        if !constant_time_eq(record.token_hash.as_str().as_bytes(), computed.as_str().as_bytes()) {
            return Err(PlatformError::Unauthorized);
        }
        let ttl = match self.resolve_access_ttl(store, record.tenant_id, None) {
            Ok(ttl) => ttl,
            Err(e) => {
                return Err(e);
            },
        };
        record.last_used_at = Some(now);
        let context = AuthContext {
            principal_id: record.id,
            principal_type: PrincipalType::ServiceAccount,
            tenant_id: record.tenant_id,
            scopes: clone_scopes(&record.scopes),
            issued_at: now,
            expires_at: after(now, ttl),
            audience: clone_opt_text(&self.default_audience),
            issuer: Some(self.issuer.clone()),
            session: None,
        };
        match store_key(store, record) {
            Ok(()) => {},
            Err(e) => {
                return Err(e);
            },
        }
        Ok(context)
    }

    /// Authenticates a raw API key of the form `<prefix>.<secret>`: looks the record up
    /// by the prefix, rejects a revoked or deleted one, verifies the hash of the secret
    /// in constant time, and notes the use.
    pub fn authenticate_api_key(&self, store: &mut InMemoryPersistence, token: &str) -> (r:
        PlatformResult<AuthContext>)
        requires
            old(store).wf(),
        ensures
            final(store).wf(),
            exists|now: Timestamp| #[trigger]
                authenticate_post(
                    self@,
                    old(store)@,
                    token@,
                    now,
                    final(store)@,
                    result_view(r),
                ),
    {
        let now = now_millis();
        self.authenticate_api_key_at(store, token, now)
    }

    /// Whether claims are valid for a use at `now`.
    pub fn ensure_claims_valid(&self, claims: &TokenClaims, expected_use: TokenUse, now: Timestamp)
        -> (r: PlatformResult<()>)
        ensures
            claims_valid(self@, claims.deep_view(), expected_use, now) ==> r is Ok,
            !claims_valid(self@, claims.deep_view(), expected_use, now) ==> r == Err::<
                (),
                PlatformError,
            >(PlatformError::Unauthorized),
    {
        if claims.token_use != expected_use {
            return Err(PlatformError::Unauthorized);
        }
        if seconds(claims.exp) < now {
            return Err(PlatformError::Unauthorized);
        }
        if claims.iss != self.issuer {
            return Err(PlatformError::Unauthorized);
        }
        match &self.default_audience {
            Some(expected) => match &claims.aud {
                Some(aud) => {
                    if *aud != *expected {
                        return Err(PlatformError::Unauthorized);
                    }
                },
                None => {
                    return Err(PlatformError::Unauthorized);
                },
            },
            None => {},
        }
        Ok(())
    }

    /// Verifies a token and its claims for a use at `now`.
    fn validate_for(&self, token: &str, expected_use: TokenUse, now: Timestamp) -> (r:
        PlatformResult<AuthContext>)
        ensures
            result_view(r) == validated(self@, token@, expected_use, now),
    {
        let claims = match verify_jwt(token, self.secret.as_slice()) {
            Ok(claims) => claims,
            Err(e) => {
                return Err(e);
            },
        };
        match self.ensure_claims_valid(&claims, expected_use, now) {
            Ok(()) => {},
            Err(e) => {
                return Err(e);
            },
        }
        Ok(claims.into_context())
    }

    /// Validates an access token at `now`.
    pub fn validate_token_at(&self, token: &str, now: Timestamp) -> (r: PlatformResult<
        AuthContext,
    >)
        ensures
            result_view(r) == validated(self@, token@, TokenUse::Access, now),
    {
        self.validate_for(token, TokenUse::Access, now)
    }

    /// Validates an access token: its signature, its use, its expiry, its issuer and,
    /// where the service has a default audience, its audience.
    pub fn validate_token(&self, token: &str) -> (r: PlatformResult<AuthContext>)
        ensures
            exists|now: Timestamp|
                result_view(r) == #[trigger] validated(self@, token@, TokenUse::Access, now),
    {
        let now = now_millis();
        self.validate_token_at(token, now)
    }

    /// Issues a token from a context at `now`, with the nonces of the access and of the
    /// refresh token.
    pub fn issue_token_from_context_with(
        &self,
        store: &InMemoryPersistence,
        context: AuthContext,
        ttl: Option<Millis>,
        now: Timestamp,
        nonce: &str,
        refresh_nonce: &str,
    ) -> (r: PlatformResult<AuthToken>)
        ensures
            issue_token_post(
                self@,
                store@.tenants,
                context.deep_view(),
                ttl,
                now,
                nonce@,
                refresh_nonce@,
                result_view(r),
            ),
    {
        let mut context = context;
        let access_ttl = match self.resolve_access_ttl(store, context.tenant_id, ttl) {
            Ok(ttl) => ttl,
            Err(e) => {
                return Err(e);
            },
        };
        context.issued_at = now;
        context.expires_at = after(now, access_ttl);
        if context.audience.is_none() {
            context.audience = clone_opt_text(&self.default_audience);
        }
        context.issuer = Some(self.issuer.clone());
        let claims = TokenClaims::from_context(&context, TokenUse::Access, String::from_str(nonce));
        let token = match sign_jwt(&claims, self.secret.as_slice()) {
            Ok(token) => token,
            Err(e) => {
                return Err(e);
            },
        };
        let refresh_token = match self.issue_refresh_token(store, &context, refresh_nonce) {
            Ok(refresh) => refresh,
            Err(e) => {
                return Err(e);
            },
        };
        Ok(AuthToken { token, context, refresh_token })
    }

    /// Signs the refresh token of a context, unless refresh is disabled for the tenant.
    fn issue_refresh_token(&self, store: &InMemoryPersistence, context: &AuthContext, nonce: &str)
        -> (r: PlatformResult<Option<String>>)
        ensures
            ({
                let span = refresh_ttl(self@, store@.tenants, context.tenant_id);
                let renewal = claims_of_context(
                    AuthContextView {
                        expires_at: shifted(context.issued_at as int, span as int) as i64,
                        ..context.deep_view()
                    },
                    TokenUse::Refresh,
                    nonce@,
                );
                &&& r matches Ok(refresh)
                &&& span <= 0 ==> refresh is None
                &&& span > 0 ==> refresh.deep_view() == Some(
                    token_text(claims_bytes(renewal), self@.secret),
                ) && token_claims(refresh->0@, self@.secret) == Some(renewal)
            }),
    {
        let span = match self.resolve_refresh_ttl(store, context.tenant_id) {
            Ok(span) => span,
            Err(e) => {
                return Err(e);
            },
        };
        if span <= 0 {
            return Ok(None);
        }
        let mut refresh_context = context.clone();
        refresh_context.expires_at = after(refresh_context.issued_at, span);
        let claims = TokenClaims::from_context(
            &refresh_context,
            TokenUse::Refresh,
            String::from_str(nonce),
        );
        match sign_jwt(&claims, self.secret.as_slice()) {
            Ok(token) => Ok(Some(token)),
            Err(e) => Err(e),
        }
    }

    /// Issues an access token from a context: stamps the instants, sets issuer and
    /// audience, assigns a fresh nonce, and signs. Also signs a refresh token unless the
    /// refresh lifetime of the tenant is zero.
    pub fn issue_token_from_context(
        &self,
        store: &InMemoryPersistence,
        context: AuthContext,
        ttl: Option<Millis>,
    ) -> (r: PlatformResult<AuthToken>)
        ensures
            exists|now: Timestamp, nonce: Seq<char>, refresh_nonce: Seq<char>| #[trigger]
                issue_token_post(
                    self@,
                    store@.tenants,
                    context.deep_view(),
                    ttl,
                    now,
                    nonce,
                    refresh_nonce,
                    result_view(r),
                ),
    {
        let now = now_millis();
        let nonce = id_text(random_id());
        let refresh_nonce = id_text(random_id());
        self.issue_token_from_context_with(
            store,
            context,
            ttl,
            now,
            nonce.as_str(),
            refresh_nonce.as_str(),
        )
    }

    /// Refreshes at `now`, with the nonces of the new access and refresh tokens.
    pub fn refresh_access_token_with(
        &self,
        store: &InMemoryPersistence,
        refresh_token: &str,
        now: Timestamp,
        nonce: &str,
        refresh_nonce: &str,
    ) -> (r: PlatformResult<AuthToken>)
        ensures
            refresh_post(
                self@,
                store@.tenants,
                refresh_token@,
                now,
                nonce@,
                refresh_nonce@,
                result_view(r),
            ),
    {
        let context = match self.validate_for(refresh_token, TokenUse::Refresh, now) {
            Ok(context) => context,
            Err(e) => {
                return Err(e);
            },
        };
        self.issue_token_from_context_with(store, context, None, now, nonce, refresh_nonce)
    }

    /// Verifies a refresh token, rejects anything not marked for refresh, and issues a new
    /// token from its context.
    pub fn refresh_access_token(&self, store: &InMemoryPersistence, refresh_token: &str) -> (r:
        PlatformResult<AuthToken>)
        ensures
            exists|now: Timestamp, nonce: Seq<char>, refresh_nonce: Seq<char>| #[trigger]
                refresh_post(
                    self@,
                    store@.tenants,
                    refresh_token@,
                    now,
                    nonce,
                    refresh_nonce,
                    result_view(r),
                ),
    {
        let now = now_millis();
        let nonce = id_text(random_id());
        let refresh_nonce = id_text(random_id());
        self.refresh_access_token_with(
            store,
            refresh_token,
            now,
            nonce.as_str(),
            refresh_nonce.as_str(),
        )
    }

    /// Authenticates a raw API key and issues a token from its context.
    pub fn issue_token_for_api_key(
        &self,
        store: &mut InMemoryPersistence,
        token: &str,
        ttl: Option<Millis>,
    ) -> (r: PlatformResult<AuthToken>)
        requires
            old(store).wf(),
        ensures
            final(store).wf(),
            exists|now: Timestamp, ctx: PlatformResult<AuthContextView>| #[trigger]
                authenticate_post(self@, old(store)@, token@, now, final(store)@, ctx) && match ctx {
                    Err(e) => r == Err::<AuthToken, PlatformError>(e),
                    Ok(context) => exists|
                        later: Timestamp,
                        nonce: Seq<char>,
                        refresh_nonce: Seq<char>,
                    | #[trigger]
                        issue_token_post(
                            self@,
                            final(store)@.tenants,
                            context,
                            ttl,
                            later,
                            nonce,
                            refresh_nonce,
                            result_view(r),
                        ),
                },
    {
        let now = now_millis();
        let context = match self.authenticate_api_key_at(store, token, now) {
            Ok(context) => context,
            Err(e) => {
                return Err(e);
            },
        };
        let later = now_millis();
        let nonce = id_text(random_id());
        let refresh_nonce = id_text(random_id());
        self.issue_token_from_context_with(
            store,
            context,
            ttl,
            later,
            nonce.as_str(),
            refresh_nonce.as_str(),
        )
    }
}

} // verus!
