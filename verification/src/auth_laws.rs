//! What holds of the authentication service across operations: keys, rotation and the
//! round trip of tokens.
use vstd::prelude::*;
use crate::auth::{
    access_ttl, api_key_parts, authenticate_post, claims_of_context, context_of_claims,
    issue_key_post, issue_token_post, key_active, law_context_round_trip, lemma_own_prefix,
    new_key_record, refresh_post, refresh_ttl, retired, rotate_key_post, span_of, stamped,
    validated, AuthServiceView,
};
use crate::claims::TokenUse;
use crate::error::{PlatformError, PlatformResult};
use crate::models::{ApiKeyRecord, ApiKeyView, AuthContextView, AuthTokenView, TenantView};
use crate::persistence::{lemma_prefix_position, store_wf, StoreView};
use crate::scope::{scope_survives_text, ScopeView};
use crate::table::{lemma_position, lemma_push, lemma_replaced, lookup};
use crate::time::{shifted, whole_seconds, Millis, Timestamp};
use crate::token::{dot_position, lemma_dot_position};

verus! {

/// No two key records of a well-formed store share a token prefix, whether live or not.
pub proof fn law_prefix_unique(store: StoreView, i: int, j: int)
    requires
        store_wf(store),
        0 <= i < store.api_keys.len(),
        0 <= j < store.api_keys.len(),
        i != j,
    ensures
        store.api_keys[i].token_prefix != store.api_keys[j].token_prefix,
{
    if i < j {
        assert(store.api_keys[i].token_prefix != store.api_keys[j].token_prefix);
    } else {
        assert(store.api_keys[j].token_prefix != store.api_keys[i].token_prefix);
    }
}

/// After a key is rotated, the old record is revoked and names the new key, and the new
/// record names the old key and has its scopes.
pub proof fn law_rotation_links(
    s0: StoreView,
    id: u128,
    next: u128,
    secret: Seq<u8>,
    now: Timestamp,
    s1: StoreView,
    key: ApiKeyView,
)
    requires
        store_wf(s0),
        rotate_key_post(s0, id, next, secret, now, s1, Ok::<ApiKeyView, PlatformError>(key)),
    ensures
        key.id == next,
        key.rotation_parent == Some(id),
        lookup::<ApiKeyRecord>(s0.api_keys, id) matches Some(before) && key.scopes
            == before.scopes,
        lookup::<ApiKeyRecord>(s1.api_keys, id) matches Some(old) && old.revoked
            && old.rotated_to == Some(key.id) && old.deleted_at == Some(now),
        lookup::<ApiKeyRecord>(s1.api_keys, key.id) matches Some(new) && new.rotated_from
            == Some(id) && new.scopes == key.scopes && key_active(new),
{
    let existing = lookup::<ApiKeyRecord>(s0.api_keys, id)->0;
    lemma_position::<ApiKeyRecord>(s0.api_keys, id);
    let record = new_key_record(
        existing.tenant_id,
        existing.label,
        existing.scopes,
        next,
        secret,
        now,
        Some(existing.id),
    );
    lemma_push::<ApiKeyRecord>(s0.api_keys, record);
    let grown = s0.api_keys.push(record);
    lemma_replaced::<ApiKeyRecord>(grown, retired(existing, next, now));
}

/// A key that was issued authenticates: presenting its value gives a context of the
/// tenant it was issued for, with the key as principal and with its scopes.
pub proof fn law_issued_key_authenticates(
    auth: AuthServiceView,
    s0: StoreView,
    tenant_id: u128,
    label: Seq<char>,
    scopes: Seq<ScopeView>,
    id: u128,
    secret: Seq<u8>,
    now: Timestamp,
    s1: StoreView,
    key: ApiKeyView,
    later: Timestamp,
    s2: StoreView,
    r: PlatformResult<AuthContextView>,
)
    requires
        store_wf(s0),
        issue_key_post(
            s0,
            tenant_id,
            label,
            scopes,
            id,
            secret,
            now,
            s1,
            Ok::<ApiKeyView, PlatformError>(key),
        ),
        authenticate_post(auth, s1, key.value, later, s2, r),
    ensures
        r matches Ok(ctx) && ctx.tenant_id == tenant_id && ctx.principal_id == key.id
            && ctx.scopes == scopes && ctx.issued_at == later,
{
    let record = new_key_record(tenant_id, label, scopes, id, secret, now, None);
    let keys = s0.api_keys;
    let grown = keys.push(record);
    lemma_push::<ApiKeyRecord>(keys, record);
    lemma_prefix_position(keys, record.token_prefix);
    assert forall|i: int, j: int| 0 <= i < j < grown.len() implies (
    #[trigger] grown[i]).token_prefix != (#[trigger] grown[j]).token_prefix by {
        assert(grown[i] == keys[i]);
        if j < keys.len() {
            assert(grown[j] == keys[j]);
        }
    }
    assert(grown[keys.len() as int] == record);
    lemma_own_prefix(grown, keys.len() as int);
}

/// A text with two dots or more is no API key: presenting it is invalid input.
pub proof fn law_many_dots_malformed(token: Seq<char>, i: int, j: int)
    requires
        0 <= i < j < token.len(),
        token[i] == '.',
        token[j] == '.',
    ensures
        api_key_parts(token) is None,
{
    lemma_dot_position(token);
    let first = dot_position(token);
    assert(first <= i);
    let behind = token.skip(first + 1);
    lemma_dot_position(behind);
    assert(behind[j - first - 1] == token[j]);
}

/// A token that was issued validates as long as it has not expired: the context that
/// comes back has the principal and the tenant of the context it was issued from, and
/// every scope of it that is not a custom scope named like a built-in one.
///
/// Where the service has a default audience, the context must name that audience or
/// none; a token for another audience does not validate.
pub proof fn law_token_round_trip(
    auth: AuthServiceView,
    tenants: Seq<TenantView>,
    ctx: AuthContextView,
    ttl: Option<Millis>,
    now: Timestamp,
    nonce: Seq<char>,
    refresh_nonce: Seq<char>,
    token: AuthTokenView,
    later: Timestamp,
)
    requires
        issue_token_post(
            auth,
            tenants,
            ctx,
            ttl,
            now,
            nonce,
            refresh_nonce,
            Ok::<AuthTokenView, PlatformError>(token),
        ),
        auth.default_audience is Some ==> ctx.audience is None || ctx.audience
            == auth.default_audience,
        span_of(whole_seconds(token.context.expires_at as int) as i64) >= later,
    ensures
        validated(auth, token.token, TokenUse::Access, later) matches Ok(back)
            && back.principal_id == ctx.principal_id && back.tenant_id == ctx.tenant_id
            && back.principal_type == ctx.principal_type && back.session == ctx.session
            && back.scopes.len() == ctx.scopes.len() && (forall|i: int|
            0 <= i < ctx.scopes.len() && scope_survives_text(ctx.scopes[i])
                ==> #[trigger] back.scopes[i] == ctx.scopes[i]),
{
    let context = stamped(auth, tenants, ctx, ttl, now);
    law_context_round_trip(context, TokenUse::Access, nonce);
}

/// The context of an issued token expires after it was issued, by the lifetime that was
/// resolved for it, as long as that lifetime is more than nothing and ends within the
/// range of instants.
pub proof fn law_issued_token_expires_later(
    auth: AuthServiceView,
    tenants: Seq<TenantView>,
    ctx: AuthContextView,
    ttl: Option<Millis>,
    now: Timestamp,
    nonce: Seq<char>,
    refresh_nonce: Seq<char>,
    token: AuthTokenView,
)
    requires
        issue_token_post(
            auth,
            tenants,
            ctx,
            ttl,
            now,
            nonce,
            refresh_nonce,
            Ok::<AuthTokenView, PlatformError>(token),
        ),
        access_ttl(auth, tenants, ctx.tenant_id, ttl) > 0,
        now + access_ttl(auth, tenants, ctx.tenant_id, ttl) <= i64::MAX,
    ensures
        token.context.issued_at == now,
        token.context.expires_at == now + access_ttl(auth, tenants, ctx.tenant_id, ttl),
        token.context.expires_at > token.context.issued_at,
{
}

/// The context that validation reads out of an issued token expires after it was
/// issued, as long as the lifetime resolved for the token is a second at least and ends
/// within the range of instants.
pub proof fn law_validated_token_expires_later(
    auth: AuthServiceView,
    tenants: Seq<TenantView>,
    ctx: AuthContextView,
    ttl: Option<Millis>,
    now: Timestamp,
    nonce: Seq<char>,
    refresh_nonce: Seq<char>,
    token: AuthTokenView,
    later: Timestamp,
)
    requires
        issue_token_post(
            auth,
            tenants,
            ctx,
            ttl,
            now,
            nonce,
            refresh_nonce,
            Ok::<AuthTokenView, PlatformError>(token),
        ),
        access_ttl(auth, tenants, ctx.tenant_id, ttl) >= 1000,
        now + access_ttl(auth, tenants, ctx.tenant_id, ttl) <= i64::MAX,
        validated(auth, token.token, TokenUse::Access, later) is Ok,
    ensures
        validated(auth, token.token, TokenUse::Access, later)->Ok_0.expires_at > validated(
            auth,
            token.token,
            TokenUse::Access,
            later,
        )->Ok_0.issued_at,
{
}

/// An access token is no refresh token: presented for a refresh it is unauthorized.
pub proof fn law_access_token_does_not_refresh(
    auth: AuthServiceView,
    tenants: Seq<TenantView>,
    ctx: AuthContextView,
    ttl: Option<Millis>,
    now: Timestamp,
    nonce: Seq<char>,
    refresh_nonce: Seq<char>,
    token: AuthTokenView,
    later: Timestamp,
    next_nonce: Seq<char>,
    next_refresh_nonce: Seq<char>,
    r: PlatformResult<AuthTokenView>,
)
    requires
        issue_token_post(
            auth,
            tenants,
            ctx,
            ttl,
            now,
            nonce,
            refresh_nonce,
            Ok::<AuthTokenView, PlatformError>(token),
        ),
        refresh_post(auth, tenants, token.token, later, next_nonce, next_refresh_nonce, r),
    ensures
        r == Err::<AuthTokenView, PlatformError>(PlatformError::Unauthorized),
{
}

/// A refresh token that has not expired refreshes into an access token that validates,
/// as long as it has not expired, with the principal, the tenant and the principal type
/// of the context the first token was issued from, and with every scope of it that is
/// not a custom scope named like a built-in one.
///
/// Where the service has a default audience, the context must name that audience or
/// none.
pub proof fn law_refresh_round_trip(
    auth: AuthServiceView,
    tenants: Seq<TenantView>,
    ctx: AuthContextView,
    ttl: Option<Millis>,
    now: Timestamp,
    nonce: Seq<char>,
    refresh_nonce: Seq<char>,
    token: AuthTokenView,
    later: Timestamp,
    next_nonce: Seq<char>,
    next_refresh_nonce: Seq<char>,
    fresh: PlatformResult<AuthTokenView>,
    last: Timestamp,
)
    requires
        issue_token_post(
            auth,
            tenants,
            ctx,
            ttl,
            now,
            nonce,
            refresh_nonce,
            Ok::<AuthTokenView, PlatformError>(token),
        ),
        auth.default_audience is Some ==> ctx.audience is None || ctx.audience
            == auth.default_audience,
        refresh_ttl(auth, tenants, ctx.tenant_id) > 0,
        span_of(
            whole_seconds(shifted(now as int, refresh_ttl(auth, tenants, ctx.tenant_id) as int)) as i64,
        ) >= later,
        refresh_post(
            auth,
            tenants,
            token.refresh_token->0,
            later,
            next_nonce,
            next_refresh_nonce,
            fresh,
        ),
        fresh matches Ok(renewed) ==> span_of(
            whole_seconds(renewed.context.expires_at as int) as i64,
        ) >= last,
    ensures
        token.refresh_token is Some,
        fresh matches Ok(renewed) && validated(auth, renewed.token, TokenUse::Access, last) matches Ok(
            back,
        ) && back.principal_id == ctx.principal_id && back.tenant_id == ctx.tenant_id
            && back.principal_type == ctx.principal_type && back.session == ctx.session
            && back.scopes.len() == ctx.scopes.len() && (forall|i: int|
            0 <= i < ctx.scopes.len() && scope_survives_text(ctx.scopes[i])
                ==> #[trigger] back.scopes[i] == ctx.scopes[i]),
{
    let context = stamped(auth, tenants, ctx, ttl, now);
    let span = refresh_ttl(auth, tenants, ctx.tenant_id);
    let carried = AuthContextView { expires_at: shifted(now as int, span as int) as i64, ..context };
    law_context_round_trip(carried, TokenUse::Refresh, refresh_nonce);
    let read = context_of_claims(claims_of_context(carried, TokenUse::Refresh, refresh_nonce));
    let renewed = fresh->Ok_0;
    law_token_round_trip(
        auth,
        tenants,
        read,
        None,
        later,
        next_nonce,
        next_refresh_nonce,
        renewed,
        last,
    );
    let back = validated(auth, renewed.token, TokenUse::Access, last)->Ok_0;
    assert forall|i: int|
        0 <= i < ctx.scopes.len() && scope_survives_text(ctx.scopes[i]) implies #[trigger] back.scopes[i]
        == ctx.scopes[i] by {
        assert(read.scopes[i] == ctx.scopes[i]);
    }
}

} // verus!
