//! What the transports share with the core: the labels of request paths and the
//! presence of agents.
use vstd::prelude::*;
use vstd::std_specs::convert::FromSpecImpl;
use vstd::string::StringExecFns;
use crate::build_info::build_info;
use crate::config::AppConfig;
use crate::crypto::{
    base64url_decode, base64url_decoded, constant_time_eq, hmac_sha256, hmac_sha256_tag,
};
use crate::error::{PlatformError, PlatformResult};
use crate::ids::{id_text, random_id, uuid_text};
use crate::json::{member, member_text, JsonModel, JsonValue};
use crate::table::{push_row, set_row};
use crate::text::{
    contains_bytes, contains_word, from_chars, has_fragment, has_word, lowered, same_text,
    text_of_range, to_ascii_lower, to_chars,
};
use crate::token::{
    sign_payload, signing_input, split_token, token_parts, token_text, SplitToken,
};
use crate::wire::{natural_text, quoted, write_natural, write_quoted};
use crate::time::{clock_reading, millis_since, Timestamp};

verus! {

/// Whether a request may pass.
#[derive(Debug, Clone, Copy, PartialEq, Eq, Structural)]
pub enum AuthStatus {
    Allow,
    Deny,
}

/// An ASCII digit.
pub open spec fn is_ascii_digit(c: char) -> bool {
    '0' <= c <= '9'
}

/// An ASCII hexadecimal digit, of either case.
pub open spec fn is_ascii_hexdigit(c: char) -> bool {
    ('0' <= c <= '9') || ('a' <= c <= 'f') || ('A' <= c <= 'F')
}

/// How many hyphens a text holds.
pub open spec fn hyphens(s: Seq<char>) -> nat
    decreases s.len(),
{
    if s.len() == 0 {
        0
    } else {
        hyphens(s.drop_last()) + if s.last() == '-' {
            1nat
        } else {
            0nat
        }
    }
}

/// Whether a path segment stands for an identifier: it is made of digits alone, or it is
/// at least eight characters of hexadecimal digits and hyphens with two hyphens or more.
pub open spec fn is_id_segment(s: Seq<char>) -> bool {
    s.len() > 0 && ((forall|i: int| 0 <= i < s.len() ==> is_ascii_digit(#[trigger] s[i])) || (
    s.len() >= 8 && hyphens(s) >= 2 && forall|i: int|
        0 <= i < s.len() ==> is_ascii_hexdigit(#[trigger] s[i]) || s[i] == '-'))
}

/// A path segment as it is labelled: `:id` for one that stands for an identifier.
pub open spec fn labelled(segment: Seq<char>) -> Seq<char> {
    if is_id_segment(segment) {
        seq![':', 'i', 'd']
    } else {
        segment
    }
}

/// The length of the first segment of a path: up to its first slash.
pub open spec fn segment_len(s: Seq<char>) -> int
    decreases s.len(),
{
    if s.len() == 0 {
        0
    } else if s[0] == '/' {
        0
    } else {
        1 + segment_len(s.drop_first())
    }
}

/// A path with every segment that stands for an identifier replaced by `:id`.
pub open spec fn normalized(path: Seq<char>) -> Seq<char>
    decreases path.len(),
{
    let n = segment_len(path);
    if 0 <= n < path.len() {
        labelled(path.take(n)) + (seq!['/'] + normalized(path.skip(n + 1)))
    } else {
        labelled(path)
    }
}

/// What `segment_len` returns: the index of the first slash, or the length.
pub proof fn lemma_segment_len(s: Seq<char>)
    ensures
        0 <= segment_len(s) <= s.len(),
        segment_len(s) < s.len() ==> s[segment_len(s)] == '/',
        forall|j: int| 0 <= j < segment_len(s) ==> #[trigger] s[j] != '/',
    decreases s.len(),
{
    if s.len() > 0 && s[0] != '/' {
        let rest = s.drop_first();
        lemma_segment_len(rest);
        assert forall|j: int| 0 <= j < segment_len(s) implies #[trigger] s[j] != '/' by {
            if j > 0 {
                assert(s[j] == rest[j - 1]);
            }
        }
    }
}

/// An index that holds a slash with no slash before it is the length of the first segment.
pub proof fn lemma_segment_len_is(s: Seq<char>, at: int)
    requires
        0 <= at <= s.len(),
        at < s.len() ==> s[at] == '/',
        forall|j: int| 0 <= j < at ==> #[trigger] s[j] != '/',
    ensures
        segment_len(s) == at,
{
    lemma_segment_len(s);
    let p = segment_len(s);
    if p < at {
        assert(s[p] == '/');
    } else if p > at {
        assert(s[at] == '/');
    }
}

/// Whether the characters from `from` to `to` stand for an identifier.
fn id_segment(chars: &Vec<char>, from: usize, to: usize) -> (r: bool)
    requires
        from <= to <= chars.len(),
    ensures
        r == is_id_segment(chars@.subrange(from as int, to as int)),
{
    let ghost s = chars@.subrange(from as int, to as int);
    if from == to {
        return false;
    }
    let mut digits = true;
    let mut hex = true;
    let mut dashes: usize = 0;
    let mut i: usize = from;
    assert(s.take(0) =~= Seq::empty());
    while i < to
        invariant
            from <= i <= to <= chars.len(),
            s == chars@.subrange(from as int, to as int),
            digits == (forall|j: int| 0 <= j < i - from ==> is_ascii_digit(#[trigger] s[j])),
            hex == (forall|j: int|
                0 <= j < i - from ==> is_ascii_hexdigit(#[trigger] s[j]) || s[j] == '-'),
            dashes == hyphens(s.take(i - from)),
            dashes <= i - from,
        decreases to - i,
    {
        let c = chars[i];
        assert(s[i - from] == c);
        proof {
            assert(s.take(i - from + 1).drop_last() =~= s.take(i - from));
            assert(s.take(i - from + 1).last() == c);
        }
        if !('0' <= c && c <= '9') {
            digits = false;
        }
        if !(('0' <= c && c <= '9') || ('a' <= c && c <= 'f') || ('A' <= c && c <= 'F') || c
            == '-') {
            hex = false;
        }
        if c == '-' {
            dashes = dashes + 1;
        }
        i = i + 1;
    }
    assert(s.take(to - from) =~= s);
    digits || (to - from >= 8 && dashes >= 2 && hex)
}

/// The label of a request path for metrics: every segment that stands for an identifier
/// is replaced by `:id`, so that paths which differ in identifiers alone share a label.
pub fn normalize_path(path: &str) -> (label: String)
    ensures
        label@ == normalized(path@),
{
    let chars = to_chars(path);
    let mut out: Vec<char> = Vec::new();
    let mut start: usize = 0;
    proof {
        assert(chars@.skip(0) =~= chars@);
        assert(out@ + normalized(chars@.skip(0)) =~= normalized(path@));
    }
    loop
        invariant
            start <= chars.len(),
            chars@ == path@,
            out@ + normalized(chars@.skip(start as int)) == normalized(path@),
        decreases chars.len() - start,
    {
        let ghost rest = chars@.skip(start as int);
        let mut end: usize = start;
        while end < chars.len() && chars[end] != '/'
            invariant
                start <= end <= chars.len(),
                forall|j: int| start <= j < end ==> chars@[j] != '/',
            decreases chars.len() - end,
        {
            end = end + 1;
        }
        proof {
            assert forall|j: int| 0 <= j < end - start implies #[trigger] rest[j] != '/' by {
                assert(rest[j] == chars@[start + j]);
            }
            if end < chars.len() {
                assert(rest[end - start] == chars@[end as int]);
            }
            lemma_segment_len_is(rest, end - start);
            assert(rest.take(end - start) =~= chars@.subrange(start as int, end as int));
        }
        let ghost before = out@;
        if id_segment(&chars, start, end) {
            out.push(':');
            out.push('i');
            out.push('d');
        } else {
            let mut i: usize = start;
            while i < end
                invariant
                    start <= i <= end <= chars.len(),
                    out@ == before + chars@.subrange(start as int, i as int),
                decreases end - i,
            {
                out.push(chars[i]);
                assert(out@ =~= before + chars@.subrange(start as int, i + 1));
                i = i + 1;
            }
        }
        assert(out@ =~= before + labelled(rest.take(end - start)));
        if end >= chars.len() {
            proof {
                assert(rest.take(end - start) =~= rest);
            }
            return from_chars(&out);
        }
        out.push('/');
        proof {
            assert(rest.skip(end - start + 1) =~= chars@.skip(end + 1));
            let tail = normalized(chars@.skip(end + 1));
            assert(out@ + tail =~= before + (labelled(rest.take(end - start)) + (seq!['/']
                + tail)));
        }
        start = end + 1;
    }
}

/// How recently an agent was seen.
#[derive(Debug, Clone, Copy, PartialEq, Eq, Structural)]
pub enum AgentPresenceFilter {
    /// Seen within the last thirty seconds.
    Active,
    /// Seen more than thirty seconds and at most five minutes ago.
    Stale,
    /// Seen more than five minutes ago, or never.
    Offline,
}

/// The presence that a name stands for, whatever the case of its letters.
pub open spec fn presence_of(name: Seq<char>) -> Option<AgentPresenceFilter> {
    if lowered(name) == "active"@ {
        Some(AgentPresenceFilter::Active)
    } else if lowered(name) == "stale"@ {
        Some(AgentPresenceFilter::Stale)
    } else if lowered(name) == "offline"@ {
        Some(AgentPresenceFilter::Offline)
    } else {
        None
    }
}

/// Whether an agent last seen at `last_seen` has a presence at `now`.
pub open spec fn has_presence(
    filter: AgentPresenceFilter,
    last_seen: Option<Timestamp>,
    now: Timestamp,
) -> bool {
    match last_seen {
        None => filter == AgentPresenceFilter::Offline,
        Some(at) => {
            let age = now - at;
            match filter {
                AgentPresenceFilter::Active => age <= 30_000,
                AgentPresenceFilter::Stale => 30_000 < age <= 300_000,
                AgentPresenceFilter::Offline => age > 300_000,
            }
        },
    }
}

impl AgentPresenceFilter {
    /// Reads a presence name: `active`, `stale` or `offline`, in any case.
    pub fn parse(value: &str) -> (filter: Option<AgentPresenceFilter>)
        ensures
            filter == presence_of(value@),
    {
        let lower = to_ascii_lower(value);
        if crate::text::same_text(lower.as_str(), "active") {
            Some(AgentPresenceFilter::Active)
        } else if crate::text::same_text(lower.as_str(), "stale") {
            Some(AgentPresenceFilter::Stale)
        } else if crate::text::same_text(lower.as_str(), "offline") {
            Some(AgentPresenceFilter::Offline)
        } else {
            None
        }
    }

    /// Whether an agent last seen at `last_seen` has this presence at `now`.
    pub fn matches(&self, last_seen: Option<Timestamp>, now: Timestamp) -> (r: bool)
        ensures
            r == has_presence(*self, last_seen, now),
    {
        match last_seen {
            None => match self {
                AgentPresenceFilter::Offline => true,
                _ => false,
            },
            Some(at) => {
                // The age of the sighting, out of the range of `i64` for instants far apart.
                let age: i128 = now as i128 - at as i128;
                match self {
                    AgentPresenceFilter::Active => age <= 30_000,
                    AgentPresenceFilter::Stale => age > 30_000 && age <= 300_000,
                    AgentPresenceFilter::Offline => age > 300_000,
                }
            },
        }
    }
}

/// Whether the value of an API key header lets a request pass: any key that is not
/// empty does.
pub open spec fn api_key_allows(header: Option<Seq<char>>) -> bool {
    header matches Some(value) && value.len() > 0
}

/// Whether a request with this value of the API key header may pass.
pub fn validate_api_key(header: Option<&str>) -> (status: AuthStatus)
    ensures
        status == if api_key_allows(header.deep_view()) {
            AuthStatus::Allow
        } else {
            AuthStatus::Deny
        },
{
    match header {
        Some(value) => {
            let chars = to_chars(value);
            if chars.len() > 0 {
                AuthStatus::Allow
            } else {
                AuthStatus::Deny
            }
        },
        None => AuthStatus::Deny,
    }
}

/// The token of an authorization header of the bearer scheme: what follows `Bearer `.
pub open spec fn bearer_of(header: Seq<char>) -> Option<Seq<char>> {
    if header.len() >= 7 && header.take(7) == "Bearer "@ {
        Some(header.skip(7))
    } else {
        None
    }
}

/// The token of an authorization header of the bearer scheme.
pub fn bearer_token(header: &str) -> (token: Option<String>)
    ensures
        token.deep_view() == bearer_of(header@),
{
    let chars = to_chars(header);
    let scheme = to_chars("Bearer ");
    proof {
        reveal_strlit("Bearer ");
        assert("Bearer "@.len() == 7);
    }
    if chars.len() < 7 {
        return None;
    }
    let mut i: usize = 0;
    while i < 7
        invariant
            i <= 7,
            chars.len() >= 7,
            chars@ == header@,
            scheme@ == "Bearer "@,
            scheme@.len() == 7,
            forall|j: int| 0 <= j < i ==> chars@[j] == scheme@[j],
        decreases 7 - i,
    {
        if chars[i] != scheme[i] {
            assert(chars@.take(7)[i as int] != scheme@[i as int]);
            return None;
        }
        i = i + 1;
    }
    assert(chars@.take(7) =~= scheme@);
    let token = text_of_range(&chars, 7, chars.len());
    assert(token@ =~= header@.skip(7));
    Some(token)
}

/// Whether a list holds the text `wanted`.
pub open spec fn lists_text(items: Seq<JsonModel>, wanted: Seq<char>) -> bool {
    exists|i: int| 0 <= i < items.len() && #[trigger] items[i] == JsonModel::Text(wanted)
}

/// A path that needs no credential.
pub open spec fn is_public(path: Seq<char>) -> bool {
    path == "/health"@ || path == "/version"@ || path == "/metrics"@ || path == "/docs"@ || path
        == "/api-docs/openapi.json"@
}

/// Whether a normalized path needs no credential: health, version, metrics and the
/// documentation.
pub fn is_public_path(path: &str) -> (r: bool)
    ensures
        r == is_public(path@),
{
    same_text(path, "/health") || same_text(path, "/version") || same_text(path, "/metrics")
        || same_text(path, "/docs") || same_text(path, "/api-docs/openapi.json")
}

/// Whether the member `scopes` of a payload lists the scope `required`.
pub open spec fn scopes_member_allows(payload: JsonModel, required: Seq<char>) -> bool {
    member(payload, "scopes"@) matches Some(JsonModel::Array(items)) && lists_text(
        items,
        required,
    )
}

/// Whether the member `scopes` of a token payload lists the scope `required`.
pub fn scopes_listed(payload: &JsonValue, required: &str) -> (r: bool)
    ensures
        r == scopes_member_allows(payload.deep_view(), required@),
{
    match payload.get("scopes") {
        Some(JsonValue::Array(items)) => {
            let ghost found = JsonValue::Array(*items).deep_view()->Array_0;
            assert(JsonValue::Array(*items).deep_view() == JsonModel::Array(found));
            let mut i: usize = 0;
            while i < items.len()
                invariant
                    i <= items.len(),
                    found == JsonValue::Array(*items).deep_view()->Array_0,
                    found.len() == items@.len(),
                    member(payload.deep_view(), "scopes"@) == Some(JsonModel::Array(found)),
                    forall|j: int| 0 <= j < i ==> #[trigger] found[j] != JsonModel::Text(required@),
                decreases items.len() - i,
            {
                assert(found[i as int] == items@[i as int].deep_view());
                match &items[i] {
                    JsonValue::Text(text) => {
                        if same_text(text.as_str(), required) {
                            assert(found[i as int] == JsonModel::Text(required@));
                            return true;
                        }
                    },
                    _ => {},
                }
                i = i + 1;
            }
            false
        },
        _ => false,
    }
}

/// Whether the member `scope` of a payload names the scope `required` among its words.
pub open spec fn scope_member_allows(payload: JsonModel, required: Seq<char>) -> bool {
    member_text(payload, "scope"@) matches Some(words) && has_word(words, required)
}

/// Whether a payload grants the scope `required`: its member `scopes` lists it, or its
/// member `scope` names it among words separated by whitespace.
pub open spec fn payload_allows(payload: JsonModel, required: Seq<char>) -> bool {
    scopes_member_allows(payload, required) || scope_member_allows(payload, required)
}

/// Whether a token payload grants the scope `required`.
pub fn scopes_allow(payload: &JsonValue, required: &str) -> (r: bool)
    ensures
        r == payload_allows(payload.deep_view(), required@),
{
    if scopes_listed(payload, required) {
        return true;
    }
    match payload.get("scope") {
        Some(value) => match value.as_str() {
            Some(words) => contains_word(words, required),
            None => false,
        },
        None => false,
    }
}

/// Whether a decoded token header names the algorithm HS256 somewhere.
pub open spec fn names_hs256(header: Seq<u8>) -> bool {
    has_fragment(header, vstd::utf8::encode_utf8("HS256"@))
}

/// Whether a bearer token is valid under a secret: it has three parts, its header
/// decodes and names HS256, the secret is not empty, and its signature is the
/// HMAC-SHA256 tag of its first two parts under the secret.
pub open spec fn bearer_valid(token: Seq<char>, secret: Seq<u8>) -> bool {
    match token_parts(token) {
        None => false,
        Some(parts) => {
            &&& base64url_decoded(parts.header) matches Some(header) && names_hs256(header)
            &&& secret.len() > 0
            &&& base64url_decoded(parts.signature) == Some(
                hmac_sha256(secret, signing_input(parts.header, parts.payload)),
            )
        },
    }
}

/// The tag of the first two parts of a token under a secret.
fn tag_of(parts: &SplitToken, secret: &[u8]) -> (tag: Option<Vec<u8>>)
    ensures
        tag matches Some(bytes) && bytes@ == hmac_sha256(
            secret@,
            signing_input(parts.header@, parts.payload@),
        ) && bytes@.len() == 32,
{
    let mut signing = parts.header.clone();
    signing.append(".");
    signing.append(parts.payload.as_str());
    proof {
        reveal_strlit(".");
        assert("."@ =~= seq!['.']);
        assert(signing@ =~= parts.header@ + (seq!['.'] + parts.payload@));
    }
    hmac_sha256_tag(secret, signing.as_str().as_bytes())
}

/// Whether a bearer token is valid under a secret.
pub fn hs256_validate(token: &str, secret: &[u8]) -> (valid: bool)
    ensures
        valid == bearer_valid(token@, secret@),
{
    let parts = match split_token(token) {
        Some(parts) => parts,
        None => {
            return false;
        },
    };
    let header = match base64url_decode(parts.header.as_str()) {
        Some(bytes) => bytes,
        None => {
            return false;
        },
    };
    if !contains_bytes(header.as_slice(), "HS256".as_bytes()) {
        return false;
    }
    if secret.len() == 0 {
        return false;
    }
    let expected = match tag_of(&parts, secret) {
        Some(tag) => tag,
        None => {
            return false;
        },
    };
    match base64url_decode(parts.signature.as_str()) {
        Some(provided) => provided.len() == expected.len() && constant_time_eq(
            provided.as_slice(),
            expected.as_slice(),
        ),
        None => false,
    }
}

/// Whether an authorization header carries a bearer token that is valid under a secret.
pub open spec fn bearer_allows(authorization: Option<Seq<char>>, secret: Seq<u8>) -> bool {
    authorization matches Some(header) && bearer_of(header) matches Some(token) && bearer_valid(
        token,
        secret,
    )
}

/// Whether a request with this value of the authorization header may pass.
pub fn validate_jwt(authorization: Option<&str>, secret: &[u8]) -> (status: AuthStatus)
    ensures
        status == if bearer_allows(authorization.deep_view(), secret@) {
            AuthStatus::Allow
        } else {
            AuthStatus::Deny
        },
{
    match authorization {
        Some(header) => match bearer_token(header) {
            Some(token) => {
                if hs256_validate(token.as_str(), secret) {
                    AuthStatus::Allow
                } else {
                    AuthStatus::Deny
                }
            },
            None => AuthStatus::Deny,
        },
        None => AuthStatus::Deny,
    }
}

/// The payload of the bearer token of an authorization header, where the token is valid
/// under a secret and its payload decodes.
pub open spec fn bearer_payload_of(authorization: Option<Seq<char>>, secret: Seq<u8>) -> Option<
    Seq<u8>,
> {
    if bearer_allows(authorization, secret) {
        base64url_decoded(token_parts(bearer_of(authorization->0)->0)->0.payload)
    } else {
        None
    }
}

/// The payload of the bearer token of an authorization header.
pub fn bearer_payload(authorization: Option<&str>, secret: &[u8]) -> (payload: Option<Vec<u8>>)
    ensures
        payload.deep_view() == bearer_payload_of(authorization.deep_view(), secret@),
{
    let header = match authorization {
        Some(header) => header,
        None => {
            return None;
        },
    };
    let token = match bearer_token(header) {
        Some(token) => token,
        None => {
            return None;
        },
    };
    if !hs256_validate(token.as_str(), secret) {
        return None;
    }
    match split_token(token.as_str()) {
        Some(parts) => base64url_decode(parts.payload.as_str()),
        None => None,
    }
}

/// Whether a request may use a scope: any API key may, and so may a bearer token whose
/// payload grants the scope.
pub open spec fn scope_held(
    api_key: Option<Seq<char>>,
    payload: Option<JsonModel>,
    required: Seq<char>,
) -> bool {
    api_key_allows(api_key) || (payload matches Some(granted) && payload_allows(granted, required))
}

/// Whether a request may use a scope, given the value of its API key header and the
/// payload of its bearer token, where it carries a valid one.
pub fn has_scope(api_key: Option<&str>, payload: Option<&JsonValue>, required_scope: &str) -> (r:
    bool)
    ensures
        r == scope_held(api_key.deep_view(), payload.deep_view(), required_scope@),
{
    match validate_api_key(api_key) {
        AuthStatus::Allow => true,
        AuthStatus::Deny => match payload {
            Some(granted) => scopes_allow(granted, required_scope),
            None => false,
        },
    }
}

/// The payload of a token for a subject that expires at `exp`, in seconds since the
/// epoch.
pub open spec fn subject_payload(sub: Seq<char>, exp: u64) -> Seq<char> {
    "{\"exp\":"@ + natural_text(exp as nat) + ",\"sub\":"@ + quoted(sub) + "}"@
}

/// When a token generated at `now` expires: an hour later.
pub open spec fn hour_after(now: u64) -> u64 {
    if now + 3600 > u64::MAX {
        u64::MAX
    } else {
        (now + 3600) as u64
    }
}

/// A bearer token for the subject `sub`, generated at `now` in seconds since the epoch,
/// that expires an hour later. Without a secret none is generated.
pub fn hs256_generate(sub: &str, secret: &[u8], now: u64) -> (r: PlatformResult<String>)
    ensures
        secret@.len() == 0 ==> r == Err::<String, PlatformError>(
            PlatformError::InvalidInput("CASS_JWT_SECRET not set"),
        ),
        secret@.len() > 0 ==> (r matches Ok(token) && token@ == token_text(
            vstd::utf8::encode_utf8(subject_payload(sub@, hour_after(now))),
            secret@,
        )),
{
    if secret.len() == 0 {
        return Err(PlatformError::InvalidInput("CASS_JWT_SECRET not set"));
    }
    let exp: u64 = if now > u64::MAX - 3600 {
        u64::MAX
    } else {
        now + 3600
    };
    let mut payload = String::from_str("{\"exp\":");
    write_natural(&mut payload, exp);
    payload.append(",\"sub\":");
    write_quoted(&mut payload, sub);
    payload.append("}");
    sign_payload(payload.as_str().as_bytes(), secret)
}

/// A refusal, as a transport reports it: a status and a fixed message.
#[derive(Debug, Clone, Copy, PartialEq, Eq)]
pub struct HttpError {
    pub status: u16,
    pub message: &'static str,
}

/// The refusal that an error of the core surfaces as.
pub open spec fn refusal_of(err: PlatformError) -> HttpError {
    match err {
        PlatformError::NotFound(_) => HttpError { status: 404, message: "not found" },
        PlatformError::Conflict(_) => HttpError { status: 409, message: "conflict" },
        PlatformError::Unauthorized => HttpError { status: 401, message: "unauthorized" },
        PlatformError::Forbidden => HttpError { status: 403, message: "forbidden" },
        PlatformError::InvalidInput(_) => HttpError { status: 400, message: "invalid input" },
        PlatformError::Internal(_) => HttpError { status: 500, message: "internal error" },
    }
}

impl HttpError {
    /// A refusal with a status and a message.
    pub fn new(status: u16, message: &'static str) -> (refusal: Self)
        ensures
            refusal == (HttpError { status, message }),
    {
        HttpError { status, message }
    }
}

impl From<PlatformError> for HttpError {
    fn from(value: PlatformError) -> (refusal: Self) {
        match value {
            PlatformError::NotFound(_) => HttpError::new(404, "not found"),
            PlatformError::Conflict(_) => HttpError::new(409, "conflict"),
            PlatformError::Unauthorized => HttpError::new(401, "unauthorized"),
            PlatformError::Forbidden => HttpError::new(403, "forbidden"),
            PlatformError::InvalidInput(_) => HttpError::new(400, "invalid input"),
            PlatformError::Internal(_) => HttpError::new(500, "internal error"),
        }
    }
}

impl FromSpecImpl<PlatformError> for HttpError {
    open spec fn obeys_from_spec() -> bool {
        true
    }

    open spec fn from_spec(value: PlatformError) -> Self {
        refusal_of(value)
    }
}

/// An answer with the mathematical value of what it hands back.
pub open spec fn answer_view<T: DeepView>(r: Result<T, HttpError>) -> Result<T::V, HttpError> {
    match r {
        Ok(value) => Ok(value.deep_view()),
        Err(refusal) => Err(refusal),
    }
}

/// What a transport writes for a refusal.
#[derive(Debug, Clone, Copy, PartialEq, Eq)]
pub struct ErrorResponse {
    pub error: &'static str,
}

impl ErrorResponse {
    /// What is written for a refusal: its message.
    pub fn of(refusal: HttpError) -> (response: Self)
        ensures
            response.error == refusal.message,
    {
        ErrorResponse { error: refusal.message }
    }
}

/// What the health route answers.
#[derive(Debug, PartialEq, Eq)]
pub struct HealthResponse {
    pub status: &'static str,
    pub service: String,
}

/// What the version route answers.
#[derive(Debug, PartialEq, Eq)]
pub struct VersionResponse {
    pub service: String,
    pub version: String,
    pub git_sha: String,
    pub git_tag: String,
    pub build_ts: String,
}

/// What the listing of recent log events asks for.
#[derive(Debug, Clone, Copy, PartialEq, Eq, Structural)]
pub struct ListLogsParams {
    pub limit: Option<usize>,
}

/// The answer of the health route of a service: it is well.
pub fn health(config: &AppConfig) -> (response: HealthResponse)
    ensures
        response.status@ == "ok"@,
        response.service@ == config.service_name@,
{
    HealthResponse { status: "ok", service: config.service_name.clone() }
}

/// The answer of the version route of a service: its name and what is known of the
/// build.
pub fn version(config: &AppConfig) -> (response: VersionResponse)
    ensures
        response.service@ == config.service_name@,
        response.version@ == "0.1.0"@,
        response.git_sha@ == "unknown"@,
        response.git_tag@ == "none"@,
        response.build_ts@ == "unknown"@,
{
    let info = build_info();
    VersionResponse {
        service: config.service_name.clone(),
        version: String::from_str(info.version),
        git_sha: String::from_str(info.git_sha),
        git_tag: String::from_str(info.git_tag),
        build_ts: String::from_str(info.build_timestamp),
    }
}

/// Whether a request is let through, and the label of its path.
#[derive(Debug, PartialEq, Eq)]
pub struct Admission {
    /// The label of the path for metrics.
    pub path: String,
    pub allowed: bool,
}

/// Whether a request is let through: one to a public path is, and so is one with an API
/// key or with a bearer token that is valid under the secret.
pub open spec fn request_allowed(
    path: Seq<char>,
    api_key: Option<Seq<char>>,
    authorization: Option<Seq<char>>,
    secret: Seq<u8>,
) -> bool {
    is_public(normalized(path)) || api_key_allows(api_key) || bearer_allows(
        authorization,
        secret,
    )
}

/// Decides whether a request is let through, from its path and the values of its API
/// key and authorization headers.
pub fn admit_request(
    path: &str,
    api_key: Option<&str>,
    authorization: Option<&str>,
    secret: &[u8],
) -> (admission: Admission)
    ensures
        admission.path@ == normalized(path@),
        admission.allowed == request_allowed(
            path@,
            api_key.deep_view(),
            authorization.deep_view(),
            secret@,
        ),
{
    let label = normalize_path(path);
    if is_public_path(label.as_str()) {
        return Admission { path: label, allowed: true };
    }
    let allowed = match validate_api_key(api_key) {
        AuthStatus::Allow => true,
        AuthStatus::Deny => match validate_jwt(authorization, secret) {
            AuthStatus::Allow => true,
            AuthStatus::Deny => false,
        },
    };
    Admission { path: label, allowed }
}

/// The identifier a request goes by: the one it carries, or the text of `drawn` where
/// it carries none or an empty one.
pub open spec fn request_id_of(header: Option<Seq<char>>, drawn: u128) -> Seq<char> {
    match header {
        Some(id) => if id.len() > 0 {
            id
        } else {
            uuid_text(drawn)
        },
        None => uuid_text(drawn),
    }
}

/// The identifier a request goes by, `drawn` standing in where it carries none.
pub fn request_id_with(header: Option<&str>, drawn: u128) -> (id: String)
    ensures
        id@ == request_id_of(header.deep_view(), drawn),
{
    match header {
        Some(carried) => {
            if carried.unicode_len() > 0 {
                String::from_str(carried)
            } else {
                id_text(drawn)
            }
        },
        None => id_text(drawn),
    }
}

/// The identifier a request goes by, one drawn at random where it carries none.
pub fn request_id(header: Option<&str>) -> (id: String)
    ensures
        exists|drawn: u128| id@ == request_id_of(header.deep_view(), drawn),
{
    let drawn = random_id();
    request_id_with(header, drawn)
}

/// Whether a status counts as a server error: its decimal text begins with a five.
pub open spec fn server_error(status: u16) -> bool {
    natural_text(status as nat)[0] == '5'
}

/// The decimal text of a number begins with the first digit of its tenth.
pub proof fn lemma_leading_digit(n: nat)
    ensures
        natural_text(n).len() > 0,
        n >= 10 ==> natural_text(n)[0] == natural_text(n / 10)[0],
    decreases n,
{
    if n >= 10 {
        lemma_leading_digit(n / 10);
    }
}

/// Whether a status counts as a server error.
pub fn is_server_error(status: u16) -> (r: bool)
    ensures
        r == server_error(status),
{
    let mut lead: u16 = status;
    while lead >= 10
        invariant
            natural_text(lead as nat)[0] == natural_text(status as nat)[0],
        decreases lead,
    {
        proof {
            lemma_leading_digit(lead as nat);
        }
        lead = lead / 10;
    }
    lead == 5
}

/// A window of requests of one caller to one route.
#[derive(Debug, Clone, Copy, PartialEq, Eq)]
pub struct RateWindow {
    /// When the window began, in milliseconds of a clock that never runs backwards.
    pub window_start: u64,
    /// How many requests the window has admitted.
    pub count: u32,
}

/// The window after a request at `now`, under a limit of requests per span: a window
/// that is as old as the span begins anew.
pub open spec fn window_at(window: RateWindow, now: u64, span: u64) -> RateWindow {
    if now >= window.window_start && now - window.window_start >= span {
        RateWindow { window_start: now, count: 0 }
    } else {
        window
    }
}

/// Whether a request at `now` is admitted: the window, begun anew if it is as old as the
/// span, has admitted fewer requests than the limit.
pub open spec fn admits(window: RateWindow, now: u64, limit: u32, span: u64) -> bool {
    window_at(window, now, span).count < limit
}

impl RateWindow {
    /// A window that begins at `now` and has admitted nothing.
    pub fn new(now: u64) -> (window: Self)
        ensures
            window == (RateWindow { window_start: now, count: 0 }),
    {
        RateWindow { window_start: now, count: 0 }
    }

    /// Counts a request at `now` against the limit of the span, and says whether it is
    /// admitted. A request that is refused is not counted.
    pub fn check_and_increment(&mut self, now: u64, limit: u32, span: u64) -> (admitted: bool)
        ensures
            admitted == admits(*old(self), now, limit, span),
            final(self).window_start == window_at(*old(self), now, span).window_start,
            final(self).count == window_at(*old(self), now, span).count + if admitted {
                1int
            } else {
                0int
            },
    {
        if now >= self.window_start && now - self.window_start >= span {
            self.window_start = now;
            self.count = 0;
        }
        if self.count >= limit {
            return false;
        }
        self.count = self.count + 1;
        true
    }
}

/// The window of a tenant on a route.
pub struct RateEntry {
    pub tenant_id: u128,
    pub route: String,
    pub window: RateWindow,
}

/// The mathematical value of a [`RateEntry`].
pub struct RateEntryView {
    pub tenant_id: u128,
    pub route: Seq<char>,
    pub window: RateWindow,
}

impl DeepView for RateEntry {
    type V = RateEntryView;

    open spec fn deep_view(&self) -> RateEntryView {
        RateEntryView { tenant_id: self.tenant_id, route: self.route@, window: self.window }
    }
}

/// The position of the window of a tenant on a route, or the number of entries if there
/// is none.
pub open spec fn entry_position(entries: Seq<RateEntryView>, tenant_id: u128, route: Seq<char>)
    -> int
    decreases entries.len(),
{
    if entries.len() == 0 {
        0
    } else if entries[0].tenant_id == tenant_id && entries[0].route == route {
        0
    } else {
        1 + entry_position(entries.drop_first(), tenant_id, route)
    }
}

/// What `entry_position` returns: an index within bounds that holds the window of the
/// tenant on the route with no earlier index holding one, or the number of entries.
pub proof fn lemma_entry_position(entries: Seq<RateEntryView>, tenant_id: u128, route: Seq<char>)
    ensures
        0 <= entry_position(entries, tenant_id, route) <= entries.len(),
        entry_position(entries, tenant_id, route) < entries.len() ==> {
            let at = entry_position(entries, tenant_id, route);
            entries[at].tenant_id == tenant_id && entries[at].route == route
        },
        forall|j: int|
            0 <= j < entry_position(entries, tenant_id, route) ==> !((#[trigger] entries[j]).tenant_id
                == tenant_id && entries[j].route == route),
    decreases entries.len(),
{
    if entries.len() > 0 && !(entries[0].tenant_id == tenant_id && entries[0].route == route) {
        let rest = entries.drop_first();
        lemma_entry_position(rest, tenant_id, route);
        assert forall|j: int| 0 <= j < entry_position(entries, tenant_id, route) implies !((
        #[trigger] entries[j]).tenant_id == tenant_id && entries[j].route == route) by {
            if j > 0 {
                assert(entries[j] == rest[j - 1]);
            }
        }
    }
}

/// The window that a request of a tenant on a route at `now` is counted in: the one the
/// limiter holds, or a window that begins at `now`.
pub open spec fn window_of(entries: Seq<RateEntryView>, tenant_id: u128, route: Seq<char>, now: u64)
    -> RateWindow {
    let at = entry_position(entries, tenant_id, route);
    if at < entries.len() {
        entries[at].window
    } else {
        RateWindow { window_start: now, count: 0 }
    }
}

/// A window after a request at `now` was counted against the limit of the span.
pub open spec fn counted(window: RateWindow, now: u64, limit: u32, span: u64) -> RateWindow {
    let current = window_at(window, now, span);
    if current.count < limit {
        RateWindow { window_start: current.window_start, count: (current.count + 1) as u32 }
    } else {
        current
    }
}

/// The entries after a request of a tenant on a route at `now` was counted.
pub open spec fn counted_entries(
    entries: Seq<RateEntryView>,
    tenant_id: u128,
    route: Seq<char>,
    now: u64,
    limit: u32,
    span: u64,
) -> Seq<RateEntryView> {
    let at = entry_position(entries, tenant_id, route);
    let entry = RateEntryView {
        tenant_id,
        route,
        window: counted(window_of(entries, tenant_id, route, now), now, limit, span),
    };
    if at < entries.len() {
        entries.update(at, entry)
    } else {
        entries.push(entry)
    }
}

/// Limits the requests of each tenant on each route within a span of time. Time is read
/// from a clock that never runs backwards, in milliseconds since the limiter was made.
pub struct RateLimiter {
    started: std::time::Instant,
    entries: Vec<RateEntry>,
}

impl View for RateLimiter {
    type V = Seq<RateEntryView>;

    closed spec fn view(&self) -> Seq<RateEntryView> {
        self.entries.deep_view()
    }
}

impl RateLimiter {
    /// A limiter that has counted nothing.
    pub fn new() -> (limiter: Self)
        ensures
            limiter@ == Seq::<RateEntryView>::empty(),
    {
        let limiter = RateLimiter { started: clock_reading(), entries: Vec::new() };
        assert(limiter.entries.deep_view() =~= Seq::empty());
        limiter
    }

    /// The reading of the clock of the limiter.
    pub fn tick(&self) -> (now: u64) {
        millis_since(&self.started)
    }

    /// Counts a request of a tenant on a route now against the limit of the span, in
    /// milliseconds, and says whether it is admitted.
    pub fn check_and_increment(
        &mut self,
        tenant_id: u128,
        route: &str,
        limit: u32,
        span: u64,
    ) -> (admitted: bool)
        ensures
            exists|now: u64|
                admitted == admits(window_of(old(self)@, tenant_id, route@, now), now, limit, span)
                    && final(self)@ == #[trigger] counted_entries(
                    old(self)@,
                    tenant_id,
                    route@,
                    now,
                    limit,
                    span,
                ),
    {
        let now = self.tick();
        self.check_and_increment_at(tenant_id, route, limit, span, now)
    }

    /// Counts a request of a tenant on a route at `now` against the limit of the span,
    /// and says whether it is admitted. `now` and `span` are in milliseconds of the clock
    /// of the limiter. A request that is refused is not counted.
    pub fn check_and_increment_at(
        &mut self,
        tenant_id: u128,
        route: &str,
        limit: u32,
        span: u64,
        now: u64,
    ) -> (admitted: bool)
        ensures
            admitted == admits(window_of(old(self)@, tenant_id, route@, now), now, limit, span),
            final(self)@ == counted_entries(old(self)@, tenant_id, route@, now, limit, span),
    {
        let ghost before = self.entries.deep_view();
        let mut i: usize = 0;
        while i < self.entries.len()
            invariant
                i <= self.entries.len(),
                self.entries.deep_view() == before,
                before == old(self)@,
                forall|j: int|
                    0 <= j < i ==> !((#[trigger] before[j]).tenant_id == tenant_id && before[j].route
                        == route@),
            decreases self.entries.len() - i,
        {
            assert(before[i as int] == self.entries@[i as int].deep_view());
            if self.entries[i].tenant_id == tenant_id && same_text(
                self.entries[i].route.as_str(),
                route,
            ) {
                assert(entry_position(before, tenant_id, route@) == i) by {
                    lemma_entry_position(before, tenant_id, route@);
                    let at = entry_position(before, tenant_id, route@);
                    if at < i {
                        assert(before[at].tenant_id == tenant_id);
                    } else if at > i {
                        assert(before[i as int].tenant_id == tenant_id);
                    }
                }
                let mut window = self.entries[i].window;
                let admitted = window.check_and_increment(now, limit, span);
                let entry = RateEntry { tenant_id, route: String::from_str(route), window };
                set_row(&mut self.entries, i, entry);
                return admitted;
            }
            i = i + 1;
        }
        assert(entry_position(before, tenant_id, route@) == before.len()) by {
            lemma_entry_position(before, tenant_id, route@);
            let at = entry_position(before, tenant_id, route@);
            if at < before.len() {
                assert(before[at].tenant_id == tenant_id);
            }
        }
        let mut window = RateWindow::new(now);
        let admitted = window.check_and_increment(now, limit, span);
        push_row(&mut self.entries, RateEntry { tenant_id, route: String::from_str(route), window });
        admitted
    }
}

/// How many of the latest log events a listing shows: as many as asked for, a hundred
/// where nothing is asked, and never more than five hundred.
pub open spec fn log_limit(asked: Option<usize>) -> int {
    match asked {
        Some(n) => if n < 500 {
            n as int
        } else {
            500
        },
        None => 100,
    }
}

/// The index from which on the latest log events are shown, out of `len` events.
pub fn recent_from(len: usize, asked: Option<usize>) -> (start: usize)
    ensures
        start == if len >= log_limit(asked) {
            len - log_limit(asked)
        } else {
            0
        },
{
    let limit: usize = match asked {
        Some(n) => if n < 500 {
            n
        } else {
            500
        },
        None => 100,
    };
    if len >= limit {
        len - limit
    } else {
        0
    }
}

} // verus!
