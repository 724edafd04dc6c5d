//! Signed tokens: three base64 texts joined by dots, the header, the payload and the
//! HMAC-SHA256 signature of the first two under the service secret.
use vstd::prelude::*;
use vstd::string::StringExecFns;
use vstd::string::StrSliceExecFns;
use crate::claims::{
    claims_bytes, claims_of_bytes, decode_claims, encode_claims, TokenClaims, TokenClaimsView,
};
use crate::crypto::{
    base64url, base64url_decode, base64url_decoded, base64url_encode, constant_time_eq,
    hmac_sha256, hmac_sha256_tag, is_base64url_char,
};
use crate::error::{PlatformError, PlatformResult};
use crate::text::{find_char, text_of_range, to_chars};

verus! {

/// The position of the first dot of a text, or the length of the text if it has none.
pub open spec fn dot_position(s: Seq<char>) -> int
    decreases s.len(),
{
    if s.len() == 0 {
        0
    } else if s[0] == '.' {
        0
    } else {
        1 + dot_position(s.drop_first())
    }
}

/// A text without a dot.
pub open spec fn dot_free(s: Seq<char>) -> bool {
    forall|i: int| 0 <= i < s.len() ==> #[trigger] s[i] != '.'
}

/// What `dot_position` returns: an index that holds a dot with no dot before it, or the
/// length of a text without a dot.
pub proof fn lemma_dot_position(s: Seq<char>)
    ensures
        0 <= dot_position(s) <= s.len(),
        dot_position(s) < s.len() ==> s[dot_position(s)] == '.',
        forall|j: int| 0 <= j < dot_position(s) ==> #[trigger] s[j] != '.',
        dot_position(s) == s.len() <==> dot_free(s),
    decreases s.len(),
{
    if s.len() > 0 && s[0] != '.' {
        let rest = s.drop_first();
        lemma_dot_position(rest);
        assert forall|j: int| 0 <= j < dot_position(s) implies #[trigger] s[j] != '.' by {
            if j > 0 {
                assert(s[j] == rest[j - 1]);
            }
        }
        if dot_free(rest) {
            assert forall|i: int| 0 <= i < s.len() implies #[trigger] s[i] != '.' by {
                if i > 0 {
                    assert(s[i] == rest[i - 1]);
                }
            }
        }
        if dot_free(s) {
            assert forall|i: int| 0 <= i < rest.len() implies #[trigger] rest[i] != '.' by {
                assert(rest[i] == s[i + 1]);
            }
        }
    } else if s.len() > 0 {
        assert(s[0] == '.');
    }
}

/// An index that holds a dot with no dot before it is the position of the first dot.
pub proof fn lemma_dot_position_is(s: Seq<char>, at: int)
    requires
        0 <= at <= s.len(),
        at < s.len() ==> s[at] == '.',
        forall|j: int| 0 <= j < at ==> #[trigger] s[j] != '.',
    ensures
        dot_position(s) == at,
{
    lemma_dot_position(s);
    let p = dot_position(s);
    if p < at {
        assert(s[p] == '.');
    } else if p > at {
        assert(s[at] == '.');
    }
}

/// The three parts of a token.
pub struct TokenParts {
    pub header: Seq<char>,
    pub payload: Seq<char>,
    pub signature: Seq<char>,
}

/// The parts of a text with exactly two dots: what stands before, between and behind
/// them. A text with fewer or more dots has no parts.
pub open spec fn token_parts(token: Seq<char>) -> Option<TokenParts> {
    let first = dot_position(token);
    if first >= token.len() {
        None
    } else {
        let behind = token.skip(first + 1);
        let second = dot_position(behind);
        if second >= behind.len() {
            None
        } else {
            let last = behind.skip(second + 1);
            if dot_position(last) < last.len() {
                None
            } else {
                Some(
                    TokenParts {
                        header: token.take(first),
                        payload: behind.take(second),
                        signature: last,
                    },
                )
            }
        }
    }
}

/// Three texts without dots, joined by dots, are the parts of the joined text.
pub proof fn lemma_token_parts_of_joined(header: Seq<char>, payload: Seq<char>, signature: Seq<char>)
    requires
        dot_free(header),
        dot_free(payload),
        dot_free(signature),
    ensures
        token_parts((header + (seq!['.'] + payload)) + (seq!['.'] + signature)) == Some(
            TokenParts { header, payload, signature },
        ),
{
    let token = (header + (seq!['.'] + payload)) + (seq!['.'] + signature);
    assert forall|j: int| 0 <= j < header.len() implies #[trigger] token[j] != '.' by {
        assert(token[j] == header[j]);
    }
    assert(token[header.len() as int] == '.');
    lemma_dot_position_is(token, header.len() as int);
    let behind = token.skip(header.len() as int + 1);
    assert(behind =~= payload + (seq!['.'] + signature));
    assert forall|j: int| 0 <= j < payload.len() implies #[trigger] behind[j] != '.' by {
        assert(behind[j] == payload[j]);
    }
    assert(behind[payload.len() as int] == '.');
    lemma_dot_position_is(behind, payload.len() as int);
    let last = behind.skip(payload.len() as int + 1);
    assert(last =~= signature);
    lemma_dot_position(last);
    assert(token.take(header.len() as int) =~= header);
    assert(behind.take(payload.len() as int) =~= payload);
}

/// The header of every token.
pub open spec fn token_header() -> Seq<u8> {
    vstd::utf8::encode_utf8("{\"alg\":\"HS256\",\"typ\":\"JWT\"}"@)
}

/// What is signed: the header text, a dot and the payload text, as bytes.
pub open spec fn signing_input(header: Seq<char>, payload: Seq<char>) -> Seq<u8> {
    vstd::utf8::encode_utf8(header + (seq!['.'] + payload))
}

/// The token that carries a payload under a secret.
pub open spec fn token_text(payload: Seq<u8>, secret: Seq<u8>) -> Seq<char> {
    let header = base64url(token_header());
    let body = base64url(payload);
    (header + (seq!['.'] + body)) + (seq!['.'] + base64url(
        hmac_sha256(secret, signing_input(header, body)),
    ))
}

/// The payload that a token carries under a secret: the token must have three parts, its
/// header must be the header of every token, and its signature must be the HMAC-SHA256 tag
/// of its first two parts under the secret.
pub open spec fn token_payload(token: Seq<char>, secret: Seq<u8>) -> Option<Seq<u8>> {
    match token_parts(token) {
        None => None,
        Some(parts) => {
            if base64url_decoded(parts.header) != Some(token_header()) {
                None
            } else if base64url_decoded(parts.signature) != Some(
                hmac_sha256(secret, signing_input(parts.header, parts.payload)),
            ) {
                None
            } else {
                base64url_decoded(parts.payload)
            }
        },
    }
}

/// The claims that a token carries under a secret.
pub open spec fn token_claims(token: Seq<char>, secret: Seq<u8>) -> Option<TokenClaimsView> {
    match token_payload(token, secret) {
        Some(payload) => claims_of_bytes(payload),
        None => None,
    }
}

/// A text of base64 characters has no dot.
pub proof fn lemma_base64_dot_free(s: Seq<char>)
    requires
        forall|i: int| 0 <= i < s.len() ==> is_base64url_char(#[trigger] s[i]),
    ensures
        dot_free(s),
{
    assert forall|i: int| 0 <= i < s.len() implies #[trigger] s[i] != '.' by {
        assert(is_base64url_char(s[i]));
    }
}

/// Signs a payload under a secret. The token carries the payload under that secret.
pub fn sign_payload(payload: &[u8], secret: &[u8]) -> (r: PlatformResult<String>)
    ensures
        r matches Ok(token) && token@ == token_text(payload@, secret@) && token_payload(
            token@,
            secret@,
        ) == Some(payload@),
{
    let header = base64url_encode("{\"alg\":\"HS256\",\"typ\":\"JWT\"}".as_bytes());
    let body = base64url_encode(payload);
    let mut signing = header.clone();
    signing.append(".");
    signing.append(body.as_str());
    proof {
        reveal_strlit(".");
        assert("."@ =~= seq!['.']);
        assert(signing@ =~= header@ + (seq!['.'] + body@));
    }
    let tag = match hmac_sha256_tag(secret, signing.as_str().as_bytes()) {
        Some(tag) => tag,
        None => {
            return Err(PlatformError::Internal("invalid secret"));
        },
    };
    let signature = base64url_encode(tag.as_slice());
    let mut token = signing;
    token.append(".");
    token.append(signature.as_str());
    proof {
        assert(token@ =~= (header@ + (seq!['.'] + body@)) + (seq!['.'] + signature@));
        lemma_base64_dot_free(header@);
        lemma_base64_dot_free(body@);
        lemma_base64_dot_free(signature@);
        lemma_token_parts_of_joined(header@, body@, signature@);
    }
    Ok(token)
}

/// Whether two byte strings are equal.
pub fn same_bytes(a: &[u8], b: &[u8]) -> (same: bool)
    ensures
        same == (a@ == b@),
{
    if a.len() != b.len() {
        return false;
    }
    let mut i: usize = 0;
    while i < a.len()
        invariant
            i <= a.len(),
            a.len() == b.len(),
            forall|j: int| 0 <= j < i ==> a@[j] == b@[j],
        decreases a.len() - i,
    {
        if a[i] != b[i] {
            return false;
        }
        i = i + 1;
    }
    assert(a@ =~= b@);
    true
}

/// The three parts of a token, as texts.
pub struct SplitToken {
    pub header: String,
    pub payload: String,
    pub signature: String,
}

/// Splits a token at its two dots. A text with fewer or more dots has no parts.
pub fn split_token(token: &str) -> (parts: Option<SplitToken>)
    ensures
        match token_parts(token@) {
            Some(expected) => parts matches Some(found) && found.header@ == expected.header
                && found.payload@ == expected.payload && found.signature@
                == expected.signature,
            None => parts is None,
        },
{
    let chars = to_chars(token);
    let first = match find_char(&chars, '.', 0) {
        Some(at) => at,
        None => {
            proof {
                lemma_dot_position_is(chars@, chars@.len() as int);
            }
            return None;
        },
    };
    proof {
        lemma_dot_position_is(chars@, first as int);
    }
    let ghost behind = chars@.skip(first + 1);
    let second = match find_char(&chars, '.', first + 1) {
        Some(at) => at,
        None => {
            proof {
                assert forall|j: int| 0 <= j < behind.len() implies #[trigger] behind[j]
                    != '.' by {
                    assert(behind[j] == chars@[first + 1 + j]);
                }
                lemma_dot_position_is(behind, behind.len() as int);
            }
            return None;
        },
    };
    proof {
        assert forall|j: int| 0 <= j < second - first - 1 implies #[trigger] behind[j]
            != '.' by {
            assert(behind[j] == chars@[first + 1 + j]);
        }
        assert(behind[second - first - 1] == chars@[second as int]);
        lemma_dot_position_is(behind, second - first - 1);
    }
    let ghost last = behind.skip(second - first);
    proof {
        assert(last =~= chars@.skip(second + 1));
    }
    match find_char(&chars, '.', second + 1) {
        Some(third) => {
            proof {
                lemma_dot_position(last);
                assert(last[third - second - 1] == chars@[third as int]);
            }
            return None;
        },
        None => {
            proof {
                assert forall|j: int| 0 <= j < last.len() implies #[trigger] last[j] != '.' by {
                    assert(last[j] == chars@[second + 1 + j]);
                }
                lemma_dot_position_is(last, last.len() as int);
            }
        },
    }
    let header = text_of_range(&chars, 0, first);
    let body = text_of_range(&chars, first + 1, second);
    let signature = text_of_range(&chars, second + 1, chars.len());
    proof {
        assert(header@ =~= chars@.take(first as int));
        assert(body@ =~= behind.take(second - first - 1));
        assert(signature@ =~= last);
    }
    Some(SplitToken { header, payload: body, signature })
}

/// Verifies a token under a secret and returns its payload. A token that does not carry
/// a payload under the secret is unauthorized.
pub fn verify_payload(token: &str, secret: &[u8]) -> (r: PlatformResult<Vec<u8>>)
    ensures
        match token_payload(token@, secret@) {
            Some(payload) => r matches Ok(bytes) && bytes@ == payload,
            None => r == Err::<Vec<u8>, PlatformError>(PlatformError::Unauthorized),
        },
{
    let parts = match split_token(token) {
        Some(parts) => parts,
        None => {
            return Err(PlatformError::Unauthorized);
        },
    };
    let header = parts.header;
    let body = parts.payload;
    let signature = parts.signature;
    let header_bytes = match base64url_decode(header.as_str()) {
        Some(bytes) => bytes,
        None => {
            return Err(PlatformError::Unauthorized);
        },
    };
    if !same_bytes(header_bytes.as_slice(), "{\"alg\":\"HS256\",\"typ\":\"JWT\"}".as_bytes()) {
        return Err(PlatformError::Unauthorized);
    }
    let mut signing = header.clone();
    signing.append(".");
    signing.append(body.as_str());
    proof {
        reveal_strlit(".");
        assert("."@ =~= seq!['.']);
        assert(signing@ =~= header@ + (seq!['.'] + body@));
    }
    let expected = match hmac_sha256_tag(secret, signing.as_str().as_bytes()) {
        Some(tag) => tag,
        None => {
            return Err(PlatformError::Internal("invalid secret"));
        },
    };
    let provided = match base64url_decode(signature.as_str()) {
        Some(bytes) => bytes,
        None => {
            return Err(PlatformError::Unauthorized);
        },
    };
    if provided.len() != expected.len() || !constant_time_eq(
        provided.as_slice(),
        expected.as_slice(),
    ) {
        return Err(PlatformError::Unauthorized);
    }
    match base64url_decode(body.as_str()) {
        Some(payload) => Ok(payload),
        None => Err(PlatformError::Unauthorized),
    }
}

/// Signs claims under a secret. The token carries the claims under that secret.
pub fn sign_jwt(claims: &TokenClaims, secret: &[u8]) -> (r: PlatformResult<String>)
    ensures
        r matches Ok(token) && token@ == token_text(claims_bytes(claims.deep_view()), secret@)
            && token_claims(token@, secret@) == Some(claims.deep_view()),
{
    let payload = encode_claims(claims);
    sign_payload(payload.as_slice(), secret)
}

/// Verifies a token under a secret and returns its claims. A token that does not carry
/// claims under the secret is unauthorized.
pub fn verify_jwt(token: &str, secret: &[u8]) -> (r: PlatformResult<TokenClaims>)
    ensures
        match token_claims(token@, secret@) {
            Some(claims) => r matches Ok(found) && found.deep_view() == claims,
            None => r == Err::<TokenClaims, PlatformError>(PlatformError::Unauthorized),
        },
{
    let payload = match verify_payload(token, secret) {
        Ok(payload) => payload,
        Err(e) => {
            return Err(e);
        },
    };
    match decode_claims(payload.as_slice()) {
        Some(claims) => Ok(claims),
        None => Err(PlatformError::Unauthorized),
    }
}

} // verus!
