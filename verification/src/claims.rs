//! The claims that a token carries and their text form.
//!
//! The text of claims is one JSON object without white space, its members in a fixed
//! order: `sub`, `tenant_id`, `scopes`, `prn_type`, `aud`, `iss`, `use`, `nonce`,
//! `session`, `iat`, `exp`. Instants are whole seconds since the epoch. Only this text is
//! read back as claims.
use vstd::prelude::*;
use vstd::string::StringExecFns;
use crate::models::{AuthSessionMetadata, AuthSessionMetadataView};
use crate::text::{clone_opt_text, clone_texts, same_text, to_chars, utf8_text};
use crate::time::seconds;
use crate::wire::{
    decimal, is_digit, lemma_decimal_read, lemma_decimal_sound, lemma_list_read,
    lemma_list_sound, lemma_literal_read, lemma_literal_sound, lemma_opt_read, lemma_opt_sound,
    lemma_quoted_read, lemma_quoted_sound, list_text, opt_text, quoted, read_decimal,
    read_list, read_literal, read_opt, read_quoted, take_decimal, take_list, take_literal,
    take_opt, take_quoted, write_decimal, write_list, write_opt, write_quoted, Parsed, Read,
    Taken,
};

verus! {

/// What a token may be used for.
#[derive(Debug, Clone, Copy, PartialEq, Eq, Structural)]
pub enum TokenUse {
    Access,
    Refresh,
}

/// The claims of a token.
#[derive(Debug, PartialEq, Eq)]
pub struct TokenClaims {
    /// The principal, by the text of its identifier.
    pub sub: String,
    /// The tenant, by the text of its identifier.
    pub tenant_id: String,
    /// The scopes, by their wire texts.
    pub scopes: Vec<String>,
    /// The name of the principal type.
    pub prn_type: String,
    pub aud: Option<String>,
    pub iss: String,
    pub token_use: TokenUse,
    pub nonce: String,
    pub session: Option<AuthSessionMetadata>,
    /// Issued at, in seconds since the epoch.
    pub iat: i64,
    /// Expires at, in seconds since the epoch.
    pub exp: i64,
}

/// The mathematical value of [`TokenClaims`].
pub struct TokenClaimsView {
    pub sub: Seq<char>,
    pub tenant_id: Seq<char>,
    pub scopes: Seq<Seq<char>>,
    pub prn_type: Seq<char>,
    pub aud: Option<Seq<char>>,
    pub iss: Seq<char>,
    pub token_use: TokenUse,
    pub nonce: Seq<char>,
    pub session: Option<AuthSessionMetadataView>,
    pub iat: i64,
    pub exp: i64,
}

impl DeepView for TokenClaims {
    type V = TokenClaimsView;

    open spec fn deep_view(&self) -> TokenClaimsView {
        TokenClaimsView {
            sub: self.sub@,
            tenant_id: self.tenant_id@,
            scopes: self.scopes.deep_view(),
            prn_type: self.prn_type@,
            aud: self.aud.deep_view(),
            iss: self.iss@,
            token_use: self.token_use,
            nonce: self.nonce@,
            session: self.session.deep_view(),
            iat: self.iat,
            exp: self.exp,
        }
    }
}

impl Clone for TokenClaims {
    fn clone(&self) -> (copy: Self)
        ensures
            copy.deep_view() == self.deep_view(),
    {
        TokenClaims {
            sub: self.sub.clone(),
            tenant_id: self.tenant_id.clone(),
            scopes: clone_texts(&self.scopes),
            prn_type: self.prn_type.clone(),
            aud: clone_opt_text(&self.aud),
            iss: self.iss.clone(),
            token_use: self.token_use,
            nonce: self.nonce.clone(),
            session: match &self.session {
                Some(session) => Some(session.clone()),
                None => None,
            },
            iat: self.iat,
            exp: self.exp,
        }
    }
}

/// A member whose value is a text, followed by `rest`.
pub open spec fn text_member(name: Seq<char>, value: Seq<char>, rest: Seq<char>) -> Seq<char> {
    name + (quoted(value) + rest)
}

/// A member whose value is an optional text, followed by `rest`.
pub open spec fn opt_member(name: Seq<char>, value: Option<Seq<char>>, rest: Seq<char>) -> Seq<
    char,
> {
    name + (opt_text(value) + rest)
}

/// A member whose value is an integer, followed by `rest`.
pub open spec fn number_member(name: Seq<char>, value: int, rest: Seq<char>) -> Seq<char> {
    name + (decimal(value) + rest)
}

/// Reads a member whose value is a text.
pub open spec fn read_text_member(s: Seq<char>, name: Seq<char>) -> Parsed<Seq<char>> {
    match read_literal(s, name) {
        Some(rest) => read_quoted(rest),
        None => None,
    }
}

/// Reads a member whose value is an optional text.
pub open spec fn read_opt_member(s: Seq<char>, name: Seq<char>) -> Parsed<Option<Seq<char>>> {
    match read_literal(s, name) {
        Some(rest) => read_opt(rest),
        None => None,
    }
}

/// Reads a member whose value is an integer.
pub open spec fn read_number_member(s: Seq<char>, name: Seq<char>) -> Parsed<int> {
    match read_literal(s, name) {
        Some(rest) => read_decimal(rest),
        None => None,
    }
}

/// The name of a token use.
pub open spec fn use_name(token_use: TokenUse) -> Seq<char> {
    match token_use {
        TokenUse::Access => "access"@,
        TokenUse::Refresh => "refresh"@,
    }
}

/// The token use that a name stands for.
pub open spec fn use_of_name(name: Seq<char>) -> Option<TokenUse> {
    if name == "access"@ {
        Some(TokenUse::Access)
    } else if name == "refresh"@ {
        Some(TokenUse::Refresh)
    } else {
        None
    }
}

/// The text of session metadata, or `null`.
pub open spec fn session_text(session: Option<AuthSessionMetadataView>) -> Seq<char> {
    match session {
        None => "null"@,
        Some(meta) => opt_member(
            "{\"user_agent\":"@,
            meta.user_agent,
            opt_member(
                ",\"ip_address\":"@,
                meta.ip_address,
                opt_member(",\"device_id\":"@, meta.device_id, "}"@),
            ),
        ),
    }
}

/// Reads session metadata.
pub open spec fn read_session(s: Seq<char>) -> Parsed<Option<AuthSessionMetadataView>> {
    match read_literal(s, "null"@) {
        Some(rest) => Some(Read { value: None, rest }),
        None => match read_opt_member(s, "{\"user_agent\":"@) {
            None => None,
            Some(user_agent) => match read_opt_member(user_agent.rest, ",\"ip_address\":"@) {
                None => None,
                Some(ip_address) => match read_opt_member(ip_address.rest, ",\"device_id\":"@) {
                    None => None,
                    Some(device_id) => match read_literal(device_id.rest, "}"@) {
                        None => None,
                        Some(rest) => Some(
                            Read {
                                value: Some(
                                    AuthSessionMetadataView {
                                        user_agent: user_agent.value,
                                        ip_address: ip_address.value,
                                        device_id: device_id.value,
                                    },
                                ),
                                rest,
                            },
                        ),
                    },
                },
            },
        },
    }
}

/// The text of the claims from the member `use` on.
pub open spec fn claims_text_from_use(claims: TokenClaimsView) -> Seq<char> {
    text_member(
        ",\"use\":"@,
        use_name(claims.token_use),
        text_member(
            ",\"nonce\":"@,
            claims.nonce,
            ",\"session\":"@ + (session_text(claims.session) + number_member(
                ",\"iat\":"@,
                claims.iat as int,
                number_member(",\"exp\":"@, claims.exp as int, "}"@),
            )),
        ),
    )
}

/// The text of claims.
pub open spec fn claims_text(claims: TokenClaimsView) -> Seq<char> {
    text_member(
        "{\"sub\":"@,
        claims.sub,
        text_member(
            ",\"tenant_id\":"@,
            claims.tenant_id,
            ",\"scopes\":"@ + (list_text(claims.scopes) + text_member(
                ",\"prn_type\":"@,
                claims.prn_type,
                opt_member(
                    ",\"aud\":"@,
                    claims.aud,
                    text_member(",\"iss\":"@, claims.iss, claims_text_from_use(claims)),
                ),
            )),
        ),
    )
}

/// What is read of claims up to the member `iss`.
pub struct ClaimsHead {
    pub sub: Seq<char>,
    pub tenant_id: Seq<char>,
    pub scopes: Seq<Seq<char>>,
    pub prn_type: Seq<char>,
    pub aud: Option<Seq<char>>,
    pub iss: Seq<char>,
}

/// What is read of claims from the member `use` on.
pub struct ClaimsTail {
    pub token_use: TokenUse,
    pub nonce: Seq<char>,
    pub session: Option<AuthSessionMetadataView>,
    pub iat: i64,
    pub exp: i64,
}

/// Reads the members of claims up to `iss`.
pub open spec fn read_claims_head(s: Seq<char>) -> Parsed<ClaimsHead> {
    match read_text_member(s, "{\"sub\":"@) {
        None => None,
        Some(sub) => match read_text_member(sub.rest, ",\"tenant_id\":"@) {
            None => None,
            Some(tenant_id) => match read_literal(tenant_id.rest, ",\"scopes\":"@) {
                None => None,
                Some(at_scopes) => match read_list(at_scopes) {
                    None => None,
                    Some(scopes) => match read_text_member(scopes.rest, ",\"prn_type\":"@) {
                        None => None,
                        Some(prn_type) => match read_opt_member(prn_type.rest, ",\"aud\":"@) {
                            None => None,
                            Some(aud) => match read_text_member(aud.rest, ",\"iss\":"@) {
                                None => None,
                                Some(iss) => Some(
                                    Read {
                                        value: ClaimsHead {
                                            sub: sub.value,
                                            tenant_id: tenant_id.value,
                                            scopes: scopes.value,
                                            prn_type: prn_type.value,
                                            aud: aud.value,
                                            iss: iss.value,
                                        },
                                        rest: iss.rest,
                                    },
                                ),
                            },
                        },
                    },
                },
            },
        },
    }
}

/// Reads the members of claims from `use` on, and the closing brace.
pub open spec fn read_claims_tail(s: Seq<char>) -> Parsed<ClaimsTail> {
    match read_text_member(s, ",\"use\":"@) {
        None => None,
        Some(use_read) => match use_of_name(use_read.value) {
            None => None,
            Some(token_use) => match read_text_member(use_read.rest, ",\"nonce\":"@) {
                None => None,
                Some(nonce) => match read_literal(nonce.rest, ",\"session\":"@) {
                    None => None,
                    Some(at_session) => match read_session(at_session) {
                        None => None,
                        Some(session) => match read_number_member(session.rest, ",\"iat\":"@) {
                            None => None,
                            Some(iat) => match read_number_member(iat.rest, ",\"exp\":"@) {
                                None => None,
                                Some(exp) => match read_literal(exp.rest, "}"@) {
                                    None => None,
                                    Some(rest) => Some(
                                        Read {
                                            value: ClaimsTail {
                                                token_use,
                                                nonce: nonce.value,
                                                session: session.value,
                                                iat: iat.value as i64,
                                                exp: exp.value as i64,
                                            },
                                            rest,
                                        },
                                    ),
                                },
                            },
                        },
                    },
                },
            },
        },
    }
}

/// The claims that a text denotes: those that were read where nothing follows them.
pub open spec fn read_claims(s: Seq<char>) -> Option<TokenClaimsView> {
    match read_claims_head(s) {
        None => None,
        Some(head) => match read_claims_tail(head.rest) {
            None => None,
            Some(tail) => if tail.rest.len() == 0 {
                Some(
                    TokenClaimsView {
                        sub: head.value.sub,
                        tenant_id: head.value.tenant_id,
                        scopes: head.value.scopes,
                        prn_type: head.value.prn_type,
                        aud: head.value.aud,
                        iss: head.value.iss,
                        token_use: tail.value.token_use,
                        nonce: tail.value.nonce,
                        session: tail.value.session,
                        iat: tail.value.iat,
                        exp: tail.value.exp,
                    },
                )
            } else {
                None
            },
        },
    }
}

/// A member with a text value is read as that text.
pub proof fn lemma_text_member_read(name: Seq<char>, value: Seq<char>, rest: Seq<char>)
    ensures
        read_text_member(text_member(name, value, rest), name) == Some(Read { value, rest }),
{
    lemma_literal_read(name, quoted(value) + rest);
    lemma_quoted_read(value, rest);
}

/// A member with an optional text value is read as that value.
pub proof fn lemma_opt_member_read(name: Seq<char>, value: Option<Seq<char>>, rest: Seq<char>)
    ensures
        read_opt_member(opt_member(name, value, rest), name) == Some(Read { value, rest }),
{
    lemma_literal_read(name, opt_text(value) + rest);
    lemma_opt_read(value, rest);
}

/// A member with an integer value is read as that integer, where what follows begins
/// with no digit.
pub proof fn lemma_number_member_read(name: Seq<char>, value: int, rest: Seq<char>)
    requires
        i64::MIN <= value <= i64::MAX,
        rest.len() > 0 ==> !is_digit(rest[0]),
    ensures
        read_number_member(number_member(name, value, rest), name) == Some(
            Read { value, rest },
        ),
{
    lemma_literal_read(name, decimal(value) + rest);
    lemma_decimal_read(value, rest);
}

/// What is read as a member with a text value is that member, followed by the rest.
pub proof fn lemma_text_member_sound(s: Seq<char>, name: Seq<char>)
    requires
        read_text_member(s, name) is Some,
    ensures
        s == text_member(name, read_text_member(s, name)->0.value, read_text_member(s, name)->0.rest),
{
    lemma_literal_sound(s, name);
    lemma_quoted_sound(read_literal(s, name)->0);
}

/// What is read as a member with an optional text value is that member, followed by the
/// rest.
pub proof fn lemma_opt_member_sound(s: Seq<char>, name: Seq<char>)
    requires
        read_opt_member(s, name) is Some,
    ensures
        s == opt_member(name, read_opt_member(s, name)->0.value, read_opt_member(s, name)->0.rest),
{
    lemma_literal_sound(s, name);
    lemma_opt_sound(read_literal(s, name)->0);
}

/// What is read as a member with an integer value is that member, followed by the rest.
pub proof fn lemma_number_member_sound(s: Seq<char>, name: Seq<char>)
    requires
        read_number_member(s, name) is Some,
    ensures
        s == number_member(
            name,
            read_number_member(s, name)->0.value,
            read_number_member(s, name)->0.rest,
        ),
        i64::MIN <= read_number_member(s, name)->0.value <= i64::MAX,
{
    lemma_literal_sound(s, name);
    lemma_decimal_sound(read_literal(s, name)->0);
}

/// Session metadata is read as itself.
pub proof fn lemma_session_read(session: Option<AuthSessionMetadataView>, rest: Seq<char>)
    ensures
        read_session(session_text(session) + rest) == Some(Read { value: session, rest }),
{
    match session {
        None => {
            lemma_literal_read("null"@, rest);
        },
        Some(meta) => {
            let closing = "}"@ + rest;
            let third = opt_member(",\"device_id\":"@, meta.device_id, closing);
            let second = opt_member(",\"ip_address\":"@, meta.ip_address, third);
            let first = opt_member("{\"user_agent\":"@, meta.user_agent, second);
            let s = session_text(session) + rest;
            assert(s =~= first);
            reveal_strlit("null");
            reveal_strlit("{\"user_agent\":");
            assert("null"@[0] == 'n');
            assert("{\"user_agent\":"@[0] == '{');
            assert(s[0] == '{');
            if "null"@.len() <= s.len() {
                assert(s.take("null"@.len() as int)[0] != "null"@[0]);
            }
            lemma_opt_member_read("{\"user_agent\":"@, meta.user_agent, second);
            lemma_opt_member_read(",\"ip_address\":"@, meta.ip_address, third);
            lemma_opt_member_read(",\"device_id\":"@, meta.device_id, closing);
            lemma_literal_read("}"@, rest);
        },
    }
}

/// What is read as session metadata is the text of that metadata, followed by the rest.
pub proof fn lemma_session_sound(s: Seq<char>)
    requires
        read_session(s) is Some,
    ensures
        s == session_text(read_session(s)->0.value) + read_session(s)->0.rest,
{
    if read_literal(s, "null"@) is Some {
        lemma_literal_sound(s, "null"@);
    } else {
        let user_agent = read_opt_member(s, "{\"user_agent\":"@)->0;
        let ip_address = read_opt_member(user_agent.rest, ",\"ip_address\":"@)->0;
        let device_id = read_opt_member(ip_address.rest, ",\"device_id\":"@)->0;
        let rest = read_literal(device_id.rest, "}"@)->0;
        lemma_opt_member_sound(s, "{\"user_agent\":"@);
        lemma_opt_member_sound(user_agent.rest, ",\"ip_address\":"@);
        lemma_opt_member_sound(ip_address.rest, ",\"device_id\":"@);
        lemma_literal_sound(device_id.rest, "}"@);
        let third = opt_member(",\"device_id\":"@, device_id.value, "}"@);
        let second = opt_member(",\"ip_address\":"@, ip_address.value, third);
        lemma_opt_member_followed(",\"device_id\":"@, device_id.value, "}"@, rest);
        lemma_opt_member_followed(",\"ip_address\":"@, ip_address.value, third, rest);
        lemma_opt_member_followed("{\"user_agent\":"@, user_agent.value, second, rest);
    }
}

/// A member followed by a text and then another is the member followed by both.
pub proof fn lemma_opt_member_followed(
    name: Seq<char>,
    value: Option<Seq<char>>,
    next: Seq<char>,
    rest: Seq<char>,
)
    ensures
        opt_member(name, value, next) + rest == opt_member(name, value, next + rest),
{
    assert(opt_member(name, value, next) + rest =~= opt_member(name, value, next + rest));
}

/// The names of the two token uses differ, and each is read as its use.
pub proof fn lemma_use_names(token_use: TokenUse)
    ensures
        use_of_name(use_name(token_use)) == Some(token_use),
{
    reveal_strlit("access");
    reveal_strlit("refresh");
    assert("access"@.len() == 6);
    assert("refresh"@.len() == 7);
}

/// The text of claims is read as the claims.
pub proof fn lemma_claims_read(claims: TokenClaimsView)
    ensures
        read_claims(claims_text(claims)) == Some(claims),
{
    let closing = "}"@;
    let exp = number_member(",\"exp\":"@, claims.exp as int, closing);
    let iat = number_member(",\"iat\":"@, claims.iat as int, exp);
    let session = ",\"session\":"@ + (session_text(claims.session) + iat);
    let nonce = text_member(",\"nonce\":"@, claims.nonce, session);
    let from_use = text_member(",\"use\":"@, use_name(claims.token_use), nonce);
    let iss = text_member(",\"iss\":"@, claims.iss, from_use);
    let aud = opt_member(",\"aud\":"@, claims.aud, iss);
    let prn = text_member(",\"prn_type\":"@, claims.prn_type, aud);
    let scopes = ",\"scopes\":"@ + (list_text(claims.scopes) + prn);
    let tenant = text_member(",\"tenant_id\":"@, claims.tenant_id, scopes);
    let whole = text_member("{\"sub\":"@, claims.sub, tenant);
    assert(whole == claims_text(claims));
    lemma_text_member_read("{\"sub\":"@, claims.sub, tenant);
    lemma_text_member_read(",\"tenant_id\":"@, claims.tenant_id, scopes);
    lemma_literal_read(",\"scopes\":"@, list_text(claims.scopes) + prn);
    lemma_list_read(claims.scopes, prn);
    lemma_text_member_read(",\"prn_type\":"@, claims.prn_type, aud);
    lemma_opt_member_read(",\"aud\":"@, claims.aud, iss);
    lemma_text_member_read(",\"iss\":"@, claims.iss, from_use);
    assert(read_claims_head(whole) == Some(
        Read {
            value: ClaimsHead {
                sub: claims.sub,
                tenant_id: claims.tenant_id,
                scopes: claims.scopes,
                prn_type: claims.prn_type,
                aud: claims.aud,
                iss: claims.iss,
            },
            rest: from_use,
        },
    ));
    lemma_text_member_read(",\"use\":"@, use_name(claims.token_use), nonce);
    lemma_use_names(claims.token_use);
    lemma_text_member_read(",\"nonce\":"@, claims.nonce, session);
    lemma_literal_read(",\"session\":"@, session_text(claims.session) + iat);
    lemma_session_read(claims.session, iat);
    reveal_strlit(",\"exp\":");
    reveal_strlit("}");
    assert(",\"exp\":"@[0] == ',');
    assert("}"@[0] == '}');
    assert(exp[0] == ',');
    assert(closing[0] == '}');
    lemma_number_member_read(",\"iat\":"@, claims.iat as int, exp);
    lemma_number_member_read(",\"exp\":"@, claims.exp as int, closing);
    lemma_literal_read("}"@, Seq::empty());
    assert("}"@ + Seq::<char>::empty() =~= closing);
    assert(read_claims_tail(from_use) == Some(
        Read {
            value: ClaimsTail {
                token_use: claims.token_use,
                nonce: claims.nonce,
                session: claims.session,
                iat: claims.iat,
                exp: claims.exp,
            },
            rest: Seq::empty(),
        },
    ));
}

/// A text that is read as claims is the text of those claims.
pub proof fn lemma_claims_sound(s: Seq<char>)
    requires
        read_claims(s) is Some,
    ensures
        s == claims_text(read_claims(s)->0),
{
    let claims = read_claims(s)->0;
    let sub = read_text_member(s, "{\"sub\":"@)->0;
    let tenant_id = read_text_member(sub.rest, ",\"tenant_id\":"@)->0;
    let at_scopes = read_literal(tenant_id.rest, ",\"scopes\":"@)->0;
    let scopes = read_list(at_scopes)->0;
    let prn_type = read_text_member(scopes.rest, ",\"prn_type\":"@)->0;
    let aud = read_opt_member(prn_type.rest, ",\"aud\":"@)->0;
    let iss = read_text_member(aud.rest, ",\"iss\":"@)->0;
    lemma_text_member_sound(s, "{\"sub\":"@);
    lemma_text_member_sound(sub.rest, ",\"tenant_id\":"@);
    lemma_literal_sound(tenant_id.rest, ",\"scopes\":"@);
    lemma_list_sound(at_scopes);
    lemma_text_member_sound(scopes.rest, ",\"prn_type\":"@);
    lemma_opt_member_sound(prn_type.rest, ",\"aud\":"@);
    lemma_text_member_sound(aud.rest, ",\"iss\":"@);
    let use_read = read_text_member(iss.rest, ",\"use\":"@)->0;
    let nonce = read_text_member(use_read.rest, ",\"nonce\":"@)->0;
    let at_session = read_literal(nonce.rest, ",\"session\":"@)->0;
    let session = read_session(at_session)->0;
    let iat = read_number_member(session.rest, ",\"iat\":"@)->0;
    let exp = read_number_member(iat.rest, ",\"exp\":"@)->0;
    let rest = read_literal(exp.rest, "}"@)->0;
    lemma_text_member_sound(iss.rest, ",\"use\":"@);
    lemma_text_member_sound(use_read.rest, ",\"nonce\":"@);
    lemma_literal_sound(nonce.rest, ",\"session\":"@);
    lemma_session_sound(at_session);
    lemma_number_member_sound(session.rest, ",\"iat\":"@);
    lemma_number_member_sound(iat.rest, ",\"exp\":"@);
    lemma_literal_sound(exp.rest, "}"@);
    assert(rest =~= Seq::empty());
    assert(exp.rest =~= "}"@);
    assert(use_read.value == use_name(claims.token_use));
}

/// The claims that a byte string denotes: those of the text it encodes in UTF-8.
pub open spec fn claims_of_bytes(bytes: Seq<u8>) -> Option<TokenClaimsView> {
    if vstd::utf8::valid_utf8(bytes) {
        read_claims(vstd::utf8::decode_utf8(bytes))
    } else {
        None
    }
}

/// The bytes of claims: their text in UTF-8.
pub open spec fn claims_bytes(claims: TokenClaimsView) -> Seq<u8> {
    vstd::utf8::encode_utf8(claims_text(claims))
}

/// The bytes of claims denote the claims.
pub proof fn law_claims_bytes_read_back(claims: TokenClaimsView)
    ensures
        claims_of_bytes(claims_bytes(claims)) == Some(claims),
{
    vstd::utf8::encode_utf8_valid_utf8(claims_text(claims));
    vstd::utf8::encode_utf8_decode_utf8(claims_text(claims));
    lemma_claims_read(claims);
}

/// Bytes that denote claims are the bytes of those claims: no two byte strings denote
/// the same claims.
pub proof fn law_claims_bytes_unique(bytes: Seq<u8>)
    requires
        claims_of_bytes(bytes) is Some,
    ensures
        bytes == claims_bytes(claims_of_bytes(bytes)->0),
{
    vstd::utf8::decode_utf8_encode_utf8(bytes);
    lemma_claims_sound(vstd::utf8::decode_utf8(bytes));
}

/// Appends a literal to a text under construction: what is written and what is still to
/// come stay the whole.
fn put_literal(out: &mut String, lit: &str, Ghost(whole): Ghost<Seq<char>>, Ghost(rest): Ghost<Seq<char>>)
    requires
        old(out)@ + (lit@ + rest) == whole,
    ensures
        final(out)@ + rest == whole,
{
    out.append(lit);
    assert(out@ + rest =~= old(out)@ + (lit@ + rest));
}

/// Appends a quoted text to a text under construction.
fn put_quoted(out: &mut String, text: &str, Ghost(whole): Ghost<Seq<char>>, Ghost(rest): Ghost<Seq<char>>)
    requires
        old(out)@ + (quoted(text@) + rest) == whole,
    ensures
        final(out)@ + rest == whole,
{
    write_quoted(out, text);
    assert(out@ + rest =~= old(out)@ + (quoted(text@) + rest));
}

/// Appends an optional text to a text under construction.
fn put_opt(
    out: &mut String,
    value: &Option<String>,
    Ghost(whole): Ghost<Seq<char>>,
    Ghost(rest): Ghost<Seq<char>>,
)
    requires
        old(out)@ + (opt_text(value.deep_view()) + rest) == whole,
    ensures
        final(out)@ + rest == whole,
{
    write_opt(out, value);
    assert(out@ + rest =~= old(out)@ + (opt_text(value.deep_view()) + rest));
}

/// Appends an integer to a text under construction.
fn put_decimal(out: &mut String, n: i64, Ghost(whole): Ghost<Seq<char>>, Ghost(rest): Ghost<Seq<char>>)
    requires
        old(out)@ + (decimal(n as int) + rest) == whole,
    ensures
        final(out)@ + rest == whole,
{
    write_decimal(out, n);
    assert(out@ + rest =~= old(out)@ + (decimal(n as int) + rest));
}

/// Appends a list of texts to a text under construction.
fn put_list(
    out: &mut String,
    items: &Vec<String>,
    Ghost(whole): Ghost<Seq<char>>,
    Ghost(rest): Ghost<Seq<char>>,
)
    requires
        old(out)@ + (list_text(items.deep_view()) + rest) == whole,
    ensures
        final(out)@ + rest == whole,
{
    write_list(out, items);
    assert(out@ + rest =~= old(out)@ + (list_text(items.deep_view()) + rest));
}

/// Appends session metadata to a text under construction.
fn put_session(
    out: &mut String,
    session: &Option<AuthSessionMetadata>,
    Ghost(whole): Ghost<Seq<char>>,
    Ghost(rest): Ghost<Seq<char>>,
)
    requires
        old(out)@ + (session_text(session.deep_view()) + rest) == whole,
    ensures
        final(out)@ + rest == whole,
{
    match session {
        None => {
            put_literal(out, "null", Ghost(whole), Ghost(rest));
        },
        Some(meta) => {
            let ghost view = meta.deep_view();
            let ghost closing = "}"@ + rest;
            let ghost third = opt_member(",\"device_id\":"@, view.device_id, closing);
            let ghost second = opt_member(",\"ip_address\":"@, view.ip_address, third);
            proof {
                lemma_opt_member_followed(",\"device_id\":"@, view.device_id, "}"@, rest);
                lemma_opt_member_followed(
                    ",\"ip_address\":"@,
                    view.ip_address,
                    opt_member(",\"device_id\":"@, view.device_id, "}"@),
                    rest,
                );
                lemma_opt_member_followed(
                    "{\"user_agent\":"@,
                    view.user_agent,
                    opt_member(
                        ",\"ip_address\":"@,
                        view.ip_address,
                        opt_member(",\"device_id\":"@, view.device_id, "}"@),
                    ),
                    rest,
                );
            }
            put_literal(
                out,
                "{\"user_agent\":",
                Ghost(whole),
                Ghost(opt_text(view.user_agent) + second),
            );
            put_opt(out, &meta.user_agent, Ghost(whole), Ghost(second));
            put_literal(
                out,
                ",\"ip_address\":",
                Ghost(whole),
                Ghost(opt_text(view.ip_address) + third),
            );
            put_opt(out, &meta.ip_address, Ghost(whole), Ghost(third));
            put_literal(
                out,
                ",\"device_id\":",
                Ghost(whole),
                Ghost(opt_text(view.device_id) + closing),
            );
            put_opt(out, &meta.device_id, Ghost(whole), Ghost(closing));
            put_literal(out, "}", Ghost(whole), Ghost(rest));
        },
    }
}

/// The name of a token use.
pub fn token_use_name(token_use: TokenUse) -> (name: &'static str)
    ensures
        name@ == use_name(token_use),
{
    match token_use {
        TokenUse::Access => "access",
        TokenUse::Refresh => "refresh",
    }
}

/// The text of claims.
pub fn claims_to_text(claims: &TokenClaims) -> (text: String)
    ensures
        text@ == claims_text(claims.deep_view()),
{
    let ghost view = claims.deep_view();
    let ghost whole = claims_text(view);
    let ghost closing = "}"@;
    let ghost exp = number_member(",\"exp\":"@, view.exp as int, closing);
    let ghost iat = number_member(",\"iat\":"@, view.iat as int, exp);
    let ghost session = ",\"session\":"@ + (session_text(view.session) + iat);
    let ghost nonce = text_member(",\"nonce\":"@, view.nonce, session);
    let ghost from_use = text_member(",\"use\":"@, use_name(view.token_use), nonce);
    let ghost iss = text_member(",\"iss\":"@, view.iss, from_use);
    let ghost aud = opt_member(",\"aud\":"@, view.aud, iss);
    let ghost prn = text_member(",\"prn_type\":"@, view.prn_type, aud);
    let ghost scopes = ",\"scopes\":"@ + (list_text(view.scopes) + prn);
    let ghost tenant = text_member(",\"tenant_id\":"@, view.tenant_id, scopes);
    let mut out = String::new();
    assert(out@ + whole =~= whole);
    put_literal(&mut out, "{\"sub\":", Ghost(whole), Ghost(quoted(view.sub) + tenant));
    put_quoted(&mut out, claims.sub.as_str(), Ghost(whole), Ghost(tenant));
    put_literal(
        &mut out,
        ",\"tenant_id\":",
        Ghost(whole),
        Ghost(quoted(view.tenant_id) + scopes),
    );
    put_quoted(&mut out, claims.tenant_id.as_str(), Ghost(whole), Ghost(scopes));
    put_literal(&mut out, ",\"scopes\":", Ghost(whole), Ghost(list_text(view.scopes) + prn));
    put_list(&mut out, &claims.scopes, Ghost(whole), Ghost(prn));
    put_literal(&mut out, ",\"prn_type\":", Ghost(whole), Ghost(quoted(view.prn_type) + aud));
    put_quoted(&mut out, claims.prn_type.as_str(), Ghost(whole), Ghost(aud));
    put_literal(&mut out, ",\"aud\":", Ghost(whole), Ghost(opt_text(view.aud) + iss));
    put_opt(&mut out, &claims.aud, Ghost(whole), Ghost(iss));
    put_literal(&mut out, ",\"iss\":", Ghost(whole), Ghost(quoted(view.iss) + from_use));
    put_quoted(&mut out, claims.iss.as_str(), Ghost(whole), Ghost(from_use));
    put_literal(
        &mut out,
        ",\"use\":",
        Ghost(whole),
        Ghost(quoted(use_name(view.token_use)) + nonce),
    );
    put_quoted(&mut out, token_use_name(claims.token_use), Ghost(whole), Ghost(nonce));
    put_literal(&mut out, ",\"nonce\":", Ghost(whole), Ghost(quoted(view.nonce) + session));
    put_quoted(&mut out, claims.nonce.as_str(), Ghost(whole), Ghost(session));
    put_literal(
        &mut out,
        ",\"session\":",
        Ghost(whole),
        Ghost(session_text(view.session) + iat),
    );
    put_session(&mut out, &claims.session, Ghost(whole), Ghost(iat));
    put_literal(&mut out, ",\"iat\":", Ghost(whole), Ghost(decimal(view.iat as int) + exp));
    put_decimal(&mut out, claims.iat, Ghost(whole), Ghost(exp));
    put_literal(&mut out, ",\"exp\":", Ghost(whole), Ghost(decimal(view.exp as int) + closing));
    put_decimal(&mut out, claims.exp, Ghost(whole), Ghost(closing));
    assert(closing =~= "}"@ + Seq::<char>::empty());
    put_literal(&mut out, "}", Ghost(whole), Ghost(Seq::empty()));
    assert(out@ + Seq::<char>::empty() =~= out@);
    out
}

/// The bytes of claims.
pub fn encode_claims(claims: &TokenClaims) -> (bytes: Vec<u8>)
    ensures
        bytes@ == claims_bytes(claims.deep_view()),
        claims_of_bytes(bytes@) == Some(claims.deep_view()),
{
    let text = claims_to_text(claims);
    proof {
        law_claims_bytes_read_back(claims.deep_view());
    }
    vstd::string::StrSliceExecFns::as_bytes_vec(text.as_str())
}

/// Takes a member whose value is a text.
fn take_text_member(chars: &Vec<char>, at: usize, name: &str) -> (taken: Option<Taken<String>>)
    requires
        at <= chars.len(),
    ensures
        match read_text_member(chars@.skip(at as int), name@) {
            Some(found) => taken matches Some(t) && t.value@ == found.value && at <= t.end
                <= chars.len() && chars@.skip(t.end as int) == found.rest,
            None => taken is None,
        },
{
    match take_literal(chars, at, name) {
        Some(end) => take_quoted(chars, end),
        None => None,
    }
}

/// Takes a member whose value is an optional text.
fn take_opt_member(chars: &Vec<char>, at: usize, name: &str) -> (taken: Option<
    Taken<Option<String>>,
>)
    requires
        at <= chars.len(),
    ensures
        match read_opt_member(chars@.skip(at as int), name@) {
            Some(found) => taken matches Some(t) && t.value.deep_view() == found.value && at
                <= t.end <= chars.len() && chars@.skip(t.end as int) == found.rest,
            None => taken is None,
        },
{
    match take_literal(chars, at, name) {
        Some(end) => take_opt(chars, end),
        None => None,
    }
}

/// Takes a member whose value is an integer.
fn take_number_member(chars: &Vec<char>, at: usize, name: &str) -> (taken: Option<Taken<i64>>)
    requires
        at <= chars.len(),
    ensures
        match read_number_member(chars@.skip(at as int), name@) {
            Some(found) => taken matches Some(t) && t.value == found.value && at <= t.end
                <= chars.len() && chars@.skip(t.end as int) == found.rest,
            None => taken is None,
        },
{
    match take_literal(chars, at, name) {
        Some(end) => take_decimal(chars, end),
        None => None,
    }
}

/// Takes session metadata.
fn take_session(chars: &Vec<char>, at: usize) -> (taken: Option<
    Taken<Option<AuthSessionMetadata>>,
>)
    requires
        at <= chars.len(),
    ensures
        match read_session(chars@.skip(at as int)) {
            Some(found) => taken matches Some(t) && t.value.deep_view() == found.value && at
                <= t.end <= chars.len() && chars@.skip(t.end as int) == found.rest,
            None => taken is None,
        },
{
    match take_literal(chars, at, "null") {
        Some(end) => {
            return Some(Taken { value: None, end });
        },
        None => {},
    }
    let user_agent = match take_opt_member(chars, at, "{\"user_agent\":") {
        Some(t) => t,
        None => {
            return None;
        },
    };
    let ip_address = match take_opt_member(chars, user_agent.end, ",\"ip_address\":") {
        Some(t) => t,
        None => {
            return None;
        },
    };
    let device_id = match take_opt_member(chars, ip_address.end, ",\"device_id\":") {
        Some(t) => t,
        None => {
            return None;
        },
    };
    let end = match take_literal(chars, device_id.end, "}") {
        Some(end) => end,
        None => {
            return None;
        },
    };
    Some(
        Taken {
            value: Some(
                AuthSessionMetadata {
                    user_agent: user_agent.value,
                    ip_address: ip_address.value,
                    device_id: device_id.value,
                },
            ),
            end,
        },
    )
}

/// The token use that a name stands for.
fn token_use_of(name: &str) -> (token_use: Option<TokenUse>)
    ensures
        token_use == use_of_name(name@),
{
    if same_text(name, "access") {
        Some(TokenUse::Access)
    } else if same_text(name, "refresh") {
        Some(TokenUse::Refresh)
    } else {
        None
    }
}

/// The claims that a text denotes.
pub fn claims_from_text(text: &str) -> (claims: Option<TokenClaims>)
    ensures
        claims.deep_view() == read_claims(text@),
{
    let chars = to_chars(text);
    assert(chars@.skip(0) =~= text@);
    let sub = match take_text_member(&chars, 0, "{\"sub\":") {
        Some(t) => t,
        None => {
            return None;
        },
    };
    let tenant_id = match take_text_member(&chars, sub.end, ",\"tenant_id\":") {
        Some(t) => t,
        None => {
            return None;
        },
    };
    let at_scopes = match take_literal(&chars, tenant_id.end, ",\"scopes\":") {
        Some(end) => end,
        None => {
            return None;
        },
    };
    let scopes = match take_list(&chars, at_scopes) {
        Some(t) => t,
        None => {
            return None;
        },
    };
    let prn_type = match take_text_member(&chars, scopes.end, ",\"prn_type\":") {
        Some(t) => t,
        None => {
            return None;
        },
    };
    let aud = match take_opt_member(&chars, prn_type.end, ",\"aud\":") {
        Some(t) => t,
        None => {
            return None;
        },
    };
    let iss = match take_text_member(&chars, aud.end, ",\"iss\":") {
        Some(t) => t,
        None => {
            return None;
        },
    };
    let use_read = match take_text_member(&chars, iss.end, ",\"use\":") {
        Some(t) => t,
        None => {
            return None;
        },
    };
    let token_use = match token_use_of(use_read.value.as_str()) {
        Some(token_use) => token_use,
        None => {
            return None;
        },
    };
    let nonce = match take_text_member(&chars, use_read.end, ",\"nonce\":") {
        Some(t) => t,
        None => {
            return None;
        },
    };
    let at_session = match take_literal(&chars, nonce.end, ",\"session\":") {
        Some(end) => end,
        None => {
            return None;
        },
    };
    let session = match take_session(&chars, at_session) {
        Some(t) => t,
        None => {
            return None;
        },
    };
    let iat = match take_number_member(&chars, session.end, ",\"iat\":") {
        Some(t) => t,
        None => {
            return None;
        },
    };
    let exp = match take_number_member(&chars, iat.end, ",\"exp\":") {
        Some(t) => t,
        None => {
            return None;
        },
    };
    let end = match take_literal(&chars, exp.end, "}") {
        Some(end) => end,
        None => {
            return None;
        },
    };
    if end != chars.len() {
        return None;
    }
    Some(
        TokenClaims {
            sub: sub.value,
            tenant_id: tenant_id.value,
            scopes: scopes.value,
            prn_type: prn_type.value,
            aud: aud.value,
            iss: iss.value,
            token_use,
            nonce: nonce.value,
            session: session.value,
            iat: iat.value,
            exp: exp.value,
        },
    )
}

/// The claims that a byte string denotes.
pub fn decode_claims(bytes: &[u8]) -> (claims: Option<TokenClaims>)
    ensures
        claims.deep_view() == claims_of_bytes(bytes@),
{
    match utf8_text(bytes) {
        Some(text) => claims_from_text(text.as_str()),
        None => None,
    }
}

} // verus!
