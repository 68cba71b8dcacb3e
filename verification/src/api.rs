//! The error model of the HTTP API on both sides: how the server answers a
//! failed request, how the client turns that answer back into an error,
//! and how a request's bearer token and ids are read.
use vstd::prelude::*;
use crate::addr::{IpAddress, SocketAddress, dec_string, dec_text, format_ipv4, format_ipv6, ip_of, ipv4_text, ipv6_text, parse_ip};
use crate::domain::{Token, TokenRecord};
use crate::error::AppError;
use crate::service::authorize_matches;
use crate::ids::{parse_id, uuid_parse};
use crate::security::{JsonValue, redact_json, redaction_of};
use crate::text::{
    chars_start_with, concat, eq_ignore_ascii_case, from_char_range, starts_with, str_eq,
    str_eq_ignore_ascii_case, to_chars,
};

verus! {

/// The code the API reports an error under.
pub open spec fn error_code(e: AppError) -> Seq<char> {
    match e {
        AppError::Validation(_) => "validation_error"@,
        AppError::NotFound(_) => "not_found"@,
        AppError::Conflict(_) => "conflict"@,
        AppError::Unauthorized(_) => "unauthorized"@,
        AppError::Forbidden(_) => "forbidden"@,
        AppError::Crypto(_) => "crypto_error"@,
        AppError::Config(_) => "config_error"@,
        AppError::Storage(_) => "storage_error"@,
        _ => "internal_error"@,
    }
}

/// The HTTP status the API answers an error with.
pub open spec fn error_status(e: AppError) -> u16 {
    match e {
        AppError::Validation(_) => 400,
        AppError::NotFound(_) => 404,
        AppError::Conflict(_) => 409,
        AppError::Unauthorized(_) => 401,
        AppError::Forbidden(_) => 403,
        _ => 500,
    }
}

/// The error has a code of its own; the others are reported as internal
/// errors, with their full text as the message.
pub open spec fn has_own_code(e: AppError) -> bool {
    match e {
        AppError::Validation(_) | AppError::NotFound(_) | AppError::Conflict(_) | AppError::Unauthorized(_)
        | AppError::Forbidden(_) | AppError::Crypto(_) | AppError::Config(_) | AppError::Storage(_) => true,
        _ => false,
    }
}

/// The message the API reports an error with.
pub open spec fn error_message(e: AppError) -> Seq<char> {
    if has_own_code(e) {
        e.message_view()
    } else {
        e.display()
    }
}

/// An error as the API answers it: status, code and message.
#[derive(Debug, Clone, PartialEq, Eq)]
pub struct ApiHttpError {
    pub status: u16,
    pub code: String,
    pub message: String,
}

impl ApiHttpError {
    /// The answer to a request that failed with `err`.
    pub fn from(err: AppError) -> (r: Self)
        ensures
            r.status == error_status(err),
            r.code@ == error_code(err),
            r.message@ == error_message(err),
    {
        match err {
            AppError::Validation(message) => ApiHttpError {
                status: 400,
                code: String::from_str("validation_error"),
                message,
            },
            AppError::NotFound(message) => ApiHttpError {
                status: 404,
                code: String::from_str("not_found"),
                message,
            },
            AppError::Conflict(message) => ApiHttpError {
                status: 409,
                code: String::from_str("conflict"),
                message,
            },
            AppError::Unauthorized(message) => ApiHttpError {
                status: 401,
                code: String::from_str("unauthorized"),
                message,
            },
            AppError::Forbidden(message) => ApiHttpError {
                status: 403,
                code: String::from_str("forbidden"),
                message,
            },
            AppError::Crypto(message) => ApiHttpError {
                status: 500,
                code: String::from_str("crypto_error"),
                message,
            },
            AppError::Config(message) => ApiHttpError {
                status: 500,
                code: String::from_str("config_error"),
                message,
            },
            AppError::Storage(message) => ApiHttpError {
                status: 500,
                code: String::from_str("storage_error"),
                message,
            },
            other => {
                let message = other.to_string();
                ApiHttpError { status: 500, code: String::from_str("internal_error"), message }
            },
        }
    }
}

/// `e` is the error a client makes of an answer with `code` and `message`:
/// the error with that code, or a server error for an unknown code, with
/// the message as it came.
pub open spec fn error_from_code(code: Seq<char>, message: Seq<char>, e: AppError) -> bool {
    &&& e.message_view() == message
    &&& if code == "validation_error"@ {
        e is Validation
    } else if code == "not_found"@ {
        e is NotFound
    } else if code == "conflict"@ {
        e is Conflict
    } else if code == "unauthorized"@ {
        e is Unauthorized
    } else if code == "forbidden"@ {
        e is Forbidden
    } else if code == "crypto_error"@ {
        e is Crypto
    } else if code == "config_error"@ {
        e is Config
    } else if code == "storage_error"@ {
        e is Storage
    } else {
        e is Server
    }
}

/// The error a client makes of a structured error answer.
pub fn error_from_envelope(code: &str, message: String) -> (e: AppError)
    ensures
        error_from_code(code@, message@, e),
{
    if str_eq(code, "validation_error") {
        AppError::Validation(message)
    } else if str_eq(code, "not_found") {
        AppError::NotFound(message)
    } else if str_eq(code, "conflict") {
        AppError::Conflict(message)
    } else if str_eq(code, "unauthorized") {
        AppError::Unauthorized(message)
    } else if str_eq(code, "forbidden") {
        AppError::Forbidden(message)
    } else if str_eq(code, "crypto_error") {
        AppError::Crypto(message)
    } else if str_eq(code, "config_error") {
        AppError::Config(message)
    } else if str_eq(code, "storage_error") {
        AppError::Storage(message)
    } else {
        AppError::Server(message)
    }
}

/// What a client makes of a failed answer: a typed error when the body is
/// an error envelope, else the body with its sensitive values redacted, to
/// be shown in a server error.
#[derive(Debug)]
pub enum MappedApiError {
    Typed(AppError),
    Redacted(JsonValue),
}

/// Maps a failed answer. `envelope` is the code and message of the body
/// when it is an error envelope; `parsed` is the body.
pub fn map_api_error(envelope: Option<(String, String)>, parsed: &JsonValue) -> (r: MappedApiError)
    ensures
        match envelope {
            Some((code, message)) => r matches MappedApiError::Typed(e) && error_from_code(code@, message@, e),
            None => r matches MappedApiError::Redacted(v) && redaction_of(*parsed, v),
        },
{
    match envelope {
        Some((code, message)) => MappedApiError::Typed(error_from_envelope(code.as_str(), message)),
        None => MappedApiError::Redacted(redact_json(parsed)),
    }
}

/// The server error shown for a failed answer without an error envelope,
/// given the status line and the redacted body as text.
pub fn unstructured_api_error(status: &str, body: &str) -> (e: AppError)
    ensures
        e is Server,
        e.message_view() == "api error "@ + status@ + ": "@ + body@,
{
    let head = concat("api error ", status);
    let head = concat(head.as_str(), ": ");
    AppError::Server(concat(head.as_str(), body))
}

/// An error survives the trip from server to client: one with a code of its
/// own comes back as the same kind of error with the same message; any
/// other comes back as a server error whose message is its full text.
pub proof fn lemma_error_roundtrip(e: AppError, back: AppError)
    requires
        error_from_code(error_code(e), error_message(e), back),
    ensures
        has_own_code(e) ==> back.label() == e.label() && back.message_view() == e.message_view(),
        !has_own_code(e) ==> back is Server && back.message_view() == e.display(),
{
    reveal_strlit("validation_error");
    reveal_strlit("not_found");
    reveal_strlit("conflict");
    reveal_strlit("unauthorized");
    reveal_strlit("forbidden");
    reveal_strlit("crypto_error");
    reveal_strlit("config_error");
    reveal_strlit("storage_error");
    reveal_strlit("internal_error");
    let codes = seq![
        "validation_error"@,
        "not_found"@,
        "conflict"@,
        "unauthorized"@,
        "forbidden"@,
        "crypto_error"@,
        "config_error"@,
        "storage_error"@,
        "internal_error"@,
    ];
    assert forall|i: int, j: int| 0 <= i < j < 9 implies codes[i] != codes[j] by {
        if codes[i].len() == codes[j].len() {
            if codes[i][0] == codes[j][0] {
                assert(codes[i][1] != codes[j][1] || codes[i][2] != codes[j][2]);
            }
        }
    }
    assert(codes[0] == "validation_error"@);
    assert(codes[1] == "not_found"@);
    assert(codes[2] == "conflict"@);
    assert(codes[3] == "unauthorized"@);
    assert(codes[4] == "forbidden"@);
    assert(codes[5] == "crypto_error"@);
    assert(codes[6] == "config_error"@);
    assert(codes[7] == "storage_error"@);
    assert(codes[8] == "internal_error"@);
}

/// A byte the HTTP header API reads as text: visible ASCII or a tab.
pub open spec fn visible_ascii(b: u8) -> bool {
    (32 <= b < 127) || b == 9
}

/// The characters of ASCII bytes.
pub open spec fn ascii_chars(bytes: Seq<u8>) -> Seq<char> {
    bytes.map_values(|b: u8| b as char)
}

/// What reading a bearer token from the `Authorization` header gives:
/// refused when the header is missing, is not text, or does not start with
/// `Bearer ` or `bearer `; else the rest of the header.
pub open spec fn bearer_outcome(header: Option<Seq<u8>>) -> Result<Seq<char>, Seq<char>> {
    match header {
        None => Err("missing bearer token"@),
        Some(h) => if !(forall|i: int| 0 <= i < h.len() ==> visible_ascii(#[trigger] h[i])) {
            Err("invalid authorization header"@)
        } else {
            let t = ascii_chars(h);
            if starts_with(t, "Bearer "@) || starts_with(t, "bearer "@) {
                Ok(t.subrange(7, t.len() as int))
            } else {
                Err("expected Bearer token"@)
            }
        },
    }
}

/// Reads the bearer token from the bytes of the `Authorization` header, if
/// the request has one.
pub fn extract_bearer_token(header: Option<&[u8]>) -> (res: Result<String, AppError>)
    ensures
        match bearer_outcome(
            match header {
                Some(h) => Some(h@),
                None => None,
            },
        ) {
            Ok(t) => res matches Ok(s) && s@ == t,
            Err(m) => res matches Err(e) && e is Unauthorized && e.message_view() == m,
        },
{
    let bytes = match header {
        Some(h) => h,
        None => {
            return Err(AppError::Unauthorized(String::from_str("missing bearer token")));
        },
    };
    let mut chars: Vec<char> = Vec::new();
    let mut i: usize = 0;
    while i < bytes.len()
        invariant
            i <= bytes@.len(),
            header == Some(bytes),
            chars@ == ascii_chars(bytes@.subrange(0, i as int)),
            forall|k: int| 0 <= k < i ==> visible_ascii(#[trigger] bytes@[k]),
        decreases bytes@.len() - i,
    {
        let b = bytes[i];
        if !((32 <= b && b < 127) || b == 9) {
            assert(!visible_ascii(bytes@[i as int]));
            return Err(AppError::Unauthorized(String::from_str("invalid authorization header")));
        }
        chars.push(b as char);
        assert(ascii_chars(bytes@.subrange(0, i + 1)) =~= ascii_chars(bytes@.subrange(0, i as int)).push(b as char));
        i = i + 1;
    }
    assert(bytes@.subrange(0, bytes@.len() as int) =~= bytes@);
    let bearer = to_chars("Bearer ");
    let lower = to_chars("bearer ");
    if chars_start_with(chars.as_slice(), bearer.as_slice()) || chars_start_with(chars.as_slice(), lower.as_slice()) {
        proof {
            reveal_strlit("Bearer ");
            reveal_strlit("bearer ");
        }
        Ok(from_char_range(chars.as_slice(), 7, chars.len()))
    } else {
        Err(AppError::Unauthorized(String::from_str("expected Bearer token")))
    }
}

/// `s` without its leading `/` characters.
pub open spec fn without_leading_slashes(s: Seq<char>) -> Seq<char>
    decreases s.len(),
{
    if s.len() > 0 && s[0] == '/' {
        without_leading_slashes(s.drop_first())
    } else {
        s
    }
}

/// The secret path of a `by-path` route: the rest of the URL path without
/// its leading slashes.
pub fn route_secret_path(rest: &str) -> (p: String)
    ensures
        p@ == without_leading_slashes(rest@),
{
    let v = to_chars(rest);
    let mut i: usize = 0;
    assert(v@.subrange(0, v@.len() as int) =~= v@);
    while i < v.len() && v[i] == '/'
        invariant
            i <= v@.len(),
            without_leading_slashes(v@) == without_leading_slashes(v@.subrange(i as int, v@.len() as int)),
        decreases v@.len() - i,
    {
        let ghost t = v@.subrange(i as int, v@.len() as int);
        assert(t.drop_first() =~= v@.subrange(i + 1, v@.len() as int));
        i = i + 1;
    }
    assert(v@ == rest@);
    from_char_range(v.as_slice(), i, v.len())
}

/// Reads a UUID from a path segment.
pub fn parse_uuid(value: &str) -> (res: Result<u128, AppError>)
    ensures
        match uuid_parse(value@) {
            Ok(id) => res == Ok::<u128, AppError>(id),
            Err(_) => res matches Err(e) && e is Validation && e.message_view() == "invalid uuid: "@ + value@,
        },
{
    match parse_id(value) {
        Ok(id) => Ok(id),
        Err(_) => Err(AppError::Validation(concat("invalid uuid: ", value))),
    }
}

/// The address the server listens on: `localhost` (in any case) is
/// `127.0.0.1`; any other host must be an IP address.
pub fn bind_addr(host: &str, port: u16) -> (res: Result<SocketAddress, AppError>)
    ensures
        eq_ignore_ascii_case(host@, "localhost"@) ==> res == Ok::<SocketAddress, AppError>(
            SocketAddress { ip: IpAddress::V4([127u8, 0u8, 0u8, 1u8]), port },
        ),
        !eq_ignore_ascii_case(host@, "localhost"@) ==> match ip_of(host@) {
            Some(ip) => res == Ok::<SocketAddress, AppError>(SocketAddress { ip, port }),
            None => res matches Err(e) && e is Address && e.message_view() == "unable to parse server host: "@
                + host@,
        },
{
    if str_eq_ignore_ascii_case(host, "localhost") {
        return Ok(SocketAddress { ip: IpAddress::V4([127, 0, 0, 1]), port });
    }
    match parse_ip(host) {
        Some(ip) => Ok(SocketAddress { ip, port }),
        None => Err(AppError::Address(concat("unable to parse server host: ", host))),
    }
}

/// The URL of the health endpoint of a server at `host` and `port`.
pub open spec fn health_url_text(host: Seq<char>, port: u16) -> Option<Seq<char>> {
    if eq_ignore_ascii_case(host, "localhost"@) {
        Some("http://localhost:"@ + dec_text(port as nat) + "/api/v1/health"@)
    } else {
        match ip_of(host) {
            Some(IpAddress::V4(o)) => Some("http://"@ + ipv4_text(o@) + ":"@ + dec_text(port as nat) + "/api/v1/health"@),
            Some(IpAddress::V6(g)) => Some("http://["@ + ipv6_text(g@) + "]:"@ + dec_text(port as nat) + "/api/v1/health"@),
            None => None,
        }
    }
}

/// The URL of the health endpoint of a server at `host` and `port`; an IPv6
/// address is put in brackets.
pub fn health_url(host: &str, port: u16) -> (res: Result<String, AppError>)
    ensures
        match health_url_text(host@, port) {
            Some(u) => res matches Ok(s) && s@ == u,
            None => res matches Err(e) && e is Address && e.message_view() == "unable to parse server host: "@
                + host@,
        },
{
    let p = dec_string(port as u64);
    if str_eq_ignore_ascii_case(host, "localhost") {
        let u = concat("http://localhost:", p.as_str());
        return Ok(concat(u.as_str(), "/api/v1/health"));
    }
    let ip = match parse_ip(host) {
        Some(ip) => ip,
        None => {
            return Err(AppError::Address(concat("unable to parse server host: ", host)));
        },
    };
    let u = match ip {
        IpAddress::V4(o) => {
            let t = format_ipv4(o);
            let u = concat("http://", t.as_str());
            concat(u.as_str(), ":")
        },
        IpAddress::V6(g) => {
            let t = format_ipv6(g);
            let u = concat("http://[", t.as_str());
            concat(u.as_str(), "]:")
        },
    };
    let u = concat(u.as_str(), p.as_str());
    Ok(concat(u.as_str(), "/api/v1/health"))
}

/// A refused request is answered as the API documents: a request without
/// a usable bearer token, or with a token that is unknown, revoked or
/// expired, gets `401` with code `unauthorized`; a token without the
/// scope gets `403` with code `forbidden`.
pub proof fn lemma_refusals_are_answered(header: Option<Seq<u8>>, scope: Seq<char>, found: Option<TokenRecord>, now: i64, bearer: Result<String, AppError>, res: Result<(Token, TokenRecord), AppError>)
    requires
        match bearer_outcome(header) {
            Ok(t) => bearer matches Ok(s) && s@ == t,
            Err(m) => bearer matches Err(e) && e is Unauthorized && e.message_view() == m,
        },
        bearer matches Ok(t) ==> authorize_matches(t@, scope, found, now, res),
    ensures
        bearer matches Err(e) ==> error_status(e) == 401 && error_code(e) == "unauthorized"@,
        bearer is Ok ==> (res matches Err(e) ==> (e is Unauthorized && error_status(e) == 401 && error_code(e)
            == "unauthorized"@) || (e is Forbidden && error_status(e) == 403 && error_code(e) == "forbidden"@)),
{
}


/// The operations of the HTTP API under `/api/v1` besides the health check.
#[derive(Debug, Clone, Copy, PartialEq, Eq)]
pub enum ApiRoute {
    CreateSecret,
    ListSecrets,
    GetSecret,
    GetSecretByPath,
    UpdateSecret,
    DeleteSecret,
    CreateToken,
    ListTokens,
    RevokeToken,
}

/// The scope a bearer token needs for an operation.
pub open spec fn route_scope(route: ApiRoute) -> Seq<char> {
    match route {
        ApiRoute::CreateSecret | ApiRoute::UpdateSecret => "secrets.write"@,
        ApiRoute::ListSecrets => "secrets.list"@,
        ApiRoute::GetSecret | ApiRoute::GetSecretByPath => "secrets.read"@,
        ApiRoute::DeleteSecret => "secrets.delete"@,
        ApiRoute::CreateToken | ApiRoute::ListTokens | ApiRoute::RevokeToken => "tokens.manage"@,
    }
}

/// The routes that create, list or revoke tokens.
pub open spec fn manages_tokens(route: ApiRoute) -> bool {
    route == ApiRoute::CreateToken || route == ApiRoute::ListTokens || route == ApiRoute::RevokeToken
}

/// One of the scopes over secrets: reading, listing, writing or deleting.
pub open spec fn secret_scope(s: Seq<char>) -> bool {
    s == "secrets.read"@ || s == "secrets.list"@ || s == "secrets.write"@ || s == "secrets.delete"@
}

/// Token management is guarded by its own scope and by no scope over
/// secrets: every token route but the very first creation asks for
/// `tokens.manage`, and every route over secrets asks for a scope over
/// secrets (reading for the two reads, `secrets.delete` for deletion), so
/// a token for secrets never manages tokens and the other way round.
pub proof fn lemma_token_routes_need_manage(route: ApiRoute)
    ensures
        manages_tokens(route) ==> route_scope(route) == "tokens.manage"@,
        !manages_tokens(route) ==> secret_scope(route_scope(route)),
        route == ApiRoute::RevokeToken ==> route_scope(route) == "tokens.manage"@,
        route == ApiRoute::DeleteSecret ==> route_scope(route) == "secrets.delete"@,
        route == ApiRoute::GetSecret || route == ApiRoute::GetSecretByPath ==> route_scope(route) == "secrets.read"@,
        route_scope(route) != "tokens.manage"@ ==> !manages_tokens(route),
{
    reveal_strlit("tokens.manage");
    reveal_strlit("secrets.read");
    reveal_strlit("secrets.list");
    reveal_strlit("secrets.write");
    reveal_strlit("secrets.delete");
}

/// The scope a request for `route` must be authorised for, given how many
/// tokens are stored; `None` when it needs no token: the first token is
/// created without one, every other request needs its scope.
pub fn required_scope(route: ApiRoute, token_count: i64) -> (r: Option<String>)
    ensures
        match r {
            None => route == ApiRoute::CreateToken && token_count <= 0,
            Some(s) => s@ == route_scope(route) && !(route == ApiRoute::CreateToken && token_count <= 0),
        },
        manages_tokens(route) && !(route == ApiRoute::CreateToken && token_count <= 0) ==> (r matches Some(s)
            && s@ == "tokens.manage"@),
        !manages_tokens(route) ==> (r matches Some(s) && secret_scope(s@)),
        route == ApiRoute::DeleteSecret ==> (r matches Some(s) && s@ == "secrets.delete"@),
        route == ApiRoute::ListSecrets ==> (r matches Some(s) && s@ == "secrets.list"@),
        route == ApiRoute::GetSecret || route == ApiRoute::GetSecretByPath ==> (r matches Some(s) && s@
            == "secrets.read"@),
        route == ApiRoute::CreateSecret || route == ApiRoute::UpdateSecret ==> (r matches Some(s) && s@
            == "secrets.write"@),
{
    let s = match route {
        ApiRoute::CreateSecret => "secrets.write",
        ApiRoute::UpdateSecret => "secrets.write",
        ApiRoute::ListSecrets => "secrets.list",
        ApiRoute::GetSecret => "secrets.read",
        ApiRoute::GetSecretByPath => "secrets.read",
        ApiRoute::DeleteSecret => "secrets.delete",
        ApiRoute::CreateToken => {
            if token_count <= 0 {
                return None;
            }
            "tokens.manage"
        },
        ApiRoute::ListTokens => "tokens.manage",
        ApiRoute::RevokeToken => "tokens.manage",
    };
    Some(String::from_str(s))
}

/// The HTTP status of a successful answer: `204` without a body for a
/// deletion, `200` with the JSON body otherwise.
pub fn success_status(route: ApiRoute) -> (status: u16)
    ensures
        status == (if route == ApiRoute::DeleteSecret { 204u16 } else { 200u16 }),
{
    match route {
        ApiRoute::DeleteSecret => 204,
        _ => 200,
    }
}

} // verus!
