use mia_secret::addr::{IpAddress, SocketAddress};
use mia_secret::api::{
    bind_addr, error_from_envelope, extract_bearer_token, health_url, map_api_error, parse_uuid,
    unstructured_api_error, ApiHttpError, MappedApiError,
};
use mia_secret::error::AppError;
use mia_secret::security::JsonValue;

fn obj(members: Vec<(&str, JsonValue)>) -> JsonValue {
    JsonValue::Object(members.into_iter().map(|(k, v)| (k.to_owned(), v)).collect())
}

fn text(s: &str) -> JsonValue {
    JsonValue::Str(s.to_owned())
}

fn to_serde(v: &JsonValue) -> serde_json::Value {
    match v {
        JsonValue::Null => serde_json::Value::Null,
        JsonValue::Bool(b) => serde_json::Value::Bool(*b),
        JsonValue::Number(n) => serde_json::from_str(n).expect("number"),
        JsonValue::Str(s) => serde_json::Value::String(s.clone()),
        JsonValue::Array(items) => serde_json::Value::Array(items.iter().map(to_serde).collect()),
        JsonValue::Object(members) => {
            let mut map = serde_json::Map::new();
            for (k, item) in members {
                map.insert(k.clone(), to_serde(item));
            }
            serde_json::Value::Object(map)
        }
    }
}

#[test]
fn display_messages_are_human_readable() {
    let err = AppError::Config("bad config".to_owned());
    assert_eq!(err.to_string(), "config error: bad config");

    let err = AppError::Unauthorized("missing bearer token".to_owned());
    assert_eq!(err.to_string(), "authentication error: missing bearer token");
}

#[test]
fn maps_structured_api_error_to_typed_app_error() {
    let input = obj(vec![(
        "error",
        obj(vec![
            ("code", text("forbidden")),
            ("message", text("missing required scope: secrets.write")),
            ("traceId", text("abc")),
        ]),
    )]);
    let envelope = Some(("forbidden".to_owned(), "missing required scope: secrets.write".to_owned()));
    let err = map_api_error(envelope, &input);
    assert!(matches!(err, MappedApiError::Typed(AppError::Forbidden(_))));
}

#[test]
fn redacts_unstructured_api_error_payload() {
    let input = obj(vec![("raw", obj(vec![("password", text("secret")), ("note", text("visible"))]))]);
    let err = match map_api_error(None, &input) {
        MappedApiError::Redacted(safe) => {
            unstructured_api_error("400 Bad Request", &to_serde(&safe).to_string())
        }
        MappedApiError::Typed(e) => e,
    };
    let text = err.to_string();
    assert!(!text.contains("secret"));
    assert!(text.contains("***REDACTED***"));
    assert!(text.contains("visible"));
    assert!(text.starts_with("server error: api error 400 Bad Request: "));
}

#[test]
fn http_error_codes_and_statuses() {
    let cases = vec![
        (AppError::Validation("v".to_owned()), 400, "validation_error", "v"),
        (AppError::NotFound("n".to_owned()), 404, "not_found", "n"),
        (AppError::Conflict("c".to_owned()), 409, "conflict", "c"),
        (AppError::Unauthorized("u".to_owned()), 401, "unauthorized", "u"),
        (AppError::Forbidden("f".to_owned()), 403, "forbidden", "f"),
        (AppError::Crypto("k".to_owned()), 500, "crypto_error", "k"),
        (AppError::Config("g".to_owned()), 500, "config_error", "g"),
        (AppError::Storage("s".to_owned()), 500, "storage_error", "s"),
        (AppError::Io("disk".to_owned()), 500, "internal_error", "I/O error: disk"),
        (AppError::Server("boom".to_owned()), 500, "internal_error", "server error: boom"),
    ];
    for (err, status, code, message) in cases {
        let http = ApiHttpError::from(err);
        assert_eq!(http.status, status);
        assert_eq!(http.code, code);
        assert_eq!(http.message, message);
    }
}

#[test]
fn errors_survive_the_trip_to_the_client() {
    let errors = vec![
        AppError::Validation("bad".to_owned()),
        AppError::NotFound("gone".to_owned()),
        AppError::Conflict("dup".to_owned()),
        AppError::Unauthorized("who".to_owned()),
        AppError::Forbidden("no".to_owned()),
        AppError::Crypto("key".to_owned()),
        AppError::Config("cfg".to_owned()),
        AppError::Storage("db".to_owned()),
    ];
    for err in errors {
        let http = ApiHttpError::from(err.clone());
        assert_eq!(error_from_envelope(&http.code, http.message), err);
    }
    let http = ApiHttpError::from(AppError::Address("x".to_owned()));
    assert_eq!(
        error_from_envelope(&http.code, http.message),
        AppError::Server("address error: x".to_owned())
    );
}

#[test]
fn bearer_token_extraction() {
    assert_eq!(extract_bearer_token(None), Err(AppError::Unauthorized("missing bearer token".to_owned())));
    assert_eq!(
        extract_bearer_token(Some(&[0x42, 0xff][..])),
        Err(AppError::Unauthorized("invalid authorization header".to_owned()))
    );
    assert_eq!(
        extract_bearer_token(Some(b"Basic abc")),
        Err(AppError::Unauthorized("expected Bearer token".to_owned()))
    );
    assert_eq!(extract_bearer_token(Some(b"Bearer abc")), Ok("abc".to_owned()));
    assert_eq!(extract_bearer_token(Some(b"bearer \tx y")), Ok("\tx y".to_owned()));
    assert_eq!(
        extract_bearer_token(Some(b"BEARER abc")),
        Err(AppError::Unauthorized("expected Bearer token".to_owned()))
    );
}

#[test]
fn uuid_path_segments() {
    assert_eq!(
        parse_uuid("67e55044-10b1-426f-9247-bb680e5fe0c8"),
        Ok(0x67e55044_10b1_426f_9247_bb680e5fe0c8)
    );
    assert_eq!(parse_uuid("not-a-uuid"), Err(AppError::Validation("invalid uuid: not-a-uuid".to_owned())));
}

#[test]
fn bind_addresses() {
    assert_eq!(
        bind_addr("LocalHost", 80),
        Ok(SocketAddress { ip: IpAddress::V4([127, 0, 0, 1]), port: 80 })
    );
    assert_eq!(
        bind_addr("::1", 3765),
        Ok(SocketAddress { ip: IpAddress::V6([0, 0, 0, 0, 0, 0, 0, 1]), port: 3765 })
    );
    assert_eq!(
        bind_addr("example.org", 1),
        Err(AppError::Address("unable to parse server host: example.org".to_owned()))
    );
}

#[test]
fn health_urls() {
    assert_eq!(health_url("localhost", 3765), Ok("http://localhost:3765/api/v1/health".to_owned()));
    assert_eq!(health_url("127.0.0.1", 8080), Ok("http://127.0.0.1:8080/api/v1/health".to_owned()));
    assert_eq!(health_url("::1", 0), Ok("http://[::1]:0/api/v1/health".to_owned()));
    assert_eq!(health_url("0:0:0:0:0:0:0:0", 1), Ok("http://[::]:1/api/v1/health".to_owned()));
    assert_eq!(
        health_url("::ffff:10.1.2.3", 65535),
        Ok("http://[::ffff:10.1.2.3]:65535/api/v1/health".to_owned())
    );
    assert_eq!(health_url("1:0:0:2:0:0:0:3", 5), Ok("http://[1:0:0:2::3]:5/api/v1/health".to_owned()));
    assert_eq!(health_url("1:0:0:2:0:0:3:4", 5), Ok("http://[1::2:0:0:3:4]:5/api/v1/health".to_owned()));
    assert_eq!(health_url("1:0:2:3:4:5:6:7", 5), Ok("http://[1:0:2:3:4:5:6:7]:5/api/v1/health".to_owned()));
    assert_eq!(health_url("ABCD::0001", 5), Ok("http://[abcd::1]:5/api/v1/health".to_owned()));
    assert_eq!(
        health_url("host", 1),
        Err(AppError::Address("unable to parse server host: host".to_owned()))
    );
}

#[test]
fn ipv6_text_shortens_the_first_longest_zero_run() {
    let samples = [
        ("::", "::"),
        ("::1", "::1"),
        ("1::", "1::"),
        ("1:2:3:4:5:6:7:8", "1:2:3:4:5:6:7:8"),
        ("2001:DB8::8A2E:370:7334", "2001:db8::8a2e:370:7334"),
        ("::ffff:192.168.0.1", "::ffff:192.168.0.1"),
        ("0:0:1:0:0:1:0:0", "::1:0:0:1:0:0"),
        ("fe80::1:0:0:0", "fe80::1:0:0:0"),
        ("1:0:0:0:1:0:0:0", "1::1:0:0:0"),
        ("::127.0.0.1", "::7f00:1"),
    ];
    for (input, shown) in samples {
        let expected = format!("http://[{shown}]:7/api/v1/health");
        assert_eq!(health_url(input, 7), Ok(expected), "{input}");
    }
}

#[test]
fn refused_requests_are_answered_401_or_403() {
    let missing = extract_bearer_token(None).expect_err("no header");
    assert_eq!(ApiHttpError::from(missing).status, 401);
    let refusals = vec![
        AppError::Unauthorized("token revoked".to_owned()),
        AppError::Unauthorized("token expired".to_owned()),
        AppError::Unauthorized("invalid token".to_owned()),
    ];
    for err in refusals {
        let http = ApiHttpError::from(err);
        assert_eq!((http.status, http.code.as_str()), (401, "unauthorized"));
    }
    let http = ApiHttpError::from(AppError::Forbidden("missing required scope: secrets.write".to_owned()));
    assert_eq!((http.status, http.code.as_str()), (403, "forbidden"));
}

#[test]
fn by_path_routes_drop_leading_slashes() {
    assert_eq!(mia_secret::api::route_secret_path("//apps/prod/db"), "apps/prod/db");
    assert_eq!(mia_secret::api::route_secret_path("apps/"), "apps/");
    assert_eq!(mia_secret::api::route_secret_path("///"), "");
}
