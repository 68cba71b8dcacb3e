use mia_secret::cli::{
    base_url, no_content_body, plan_command, raw_body, secret_id_of, token_request, CommandPlan, Commands,
    HttpMethod, TokenCommands,
};
use mia_secret::error::AppError;
use mia_secret::security::JsonValue;

fn members(v: &JsonValue) -> Vec<(String, String)> {
    match v {
        JsonValue::Object(m) => m
            .iter()
            .map(|(k, v)| {
                let shown = match v {
                    JsonValue::Null => "null".to_owned(),
                    JsonValue::Str(s) => format!("\"{s}\""),
                    JsonValue::Number(n) => n.clone(),
                    JsonValue::Array(a) => format!("array of {}", a.len()),
                    other => format!("{other:?}"),
                };
                (k.clone(), shown)
            })
            .collect(),
        _ => panic!("not an object"),
    }
}

#[test]
fn get_encodes_the_path() {
    match plan_command(Commands::Get { path: "apps/prod/db name~ü".to_owned() }) {
        CommandPlan::Call { request } => {
            assert_eq!(request.method, HttpMethod::Get);
            assert_eq!(request.path, "/api/v1/secrets/by-path/apps%2Fprod%2Fdb%20name~%C3%BC");
            assert!(request.payload.is_none());
        }
        other => panic!("unexpected plan {other:?}"),
    }
}

#[test]
fn add_sends_every_field() {
    let plan = plan_command(Commands::Add {
        path: "apps/prod/db".to_owned(),
        resource: Some("PostgreSQL".to_owned()),
        login: None,
        password: "S3cret!".to_owned(),
        url: None,
        notes: None,
        tags: vec!["prod".to_owned(), "db".to_owned()],
    });
    match plan {
        CommandPlan::Call { request } => {
            assert_eq!(request.method, HttpMethod::Post);
            assert_eq!(request.path, "/api/v1/secrets");
            let body = members(request.payload.as_ref().unwrap());
            assert_eq!(
                body,
                vec![
                    ("path".to_owned(), "\"apps/prod/db\"".to_owned()),
                    ("resource".to_owned(), "\"PostgreSQL\"".to_owned()),
                    ("login".to_owned(), "null".to_owned()),
                    ("password".to_owned(), "\"S3cret!\"".to_owned()),
                    ("url".to_owned(), "null".to_owned()),
                    ("notes".to_owned(), "null".to_owned()),
                    ("tags".to_owned(), "array of 2".to_owned()),
                    ("custom_fields".to_owned(), "null".to_owned()),
                ]
            );
        }
        other => panic!("unexpected plan {other:?}"),
    }
}

#[test]
fn update_and_delete_look_up_by_path_first() {
    match plan_command(Commands::Delete { path: "a b".to_owned() }) {
        CommandPlan::DeleteByPath { lookup } => assert_eq!(lookup.path, "/api/v1/secrets/by-path/a%20b"),
        other => panic!("unexpected plan {other:?}"),
    }
    match plan_command(Commands::Update {
        path: "a".to_owned(),
        new_path: None,
        resource: None,
        login: Some("readonly".to_owned()),
        password: None,
        url: None,
        notes: None,
        tags: None,
    }) {
        CommandPlan::UpdateByPath { lookup, changes } => {
            assert_eq!(lookup.path, "/api/v1/secrets/by-path/a");
            let request = mia_secret::cli::update_request("42", changes);
            assert_eq!(request.method, HttpMethod::Patch);
            assert_eq!(request.path, "/api/v1/secrets/42");
            let body = members(request.payload.as_ref().unwrap());
            assert_eq!(body[2], ("login".to_owned(), "\"readonly\"".to_owned()));
            assert_eq!(body[6], ("tags".to_owned(), "null".to_owned()));
        }
        other => panic!("unexpected plan {other:?}"),
    }
    let delete = mia_secret::cli::delete_request("42");
    assert_eq!(delete.method, HttpMethod::Delete);
    assert_eq!(delete.path, "/api/v1/secrets/42");
}

#[test]
fn token_commands() {
    let create = token_request(TokenCommands::Create {
        name: "ops-token".to_owned(),
        scopes: vec!["secrets.read".to_owned()],
        expires_at: Some(-5),
    });
    assert_eq!(create.method, HttpMethod::Post);
    assert_eq!(create.path, "/api/v1/tokens");
    assert_eq!(
        members(create.payload.as_ref().unwrap()),
        vec![
            ("name".to_owned(), "\"ops-token\"".to_owned()),
            ("scopes".to_owned(), "array of 1".to_owned()),
            ("expires_at".to_owned(), "-5".to_owned()),
        ]
    );
    let list = token_request(TokenCommands::List);
    assert_eq!((list.method, list.path.as_str()), (HttpMethod::Get, "/api/v1/tokens"));
    let revoke = token_request(TokenCommands::Revoke { id: "not-a-uuid".to_owned() });
    assert_eq!(revoke.method, HttpMethod::Post);
    assert_eq!(revoke.path, "/api/v1/tokens/not-a-uuid/revoke");
}

#[test]
fn secret_id_comes_from_the_id_member() {
    let current = JsonValue::Object(vec![
        ("path".to_owned(), JsonValue::Str("a".to_owned())),
        ("id".to_owned(), JsonValue::Str("abc".to_owned())),
    ]);
    assert_eq!(secret_id_of(&current), Ok("abc".to_owned()));
    let numeric = JsonValue::Object(vec![("id".to_owned(), JsonValue::Number("1".to_owned()))]);
    assert_eq!(secret_id_of(&numeric), Err(AppError::Server("unable to get secret id".to_owned())));
    assert_eq!(
        secret_id_of(&JsonValue::Array(vec![])),
        Err(AppError::Server("unable to get secret id".to_owned()))
    );
}

#[test]
fn base_urls_and_fallback_bodies() {
    assert_eq!(base_url("LOCALHOST", 3765), "http://127.0.0.1:3765");
    assert_eq!(base_url("127.0.0.1", 80), "http://127.0.0.1:80");
    assert_eq!(base_url("::1", 8080), "http://[::1]:8080");
    assert_eq!(members(&no_content_body()), vec![("status".to_owned(), "\"ok\"".to_owned())]);
    assert_eq!(members(&raw_body("oops".to_owned())), vec![("raw".to_owned(), "\"oops\"".to_owned())]);
}

#[test]
fn serve_and_health_overrides() {
    match plan_command(Commands::Serve { host: Some("0.0.0.0".to_owned()), port: Some(1) }) {
        CommandPlan::Serve { overrides } => {
            assert_eq!(overrides.host.as_deref(), Some("0.0.0.0"));
            assert_eq!(overrides.port, Some(1));
        }
        other => panic!("unexpected plan {other:?}"),
    }
    match plan_command(Commands::Health { port: Some(2) }) {
        CommandPlan::Health { overrides } => {
            assert_eq!(overrides.host, None);
            assert_eq!(overrides.port, Some(2));
        }
        other => panic!("unexpected plan {other:?}"),
    }
}
