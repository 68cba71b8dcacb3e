use mia_secret::config::CryptoConfig;
use mia_secret::crypto::CryptoService;
use mia_secret::domain::{
    CreateSecretRequest, CreateTokenRequest, SecretRecord, TokenRecord, UpdateSecretRequest,
};
use mia_secret::error::AppError;
use mia_secret::service::{AppService, ImportDuplicateStrategy, ImportOutcome, ImportSecretRequest};

const MASTER_KEY: [u8; 32] = [0x42; 32];

fn crypto_config() -> CryptoConfig {
    let mut cfg = CryptoConfig::default();
    cfg.argon2_memory_kb = 65_536;
    cfg.argon2_time_cost = 3;
    cfg.argon2_parallelism = 1;
    cfg.encrypt_notes = true;
    cfg.encrypt_custom_fields = true;
    cfg
}

fn service() -> AppService {
    let crypto = CryptoService::from_master_key(&MASTER_KEY, &crypto_config()).expect("crypto init");
    AppService::new(crypto)
}

fn lookup(store: &[TokenRecord], hash: &str) -> Option<TokenRecord> {
    store.iter().find(|r| r.token_hash == hash).cloned()
}

#[test]
fn token_create_authorize_and_revoke_flow() {
    let service = service();
    let (record, created) = service
        .create_token(CreateTokenRequest {
            name: "ops-token".to_owned(),
            scopes: vec!["tokens.manage".to_owned(), "secrets.read".to_owned()],
            expires_at: None,
        })
        .expect("create token");
    let mut store = vec![record];

    assert!(!created.token.is_empty());
    assert_eq!(created.record.name, "ops-token");
    assert!(created.record.scopes.iter().any(|scope| scope == "tokens.manage"));
    assert!(created.record.revoked_at.is_none());
    assert_ne!(store[0].token_hash, created.token);

    let hash = service.lookup_hash(&created.token).expect("lookup hash");
    let (authorized, used) = service
        .authorize(&created.token, "tokens.manage", lookup(&store, &hash))
        .expect("authorize token");
    assert_eq!(authorized.id, created.record.id);
    assert!(authorized.last_used_at.is_some());
    store[0] = used;
    assert!(store[0].last_used_at.is_some());
    assert!(store[0].revoked_at.is_none());

    let (revoked, write) = service
        .revoke_token(created.record.id, Some(store[0].clone()))
        .expect("revoke token");
    assert_eq!(revoked.id, created.record.id);
    assert!(revoked.revoked_at.is_some());
    store[0] = write.expect("revocation is stored");

    let auth_after_revoke = service.authorize(&created.token, "tokens.manage", lookup(&store, &hash));
    assert!(matches!(auth_after_revoke, Err(AppError::Unauthorized(_))));
}

#[test]
fn secret_crud_roundtrip_and_plaintext_is_not_written_to_sqlite() {
    let service = service();
    let record = service
        .create_secret(
            CreateSecretRequest {
                path: "prod/api".to_owned(),
                resource: Some("api".to_owned()),
                login: Some("svc-user".to_owned()),
                password: "super-secret-password".to_owned(),
                url: Some("https://example.invalid".to_owned()),
                notes: Some("top secret notes".to_owned()),
                tags: Some(vec!["prod".to_owned(), "api".to_owned()]),
                custom_fields: Some(r#"{"client_secret":"abc123","retry":3}"#.to_owned()),
            },
            false,
        )
        .expect("create secret");
    assert!(!record.password_encrypted.contains("super-secret-password"));
    assert!(!record.notes_encrypted.clone().unwrap().contains("top secret notes"));
    assert!(!record.custom_fields_encrypted.clone().unwrap().contains(r#""client_secret":"abc123""#));

    let created = service.to_secret(record.clone()).expect("read back");
    assert_eq!(created.path, "prod/api");
    assert_eq!(created.password, "super-secret-password");
    assert_eq!(created.notes.as_deref(), Some("top secret notes"));
    assert_eq!(created.tags, vec!["prod", "api"]);
    let fields: serde_json::Value =
        serde_json::from_str(created.custom_fields.as_deref().unwrap()).expect("custom fields json");
    assert_eq!(fields["client_secret"], "abc123");

    let fetched_by_id = service.get_secret(created.id, Some(record.clone())).expect("get by id");
    assert_eq!(fetched_by_id.password, "super-secret-password");
    let fetched_by_path =
        service.get_secret_by_path("prod/api", Some(record.clone())).expect("get by path");
    assert_eq!(fetched_by_path.id, created.id);
    let listed = service.list_secrets(vec![record.clone()]).expect("list secrets");
    assert_eq!(listed.len(), 1);
    assert_eq!(listed[0].id, created.id);

    let updated_record = service
        .update_secret(
            created.id,
            UpdateSecretRequest {
                path: Some("prod/api-v2".to_owned()),
                resource: Some("api-v2".to_owned()),
                login: Some("svc-user-2".to_owned()),
                password: Some("updated-secret-password".to_owned()),
                url: Some("https://example.invalid/v2".to_owned()),
                notes: Some("updated secret notes".to_owned()),
                tags: Some(vec!["prod".to_owned(), "api-v2".to_owned()]),
                custom_fields: Some(r#"{"client_secret":"def456","retry":4}"#.to_owned()),
            },
            Some(record.clone()),
            false,
        )
        .expect("update secret");
    assert!(!updated_record.password_encrypted.contains("updated-secret-password"));
    let updated = service.to_secret(updated_record.clone()).expect("read updated");
    assert_eq!(updated.id, created.id);
    assert_eq!(updated.path, "prod/api-v2");
    assert_eq!(updated.password, "updated-secret-password");
    assert_eq!(updated.notes.as_deref(), Some("updated secret notes"));
    assert_eq!(updated.tags, vec!["prod", "api-v2"]);
    let fields: serde_json::Value =
        serde_json::from_str(updated.custom_fields.as_deref().unwrap()).expect("custom fields json");
    assert_eq!(fields["client_secret"], "def456");
    assert_eq!(updated.created_at, created.created_at);

    let missing = service.get_secret(created.id, None).expect_err("deleted secret should not exist");
    assert!(matches!(missing, AppError::NotFound(_)));
    assert!(service.list_secrets(Vec::new()).expect("list after delete").is_empty());
}

#[test]
fn create_secret_validation_order() {
    let service = service();
    let req = |path: &str, password: &str| CreateSecretRequest {
        path: path.to_owned(),
        resource: None,
        login: None,
        password: password.to_owned(),
        url: None,
        notes: None,
        tags: None,
        custom_fields: None,
    };
    assert_eq!(
        service.create_secret(req("  ", ""), false),
        Err(AppError::Validation("path is required".to_owned()))
    );
    assert_eq!(
        service.create_secret(req(" a ", " "), false),
        Err(AppError::Validation("password is required".to_owned()))
    );
    assert_eq!(
        service.create_secret(req(" a/b ", "x"), true),
        Err(AppError::Conflict("secret path already exists: a/b".to_owned()))
    );
    let mut with_blank_tag = req("a", "x");
    with_blank_tag.tags = Some(vec!["ok".to_owned(), "  ".to_owned()]);
    assert_eq!(
        service.create_secret(with_blank_tag, false),
        Err(AppError::Validation("tags cannot contain empty values".to_owned()))
    );
    let mut trimmed = req("  a/b  ", "  pw  ");
    trimmed.resource = Some("   ".to_owned());
    trimmed.login = Some(" admin ".to_owned());
    trimmed.tags = Some(vec![" prod ".to_owned(), "db".to_owned(), "prod".to_owned()]);
    let record = service.create_secret(trimmed, false).expect("created");
    assert_eq!(record.path, "a/b");
    assert_eq!(record.resource, None);
    assert_eq!(record.login.as_deref(), Some("admin"));
    assert_eq!(record.tags, vec!["prod", "db"]);
    assert_eq!(record.created_at, record.updated_at);
    assert_eq!(service.to_secret(record).expect("read").password, "pw");
}

#[test]
fn update_keeps_absent_fields_and_checks_conflicts() {
    let service = service();
    let record = service
        .create_secret(
            CreateSecretRequest {
                path: "apps/db".to_owned(),
                resource: Some("pg".to_owned()),
                login: Some("admin".to_owned()),
                password: "one".to_owned(),
                url: None,
                notes: Some("n".to_owned()),
                tags: Some(vec!["prod".to_owned()]),
                custom_fields: None,
            },
            false,
        )
        .expect("created");
    let empty = UpdateSecretRequest {
        path: None,
        resource: None,
        login: None,
        password: None,
        url: None,
        notes: None,
        tags: None,
        custom_fields: None,
    };
    let same = service.update_secret(record.id, empty.clone(), Some(record.clone()), true).expect("no-op");
    assert_eq!(same.path, record.path);
    assert_eq!(same.resource, record.resource);
    assert_eq!(same.password_encrypted, record.password_encrypted);
    assert_eq!(same.notes_encrypted, record.notes_encrypted);
    assert_eq!(same.tags, record.tags);

    let mut moved = empty.clone();
    moved.path = Some(" apps/other ".to_owned());
    assert_eq!(
        service.update_secret(record.id, moved.clone(), Some(record.clone()), true),
        Err(AppError::Conflict("secret path already exists: apps/other".to_owned()))
    );
    let mut keep_path = empty.clone();
    keep_path.path = Some("apps/db".to_owned());
    assert!(service.update_secret(record.id, keep_path, Some(record.clone()), true).is_ok());

    let mut blank_pw = empty.clone();
    blank_pw.password = Some(" ".to_owned());
    assert_eq!(
        service.update_secret(record.id, blank_pw, Some(record.clone()), false),
        Err(AppError::Validation("password is required".to_owned()))
    );
    let err = service.update_secret(7, empty, None, false).expect_err("missing");
    assert_eq!(err, AppError::NotFound("secret not found: 00000000-0000-0000-0000-000000000007".to_owned()));
}

#[test]
fn get_secret_by_path_errors() {
    let service = service();
    assert_eq!(
        service.get_secret_by_path("   ", None),
        Err(AppError::Validation("path is required".to_owned()))
    );
    assert_eq!(
        service.get_secret_by_path(" x/y ", None),
        Err(AppError::NotFound("secret not found by path: x/y".to_owned()))
    );
}

#[test]
fn unencrypted_notes_and_bad_ciphertext_are_reported() {
    let service = service();
    let record = SecretRecord {
        id: 1,
        path: "p".to_owned(),
        resource: None,
        login: None,
        password_encrypted: "plain".to_owned(),
        url: None,
        notes_encrypted: None,
        tags: Vec::new(),
        custom_fields_encrypted: None,
        created_at: 1,
        updated_at: 2,
    };
    assert_eq!(
        service.to_secret(record.clone()),
        Err(AppError::Crypto("unsupported ciphertext format".to_owned()))
    );
    let mut short = record.clone();
    short.password_encrypted = "v1:AAAA".to_owned();
    assert_eq!(
        service.to_secret(short),
        Err(AppError::Crypto("ciphertext payload too short".to_owned()))
    );
    let good = service
        .create_secret(
            CreateSecretRequest {
                path: "p".to_owned(),
                resource: None,
                login: None,
                password: "pw".to_owned(),
                url: None,
                notes: None,
                tags: None,
                custom_fields: None,
            },
            false,
        )
        .expect("created");
    let mut plain_notes = good.clone();
    plain_notes.notes_encrypted = Some("written before encryption".to_owned());
    plain_notes.custom_fields_encrypted = Some("not json".to_owned());
    let err = service.to_secret(plain_notes.clone()).expect_err("bad custom fields");
    assert!(matches!(err, AppError::Serialization(ref m) if m.starts_with("custom fields parse: ")));
    plain_notes.custom_fields_encrypted = Some("[1,2]".to_owned());
    let read = service.to_secret(plain_notes).expect("legacy values read");
    assert_eq!(read.notes.as_deref(), Some("written before encryption"));
    assert_eq!(read.custom_fields.as_deref(), Some("[1,2]"));
}

#[test]
fn authorize_refusals_in_order() {
    let service = service();
    let record = TokenRecord {
        id: 5,
        name: "t".to_owned(),
        token_hash: "h".to_owned(),
        scopes: vec!["secrets.read".to_owned()],
        created_at: 10,
        expires_at: Some(100),
        revoked_at: None,
        last_used_at: None,
    };
    assert_eq!(
        service.authorize_at("  ", "secrets.read", Some(record.clone()), 50),
        Err(AppError::Unauthorized("empty token".to_owned()))
    );
    assert_eq!(
        service.authorize_at("abc", "secrets.read", None, 50),
        Err(AppError::Unauthorized("invalid token".to_owned()))
    );
    let mut revoked = record.clone();
    revoked.revoked_at = Some(20);
    assert_eq!(
        service.authorize_at("abc", "secrets.read", Some(revoked), 500),
        Err(AppError::Unauthorized("token revoked".to_owned()))
    );
    assert_eq!(
        service.authorize_at("abc", "secrets.read", Some(record.clone()), 100),
        Err(AppError::Unauthorized("token expired".to_owned()))
    );
    assert_eq!(
        service.authorize_at("abc", "secrets.write", Some(record.clone()), 50),
        Err(AppError::Forbidden("missing required scope: secrets.write".to_owned()))
    );
    let (token, stored) = service.authorize_at("abc", "secrets.read", Some(record.clone()), 99).expect("ok");
    assert_eq!(token.last_used_at, Some(99));
    assert_eq!(stored.last_used_at, Some(99));
    assert_eq!(stored.token_hash, "h");
    assert_eq!(service.lookup_hash(" \t"), Err(AppError::Unauthorized("empty token".to_owned())));
}

#[test]
fn create_token_checks_name_scopes_and_expiry() {
    let service = service();
    let req = |name: &str, scopes: &[&str], expires_at: Option<i64>| CreateTokenRequest {
        name: name.to_owned(),
        scopes: scopes.iter().map(|s| s.to_string()).collect(),
        expires_at,
    };
    assert_eq!(
        service.create_token_at(req(" ", &["secrets.read"], None), 10).map(|_| ()),
        Err(AppError::Validation("name is required".to_owned()))
    );
    assert_eq!(
        service.create_token_at(req("n", &["secrets.read", "bogus"], None), 10).map(|_| ()),
        Err(AppError::Validation("unsupported scope: bogus".to_owned()))
    );
    assert_eq!(
        service.create_token_at(req("n", &["secrets.read"], Some(10)), 10).map(|_| ()),
        Err(AppError::Validation("expires_at must be in the future".to_owned()))
    );
    let (record, created) =
        service.create_token_at(req(" n ", &[" secrets.read ", "secrets.read"], Some(11)), 10).expect("issued");
    assert_eq!(record.name, "n");
    assert_eq!(record.scopes, vec!["secrets.read"]);
    assert_eq!(record.created_at, 10);
    assert_eq!(created.token.len(), 43);
    assert!(created.token.chars().all(|c| c.is_ascii_alphanumeric() || c == '-' || c == '_'));
    assert_eq!(service.lookup_hash(&format!("  {}  ", created.token)), Ok(record.token_hash.clone()));
    assert!(record.token_hash.starts_with("v1:"));
    let (again, _) = service.authorize_at(&created.token, "secrets.read", Some(record), 10).expect("valid");
    assert_eq!(again.id, created.record.id);
}

#[test]
fn revoke_is_idempotent() {
    let service = service();
    let record = TokenRecord {
        id: 9,
        name: "t".to_owned(),
        token_hash: "h".to_owned(),
        scopes: vec![],
        created_at: 1,
        expires_at: None,
        revoked_at: None,
        last_used_at: None,
    };
    let (first, write) = service.revoke_token_at(9, Some(record), 77).expect("revoke");
    assert_eq!(first.revoked_at, Some(77));
    let stored = write.expect("stored");
    let (second, none) = service.revoke_token_at(9, Some(stored), 99).expect("again");
    assert!(none.is_none());
    assert_eq!(second, first);
    assert_eq!(
        service.revoke_token_at(3, None, 1).map(|_| ()),
        Err(AppError::NotFound("token not found: 00000000-0000-0000-0000-000000000003".to_owned()))
    );
}

#[test]
fn import_skips_updates_or_inserts() {
    let service = service();
    let req = |tags: Option<Vec<String>>| ImportSecretRequest {
        path: " apps/prod/db ".to_owned(),
        resource: Some("postgres".to_owned()),
        login: None,
        password: "secret-1".to_owned(),
        url: None,
        notes: Some(" note ".to_owned()),
        tags,
    };
    let (outcome, write) = service
        .import_secret_tx(req(Some(vec!["prod".to_owned(), "db".to_owned()])), ImportDuplicateStrategy::Skip, None)
        .expect("import");
    assert_eq!(outcome, ImportOutcome::Imported);
    let first = write.expect("insert");
    assert_eq!(first.path, "apps/prod/db");
    assert_eq!(first.tags, vec!["prod", "db"]);
    assert_eq!(first.custom_fields_encrypted, None);
    assert_eq!(service.to_secret(first.clone()).expect("read").notes.as_deref(), Some("note"));

    assert_eq!(
        service.import_secret_tx(req(None), ImportDuplicateStrategy::Skip, Some(first.clone())),
        Ok((ImportOutcome::Skipped, None))
    );
    let mut update = req(None);
    update.password = "secret-2".to_owned();
    update.resource = Some("postgres-updated".to_owned());
    let (outcome, write) = service
        .import_secret_tx(update, ImportDuplicateStrategy::Update, Some(first.clone()))
        .expect("update");
    assert_eq!(outcome, ImportOutcome::Updated);
    let second = write.expect("update write");
    assert_eq!(second.id, first.id);
    assert_eq!(second.tags, vec!["prod", "db"]);
    assert_eq!(second.resource.as_deref(), Some("postgres-updated"));
    assert_eq!(service.to_secret(second).expect("read").password, "secret-2");

    let mut bad = req(None);
    bad.password = "".to_owned();
    assert_eq!(
        service.import_secret_tx(bad, ImportDuplicateStrategy::Update, None),
        Err(AppError::Validation("password is required".to_owned()))
    );
}

#[test]
fn has_any_tokens_counts() {
    let service = service();
    assert!(!service.has_any_tokens(0));
    assert!(service.has_any_tokens(2));
}
