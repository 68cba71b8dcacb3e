use mia_secret::api::{required_scope, success_status, ApiRoute};
use mia_secret::config::CryptoConfig;
use mia_secret::crypto::CryptoService;
use mia_secret::domain::{CreateSecretRequest, CreateTokenRequest, SecretRecord, UpdateSecretRequest};
use mia_secret::error::{storage_error, AppError};
use mia_secret::ids::{id_text, parse_id};
use mia_secret::service::{
    plain_token_from, AppService, ImportDuplicateStrategy, ImportOutcome, ImportSecretRequest,
};
use mia_secret::storage::{SqliteStorage, StorageOptions};

const MASTER_KEY: [u8; 32] = [0x42; 32];

fn crypto_config() -> CryptoConfig {
    let mut cfg = CryptoConfig::default();
    cfg.argon2_memory_kb = 65_536;
    cfg.argon2_time_cost = 3;
    cfg.argon2_parallelism = 1;
    cfg.encrypt_notes = true;
    cfg.encrypt_custom_fields = true;
    cfg
}

fn crypto() -> CryptoService {
    CryptoService::from_master_key(&MASTER_KEY, &crypto_config()).expect("crypto init")
}

fn zero_nonce() -> Result<Vec<u8>, String> {
    Ok(vec![0u8; 12])
}

fn failed_draw() -> Result<Vec<u8>, String> {
    Err("boom".to_owned())
}

fn create_request(tags: Option<Vec<String>>) -> CreateSecretRequest {
    CreateSecretRequest {
        path: " prod/db ".to_owned(),
        resource: Some(" postgres ".to_owned()),
        login: None,
        password: " pw-1 ".to_owned(),
        url: None,
        notes: Some("note".to_owned()),
        tags,
        custom_fields: None,
    }
}

fn stored(service: &AppService, crypto: &CryptoService) -> SecretRecord {
    service
        .create_secret_with(create_request(None), false, 7, 100, zero_nonce(), zero_nonce(), zero_nonce())
        .map(|r| {
            assert_eq!(crypto.decrypt_string(&r.password_encrypted), Ok("pw-1".to_owned()));
            r
        })
        .expect("create with working draws")
}

#[test]
fn create_with_working_draws_succeeds() {
    let crypto = crypto();
    let service = AppService::new(crypto.clone());
    let record = stored(&service, &crypto);
    assert_eq!(record.id, 7);
    assert_eq!(record.path, "prod/db");
    assert_eq!(record.resource.as_deref(), Some("postgres"));
    assert_eq!(record.password_encrypted, crypto.seal_with_nonce(&[0u8; 12], "pw-1"));
    assert_eq!(record.notes_encrypted, Some(crypto.seal_with_nonce(&[0u8; 12], "note")));
    assert_eq!(record.created_at, 100);
    assert_eq!(record.updated_at, 100);
}

#[test]
fn create_with_failed_draw_reports_the_random_source() {
    let service = AppService::new(crypto());
    let res = service.create_secret_with(create_request(None), false, 7, 100, zero_nonce(), zero_nonce(), failed_draw());
    assert_eq!(res, Err(AppError::Crypto("nonce generation failed: boom".to_owned())));
}

#[test]
fn create_with_blank_tag_is_refused_after_sealing() {
    let service = AppService::new(crypto());
    let res = service.create_secret_with(
        create_request(Some(vec!["ok".to_owned(), "  ".to_owned()])),
        false,
        7,
        100,
        zero_nonce(),
        zero_nonce(),
        zero_nonce(),
    );
    assert_eq!(res, Err(AppError::Validation("tags cannot contain empty values".to_owned())));
}

#[test]
fn update_with_working_draws_succeeds_and_blank_tags_fail() {
    let crypto = crypto();
    let service = AppService::new(crypto.clone());
    let current = stored(&service, &crypto);
    let req = UpdateSecretRequest {
        path: Some("prod/db-v2".to_owned()),
        resource: None,
        login: None,
        password: Some("pw-2".to_owned()),
        url: None,
        notes: None,
        tags: Some(vec!["prod".to_owned()]),
        custom_fields: None,
    };
    let updated = service
        .update_secret_with(7, req.clone(), Some(current.clone()), false, 200, zero_nonce(), zero_nonce(), zero_nonce())
        .expect("update");
    assert_eq!(updated.path, "prod/db-v2");
    assert_eq!(updated.resource, current.resource);
    assert_eq!(updated.password_encrypted, crypto.seal_with_nonce(&[0u8; 12], "pw-2"));
    assert_eq!(updated.notes_encrypted, current.notes_encrypted);
    assert_eq!(updated.tags, vec!["prod".to_owned()]);
    assert_eq!(updated.created_at, 100);
    assert_eq!(updated.updated_at, 200);

    let blank = UpdateSecretRequest { tags: Some(vec![" ".to_owned()]), ..req };
    let res = service.update_secret_with(7, blank, Some(current), false, 200, zero_nonce(), zero_nonce(), zero_nonce());
    assert_eq!(res, Err(AppError::Validation("tags cannot contain empty values".to_owned())));
}

#[test]
fn update_with_failed_draw_reports_the_random_source() {
    let crypto = crypto();
    let service = AppService::new(crypto.clone());
    let current = stored(&service, &crypto);
    let req = UpdateSecretRequest {
        path: None,
        resource: None,
        login: None,
        password: Some("pw-2".to_owned()),
        url: None,
        notes: None,
        tags: None,
        custom_fields: None,
    };
    let res = service.update_secret_with(7, req, Some(current), false, 200, failed_draw(), zero_nonce(), zero_nonce());
    assert_eq!(res, Err(AppError::Crypto("nonce generation failed: boom".to_owned())));
}

fn import_request(tags: Option<Vec<String>>) -> ImportSecretRequest {
    ImportSecretRequest {
        path: "apps/prod/db".to_owned(),
        resource: Some("postgres-updated".to_owned()),
        login: None,
        password: "secret-2".to_owned(),
        url: None,
        notes: None,
        tags,
    }
}

#[test]
fn import_with_working_draws_inserts_or_updates() {
    let crypto = crypto();
    let service = AppService::new(crypto.clone());
    let (outcome, record) = service
        .import_secret_tx_with(import_request(None), ImportDuplicateStrategy::Update, None, 9, 300, zero_nonce(), zero_nonce())
        .expect("import new");
    assert_eq!(outcome, ImportOutcome::Imported);
    let record = record.expect("a record to insert");
    assert_eq!(record.id, 9);
    assert_eq!(record.path, "apps/prod/db");
    assert!(record.tags.is_empty());
    assert_eq!(crypto.decrypt_string(&record.password_encrypted), Ok("secret-2".to_owned()));

    let mut existing = record.clone();
    existing.tags = vec!["prod".to_owned(), "db".to_owned()];
    existing.resource = Some("postgres".to_owned());
    let (outcome, updated) = service
        .import_secret_tx_with(
            import_request(None),
            ImportDuplicateStrategy::Update,
            Some(existing.clone()),
            10,
            400,
            zero_nonce(),
            zero_nonce(),
        )
        .expect("import update");
    assert_eq!(outcome, ImportOutcome::Updated);
    let updated = updated.expect("a record to update");
    assert_eq!(updated.id, 9);
    assert_eq!(updated.resource.as_deref(), Some("postgres-updated"));
    assert_eq!(updated.tags, vec!["prod".to_owned(), "db".to_owned()]);
    assert_eq!(updated.updated_at, 400);
    assert_eq!(crypto.decrypt_string(&updated.password_encrypted), Ok("secret-2".to_owned()));
}

#[test]
fn import_with_blank_tag_or_failed_draw_is_refused() {
    let service = AppService::new(crypto());
    let res = service.import_secret_tx_with(
        import_request(Some(vec!["".to_owned()])),
        ImportDuplicateStrategy::Skip,
        None,
        9,
        300,
        zero_nonce(),
        zero_nonce(),
    );
    assert_eq!(res, Err(AppError::Validation("tags cannot contain empty values".to_owned())));
    let res = service.import_secret_tx_with(
        import_request(None),
        ImportDuplicateStrategy::Skip,
        None,
        9,
        300,
        failed_draw(),
        zero_nonce(),
    );
    assert_eq!(res, Err(AppError::Crypto("nonce generation failed: boom".to_owned())));
}

#[test]
fn token_from_drawn_bytes() {
    let token = plain_token_from(Ok(vec![0u8; 32])).expect("token");
    assert_eq!(token, "A".repeat(43));
    assert_eq!(
        plain_token_from(Err("boom".to_owned())),
        Err(AppError::Crypto("token generation failed: boom".to_owned()))
    );
}

#[test]
fn create_token_with_drawn_bytes() {
    let crypto = crypto();
    let service = AppService::new(crypto.clone());
    let req = CreateTokenRequest {
        name: " ops ".to_owned(),
        scopes: vec!["secrets.read".to_owned()],
        expires_at: Some(2_000),
    };
    let (record, created) = service
        .create_token_with(req.clone(), 1_000, 5, Ok(vec![0xffu8; 32]))
        .expect("token");
    assert_eq!(created.token, "_".repeat(42) + "8");
    assert_eq!(record.id, 5);
    assert_eq!(record.name, "ops");
    assert_eq!(record.token_hash, crypto.hash_token(&created.token));
    assert_eq!(record.created_at, 1_000);
    assert_eq!(created.record.id, 5);

    let late = service.create_token_with(req.clone(), 2_000, 5, Ok(vec![0u8; 32]));
    assert_eq!(late, Err(AppError::Validation("expires_at must be in the future".to_owned())));
    let failed = service.create_token_with(req, 1_000, 5, Err("boom".to_owned()));
    assert_eq!(failed, Err(AppError::Crypto("token generation failed: boom".to_owned())));
}

#[test]
fn exit_codes_by_error_kind() {
    assert_eq!(AppError::Validation("x".to_owned()).exit_code(), 2);
    assert_eq!(AppError::Config("x".to_owned()).exit_code(), 2);
    assert_eq!(AppError::Unauthorized("x".to_owned()).exit_code(), 3);
    assert_eq!(AppError::Forbidden("x".to_owned()).exit_code(), 3);
    assert_eq!(AppError::NotFound("x".to_owned()).exit_code(), 4);
    assert_eq!(AppError::Http("x".to_owned()).exit_code(), 6);
    assert_eq!(AppError::Storage("x".to_owned()).exit_code(), 1);
    assert_eq!(AppError::Conflict("x".to_owned()).exit_code(), 1);
}

#[test]
fn routes_and_their_scopes() {
    assert_eq!(required_scope(ApiRoute::CreateToken, 0), None);
    assert_eq!(required_scope(ApiRoute::CreateToken, 1), Some("tokens.manage".to_owned()));
    assert_eq!(required_scope(ApiRoute::ListTokens, 0), Some("tokens.manage".to_owned()));
    assert_eq!(required_scope(ApiRoute::CreateSecret, 0), Some("secrets.write".to_owned()));
    assert_eq!(required_scope(ApiRoute::UpdateSecret, 3), Some("secrets.write".to_owned()));
    assert_eq!(required_scope(ApiRoute::ListSecrets, 3), Some("secrets.list".to_owned()));
    assert_eq!(required_scope(ApiRoute::GetSecretByPath, 3), Some("secrets.read".to_owned()));
    assert_eq!(required_scope(ApiRoute::DeleteSecret, 3), Some("secrets.delete".to_owned()));
    assert_eq!(success_status(ApiRoute::DeleteSecret), 204);
    assert_eq!(success_status(ApiRoute::CreateSecret), 200);
}

#[test]
fn backup_only_when_asked_and_the_file_exists() {
    let mut options = StorageOptions::default();
    let storage = SqliteStorage::new_with_options("db.sqlite".to_owned(), options.clone());
    assert!(!storage.backup_before_write(true));
    options.create_backup_before_write = true;
    let storage = SqliteStorage::new_with_options("db.sqlite".to_owned(), options);
    assert!(storage.backup_before_write(true));
    assert!(!storage.backup_before_write(false));
}

#[test]
fn id_text_reads_back() {
    let id: u128 = 0x67e5_5044_10b1_426f_9247_bb68_0e5f_e0c8;
    let text = id_text(id);
    assert_eq!(text, "67e55044-10b1-426f-9247-bb680e5fe0c8");
    assert_eq!(parse_id(&text), Ok(id));
}

#[test]
fn sqlite_error_converts_to_storage_error() {
    let sqlite_err = rusqlite::Error::InvalidQuery;
    let app_err: AppError = storage_error(sqlite_err);
    assert!(matches!(app_err, AppError::Storage(_)));
}

#[test]
fn list_secrets_reports_the_first_unreadable_record() {
    let crypto = crypto();
    let service = AppService::new(crypto.clone());
    let good = stored(&service, &crypto);
    let mut bad1 = good.clone();
    bad1.password_encrypted = "v1:!!".to_owned();
    let mut bad2 = good.clone();
    bad2.password_encrypted = "plain".to_owned();
    let first = service.to_secret(bad1.clone()).expect_err("unreadable");
    let res = service.list_secrets(vec![good, bad1, bad2]);
    assert_eq!(res, Err(first));
}

#[test]
fn encrypt_with_drawn_nonce() {
    let crypto = crypto();
    let sealed = crypto.encrypt_with(&Ok(vec![0u8; 12]), "hello").expect("sealed");
    assert_eq!(sealed, crypto.seal_with_nonce(&[0u8; 12], "hello"));
    assert!(sealed.starts_with("v1:"));
    assert_eq!(crypto.decrypt_string(&sealed), Ok("hello".to_owned()));
    assert_eq!(
        crypto.encrypt_with(&Err("no entropy".to_owned()), "hello"),
        Err(AppError::Crypto("nonce generation failed: no entropy".to_owned()))
    );
    let fresh = crypto.encrypt_string("hello").expect("fresh");
    assert_eq!(crypto.decrypt_string(&fresh), Ok("hello".to_owned()));
}

#[test]
fn sealed_text_differs_from_its_plaintext() {
    let crypto = crypto();
    for p in ["", "a", "v1:AAAA", "a much longer plaintext with ünïcode"] {
        let sealed = crypto.seal_with_nonce(&[7u8; 12], p);
        assert_ne!(sealed, p);
        assert!(sealed.chars().count() > p.chars().count());
        let b = p.len();
        assert_eq!(sealed.chars().count(), 3 + (4 * (28 + b) + 2) / 3);
        let fresh = crypto.encrypt_string(p).expect("sealed");
        assert_ne!(fresh, p);
    }
}

#[test]
fn created_token_is_found_by_its_hash() {
    let crypto = crypto();
    let service = AppService::new(crypto.clone());
    let req = CreateTokenRequest { name: "ops".to_owned(), scopes: vec!["secrets.read".to_owned()], expires_at: None };
    let (record, created) = service.create_token_with(req, 1_000, 5, Ok(vec![3u8; 32])).expect("token");
    let hash = service.lookup_hash(&created.token).expect("hash");
    assert_eq!(hash, record.token_hash);
    assert_ne!(record.token_hash, created.token);
    assert!(service.authorize_at(&created.token, "secrets.read", Some(record), 2_000).is_ok());
}
