use mia_secret::ids::seconds_since_epoch;
use mia_secret::config::Config;
use mia_secret::error::AppError;
use mia_secret::storage::{
    backups_to_remove, current_unix_ts, decode_string_list, encode_string_list, require_changed, write_error,
    SecretRow, SqliteStorage, StorageOptions, TokenRow, WriteFailure,
};

fn secret_row(id: &str, tags: &str) -> SecretRow {
    SecretRow {
        id: id.to_owned(),
        path: "p".to_owned(),
        resource: None,
        login: Some("l".to_owned()),
        password_encrypted: "v1:x".to_owned(),
        url: None,
        notes_encrypted: None,
        tags: tags.to_owned(),
        custom_fields_encrypted: None,
        created_at: 1,
        updated_at: 2,
    }
}

#[test]
fn options_from_config() {
    let mut cfg = Config::default();
    cfg.general.data_dir = "/var/lib/mia".to_owned();
    cfg.storage.max_backups = 0;
    cfg.storage.create_backup_before_write = true;
    let storage = SqliteStorage::from_config(&cfg);
    assert_eq!(storage.db_path, "./data/secrets.db");
    assert_eq!(storage.options.backup_dir, "/var/lib/mia/backups");
    assert_eq!(storage.options.max_backups, 1);
    assert!(storage.options.create_backup_before_write);
    cfg.general.data_dir = "data/".to_owned();
    cfg.storage.max_backups = 7;
    let storage = SqliteStorage::from_config(&cfg);
    assert_eq!(storage.options.backup_dir, "data/backups");
    assert_eq!(storage.options.max_backups, 7);
    let defaults = StorageOptions::default();
    assert_eq!(defaults.max_backups, 10);
    assert_eq!(defaults.backup_dir, "./data/backups");
    assert_eq!(defaults.sqlite_busy_timeout_ms, 5000);
    assert!(!defaults.create_backup_before_write);
    assert_eq!(SqliteStorage::new("x.db".to_owned()).options, defaults);
}

#[test]
fn storage_backup_rotation_keeps_configured_limit() {
    let times = vec![50, 10, 30, 10, 40];
    let removed = backups_to_remove(&times, 2);
    assert_eq!(removed, vec![1, 3, 2]);
    assert!(times.len() - removed.len() <= 2);
    assert!(backups_to_remove(&times, 5).is_empty());
    assert!(backups_to_remove(&times, 9).is_empty());
    assert_eq!(backups_to_remove(&vec![3, 2, 1], 1), vec![2, 1]);
}

#[test]
fn migrations_due() {
    let storage = SqliteStorage::new("x.db".to_owned());
    assert_eq!(storage.migrate(&Vec::new()), vec!["001_init.sql".to_owned()]);
    assert!(storage.migrate(&vec!["001_init.sql".to_owned()]).is_empty());
    assert!(!storage.has_any_tokens(0));
    assert!(storage.has_any_tokens(1));
}

#[test]
fn rows_become_records() {
    let storage = SqliteStorage::new("x.db".to_owned());
    let id = "67e55044-10b1-426f-9247-bb680e5fe0c8";
    let records = storage
        .list_secrets(vec![secret_row(id, r#"["prod","db"]"#), secret_row(id, "not json")])
        .expect("rows");
    assert_eq!(records.len(), 2);
    assert_eq!(records[0].id, 0x67e55044_10b1_426f_9247_bb680e5fe0c8);
    assert_eq!(records[0].tags, vec!["prod", "db"]);
    assert!(records[1].tags.is_empty());
    assert_eq!(records[0].login.as_deref(), Some("l"));
    let err = storage.list_secrets(vec![secret_row(id, "[]"), secret_row("bad", "[]")]).expect_err("bad id");
    assert!(matches!(err, AppError::Storage(ref m) if m.starts_with("Conversion error from type Text at index: 0, ")));
    assert_eq!(storage.get_secret_by_path(None), Ok(None));
    let token = TokenRow {
        id: id.to_owned(),
        name: "t".to_owned(),
        token_hash: "h".to_owned(),
        scopes: r#"["secrets.read"]"#.to_owned(),
        created_at: 1,
        expires_at: None,
        revoked_at: Some(3),
        last_used_at: None,
    };
    let found = storage.get_token_by_hash(Some(token.clone())).expect("row").expect("some");
    assert_eq!(found.scopes, vec!["secrets.read"]);
    assert_eq!(found.revoked_at, Some(3));
    assert_eq!(storage.list_tokens(vec![token]).expect("rows").len(), 1);
}

#[test]
fn lists_are_kept_as_json() {
    let tags = vec!["prod".to_owned(), "a\"b".to_owned()];
    let text = encode_string_list(&tags, "tags").expect("encode");
    assert_eq!(text, r#"["prod","a\"b"]"#);
    assert_eq!(decode_string_list(&text), tags);
    assert!(decode_string_list("{}").is_empty());
}

#[test]
fn write_failures_and_missing_rows() {
    assert_eq!(
        write_error(WriteFailure::Constraint, "secret"),
        AppError::Conflict("secret already exists".to_owned())
    );
    assert_eq!(
        write_error(WriteFailure::Other("disk I/O error".to_owned()), "token"),
        AppError::Storage("disk I/O error".to_owned())
    );
    assert_eq!(
        require_changed(0, "secret", 1),
        Err(AppError::NotFound("secret not found: 00000000-0000-0000-0000-000000000001".to_owned()))
    );
    assert_eq!(require_changed(1, "token", 1), Ok(()));
    assert!(current_unix_ts() > 1_600_000_000);
}

#[test]
fn clock_readings_become_seconds() {
    assert_eq!(seconds_since_epoch(None), 0);
    assert_eq!(seconds_since_epoch(Some(1_700_000_000)), 1_700_000_000);
    assert_eq!(seconds_since_epoch(Some(u64::MAX)), -1);
}

#[test]
fn busy_timeout_comes_from_the_configuration() {
    let mut cfg = Config::default();
    assert_eq!(cfg.storage.sqlite_busy_timeout_ms, 5000);
    assert_eq!(SqliteStorage::from_config(&cfg).options.sqlite_busy_timeout_ms, 5000);
    cfg.storage.sqlite_busy_timeout_ms = 250;
    assert_eq!(SqliteStorage::from_config(&cfg).options.sqlite_busy_timeout_ms, 250);
}

#[test]
fn stored_lists_read_back() {
    let items = vec!["prod".to_owned(), "quote \" and \\ slash".to_owned(), "ünïcode".to_owned(), String::new()];
    let text = encode_string_list(&items, "tags").expect("encoded");
    assert_eq!(decode_string_list(&text), items);
    assert_eq!(decode_string_list(&encode_string_list(&Vec::new(), "tags").expect("encoded")), Vec::<String>::new());
}

#[test]
fn applied_migrations_leave_none_due() {
    let storage = SqliteStorage::new("x.db".to_owned());
    let due = storage.migrate(&Vec::new());
    assert_eq!(due, vec!["001_init.sql".to_owned()]);
    assert!(storage.migrate(&due).is_empty());
}
