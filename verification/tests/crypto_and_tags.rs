use mia_secret::config::CryptoConfig;
use mia_secret::crypto::CryptoService;
use mia_secret::error::AppError;
use mia_secret::normalize::{normalize_scopes, normalize_tags, optional_trim, required_trim};

fn strings(v: &[&str]) -> Vec<String> {
    v.iter().map(|s| s.to_string()).collect()
}

fn crypto() -> CryptoService {
    let mut cfg = CryptoConfig::default();
    cfg.argon2_parallelism = 1;
    CryptoService::from_master_key(&[7u8; 32], &cfg).expect("keys")
}

#[test]
fn encrypt_then_decrypt_gives_the_text_back() {
    let c = crypto();
    let sealed = c.encrypt_string("héllo wörld").expect("encrypt");
    assert!(sealed.starts_with("v1:"));
    assert!(!sealed.contains("héllo"));
    assert_eq!(c.decrypt_string(&sealed), Ok("héllo wörld".to_owned()));
    assert_eq!(c.decrypt_auto(&sealed), Ok("héllo wörld".to_owned()));
    let again = c.encrypt_string("héllo wörld").expect("encrypt");
    assert_ne!(again, sealed);
    assert_eq!(c.decrypt_auto("plain text"), Ok("plain text".to_owned()));
    assert_eq!(
        c.decrypt_string("plain"),
        Err(AppError::Crypto("unsupported ciphertext format".to_owned()))
    );
    assert!(matches!(c.decrypt_string("v1:***"), Err(AppError::Crypto(ref m)) if m.starts_with("ciphertext decode failed: ")));
    let mut tampered: Vec<char> = sealed.chars().collect();
    let last = tampered.len() - 1;
    tampered[last] = if tampered[last] == 'A' { 'B' } else { 'A' };
    let tampered: String = tampered.into_iter().collect();
    assert!(matches!(c.decrypt_string(&tampered), Err(AppError::Crypto(_))));
    let other = CryptoService::from_master_key(&[8u8; 32], &{
        let mut cfg = CryptoConfig::default();
        cfg.argon2_parallelism = 1;
        cfg
    })
    .expect("keys");
    assert_eq!(other.decrypt_string(&sealed), Err(AppError::Crypto("decryption failed".to_owned())));
}

#[test]
fn master_key_checks() {
    let cfg = CryptoConfig::default();
    assert_eq!(
        CryptoService::from_master_key(&[1u8; 31], &cfg).map(|_| ()),
        Err(AppError::Crypto("master.key must be 32 bytes".to_owned()))
    );
    let mut bad = CryptoConfig::default();
    bad.argon2_time_cost = 0;
    assert!(matches!(
        CryptoService::from_master_key(&[1u8; 32], &bad).map(|_| ()),
        Err(AppError::Crypto(ref m)) if m.starts_with("invalid argon2 params: ")
    ));
    let mut flags = CryptoConfig::default();
    flags.argon2_parallelism = 1;
    flags.encrypt_notes = false;
    let c = CryptoService::from_master_key(&[1u8; 32], &flags).expect("keys");
    assert!(!c.encrypt_notes());
    assert!(c.encrypt_custom_fields());
}

#[test]
fn token_hash_is_stable_and_keyed() {
    let c = crypto();
    assert_eq!(c.hash_token("abc"), c.hash_token("abc"));
    assert_ne!(c.hash_token("abc"), c.hash_token("abd"));
    assert!(c.hash_token("abc").starts_with("v1:"));
    let mut cfg = mia_secret::config::Config::default();
    cfg.general.data_dir = "./data".to_owned();
    assert_eq!(CryptoService::master_key_path(&cfg), "./data/master.key");
}

#[test]
fn tags_are_trimmed_deduplicated_and_checked() {
    assert_eq!(normalize_tags(strings(&[" a ", "b", "a", "b "])), Ok(strings(&["a", "b"])));
    assert_eq!(normalize_tags(Vec::new()), Ok(Vec::new()));
    assert_eq!(
        normalize_tags(strings(&["a", " \t "])),
        Err(AppError::Validation("tags cannot contain empty values".to_owned()))
    );
    let once = normalize_tags(strings(&[" x", "y ", "x"])).unwrap();
    assert_eq!(normalize_tags(once.clone()), Ok(once));
}

#[test]
fn scopes_must_be_known() {
    assert_eq!(
        normalize_scopes(strings(&["secrets.read", " secrets.list ", "secrets.read"])),
        Ok(strings(&["secrets.read", "secrets.list"]))
    );
    assert_eq!(
        normalize_scopes(strings(&["secrets.read", "admin", "root"])),
        Err(AppError::Validation("unsupported scope: admin".to_owned()))
    );
    assert_eq!(
        normalize_scopes(strings(&["", "admin"])),
        Err(AppError::Validation("tags cannot contain empty values".to_owned()))
    );
    for scope in ["secrets.read", "secrets.write", "tokens.manage", "secrets.delete", "secrets.list", "config.read", "service.health"] {
        assert!(normalize_scopes(strings(&[scope])).is_ok());
    }
}

#[test]
fn required_and_optional_fields() {
    assert_eq!(required_trim("  x ".to_owned(), "path"), Ok("x".to_owned()));
    assert_eq!(
        required_trim(" ".to_owned(), "name"),
        Err(AppError::Validation("name is required".to_owned()))
    );
    assert_eq!(optional_trim(Some("  ".to_owned())), None);
    assert_eq!(optional_trim(Some(" v ".to_owned())), Some("v".to_owned()));
    assert_eq!(optional_trim(None), None);
}
