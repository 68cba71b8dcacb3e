//! The rules of the service: how secrets are built, changed and read back,
//! and how tokens are issued, checked and revoked.
//!
//! The database stays with the caller. Each operation takes what the caller
//! read for it (the stored record, whether a path is taken) and gives back
//! the answer together with the record to store, if any.
use vstd::prelude::*;
use crate::crypto::{base64url_encode, drawn_len, sealed_with, 
    CryptoService, b64_encode, cipher_prefix, decrypt_outcome, failure_error, sealed_value, too_long,
    os_random_bytes, token_digest, url_safe_char, wipe_bytes,
};
use crate::domain::{
    CreateSecretRequest, CreateTokenRequest, Secret, SecretRecord, Token, TokenCreationResult,
    TokenRecord, UpdateSecretRequest, opt_str, public_copy, strs, token_view,
};
use crate::error::AppError;
use crate::ids::{id_text, new_id, now_unix, uuid_text};
use crate::normalize::{
    contains_string, normalize_scopes, normalize_tags, normalized_tags, opt_trim, optional_trim,
    required_trim, scopes_outcome,
};
use crate::text::{concat, lemma_starts_with_concat, starts_with, str_eq, str_starts_with, trim, trim_str};

verus! {

/// What serde_json reports when `text` is not one JSON value: `None` when
/// it parses, else the error's text.
pub uninterp spec fn json_parse_error(text: Seq<char>) -> Option<Seq<char>>;

/// Calls `serde_json::from_str::<serde_json::Value>(text)`. Claimed: it
/// fails exactly when `json_parse_error(text)` is `Some`, and then with that
/// text.
#[verifier::external_body]
fn check_json(text: &str) -> (r: Result<(), String>)
    ensures
        match json_parse_error(text@) {
            None => r is Ok,
            Some(m) => r matches Err(e) && e@ == m,
        },
{
    match serde_json::from_str::<serde_json::Value>(text) {
        Ok(_) => Ok(()),
        Err(e) => Err(e.to_string()),
    }
}

/// A secret to import, as read from an export file.
#[derive(Debug, Clone, PartialEq, Eq)]
pub struct ImportSecretRequest {
    pub path: String,
    pub resource: Option<String>,
    pub login: Option<String>,
    pub password: String,
    pub url: Option<String>,
    pub notes: Option<String>,
    pub tags: Option<Vec<String>>,
}

/// What an import does with a path that is already taken.
#[derive(Debug, Clone, Copy, PartialEq, Eq, Structural)]
pub enum ImportDuplicateStrategy {
    Skip,
    Update,
}

/// What an import did with one secret.
#[derive(Debug, Clone, Copy, PartialEq, Eq, Structural)]
pub enum ImportOutcome {
    Imported,
    Updated,
    Skipped,
}

/// The tags of a request, or none.
pub open spec fn tag_list(tags: Option<Vec<String>>) -> Seq<Seq<char>> {
    match tags {
        Some(v) => strs(v@),
        None => Seq::<Seq<char>>::empty(),
    }
}

/// `stored` is how an optional text `plain` is kept: absent, in clear, or,
/// when `encrypt` is set, as a value that decrypts back to it under `key`.
pub open spec fn stores_text(key: Seq<u8>, encrypt: bool, plain: Option<Seq<char>>, stored: Option<String>) -> bool {
    match plain {
        None => stored is None,
        Some(p) => match stored {
            Some(c) => if encrypt {
                decrypt_outcome(key, c@) == Ok::<Seq<char>, Seq<char>>(p)
            } else {
                c@ == p
            },
            None => false,
        },
    }
}

/// What reading an optional stored text gives: values with the `v1:`
/// prefix are decrypted, others are taken as they are.
pub open spec fn stored_text_outcome(key: Seq<u8>, stored: Option<String>) -> Result<Option<Seq<char>>, Seq<char>> {
    match stored {
        None => Ok(None),
        Some(v) => if starts_with(v@, cipher_prefix()) {
            match decrypt_outcome(key, v@) {
                Ok(p) => Ok(Some(p)),
                Err(f) => Err(f),
            }
        } else {
            Ok(Some(v@))
        },
    }
}

/// `s` is the record `r` read back, with the given password, notes and
/// custom fields in clear.
pub open spec fn secret_of(r: SecretRecord, s: Secret, password: Seq<char>, notes: Option<Seq<char>>, custom: Option<Seq<char>>) -> bool {
    &&& s.id == r.id
    &&& s.path == r.path
    &&& s.resource == r.resource
    &&& s.login == r.login
    &&& s.password@ == password
    &&& s.url == r.url
    &&& opt_str(s.notes) == notes
    &&& s.tags == r.tags
    &&& opt_str(s.custom_fields) == custom
    &&& s.created_at == r.created_at
    &&& s.updated_at == r.updated_at
}

/// `res` is what reading the stored record `r` gives under `key`: the
/// password is decrypted, then the notes, then the custom fields, which must
/// also be one JSON value; the first failure is the answer.
pub open spec fn secret_read_matches(key: Seq<u8>, r: SecretRecord, res: Result<Secret, AppError>) -> bool {
    match decrypt_outcome(key, r.password_encrypted@) {
        Err(f) => res matches Err(e) && failure_error(e, f),
        Ok(pw) => match stored_text_outcome(key, r.notes_encrypted) {
            Err(f) => res matches Err(e) && failure_error(e, f),
            Ok(notes) => match stored_text_outcome(key, r.custom_fields_encrypted) {
                Err(f) => res matches Err(e) && failure_error(e, f),
                Ok(None) => res matches Ok(s) && secret_of(r, s, pw, notes, None),
                Ok(Some(t)) => match json_parse_error(t) {
                    Some(m) => res matches Err(e) && e is Serialization && e.message_view()
                        == "custom fields parse: "@ + m,
                    None => res matches Ok(s) && secret_of(r, s, pw, notes, Some(t)),
                },
            },
        },
    }
}

/// Reading the stored record `r` under `key` succeeds.
pub open spec fn secret_readable(key: Seq<u8>, r: SecretRecord) -> bool {
    &&& decrypt_outcome(key, r.password_encrypted@) is Ok
    &&& stored_text_outcome(key, r.notes_encrypted) is Ok
    &&& match stored_text_outcome(key, r.custom_fields_encrypted) {
        Ok(Some(t)) => json_parse_error(t) is None,
        Ok(None) => true,
        Err(_) => false,
    }
}

/// The public form of a stored token.
pub open spec fn public_token(r: TokenRecord) -> Token {
    Token {
        id: r.id,
        name: r.name,
        scopes: r.scopes,
        created_at: r.created_at,
        expires_at: r.expires_at,
        revoked_at: r.revoked_at,
        last_used_at: r.last_used_at,
    }
}

/// A stored token without its hash.
pub fn to_public_token(record: TokenRecord) -> (t: Token)
    ensures
        t == public_token(record),
{
    Token {
        id: record.id,
        name: record.name,
        scopes: record.scopes,
        created_at: record.created_at,
        expires_at: record.expires_at,
        revoked_at: record.revoked_at,
        last_used_at: record.last_used_at,
    }
}

/// What keeping an optional text gives with the drawn nonce `d`: nothing,
/// the text in clear, or, when `encrypt` is set, the text sealed under the
/// nonce; or the message of the error sealing ends in.
pub open spec fn kept_text(key: Seq<u8>, encrypt: bool, d: Result<Vec<u8>, String>, plain: Option<Seq<char>>) -> Result<Option<Seq<char>>, Seq<char>> {
    match plain {
        None => Ok(None),
        Some(p) => if encrypt {
            match sealed_with(key, d, p) {
                Ok(c) => Ok(Some(c)),
                Err(m) => Err(m),
            }
        } else {
            Ok(Some(p))
        },
    }
}

/// `res` is a crypto error with message `m`.
pub open spec fn crypto_err<T>(res: Result<T, AppError>, m: Seq<char>) -> bool {
    res matches Err(e) && e is Crypto && e.message_view() == m
}

/// `res` is a validation error with message `m`.
pub open spec fn validation_err<T>(res: Result<T, AppError>, m: Seq<char>) -> bool {
    res matches Err(e) && e is Validation && e.message_view() == m
}

/// The message of a failed sealing: the random source failed, or the text
/// to seal (one `big` says is too long) could not be encrypted.
pub open spec fn seal_failure(m: Seq<char>, big: bool) -> bool {
    starts_with(m, "nonce generation failed: "@) || (m == "encryption failed"@ && big)
}

/// Some text a request to create a secret gives for sealing is too long
/// to encrypt.
pub open spec fn create_too_long(req: CreateSecretRequest) -> bool {
    ||| too_long(trim(req.password@))
    ||| req.notes matches Some(n) && too_long(n@)
    ||| req.custom_fields matches Some(c) && too_long(c@)
}

/// Some text a change request gives for sealing is too long to encrypt.
pub open spec fn update_too_long(req: UpdateSecretRequest) -> bool {
    ||| req.password matches Some(p) && too_long(trim(p@))
    ||| req.notes matches Some(n) && too_long(trim(n@))
    ||| req.custom_fields matches Some(c) && too_long(c@)
}

/// Some text an import gives for sealing is too long to encrypt.
pub open spec fn import_too_long(req: ImportSecretRequest) -> bool {
    ||| too_long(trim(req.password@))
    ||| req.notes matches Some(n) && too_long(trim(n@))
}

proof fn lemma_kept_failure(key: Seq<u8>, encrypt: bool, d: Result<Vec<u8>, String>, plain: Option<Seq<char>>)
    ensures
        kept_text(key, encrypt, d, plain) matches Err(m) ==> seal_failure(
            m,
            plain matches Some(p) && too_long(p),
        ),
        plain matches Some(p) ==> (sealed_with(key, d, p) matches Err(m) ==> seal_failure(m, too_long(p))),
{
    if let Err(m) = d {
        lemma_starts_with_concat("nonce generation failed: "@, m@);
    }
}

/// Keeps an optional text as it is, or, when `encrypt` is set, sealed
/// under the drawn nonce.
fn maybe_encrypt_text(crypto: &CryptoService, value: Option<String>, encrypt: bool, drawn: &Result<Vec<u8>, String>) -> (res: Result<Option<String>, AppError>)
    requires
        drawn_len(*drawn, 12),
    ensures
        match kept_text(crypto.enc_key(), encrypt, *drawn, opt_str(value)) {
            Ok(o) => res matches Ok(v) && opt_str(v) == o && stores_text(crypto.enc_key(), encrypt, opt_str(value), v),
            Err(m) => crypto_err(res, m),
        },
{
    match value {
        Some(text) => {
            if encrypt {
                let c = crypto.encrypt_with(drawn, text.as_str())?;
                Ok(Some(c))
            } else {
                Ok(Some(text))
            }
        },
        None => Ok(None),
    }
}

/// Decrypts an optional stored text if it carries the `v1:` prefix.
fn read_stored_text(crypto: &CryptoService, stored: Option<String>) -> (res: Result<Option<String>, AppError>)
    ensures
        match stored_text_outcome(crypto.enc_key(), stored) {
            Ok(o) => res matches Ok(v) && opt_str(v) == o,
            Err(f) => res matches Err(e) && failure_error(e, f),
        },
{
    match stored {
        Some(value) => {
            let v = crypto.decrypt_auto(value.as_str())?;
            Ok(Some(v))
        },
        None => Ok(None),
    }
}

/// The message of a tag list with a blank entry.
pub open spec fn tags_message() -> Seq<char> {
    "tags cannot contain empty values"@
}

/// `r` is the record stored for the request `req` to create a secret:
/// text fields trimmed, the password encrypted, notes and custom fields
/// kept as the flags say, tags normalised.
pub open spec fn created_record(key: Seq<u8>, notes_flag: bool, custom_flag: bool, req: CreateSecretRequest, r: SecretRecord) -> bool {
    &&& r.path@ == trim(req.path@)
    &&& opt_str(r.resource) == opt_trim(opt_str(req.resource))
    &&& opt_str(r.login) == opt_trim(opt_str(req.login))
    &&& decrypt_outcome(key, r.password_encrypted@) == Ok::<Seq<char>, Seq<char>>(trim(req.password@))
    &&& opt_str(r.url) == opt_trim(opt_str(req.url))
    &&& stores_text(key, notes_flag, opt_str(req.notes), r.notes_encrypted)
    &&& normalized_tags(tag_list(req.tags)) == Some(strs(r.tags@))
    &&& stores_text(key, custom_flag, opt_str(req.custom_fields), r.custom_fields_encrypted)
    &&& r.created_at == r.updated_at
}

/// `res` is what creating a secret from `req` gives with the id `id`, the
/// time `now` and the drawn nonces for the notes, the custom fields and the
/// password: the path, password and conflict checks, then the notes, the
/// custom fields and the password are kept or sealed, then the tags are
/// normalised; the first failure is the answer.
pub open spec fn create_matches(key: Seq<u8>, notes_flag: bool, custom_flag: bool, req: CreateSecretRequest, path_taken: bool, id: u128, now: i64, d_notes: Result<Vec<u8>, String>, d_custom: Result<Vec<u8>, String>, d_password: Result<Vec<u8>, String>, res: Result<SecretRecord, AppError>) -> bool {
    if trim(req.path@).len() == 0 {
        validation_err(res, "path is required"@)
    } else if trim(req.password@).len() == 0 {
        validation_err(res, "password is required"@)
    } else if path_taken {
        res matches Err(e) && e is Conflict && e.message_view() == "secret path already exists: "@ + trim(req.path@)
    } else {
        match kept_text(key, notes_flag, d_notes, opt_str(req.notes)) {
            Err(m) => crypto_err(res, m),
            Ok(notes) => match kept_text(key, custom_flag, d_custom, opt_str(req.custom_fields)) {
                Err(m) => crypto_err(res, m),
                Ok(custom) => match sealed_with(key, d_password, trim(req.password@)) {
                    Err(m) => crypto_err(res, m),
                    Ok(pw) => match normalized_tags(tag_list(req.tags)) {
                        None => validation_err(res, tags_message()),
                        Some(tags) => res matches Ok(r) && {
                            &&& r.id == id
                            &&& r.path@ == trim(req.path@)
                            &&& opt_str(r.resource) == opt_trim(opt_str(req.resource))
                            &&& opt_str(r.login) == opt_trim(opt_str(req.login))
                            &&& r.password_encrypted@ == pw
                            &&& opt_str(r.url) == opt_trim(opt_str(req.url))
                            &&& opt_str(r.notes_encrypted) == notes
                            &&& strs(r.tags@) == tags
                            &&& opt_str(r.custom_fields_encrypted) == custom
                            &&& r.created_at == now
                            &&& r.updated_at == now
                        },
                    },
                },
            },
        }
    }
}

/// What a field of a change request becomes with the drawn nonce `d`:
/// `None` when the request leaves it, else what is stored (kept in clear
/// or sealed); or the message of the error sealing ends in.
pub open spec fn changed_kept(key: Seq<u8>, encrypt: bool, d: Result<Vec<u8>, String>, given: Option<Option<Seq<char>>>) -> Result<Option<Option<Seq<char>>>, Seq<char>> {
    match given {
        None => Ok(None),
        Some(plain) => match kept_text(key, encrypt, d, plain) {
            Ok(o) => Ok(Some(o)),
            Err(m) => Err(m),
        },
    }
}

/// The notes a change request gives, trimmed, if it gives them.
pub open spec fn given_notes(notes: Option<String>) -> Option<Option<Seq<char>>> {
    match notes {
        Some(n) => Some(opt_trim(Some(n@))),
        None => None,
    }
}

/// The custom fields a change request gives, if it gives them.
pub open spec fn given_text(value: Option<String>) -> Option<Option<Seq<char>>> {
    match value {
        Some(v) => Some(Some(v@)),
        None => None,
    }
}

/// The password a change request gives, trimmed and sealed with the drawn
/// nonce `d`, if it gives one.
pub open spec fn changed_password(key: Seq<u8>, d: Result<Vec<u8>, String>, password: Option<String>) -> Result<Option<Seq<char>>, Seq<char>> {
    match password {
        None => Ok(None),
        Some(p) => match sealed_with(key, d, trim(p@)) {
            Ok(c) => Ok(Some(c)),
            Err(m) => Err(m),
        },
    }
}

/// A stored optional text after a change: the new value when the request
/// gives one, else the old one.
pub open spec fn after_change(change: Option<Option<Seq<char>>>, before: Option<String>, after: Option<String>) -> bool {
    match change {
        Some(o) => opt_str(after) == o,
        None => after == before,
    }
}

/// `res` is what changing the secret `id`, stored as `current`, with `req`
/// gives at time `now` with the drawn nonces for the password, the notes
/// and the custom fields: the record must exist, then the path, conflict
/// and password checks, then the password and the notes are sealed or
/// kept, then the tags are normalised, then the custom fields are kept or
/// sealed; the first failure is the answer.
pub open spec fn update_matches(key: Seq<u8>, notes_flag: bool, custom_flag: bool, id: u128, req: UpdateSecretRequest, current: Option<SecretRecord>, path_taken: bool, now: i64, d_password: Result<Vec<u8>, String>, d_notes: Result<Vec<u8>, String>, d_custom: Result<Vec<u8>, String>, res: Result<SecretRecord, AppError>) -> bool {
    match current {
        None => res matches Err(e) && e is NotFound && e.message_view() == "secret not found: "@ + uuid_text(id),
        Some(c) => if update_path_blank(req) {
            validation_err(res, "path is required"@)
        } else if update_path_conflict(req, c, path_taken) {
            res matches Err(e) && e is Conflict && e.message_view() == "secret path already exists: "@ + trim(
                req.path->0@,
            )
        } else if update_password_blank(req) {
            validation_err(res, "password is required"@)
        } else {
            match changed_password(key, d_password, req.password) {
                Err(m) => crypto_err(res, m),
                Ok(pw) => match changed_kept(key, notes_flag, d_notes, given_notes(req.notes)) {
                    Err(m) => crypto_err(res, m),
                    Ok(notes) => if update_tags_blank(req) {
                        validation_err(res, tags_message())
                    } else {
                        match changed_kept(key, custom_flag, d_custom, given_text(req.custom_fields)) {
                            Err(m) => crypto_err(res, m),
                            Ok(custom) => res matches Ok(r) && {
                                &&& r.id == c.id
                                &&& match req.path {
                                    Some(p) => r.path@ == trim(p@),
                                    None => r.path == c.path,
                                }
                                &&& changed_text(req.resource, c.resource, r.resource)
                                &&& changed_text(req.login, c.login, r.login)
                                &&& match pw {
                                    Some(x) => r.password_encrypted@ == x,
                                    None => r.password_encrypted == c.password_encrypted,
                                }
                                &&& changed_text(req.url, c.url, r.url)
                                &&& after_change(notes, c.notes_encrypted, r.notes_encrypted)
                                &&& match req.tags {
                                    Some(t) => normalized_tags(strs(t@)) == Some(strs(r.tags@)),
                                    None => r.tags == c.tags,
                                }
                                &&& after_change(custom, c.custom_fields_encrypted, r.custom_fields_encrypted)
                                &&& r.created_at == c.created_at
                                &&& r.updated_at == now
                            },
                        }
                    },
                },
            }
        },
    }
}

/// An optional text field of a change request, applied to the stored
/// value: trimmed when given, kept when absent.
pub open spec fn changed_text(given: Option<String>, stored: Option<String>, now: Option<String>) -> bool {
    match given {
        Some(g) => opt_str(now) == opt_trim(Some(g@)),
        None => now == stored,
    }
}

/// `r` is the stored record `c` with the change request `req` applied.
pub open spec fn updated_record(key: Seq<u8>, notes_flag: bool, custom_flag: bool, req: UpdateSecretRequest, c: SecretRecord, r: SecretRecord) -> bool {
    &&& r.id == c.id
    &&& match req.path {
        Some(p) => r.path@ == trim(p@),
        None => r.path == c.path,
    }
    &&& changed_text(req.resource, c.resource, r.resource)
    &&& changed_text(req.login, c.login, r.login)
    &&& match req.password {
        Some(p) => decrypt_outcome(key, r.password_encrypted@) == Ok::<Seq<char>, Seq<char>>(trim(p@)),
        None => r.password_encrypted == c.password_encrypted,
    }
    &&& changed_text(req.url, c.url, r.url)
    &&& match req.notes {
        Some(n) => stores_text(key, notes_flag, opt_trim(Some(n@)), r.notes_encrypted),
        None => r.notes_encrypted == c.notes_encrypted,
    }
    &&& match req.tags {
        Some(t) => normalized_tags(strs(t@)) == Some(strs(r.tags@)),
        None => r.tags == c.tags,
    }
    &&& match req.custom_fields {
        Some(f) => stores_text(key, custom_flag, Some(f@), r.custom_fields_encrypted),
        None => r.custom_fields_encrypted == c.custom_fields_encrypted,
    }
    &&& r.created_at == c.created_at
}

/// The change request gives a path that is blank.
pub open spec fn update_path_blank(req: UpdateSecretRequest) -> bool {
    req.path matches Some(p) && trim(p@).len() == 0
}

/// The change request moves the secret to a path that another secret
/// holds, `path_taken` being whether a secret is stored at the new path.
pub open spec fn update_path_conflict(req: UpdateSecretRequest, c: SecretRecord, path_taken: bool) -> bool {
    req.path matches Some(p) && trim(p@).len() > 0 && trim(p@) != c.path@ && path_taken
}

/// The change request gives a password that is blank.
pub open spec fn update_password_blank(req: UpdateSecretRequest) -> bool {
    req.password matches Some(p) && trim(p@).len() == 0
}

/// The change request gives tags with a blank entry.
pub open spec fn update_tags_blank(req: UpdateSecretRequest) -> bool {
    req.tags matches Some(t) && normalized_tags(strs(t@)) is None
}

/// A bearer token as issued: 43 characters of the URL-safe base64 alphabet
/// (32 random bytes, unpadded).
pub open spec fn issued_token(t: Seq<char>) -> bool {
    &&& t.len() == 43
    &&& forall|i: int| 0 <= i < t.len() ==> url_safe_char(#[trigger] t[i])
}

/// The hash a presented bearer token is looked up by: that of the trimmed
/// token; `None` when nothing is left after trimming.
pub open spec fn lookup_key(hash_key: Seq<u8>, token: Seq<char>) -> Option<Seq<char>> {
    if trim(token).len() == 0 {
        None
    } else {
        Some(token_digest(hash_key, trim(token)))
    }
}

/// The stored token `r` with its last use set to `now`.
pub open spec fn used_at(r: TokenRecord, now: i64) -> TokenRecord {
    TokenRecord { last_used_at: Some(now), ..r }
}

/// `res` is the answer to presenting `token` for `scope` at time `now`,
/// `found` being the record stored under the token's lookup hash: refused
/// when blank, unknown, revoked, expired or without the scope, in that
/// order; otherwise the token, and the record to store, marked as used.
pub open spec fn authorize_matches(token: Seq<char>, scope: Seq<char>, found: Option<TokenRecord>, now: i64, res: Result<(Token, TokenRecord), AppError>) -> bool {
    if trim(token).len() == 0 {
        res matches Err(e) && e is Unauthorized && e.message_view() == "empty token"@
    } else {
        match found {
            None => res matches Err(e) && e is Unauthorized && e.message_view() == "invalid token"@,
            Some(r) => if r.revoked_at is Some {
                res matches Err(e) && e is Unauthorized && e.message_view() == "token revoked"@
            } else if r.expires_at matches Some(x) && x <= now {
                res matches Err(e) && e is Unauthorized && e.message_view() == "token expired"@
            } else if !strs(r.scopes@).contains(scope) {
                res matches Err(e) && e is Forbidden && e.message_view() == "missing required scope: "@ + scope
            } else {
                res matches Ok((t, stored)) && stored == used_at(r, now) && token_view(t) == token_view(
                    public_token(used_at(r, now)),
                )
            },
        }
    }
}

/// The stored token `r` revoked at `now`.
pub open spec fn revoked_at(r: TokenRecord, now: i64) -> TokenRecord {
    TokenRecord { revoked_at: Some(now), ..r }
}

/// `res` is the answer to revoking the token `id` at time `now`, `current`
/// being its stored record: the token, and the record to store when it was
/// not revoked before.
pub open spec fn revoke_matches(id: u128, current: Option<TokenRecord>, now: i64, res: Result<(Token, Option<TokenRecord>), AppError>) -> bool {
    match current {
        None => res matches Err(e) && e is NotFound && e.message_view() == "token not found: "@ + uuid_text(id),
        Some(r) => if r.revoked_at is Some {
            res matches Ok((t, None)) && token_view(t) == token_view(public_token(r))
        } else {
            res matches Ok((t, Some(stored))) && stored == revoked_at(r, now) && token_view(t) == token_view(
                public_token(revoked_at(r, now)),
            )
        },
    }
}

/// The bearer token made from the drawn bytes `d`: their URL-safe base64,
/// or the message of the error when the draw failed.
pub open spec fn token_from(d: Result<Vec<u8>, String>) -> Result<Seq<char>, Seq<char>> {
    match d {
        Ok(b) => Ok(base64url_encode(b@)),
        Err(m) => Err("token generation failed: "@ + m@),
    }
}

/// Makes a bearer token from 32 drawn bytes, and wipes the bytes.
pub fn plain_token_from(drawn: Result<Vec<u8>, String>) -> (res: Result<String, AppError>)
    requires
        drawn_len(drawn, 32),
    ensures
        match token_from(drawn) {
            Ok(t) => res matches Ok(s) && s@ == t && issued_token(s@),
            Err(m) => crypto_err(res, m),
        },
{
    match drawn {
        Err(msg) => Err(AppError::Crypto(concat("token generation failed: ", msg.as_str()))),
        Ok(bytes) => {
            let mut buf = bytes;
            let token = b64_encode(buf.as_slice());
            wipe_bytes(&mut buf);
            Ok(token)
        },
    }
}

/// `res` is the answer to a request for a token at time `now`, with the
/// id `id` for the record and the drawn bytes `d` for the token: the name
/// and scope checks, the expiry check, then the token is made; the record
/// keeps only the token's hash.
pub open spec fn token_matches(hash_key: Seq<u8>, req: CreateTokenRequest, now: i64, id: u128, d: Result<Vec<u8>, String>, res: Result<(TokenRecord, TokenCreationResult), AppError>) -> bool {
    if trim(req.name@).len() == 0 {
        validation_err(res, "name is required"@)
    } else {
        match scopes_outcome(strs(req.scopes@)) {
            Err(m) => validation_err(res, m),
            Ok(sc) => if req.expires_at matches Some(x) && x <= now {
                validation_err(res, "expires_at must be in the future"@)
            } else {
                match token_from(d) {
                    Err(m) => crypto_err(res, m),
                    Ok(t) => res matches Ok((r, out)) && {
                        &&& out.token@ == t
                        &&& issued_token(t)
                        &&& r.id == id
                        &&& r.name@ == trim(req.name@)
                        &&& strs(r.scopes@) == sc
                        &&& r.token_hash@ == token_digest(hash_key, t)
                        &&& r.created_at == now
                        &&& r.expires_at == req.expires_at
                        &&& r.revoked_at is None
                        &&& r.last_used_at is None
                        &&& token_view(out.record) == token_view(public_token(r))
                    },
                }
            },
        }
    }
}

/// `r` is the record a new imported secret is stored as: text fields
/// trimmed, the password encrypted, notes trimmed and kept as the flag says,
/// tags normalised, no custom fields.
pub open spec fn imported_record(key: Seq<u8>, notes_flag: bool, req: ImportSecretRequest, r: SecretRecord) -> bool {
    &&& r.path@ == trim(req.path@)
    &&& opt_str(r.resource) == opt_trim(opt_str(req.resource))
    &&& opt_str(r.login) == opt_trim(opt_str(req.login))
    &&& decrypt_outcome(key, r.password_encrypted@) == Ok::<Seq<char>, Seq<char>>(trim(req.password@))
    &&& opt_str(r.url) == opt_trim(opt_str(req.url))
    &&& stores_text(key, notes_flag, opt_trim(opt_str(req.notes)), r.notes_encrypted)
    &&& normalized_tags(tag_list(req.tags)) == Some(strs(r.tags@))
    &&& r.custom_fields_encrypted is None
    &&& r.created_at == r.updated_at
}

/// The import gives tags with a blank entry.
pub open spec fn import_tags_blank(req: ImportSecretRequest) -> bool {
    req.tags matches Some(t) && normalized_tags(strs(t@)) is None
}

/// `r` is the stored record `c` overwritten by an import: the path and
/// password always, the other fields when the import gives them.
pub open spec fn reimported_record(key: Seq<u8>, notes_flag: bool, req: ImportSecretRequest, c: SecretRecord, r: SecretRecord) -> bool {
    &&& r.id == c.id
    &&& r.path@ == trim(req.path@)
    &&& changed_text(req.resource, c.resource, r.resource)
    &&& changed_text(req.login, c.login, r.login)
    &&& decrypt_outcome(key, r.password_encrypted@) == Ok::<Seq<char>, Seq<char>>(trim(req.password@))
    &&& changed_text(req.url, c.url, r.url)
    &&& match req.notes {
        Some(n) => stores_text(key, notes_flag, opt_trim(Some(n@)), r.notes_encrypted),
        None => r.notes_encrypted == c.notes_encrypted,
    }
    &&& match req.tags {
        Some(t) => normalized_tags(strs(t@)) == Some(strs(r.tags@)),
        None => r.tags == c.tags,
    }
    &&& r.custom_fields_encrypted == c.custom_fields_encrypted
    &&& r.created_at == c.created_at
}

/// `res` is what importing `req` gives with the record `existing` at its
/// path, the id `id`, the time `now` and the drawn nonces for the password
/// and the notes: the path and password checks; a taken path is skipped or
/// updated as `strategy` says; then the password is sealed, the notes are
/// kept or sealed and the tags are normalised; the first failure is the
/// answer.
pub open spec fn import_matches(key: Seq<u8>, notes_flag: bool, req: ImportSecretRequest, strategy: ImportDuplicateStrategy, existing: Option<SecretRecord>, id: u128, now: i64, d_password: Result<Vec<u8>, String>, d_notes: Result<Vec<u8>, String>, res: Result<(ImportOutcome, Option<SecretRecord>), AppError>) -> bool {
    if trim(req.path@).len() == 0 {
        validation_err(res, "path is required"@)
    } else if trim(req.password@).len() == 0 {
        validation_err(res, "password is required"@)
    } else {
        match existing {
            Some(c) => match strategy {
                ImportDuplicateStrategy::Skip => res == Ok::<(ImportOutcome, Option<SecretRecord>), AppError>(
                    (ImportOutcome::Skipped, None),
                ),
                ImportDuplicateStrategy::Update => match sealed_with(key, d_password, trim(req.password@)) {
                    Err(m) => crypto_err(res, m),
                    Ok(pw) => match changed_kept(key, notes_flag, d_notes, given_notes(req.notes)) {
                        Err(m) => crypto_err(res, m),
                        Ok(notes) => if import_tags_blank(req) {
                            validation_err(res, tags_message())
                        } else {
                            res matches Ok((o, Some(r))) && o == ImportOutcome::Updated && {
                                &&& r.id == c.id
                                &&& r.path@ == trim(req.path@)
                                &&& changed_text(req.resource, c.resource, r.resource)
                                &&& changed_text(req.login, c.login, r.login)
                                &&& r.password_encrypted@ == pw
                                &&& changed_text(req.url, c.url, r.url)
                                &&& after_change(notes, c.notes_encrypted, r.notes_encrypted)
                                &&& match req.tags {
                                    Some(t) => normalized_tags(strs(t@)) == Some(strs(r.tags@)),
                                    None => r.tags == c.tags,
                                }
                                &&& r.custom_fields_encrypted == c.custom_fields_encrypted
                                &&& r.created_at == c.created_at
                                &&& r.updated_at == now
                            }
                        },
                    },
                },
            },
            None => match sealed_with(key, d_password, trim(req.password@)) {
                Err(m) => crypto_err(res, m),
                Ok(pw) => match kept_text(key, notes_flag, d_notes, opt_trim(opt_str(req.notes))) {
                    Err(m) => crypto_err(res, m),
                    Ok(notes) => match normalized_tags(tag_list(req.tags)) {
                        None => validation_err(res, tags_message()),
                        Some(tags) => res matches Ok((o, Some(r))) && o == ImportOutcome::Imported && {
                            &&& r.id == id
                            &&& r.path@ == trim(req.path@)
                            &&& opt_str(r.resource) == opt_trim(opt_str(req.resource))
                            &&& opt_str(r.login) == opt_trim(opt_str(req.login))
                            &&& r.password_encrypted@ == pw
                            &&& opt_str(r.url) == opt_trim(opt_str(req.url))
                            &&& opt_str(r.notes_encrypted) == notes
                            &&& strs(r.tags@) == tags
                            &&& r.custom_fields_encrypted is None
                            &&& r.created_at == now
                            &&& r.updated_at == now
                        },
                    },
                },
            },
        }
    }
}

/// A value that decrypts carries the `v1:` prefix.
proof fn lemma_decrypted_has_prefix(key: Seq<u8>, v: Seq<char>)
    requires
        decrypt_outcome(key, v) is Ok,
    ensures
        starts_with(v, cipher_prefix()),
{
}

/// An optional text kept by `stores_text` reads back as the text, unless it
/// was kept in clear and itself looks encrypted.
proof fn lemma_stored_text_reads_back(key: Seq<u8>, encrypt: bool, plain: Option<Seq<char>>, stored: Option<String>)
    requires
        stores_text(key, encrypt, plain, stored),
        !encrypt ==> !(plain matches Some(p) && starts_with(p, cipher_prefix())),
    ensures
        stored_text_outcome(key, stored) == Ok::<Option<Seq<char>>, Seq<char>>(plain),
{
    if let Some(c) = stored {
        if encrypt {
            lemma_decrypted_has_prefix(key, c@);
        }
    }
}

/// A created secret reads back as it was written: the trimmed path and
/// password, the notes and custom fields as given, the other text fields
/// trimmed and the tags normalised. Left out: notes or custom fields kept
/// in clear that themselves begin with `v1:` (they are taken for encrypted
/// values when read), and custom fields that are not one JSON value.
pub proof fn lemma_created_secret_reads_back(key: Seq<u8>, notes_flag: bool, custom_flag: bool, req: CreateSecretRequest, r: SecretRecord, res: Result<Secret, AppError>)
    requires
        created_record(key, notes_flag, custom_flag, req, r),
        secret_read_matches(key, r, res),
        !notes_flag ==> !(req.notes matches Some(n) && starts_with(n@, cipher_prefix())),
        !custom_flag ==> !(req.custom_fields matches Some(f) && starts_with(f@, cipher_prefix())),
        req.custom_fields matches Some(f) ==> json_parse_error(f@) is None,
    ensures
        res matches Ok(s) && {
            &&& s.id == r.id
            &&& s.path@ == trim(req.path@)
            &&& opt_str(s.resource) == opt_trim(opt_str(req.resource))
            &&& opt_str(s.login) == opt_trim(opt_str(req.login))
            &&& s.password@ == trim(req.password@)
            &&& opt_str(s.url) == opt_trim(opt_str(req.url))
            &&& opt_str(s.notes) == opt_str(req.notes)
            &&& normalized_tags(tag_list(req.tags)) == Some(strs(s.tags@))
            &&& opt_str(s.custom_fields) == opt_str(req.custom_fields)
            &&& s.created_at == s.updated_at
        },
{
    lemma_stored_text_reads_back(key, notes_flag, opt_str(req.notes), r.notes_encrypted);
    lemma_stored_text_reads_back(key, custom_flag, opt_str(req.custom_fields), r.custom_fields_encrypted);
}

/// A changed field reads back as given, trimmed where the field is
/// trimmed; an absent one as it read before.
pub open spec fn reads_changed(given: Option<String>, before: Option<String>, after: Option<String>) -> bool {
    match given {
        Some(g) => opt_str(after) == opt_trim(Some(g@)),
        None => after == before,
    }
}

/// A changed secret reads back with the given fields and the others as they
/// read before the change. Left out, as for a created secret: notes or
/// custom fields kept in clear that themselves begin with `v1:`, and custom
/// fields that are not one JSON value.
pub proof fn lemma_updated_secret_reads_back(key: Seq<u8>, notes_flag: bool, custom_flag: bool, req: UpdateSecretRequest, c: SecretRecord, before: Secret, r: SecretRecord, res: Result<Secret, AppError>)
    requires
        updated_record(key, notes_flag, custom_flag, req, c, r),
        secret_read_matches(key, c, Ok(before)),
        secret_read_matches(key, r, res),
        !notes_flag ==> !(req.notes matches Some(n) && starts_with(trim(n@), cipher_prefix())),
        !custom_flag ==> !(req.custom_fields matches Some(f) && starts_with(f@, cipher_prefix())),
        req.custom_fields matches Some(f) ==> json_parse_error(f@) is None,
    ensures
        res matches Ok(s) && {
            &&& s.id == before.id
            &&& match req.path {
                Some(p) => s.path@ == trim(p@),
                None => s.path == before.path,
            }
            &&& reads_changed(req.resource, before.resource, s.resource)
            &&& reads_changed(req.login, before.login, s.login)
            &&& match req.password {
                Some(p) => s.password@ == trim(p@),
                None => s.password@ == before.password@,
            }
            &&& reads_changed(req.url, before.url, s.url)
            &&& match req.notes {
                Some(n) => opt_str(s.notes) == opt_trim(Some(n@)),
                None => opt_str(s.notes) == opt_str(before.notes),
            }
            &&& match req.tags {
                Some(t) => normalized_tags(strs(t@)) == Some(strs(s.tags@)),
                None => s.tags == before.tags,
            }
            &&& match req.custom_fields {
                Some(f) => opt_str(s.custom_fields) == Some(f@),
                None => opt_str(s.custom_fields) == opt_str(before.custom_fields),
            }
            &&& s.created_at == before.created_at
        },
{
    if let Some(n) = req.notes {
        lemma_stored_text_reads_back(key, notes_flag, opt_trim(Some(n@)), r.notes_encrypted);
    }
    if let Some(f) = req.custom_fields {
        lemma_stored_text_reads_back(key, custom_flag, Some(f@), r.custom_fields_encrypted);
    }
}

/// A token as issued is its own trim, so it is looked up unchanged.
proof fn lemma_issued_token_trim(t: Seq<char>)
    requires
        issued_token(t),
    ensures
        trim(t) == t,
        trim(t).len() > 0,
{
    assert(url_safe_char(t[0]));
    assert(url_safe_char(t[t.len() - 1]));
    crate::text::lemma_trim_unpadded(t);
}

/// A token, as issued and stored, is found under its lookup hash and grants
/// each of its scopes while it is neither revoked nor expired; the record
/// to store is the stored one with its last use set.
pub proof fn lemma_issued_token_authorizes(hash_key: Seq<u8>, r: TokenRecord, token: Seq<char>, scope: Seq<char>, now: i64, res: Result<(Token, TokenRecord), AppError>)
    requires
        issued_token(token),
        r.token_hash@ == token_digest(hash_key, token),
        r.revoked_at is None,
        r.expires_at matches Some(x) ==> now < x,
        strs(r.scopes@).contains(scope),
        authorize_matches(token, scope, Some(r), now, res),
    ensures
        lookup_key(hash_key, token) == Some(r.token_hash@),
        res matches Ok((t, stored)) && stored == used_at(r, now) && token_view(t) == token_view(
            public_token(used_at(r, now)),
        ),
{
    lemma_issued_token_trim(token);
}

/// A token as created is found again under its lookup hash, which is not
/// the token itself (only the hash is stored), and grants each of its
/// scopes until it expires.
pub proof fn lemma_created_token_is_found(hash_key: Seq<u8>, req: CreateTokenRequest, now: i64, id: u128, d: Result<Vec<u8>, String>, created: Result<(TokenRecord, TokenCreationResult), AppError>, scope: Seq<char>, later: i64, auth: Result<(Token, TokenRecord), AppError>)
    requires
        token_matches(hash_key, req, now, id, d, created),
        created matches Ok((r, out)) && strs(r.scopes@).contains(scope) && (r.expires_at matches Some(x) ==> later < x)
            && authorize_matches(out.token@, scope, Some(r), later, auth),
    ensures
        created matches Ok((r, out)) && lookup_key(hash_key, out.token@) == Some(r.token_hash@) && r.token_hash@
            != out.token@ && auth is Ok,
{
    let (r, out) = created->Ok_0;
    lemma_issued_token_authorizes(hash_key, r, out.token@, scope, later, auth);
    reveal_strlit("v1:");
    assert(r.token_hash@[2] == ':');
    assert(!url_safe_char(':'));
}

/// Authorization never grants a scope the token does not carry. Whatever
/// the presented token and the time, success means that the stored record
/// was found, is neither revoked nor expired, and lists the required
/// scope, and the record to store is it with its last use set to `now`;
/// a live token without the scope is refused as forbidden, naming the
/// scope.
pub proof fn lemma_scope_is_required(token: Seq<char>, scope: Seq<char>, found: Option<TokenRecord>, now: i64, res: Result<(Token, TokenRecord), AppError>)
    requires
        authorize_matches(token, scope, found, now, res),
    ensures
        res matches Ok((t, stored)) ==> (found matches Some(r) && strs(r.scopes@).contains(scope)
            && r.revoked_at is None && (r.expires_at matches Some(x) ==> now < x) && stored.scopes == r.scopes
            && stored.last_used_at == Some(now) && t.id == r.id),
        found matches Some(r) ==> (trim(token).len() > 0 && r.revoked_at is None && (r.expires_at matches Some(x)
            ==> now < x) && !strs(r.scopes@).contains(scope) ==> (res matches Err(e) && e is Forbidden
            && e.message_view() == "missing required scope: "@ + scope)),
{
}

/// An issued token is what was asked for: its record keeps the requested
/// expiry (in the future), the trimmed name, the issue time, no revocation
/// and no use, and only the hash of the bearer token; the public copy
/// handed out carries the same id, name, scopes and expiry.
pub proof fn lemma_issued_token_as_requested(hash_key: Seq<u8>, req: CreateTokenRequest, now: i64, id: u128, d: Result<Vec<u8>, String>, res: Result<(TokenRecord, TokenCreationResult), AppError>)
    requires
        token_matches(hash_key, req, now, id, d, res),
    ensures
        res matches Ok((r, out)) ==> {
            &&& r.expires_at == req.expires_at
            &&& out.record.expires_at == req.expires_at
            &&& (req.expires_at matches Some(x) ==> now < x)
            &&& r.name@ == trim(req.name@)
            &&& out.record.name@ == r.name@
            &&& out.record.id == r.id
            &&& strs(out.record.scopes@) == strs(r.scopes@)
            &&& r.created_at == now
            &&& r.revoked_at is None
            &&& r.last_used_at is None
            &&& r.token_hash@ == token_digest(hash_key, out.token@)
        },
{
}

/// A revoked token is refused, whatever it grants and whenever it is
/// presented; so is an expired one that is not revoked.
pub proof fn lemma_refused_tokens(token: Seq<char>, scope: Seq<char>, r: TokenRecord, now: i64, res: Result<(Token, TokenRecord), AppError>)
    requires
        trim(token).len() > 0,
        authorize_matches(token, scope, Some(r), now, res),
    ensures
        r.revoked_at is Some ==> (res matches Err(e) && e is Unauthorized && e.message_view() == "token revoked"@),
        r.revoked_at is None && (r.expires_at matches Some(x) && x <= now) ==> (res matches Err(e)
            && e is Unauthorized && e.message_view() == "token expired"@),
{
}

/// Revoking twice is revoking once: the second revocation stores nothing
/// and shows the token as the first left it, and the token is refused from
/// then on.
pub proof fn lemma_revoke_idempotent(id: u128, r: TokenRecord, now1: i64, now2: i64, first: Result<(Token, Option<TokenRecord>), AppError>, second: Result<(Token, Option<TokenRecord>), AppError>)
    requires
        revoke_matches(id, Some(r), now1, first),
        first matches Ok((_, Some(stored))) ==> revoke_matches(id, Some(stored), now2, second),
        first matches Ok((_, None)) ==> revoke_matches(id, Some(r), now2, second),
    ensures
        first matches Ok((t1, _)) && second matches Ok((t2, None)) && token_view(t2) == token_view(t1)
            && t1.revoked_at is Some,
{
}

/// The service: the rules around secrets and tokens, with the keys it
/// encrypts and hashes with.
#[derive(Debug, Clone)]
pub struct AppService {
    crypto: CryptoService,
}

impl AppService {
    /// The keys the service works with.
    pub closed spec fn crypto_service(self) -> CryptoService {
        self.crypto
    }

    /// The key stored values are encrypted with.
    pub open spec fn key(self) -> Seq<u8> {
        self.crypto_service().enc_key()
    }

    /// A service working with the given keys.
    pub fn new(crypto: CryptoService) -> (s: Self)
        ensures
            s.crypto_service() == crypto,
    {
        AppService { crypto }
    }

    /// Whether any token exists, given how many are stored.
    pub fn has_any_tokens(&self, token_count: i64) -> (r: bool)
        ensures
            r == (token_count > 0),
    {
        token_count > 0
    }

    /// Checks a request to create a secret and builds the record to store,
    /// with the given id and time and the given draws of the random source
    /// for the nonces of the notes, the custom fields and the password.
    /// `path_taken` is whether a secret is stored at the trimmed path.
    pub fn create_secret_with(&self, req: CreateSecretRequest, path_taken: bool, id: u128, now: i64, d_notes: Result<Vec<u8>, String>, d_custom: Result<Vec<u8>, String>, d_password: Result<Vec<u8>, String>) -> (res: Result<SecretRecord, AppError>)
        requires
            drawn_len(d_notes, 12),
            drawn_len(d_custom, 12),
            drawn_len(d_password, 12),
        ensures
            create_matches(
                self.key(),
                self.crypto_service().notes_flag(),
                self.crypto_service().custom_fields_flag(),
                req,
                path_taken,
                id,
                now,
                d_notes,
                d_custom,
                d_password,
                res,
            ),
            res matches Ok(r) ==> created_record(
                self.key(),
                self.crypto_service().notes_flag(),
                self.crypto_service().custom_fields_flag(),
                req,
                r,
            ),
    {
        let ghost rq = req;
        proof {
            crate::normalize::lemma_required_messages();
        }
        let path = required_trim(req.path, "path")?;
        let password = required_trim(req.password, "password")?;
        if path_taken {
            return Err(AppError::Conflict(concat("secret path already exists: ", path.as_str())));
        }
        let notes_encrypted = maybe_encrypt_text(&self.crypto, req.notes, self.crypto.encrypt_notes(), &d_notes)?;
        let custom_fields_encrypted = maybe_encrypt_text(
            &self.crypto,
            req.custom_fields,
            self.crypto.encrypt_custom_fields(),
            &d_custom,
        )?;
        let resource = optional_trim(req.resource);
        let login = optional_trim(req.login);
        let password_encrypted = self.crypto.encrypt_with(&d_password, password.as_str())?;
        let url = optional_trim(req.url);
        let tag_values = match req.tags {
            Some(t) => t,
            None => Vec::new(),
        };
        assert(strs(tag_values@) == tag_list(rq.tags));
        let tags = normalize_tags(tag_values)?;
        Ok(
            SecretRecord {
                id,
                path,
                resource,
                login,
                password_encrypted,
                url,
                notes_encrypted,
                tags,
                custom_fields_encrypted,
                created_at: now,
                updated_at: now,
            },
        )
    }

    /// Checks a request to create a secret and builds the record to store;
    /// see `create_secret_with`. The id is fresh, both timestamps are the
    /// current time, and the nonces come from the operating system's random
    /// source.
    pub fn create_secret(&self, req: CreateSecretRequest, path_taken: bool) -> (res: Result<SecretRecord, AppError>)
        ensures
            exists|id: u128, now: i64, d1: Result<Vec<u8>, String>, d2: Result<Vec<u8>, String>, d3: Result<Vec<u8>, String>|
                drawn_len(d1, 12) && drawn_len(d2, 12) && drawn_len(d3, 12) && #[trigger] create_matches(
                    self.key(),
                    self.crypto_service().notes_flag(),
                    self.crypto_service().custom_fields_flag(),
                    req,
                    path_taken,
                    id,
                    now,
                    d1,
                    d2,
                    d3,
                    res,
                ),
            res matches Ok(r) ==> created_record(
                self.key(),
                self.crypto_service().notes_flag(),
                self.crypto_service().custom_fields_flag(),
                req,
                r,
            ),
            res matches Err(e) ==> (e is Crypto ==> seal_failure(e.message_view(), create_too_long(req))),
    {
        let d_notes = os_random_bytes(12);
        let d_custom = os_random_bytes(12);
        let d_password = os_random_bytes(12);
        let now = now_unix();
        let id = new_id();
        proof {
            let key = self.key();
            lemma_kept_failure(key, self.crypto_service().notes_flag(), d_notes, opt_str(req.notes));
            lemma_kept_failure(key, self.crypto_service().custom_fields_flag(), d_custom, opt_str(req.custom_fields));
            lemma_kept_failure(key, true, d_password, Some(trim(req.password@)));
        }
        self.create_secret_with(req, path_taken, id, now, d_notes, d_custom, d_password)
    }

    /// Checks a change request against the stored record `current` of the
    /// secret `id` and builds the changed record to store, with the update
    /// time `now` and the given draws of the random source for the nonces
    /// of the password, the notes and the custom fields. `path_taken` is
    /// whether a secret is stored at the new trimmed path, if one is given.
    /// Absent fields are kept.
    pub fn update_secret_with(&self, id: u128, req: UpdateSecretRequest, current: Option<SecretRecord>, path_taken: bool, now: i64, d_password: Result<Vec<u8>, String>, d_notes: Result<Vec<u8>, String>, d_custom: Result<Vec<u8>, String>) -> (res: Result<SecretRecord, AppError>)
        requires
            drawn_len(d_password, 12),
            drawn_len(d_notes, 12),
            drawn_len(d_custom, 12),
        ensures
            update_matches(
                self.key(),
                self.crypto_service().notes_flag(),
                self.crypto_service().custom_fields_flag(),
                id,
                req,
                current,
                path_taken,
                now,
                d_password,
                d_notes,
                d_custom,
                res,
            ),
            current matches Some(c) ==> (res matches Ok(r) ==> updated_record(
                self.key(),
                self.crypto_service().notes_flag(),
                self.crypto_service().custom_fields_flag(),
                req,
                c,
                r,
            )),
    {
        let ghost rq = req;
        proof {
            crate::normalize::lemma_required_messages();
        }
        let mut record = match current {
            Some(r) => r,
            None => {
                let t = id_text(id);
                return Err(AppError::NotFound(concat("secret not found: ", t.as_str())));
            },
        };
        let ghost c = record;
        if let Some(path) = req.path {
            let normalized = required_trim(path, "path")?;
            if !str_eq(normalized.as_str(), record.path.as_str()) && path_taken {
                return Err(AppError::Conflict(concat("secret path already exists: ", normalized.as_str())));
            }
            record.path = normalized;
        }
        if let Some(resource) = req.resource {
            record.resource = optional_trim(Some(resource));
        }
        if let Some(login) = req.login {
            record.login = optional_trim(Some(login));
        }
        if let Some(password) = req.password {
            let p = required_trim(password, "password")?;
            record.password_encrypted = self.crypto.encrypt_with(&d_password, p.as_str())?;
        }
        if let Some(url) = req.url {
            record.url = optional_trim(Some(url));
        }
        if let Some(notes) = req.notes {
            record.notes_encrypted = maybe_encrypt_text(
                &self.crypto,
                optional_trim(Some(notes)),
                self.crypto.encrypt_notes(),
                &d_notes,
            )?;
        }
        if let Some(tags) = req.tags {
            record.tags = normalize_tags(tags)?;
        }
        if let Some(custom_fields) = req.custom_fields {
            record.custom_fields_encrypted = maybe_encrypt_text(
                &self.crypto,
                Some(custom_fields),
                self.crypto.encrypt_custom_fields(),
                &d_custom,
            )?;
        }
        record.updated_at = now;
        Ok(record)
    }

    /// Checks a change request against the stored record `current` of the
    /// secret `id` and builds the changed record to store; see
    /// `update_secret_with`. The update time is the current time and the
    /// nonces come from the operating system's random source.
    pub fn update_secret(&self, id: u128, req: UpdateSecretRequest, current: Option<SecretRecord>, path_taken: bool) -> (res: Result<SecretRecord, AppError>)
        ensures
            exists|now: i64, d1: Result<Vec<u8>, String>, d2: Result<Vec<u8>, String>, d3: Result<Vec<u8>, String>|
                drawn_len(d1, 12) && drawn_len(d2, 12) && drawn_len(d3, 12) && #[trigger] update_matches(
                    self.key(),
                    self.crypto_service().notes_flag(),
                    self.crypto_service().custom_fields_flag(),
                    id,
                    req,
                    current,
                    path_taken,
                    now,
                    d1,
                    d2,
                    d3,
                    res,
                ),
            current matches Some(c) ==> (res matches Ok(r) ==> updated_record(
                self.key(),
                self.crypto_service().notes_flag(),
                self.crypto_service().custom_fields_flag(),
                req,
                c,
                r,
            )),
            res matches Err(e) ==> (e is Crypto ==> seal_failure(e.message_view(), update_too_long(req))),
    {
        let d_password = os_random_bytes(12);
        let d_notes = os_random_bytes(12);
        let d_custom = os_random_bytes(12);
        let now = now_unix();
        let ghost rq = req;
        proof {
            let key = self.key();
            if let Some(p) = rq.password {
                lemma_kept_failure(key, true, d_password, Some(trim(p@)));
            }
            if let Some(n) = rq.notes {
                lemma_kept_failure(key, self.crypto_service().notes_flag(), d_notes, opt_trim(Some(n@)));
            }
            if let Some(c) = rq.custom_fields {
                lemma_kept_failure(key, self.crypto_service().custom_fields_flag(), d_custom, Some(c@));
            }
        }
        self.update_secret_with(id, req, current, path_taken, now, d_password, d_notes, d_custom)
    }

    /// The secret with the given id, given the record stored under it.
    pub fn get_secret(&self, id: u128, found: Option<SecretRecord>) -> (res: Result<Secret, AppError>)
        ensures
            match found {
                None => res matches Err(e) && e is NotFound && e.message_view() == "secret not found: "@
                    + uuid_text(id),
                Some(r) => secret_read_matches(self.key(), r, res),
            },
    {
        match found {
            Some(record) => self.to_secret(record),
            None => {
                let t = id_text(id);
                Err(AppError::NotFound(concat("secret not found: ", t.as_str())))
            },
        }
    }

    /// The secret at `path` (trimmed), given the record stored there.
    pub fn get_secret_by_path(&self, path: &str, found: Option<SecretRecord>) -> (res: Result<Secret, AppError>)
        ensures
            trim(path@).len() == 0 ==> (res matches Err(e) && e is Validation && e.message_view()
                == "path is required"@),
            trim(path@).len() > 0 ==> match found {
                None => res matches Err(e) && e is NotFound && e.message_view()
                    == "secret not found by path: "@ + trim(path@),
                Some(r) => secret_read_matches(self.key(), r, res),
            },
    {
        proof {
            crate::normalize::lemma_required_messages();
        }
        let p = required_trim(String::from_str(path), "path")?;
        match found {
            Some(record) => self.to_secret(record),
            None => Err(AppError::NotFound(concat("secret not found by path: ", p.as_str()))),
        }
    }

    /// All stored secrets read back, in the order given; the first record
    /// that cannot be read gives the error.
    pub fn list_secrets(&self, records: Vec<SecretRecord>) -> (res: Result<Vec<Secret>, AppError>)
        ensures
            res is Ok <==> forall|i: int| 0 <= i < records@.len() ==> secret_readable(self.key(), #[trigger] records@[i]),
            res matches Ok(v) ==> v@.len() == records@.len() && forall|i: int| 0 <= i < records@.len()
                ==> secret_read_matches(self.key(), #[trigger] records@[i], Ok(v@[i])),
            res matches Err(e) ==> exists|i: int| 0 <= i < records@.len() && !secret_readable(self.key(), #[trigger] records@[i])
                && secret_read_matches(self.key(), records@[i], Err(e)) && forall|j: int| 0 <= j < i ==> secret_readable(self.key(), #[trigger] records@[j]),
    {
        let mut rest = records;
        let ghost all = rest@;
        let mut out: Vec<Secret> = Vec::new();
        while rest.len() > 0
            invariant
                rest@.len() + out@.len() == all.len(),
                rest@ == all.subrange(out@.len() as int, all.len() as int),
                all == records@,
                forall|k: int| 0 <= k < out@.len() ==> secret_readable(self.key(), #[trigger] all[k]),
                forall|k: int| 0 <= k < out@.len() ==> secret_read_matches(self.key(), #[trigger] all[k], Ok(out@[k])),
            decreases rest@.len(),
        {
            let ghost k = out@.len() as int;
            let r = rest.remove(0);
            assert(r == all[k]);
            match self.to_secret(r) {
                Ok(s) => {
                    out.push(s);
                },
                Err(e) => {
                    assert(!secret_readable(self.key(), all[k]) && secret_read_matches(self.key(), all[k], Err(e)));
                    return Err(e);
                },
            }
        }
        Ok(out)
    }

    /// All stored tokens, without their hashes.
    pub fn list_tokens(&self, records: Vec<TokenRecord>) -> (tokens: Vec<Token>)
        ensures
            tokens@ == records@.map_values(|r: TokenRecord| public_token(r)),
    {
        let mut records = records;
        let ghost all = records@;
        let mut out: Vec<Token> = Vec::new();
        while records.len() > 0
            invariant
                records@.len() + out@.len() == all.len(),
                records@ == all.subrange(out@.len() as int, all.len() as int),
                out@ == all.subrange(0, out@.len() as int).map_values(|r: TokenRecord| public_token(r)),
            decreases records@.len(),
        {
            let r = records.remove(0);
            out.push(to_public_token(r));
        }
        assert(all.subrange(0, all.len() as int) == all);
        out
    }

    /// The hash under which a presented bearer token is stored, or an
    /// authentication error when the token is blank.
    pub fn lookup_hash(&self, token: &str) -> (res: Result<String, AppError>)
        ensures
            match lookup_key(self.crypto_service().hash_key(), token@) {
                None => res matches Err(e) && e is Unauthorized && e.message_view() == "empty token"@,
                Some(h) => res matches Ok(s) && s@ == h,
            },
    {
        let t = trim_str(token);
        if t.unicode_len() == 0 {
            return Err(AppError::Unauthorized(String::from_str("empty token")));
        }
        Ok(self.crypto.hash_token(t.as_str()))
    }

    /// Checks a presented bearer token for `required_scope` at time `now`;
    /// `found` is the record stored under its lookup hash. On success gives
    /// the token and the record to store, with its last use set to `now`.
    pub fn authorize_at(&self, token: &str, required_scope: &str, found: Option<TokenRecord>, now: i64) -> (res: Result<(Token, TokenRecord), AppError>)
        ensures
            authorize_matches(token@, required_scope@, found, now, res),
            res matches Ok((t, stored)) ==> (found matches Some(r) && strs(r.scopes@).contains(required_scope@)
                && r.revoked_at is None && (r.expires_at matches Some(x) ==> now < x) && stored.scopes == r.scopes
                && stored.last_used_at == Some(now) && t.id == r.id),
            found matches Some(r) ==> (trim(token@).len() > 0 && r.revoked_at is None && (r.expires_at matches Some(
                x,
            ) ==> now < x) && !strs(r.scopes@).contains(required_scope@) ==> (res matches Err(e) && e is Forbidden
                && e.message_view() == "missing required scope: "@ + required_scope@)),
    {
        let t = trim_str(token);
        if t.unicode_len() == 0 {
            return Err(AppError::Unauthorized(String::from_str("empty token")));
        }
        let mut record = match found {
            Some(r) => r,
            None => {
                return Err(AppError::Unauthorized(String::from_str("invalid token")));
            },
        };
        if record.revoked_at.is_some() {
            return Err(AppError::Unauthorized(String::from_str("token revoked")));
        }
        if let Some(expires_at) = record.expires_at {
            if expires_at <= now {
                return Err(AppError::Unauthorized(String::from_str("token expired")));
            }
        }
        let scope = String::from_str(required_scope);
        if !contains_string(&record.scopes, &scope) {
            return Err(AppError::Forbidden(concat("missing required scope: ", required_scope)));
        }
        record.last_used_at = Some(now);
        let t = public_copy(&record);
        Ok((t, record))
    }

    /// Checks a presented bearer token for `required_scope` at the current
    /// time; see `authorize_at`.
    pub fn authorize(&self, token: &str, required_scope: &str, found: Option<TokenRecord>) -> (res: Result<(Token, TokenRecord), AppError>)
        ensures
            exists|now: i64| authorize_matches(token@, required_scope@, found, now, res),
            res matches Ok((t, stored)) ==> (found matches Some(r) && strs(r.scopes@).contains(required_scope@)
                && r.revoked_at is None && stored.scopes == r.scopes && stored.last_used_at is Some && t.id == r.id),
    {
        let now = now_unix();
        self.authorize_at(token, required_scope, found, now)
    }

    /// Checks a request for a token at time `now` and issues it with the
    /// given record id and the given draw of 32 random bytes: gives the
    /// record to store, which keeps only the token's hash, and the answer,
    /// which holds the bearer token itself.
    pub fn create_token_with(&self, req: CreateTokenRequest, now: i64, id: u128, drawn: Result<Vec<u8>, String>) -> (res: Result<(TokenRecord, TokenCreationResult), AppError>)
        requires
            drawn_len(drawn, 32),
        ensures
            token_matches(self.crypto_service().hash_key(), req, now, id, drawn, res),
            res matches Ok((r, out)) ==> (r.expires_at == req.expires_at && out.record.expires_at == req.expires_at
                && r.revoked_at is None && r.last_used_at is None && out.record.id == r.id),
    {
        proof {
            crate::normalize::lemma_required_messages();
        }
        let name = required_trim(req.name, "name")?;
        let scopes = normalize_scopes(req.scopes)?;
        if let Some(expires_at) = req.expires_at {
            if expires_at <= now {
                return Err(AppError::Validation(String::from_str("expires_at must be in the future")));
            }
        }
        let token_plain = plain_token_from(drawn)?;
        let token_hash = self.crypto.hash_token(token_plain.as_str());
        let record = TokenRecord {
            id,
            name,
            token_hash,
            scopes,
            created_at: now,
            expires_at: req.expires_at,
            revoked_at: None,
            last_used_at: None,
        };
        let public = public_copy(&record);
        Ok((record, TokenCreationResult { token: token_plain, record: public }))
    }

    /// Checks a request for a token at time `now` and issues it; see
    /// `create_token_with`. The record id is fresh and the token's bytes
    /// come from the operating system's random source.
    pub fn create_token_at(&self, req: CreateTokenRequest, now: i64) -> (res: Result<(TokenRecord, TokenCreationResult), AppError>)
        ensures
            exists|id: u128, d: Result<Vec<u8>, String>|
                drawn_len(d, 32) && #[trigger] token_matches(self.crypto_service().hash_key(), req, now, id, d, res),
            res matches Err(e) ==> (e is Crypto ==> starts_with(e.message_view(), "token generation failed: "@)),
            res matches Ok((r, out)) ==> (r.expires_at == req.expires_at && out.record.expires_at == req.expires_at
                && r.revoked_at is None && r.last_used_at is None && out.record.id == r.id),
    {
        let drawn = os_random_bytes(32);
        let id = new_id();
        proof {
            if drawn is Err {
                lemma_starts_with_concat("token generation failed: "@, drawn->Err_0@);
            }
        }
        let ghost rq = req;
        let res = self.create_token_with(req, now, id, drawn);
        proof {
            lemma_issued_token_as_requested(self.crypto_service().hash_key(), rq, now, id, drawn, res);
        }
        res
    }

    /// Checks a request for a token at the current time and issues it; see
    /// `create_token_with`.
    pub fn create_token(&self, req: CreateTokenRequest) -> (res: Result<(TokenRecord, TokenCreationResult), AppError>)
        ensures
            exists|now: i64, id: u128, d: Result<Vec<u8>, String>|
                drawn_len(d, 32) && #[trigger] token_matches(self.crypto_service().hash_key(), req, now, id, d, res),
            res matches Err(e) ==> (e is Crypto ==> starts_with(e.message_view(), "token generation failed: "@)),
            res matches Ok((r, out)) ==> (r.expires_at == req.expires_at && out.record.expires_at == req.expires_at
                && r.revoked_at is None && r.last_used_at is None && out.record.id == r.id),
    {
        let now = now_unix();
        let res = self.create_token_at(req, now);
        proof {
            let (id, d) = choose|id: u128, d: Result<Vec<u8>, String>|
                drawn_len(d, 32) && #[trigger] token_matches(self.crypto_service().hash_key(), req, now, id, d, res);
            assert(token_matches(self.crypto_service().hash_key(), req, now, id, d, res));
        }
        res
    }

    /// Revokes the token `id` at time `now`, `current` being its stored
    /// record. A token already revoked is left as it is.
    pub fn revoke_token_at(&self, id: u128, current: Option<TokenRecord>, now: i64) -> (res: Result<(Token, Option<TokenRecord>), AppError>)
        ensures
            revoke_matches(id, current, now, res),
    {
        let mut token = match current {
            Some(r) => r,
            None => {
                let t = id_text(id);
                return Err(AppError::NotFound(concat("token not found: ", t.as_str())));
            },
        };
        if token.revoked_at.is_none() {
            token.revoked_at = Some(now);
            let t = public_copy(&token);
            return Ok((t, Some(token)));
        }
        Ok((to_public_token(token), None))
    }

    /// Revokes the token `id` at the current time; see `revoke_token_at`.
    pub fn revoke_token(&self, id: u128, current: Option<TokenRecord>) -> (res: Result<(Token, Option<TokenRecord>), AppError>)
        ensures
            exists|now: i64| revoke_matches(id, current, now, res),
    {
        let now = now_unix();
        self.revoke_token_at(id, current, now)
    }

    /// Imports one secret with the given id and time and the given draws
    /// of the random source for the nonces of the password and the notes.
    /// `existing` is the record stored at the trimmed path. Gives what was
    /// done and the record to store: a new one to insert, the existing one
    /// changed to update, or nothing when the strategy skips taken paths.
    pub fn import_secret_tx_with(&self, req: ImportSecretRequest, strategy: ImportDuplicateStrategy, existing: Option<SecretRecord>, id: u128, now: i64, d_password: Result<Vec<u8>, String>, d_notes: Result<Vec<u8>, String>) -> (res: Result<(ImportOutcome, Option<SecretRecord>), AppError>)
        requires
            drawn_len(d_password, 12),
            drawn_len(d_notes, 12),
        ensures
            import_matches(
                self.key(),
                self.crypto_service().notes_flag(),
                req,
                strategy,
                existing,
                id,
                now,
                d_password,
                d_notes,
                res,
            ),
            res matches Ok((o, Some(r))) ==> match existing {
                Some(c) => reimported_record(self.key(), self.crypto_service().notes_flag(), req, c, r),
                None => imported_record(self.key(), self.crypto_service().notes_flag(), req, r),
            },
    {
        let ghost rq = req;
        proof {
            crate::normalize::lemma_required_messages();
        }
        let path = required_trim(req.path, "path")?;
        let password = required_trim(req.password, "password")?;
        if let Some(mut record) = existing {
            if let ImportDuplicateStrategy::Skip = strategy {
                return Ok((ImportOutcome::Skipped, None));
            }
            record.path = path;
            if let Some(resource) = req.resource {
                record.resource = optional_trim(Some(resource));
            }
            if let Some(login) = req.login {
                record.login = optional_trim(Some(login));
            }
            record.password_encrypted = self.crypto.encrypt_with(&d_password, password.as_str())?;
            if let Some(url) = req.url {
                record.url = optional_trim(Some(url));
            }
            if let Some(notes) = req.notes {
                record.notes_encrypted = maybe_encrypt_text(
                    &self.crypto,
                    optional_trim(Some(notes)),
                    self.crypto.encrypt_notes(),
                    &d_notes,
                )?;
            }
            if let Some(tags) = req.tags {
                record.tags = normalize_tags(tags)?;
            }
            record.updated_at = now;
            return Ok((ImportOutcome::Updated, Some(record)));
        }
        let resource = optional_trim(req.resource);
        let login = optional_trim(req.login);
        let password_encrypted = self.crypto.encrypt_with(&d_password, password.as_str())?;
        let url = optional_trim(req.url);
        let notes_encrypted = maybe_encrypt_text(
            &self.crypto,
            optional_trim(req.notes),
            self.crypto.encrypt_notes(),
            &d_notes,
        )?;
        let tag_values = match req.tags {
            Some(t) => t,
            None => Vec::new(),
        };
        assert(strs(tag_values@) == tag_list(rq.tags));
        let tags = normalize_tags(tag_values)?;
        let record = SecretRecord {
            id,
            path,
            resource,
            login,
            password_encrypted,
            url,
            notes_encrypted,
            tags,
            custom_fields_encrypted: None,
            created_at: now,
            updated_at: now,
        };
        Ok((ImportOutcome::Imported, Some(record)))
    }

    /// Imports one secret; see `import_secret_tx_with`. A new record gets a
    /// fresh id, the time is the current time, and the nonces come from the
    /// operating system's random source.
    pub fn import_secret_tx(&self, req: ImportSecretRequest, strategy: ImportDuplicateStrategy, existing: Option<SecretRecord>) -> (res: Result<(ImportOutcome, Option<SecretRecord>), AppError>)
        ensures
            exists|id: u128, now: i64, d1: Result<Vec<u8>, String>, d2: Result<Vec<u8>, String>|
                drawn_len(d1, 12) && drawn_len(d2, 12) && #[trigger] import_matches(
                    self.key(),
                    self.crypto_service().notes_flag(),
                    req,
                    strategy,
                    existing,
                    id,
                    now,
                    d1,
                    d2,
                    res,
                ),
            res matches Ok((o, Some(r))) ==> match existing {
                Some(c) => reimported_record(self.key(), self.crypto_service().notes_flag(), req, c, r),
                None => imported_record(self.key(), self.crypto_service().notes_flag(), req, r),
            },
            res matches Err(e) ==> (e is Crypto ==> seal_failure(e.message_view(), import_too_long(req))),
    {
        let d_password = os_random_bytes(12);
        let d_notes = os_random_bytes(12);
        let now = now_unix();
        let id = new_id();
        let ghost rq = req;
        proof {
            let key = self.key();
            lemma_kept_failure(key, true, d_password, Some(trim(req.password@)));
            if let Some(n) = rq.notes {
                lemma_kept_failure(key, self.crypto_service().notes_flag(), d_notes, opt_trim(Some(n@)));
            }
        }
        self.import_secret_tx_with(req, strategy, existing, id, now, d_password, d_notes)
    }

    /// A stored secret read back: its password, notes and custom fields in
    /// clear.
    pub fn to_secret(&self, record: SecretRecord) -> (res: Result<Secret, AppError>)
        ensures
            secret_read_matches(self.key(), record, res),
            res is Ok <==> secret_readable(self.key(), record),
    {
        let ghost r = record;
        let password = self.crypto.decrypt_string(record.password_encrypted.as_str())?;
        let notes = read_stored_text(&self.crypto, record.notes_encrypted)?;
        let custom_fields = match record.custom_fields_encrypted {
            Some(value) => {
                let raw = if str_starts_with(value.as_str(), "v1:") {
                    self.crypto.decrypt_string(value.as_str())?
                } else {
                    value
                };
                match check_json(raw.as_str()) {
                    Ok(()) => Some(raw),
                    Err(msg) => {
                        return Err(AppError::Serialization(concat("custom fields parse: ", msg.as_str())));
                    },
                }
            },
            None => None,
        };
        proof {
            assert(r == record);
        }
        Ok(
            Secret {
                id: record.id,
                path: record.path,
                resource: record.resource,
                login: record.login,
                password,
                url: record.url,
                notes,
                tags: record.tags,
                custom_fields,
                created_at: record.created_at,
                updated_at: record.updated_at,
            },
        )
    }
}

} // verus!
