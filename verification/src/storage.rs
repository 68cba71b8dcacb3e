//! The rules of the SQLite store that do not touch the database: its
//! options, how rows are read into records, how lists are kept as JSON text,
//! what a failed or empty write means, which migrations are due and which
//! backups are rotated out. Running the SQL is left to the caller.
use vstd::prelude::*;
use crate::config::Config;
use crate::domain::{SecretRecord, TokenRecord, strs};
use crate::error::AppError;
use crate::ids::{id_text, now_unix, parse_id, uuid_parse, uuid_text};
use crate::text::{concat, str_eq};

verus! {

/// How the store writes: whether it copies the database before each write,
/// how many copies it keeps and where, and how long SQLite waits on a busy
/// database.
#[derive(Debug, Clone, PartialEq, Eq)]
pub struct StorageOptions {
    pub create_backup_before_write: bool,
    pub max_backups: usize,
    pub backup_dir: String,
    pub sqlite_busy_timeout_ms: u64,
}

impl Default for StorageOptions {
    fn default() -> (o: Self)
        ensures
            !o.create_backup_before_write,
            o.max_backups == 10,
            o.backup_dir@ == "./data/backups"@,
            o.sqlite_busy_timeout_ms == 5000,
    {
        StorageOptions {
            create_backup_before_write: false,
            max_backups: 10,
            backup_dir: String::from_str("./data/backups"),
            sqlite_busy_timeout_ms: 5000,
        }
    }
}

/// The store: the database file and its options.
#[derive(Debug, Clone, PartialEq, Eq)]
pub struct SqliteStorage {
    pub db_path: String,
    pub options: StorageOptions,
}

/// `dir` joined with the relative path `name`, as `Path::join` does it on
/// Unix: a `/` is put between them unless `dir` is empty or ends with one.
pub open spec fn joined_path(dir: Seq<char>, name: Seq<char>) -> Seq<char> {
    if dir.len() == 0 || dir.last() == '/' {
        dir + name
    } else {
        dir + "/"@ + name
    }
}

/// Joins a directory and a relative path.
pub fn join_path(dir: &str, name: &str) -> (r: String)
    ensures
        r@ == joined_path(dir@, name@),
{
    let n = dir.unicode_len();
    if n == 0 || dir.get_char(n - 1) == '/' {
        concat(dir, name)
    } else {
        let d = concat(dir, "/");
        concat(d.as_str(), name)
    }
}

/// The number of backups a configuration keeps: at least one.
pub open spec fn kept_backups(configured: u32) -> usize {
    if configured < 1 {
        1
    } else {
        configured as usize
    }
}

impl SqliteStorage {
    /// A store at `path` with the default options.
    pub fn new(path: String) -> (s: Self)
        ensures
            s.db_path == path,
            !s.options.create_backup_before_write,
            s.options.max_backups == 10,
            s.options.backup_dir@ == "./data/backups"@,
            s.options.sqlite_busy_timeout_ms == 5000,
    {
        Self::new_with_options(path, StorageOptions::default())
    }

    /// A store at `path` with the given options.
    pub fn new_with_options(path: String, options: StorageOptions) -> (s: Self)
        ensures
            s.db_path == path,
            s.options == options,
    {
        SqliteStorage { db_path: path, options }
    }

    /// The store a configuration describes: its database path, backups in
    /// `backups` under the data directory, at least one of them kept, and
    /// the configured SQLite busy timeout.
    pub fn from_config(cfg: &Config) -> (s: Self)
        ensures
            s.db_path@ == cfg.general.database_path@,
            s.options.create_backup_before_write == cfg.storage.create_backup_before_write,
            s.options.max_backups == kept_backups(cfg.storage.max_backups),
            s.options.backup_dir@ == joined_path(cfg.general.data_dir@, "backups"@),
            s.options.sqlite_busy_timeout_ms == cfg.storage.sqlite_busy_timeout_ms,
    {
        let max_backups: usize = if cfg.storage.max_backups < 1 {
            1
        } else {
            cfg.storage.max_backups as usize
        };
        let options = StorageOptions {
            create_backup_before_write: cfg.storage.create_backup_before_write,
            max_backups,
            backup_dir: join_path(cfg.general.data_dir.as_str(), "backups"),
            sqlite_busy_timeout_ms: cfg.storage.sqlite_busy_timeout_ms,
        };
        Self::new_with_options(String::from_str(cfg.general.database_path.as_str()), options)
    }

    /// The migrations still to apply, in order, given the names of those
    /// already applied.
    pub fn migrate(&self, applied: &Vec<String>) -> (due: Vec<String>)
        ensures
            strs(due@) == pending(migration_names(), strs(applied@)),
    {
        let mut due: Vec<String> = Vec::new();
        let name = String::from_str("001_init.sql");
        proof {
            reveal_strlit("001_init.sql");
        }
        let done = crate::normalize::contains_string(applied, &name);
        if !done {
            due.push(name);
        }
        proof {
            let names = migration_names();
            assert(names.drop_last() =~= Seq::<Seq<char>>::empty());
            assert(names.last() == name@);
            assert(pending(names.drop_last(), strs(applied@)) =~= Seq::<Seq<char>>::empty());
            if done {
                assert(strs(due@) =~= Seq::<Seq<char>>::empty());
            } else {
                assert(strs(due@) =~= seq![name@]);
            }
            assert(strs(due@) =~= pending(names, strs(applied@)));
        }
        due
    }

    /// Whether a write is preceded by a copy of the database file: when the
    /// options ask for backups and the file exists (before the first write
    /// there is nothing to copy).
    pub fn backup_before_write(&self, db_exists: bool) -> (r: bool)
        ensures
            r == (self.options.create_backup_before_write && db_exists),
    {
        self.options.create_backup_before_write && db_exists
    }

    /// Whether any token exists, given how many are stored.
    pub fn has_any_tokens(&self, token_count: i64) -> (r: bool)
        ensures
            r == (token_count > 0),
    {
        token_count > 0
    }

    /// The secrets read from rows, in order; the first row that cannot be
    /// read gives the error.
    pub fn list_secrets(&self, rows: Vec<SecretRow>) -> (res: Result<Vec<SecretRecord>, AppError>)
        ensures
            res is Ok <==> forall|i: int| 0 <= i < rows@.len() ==> uuid_parse((#[trigger] rows@[i]).id@) is Ok,
            res matches Ok(v) ==> v@.len() == rows@.len() && forall|i: int|
                0 <= i < rows@.len() ==> secret_of_row(#[trigger] rows@[i], v@[i]),
            res matches Err(e) ==> exists|i: int|
                0 <= i < rows@.len() && uuid_parse((#[trigger] rows@[i]).id@) is Err && row_id_error(rows@[i].id@, e)
                    && forall|j: int| 0 <= j < i ==> uuid_parse((#[trigger] rows@[j]).id@) is Ok,
    {
        let mut rest = rows;
        let ghost all = rest@;
        let mut out: Vec<SecretRecord> = Vec::new();
        while rest.len() > 0
            invariant
                rest@.len() + out@.len() == all.len(),
                rest@ == all.subrange(out@.len() as int, all.len() as int),
                all == rows@,
                forall|k: int| 0 <= k < out@.len() ==> uuid_parse((#[trigger] all[k]).id@) is Ok,
                forall|k: int| 0 <= k < out@.len() ==> secret_of_row(#[trigger] all[k], out@[k]),
            decreases rest@.len(),
        {
            let ghost k = out@.len() as int;
            let r = rest.remove(0);
            assert(r == all[k]);
            let rec = match map_secret_row(r) {
                Ok(x) => x,
                Err(e) => {
                    assert(uuid_parse(all[k].id@) is Err && row_id_error(all[k].id@, e));
                    return Err(e);
                },
            };
            out.push(rec);
        }
        Ok(out)
    }

    /// The secret read from the row stored at a path, if there is one.
    pub fn get_secret_by_path(&self, row: Option<SecretRow>) -> (res: Result<Option<SecretRecord>, AppError>)
        ensures
            match row {
                None => res == Ok::<Option<SecretRecord>, AppError>(None),
                Some(r) => match uuid_parse(r.id@) {
                    Ok(_) => res matches Ok(Some(rec)) && secret_of_row(r, rec),
                    Err(_) => res matches Err(e) && row_id_error(r.id@, e),
                },
            },
    {
        match row {
            Some(r) => {
                let rec = map_secret_row(r)?;
                Ok(Some(rec))
            },
            None => Ok(None),
        }
    }

    /// The tokens read from rows, in order; the first row that cannot be
    /// read gives the error.
    pub fn list_tokens(&self, rows: Vec<TokenRow>) -> (res: Result<Vec<TokenRecord>, AppError>)
        ensures
            res is Ok <==> forall|i: int| 0 <= i < rows@.len() ==> uuid_parse((#[trigger] rows@[i]).id@) is Ok,
            res matches Ok(v) ==> v@.len() == rows@.len() && forall|i: int|
                0 <= i < rows@.len() ==> token_of_row(#[trigger] rows@[i], v@[i]),
            res matches Err(e) ==> exists|i: int|
                0 <= i < rows@.len() && uuid_parse((#[trigger] rows@[i]).id@) is Err && row_id_error(rows@[i].id@, e)
                    && forall|j: int| 0 <= j < i ==> uuid_parse((#[trigger] rows@[j]).id@) is Ok,
    {
        let mut rest = rows;
        let ghost all = rest@;
        let mut out: Vec<TokenRecord> = Vec::new();
        while rest.len() > 0
            invariant
                rest@.len() + out@.len() == all.len(),
                rest@ == all.subrange(out@.len() as int, all.len() as int),
                all == rows@,
                forall|k: int| 0 <= k < out@.len() ==> uuid_parse((#[trigger] all[k]).id@) is Ok,
                forall|k: int| 0 <= k < out@.len() ==> token_of_row(#[trigger] all[k], out@[k]),
            decreases rest@.len(),
        {
            let ghost k = out@.len() as int;
            let r = rest.remove(0);
            assert(r == all[k]);
            let rec = map_token_row(r)?;
            out.push(rec);
        }
        Ok(out)
    }

    /// The token read from the row stored under a hash, if there is one.
    pub fn get_token_by_hash(&self, row: Option<TokenRow>) -> (res: Result<Option<TokenRecord>, AppError>)
        ensures
            match row {
                None => res == Ok::<Option<TokenRecord>, AppError>(None),
                Some(r) => match uuid_parse(r.id@) {
                    Ok(_) => res matches Ok(Some(rec)) && token_of_row(r, rec),
                    Err(_) => res matches Err(e) && row_id_error(r.id@, e),
                },
            },
    {
        match row {
            Some(r) => {
                let rec = map_token_row(r)?;
                Ok(Some(rec))
            },
            None => Ok(None),
        }
    }
}

/// The names of the schema migrations, in the order they are applied.
pub open spec fn migration_names() -> Seq<Seq<char>> {
    seq!["001_init.sql"@]
}

/// The names among `names` that are not in `applied`, in order.
pub open spec fn pending(names: Seq<Seq<char>>, applied: Seq<Seq<char>>) -> Seq<Seq<char>>
    decreases names.len(),
{
    if names.len() == 0 {
        Seq::<Seq<char>>::empty()
    } else if applied.contains(names.last()) {
        pending(names.drop_last(), applied)
    } else {
        pending(names.drop_last(), applied).push(names.last())
    }
}

proof fn lemma_pending_covers(names: Seq<Seq<char>>, applied: Seq<Seq<char>>, i: int)
    requires
        0 <= i < names.len(),
    ensures
        applied.contains(names[i]) || pending(names, applied).contains(names[i]),
    decreases names.len(),
{
    let p = pending(names, applied);
    if i == names.len() - 1 {
        if !applied.contains(names.last()) {
            assert(p[p.len() - 1] == names.last());
        }
    } else {
        let rest = names.drop_last();
        assert(rest[i] == names[i]);
        lemma_pending_covers(rest, applied, i);
        let q = pending(rest, applied);
        if q.contains(names[i]) {
            let j = choose|j: int| 0 <= j < q.len() && q[j] == names[i];
            if !applied.contains(names.last()) {
                assert(p[j] == names[i]);
            }
        }
    }
}

proof fn lemma_none_pending(names: Seq<Seq<char>>, applied: Seq<Seq<char>>)
    requires
        forall|i: int| 0 <= i < names.len() ==> applied.contains(#[trigger] names[i]),
    ensures
        pending(names, applied).len() == 0,
    decreases names.len(),
{
    if names.len() > 0 {
        let rest = names.drop_last();
        assert forall|i: int| 0 <= i < rest.len() implies applied.contains(#[trigger] rest[i]) by {
            assert(rest[i] == names[i]);
        }
        assert(applied.contains(names[names.len() - 1]));
        lemma_none_pending(rest, applied);
    }
}

/// Migrating is idempotent: once the migrations that were due are applied,
/// none is due any more.
pub proof fn lemma_migrations_settle(names: Seq<Seq<char>>, applied: Seq<Seq<char>>)
    ensures
        pending(names, applied + pending(names, applied)).len() == 0,
{
    let p = pending(names, applied);
    let all = applied + p;
    assert forall|i: int| 0 <= i < names.len() implies all.contains(#[trigger] names[i]) by {
        lemma_pending_covers(names, applied, i);
        if applied.contains(names[i]) {
            let j = choose|j: int| 0 <= j < applied.len() && applied[j] == names[i];
            assert(all[j] == names[i]);
        } else {
            let j = choose|j: int| 0 <= j < p.len() && p[j] == names[i];
            assert(all[applied.len() + j] == names[i]);
        }
    }
    lemma_none_pending(names, all);
}

/// A row of the `secrets` table as SQLite gives it: the id as text and the
/// tags as JSON text.
#[derive(Debug, Clone, PartialEq, Eq)]
pub struct SecretRow {
    pub id: String,
    pub path: String,
    pub resource: Option<String>,
    pub login: Option<String>,
    pub password_encrypted: String,
    pub url: Option<String>,
    pub notes_encrypted: Option<String>,
    pub tags: String,
    pub custom_fields_encrypted: Option<String>,
    pub created_at: i64,
    pub updated_at: i64,
}

/// A row of the `tokens` table as SQLite gives it: the id as text and the
/// scopes as JSON text.
#[derive(Debug, Clone, PartialEq, Eq)]
pub struct TokenRow {
    pub id: String,
    pub name: String,
    pub token_hash: String,
    pub scopes: String,
    pub created_at: i64,
    pub expires_at: Option<i64>,
    pub revoked_at: Option<i64>,
    pub last_used_at: Option<i64>,
}

/// What serde_json reads from `text` as a list of strings, if it is one.
pub uninterp spec fn json_string_list(text: Seq<char>) -> Option<Seq<Seq<char>>>;

/// What serde_json writes a list of strings as.
pub uninterp spec fn json_of_strings(items: Seq<Seq<char>>) -> Seq<char>;

/// Calls `serde_json::from_str::<Vec<String>>(text)`. Claimed: the strings
/// are `json_string_list(text)`; `None` when it fails.
#[verifier::external_body]
fn parse_string_list(text: &str) -> (r: Option<Vec<String>>)
    ensures
        match r {
            Some(v) => json_string_list(text@) == Some(strs(v@)),
            None => json_string_list(text@) is None,
        },
{
    serde_json::from_str::<Vec<String>>(text).ok()
}

/// Calls `serde_json::to_string(items)`. Claimed: it succeeds (its
/// documentation names only two causes of failure, a `Serialize` impl that
/// fails and a map with non-string keys, and a list of strings has
/// neither), the text is `json_of_strings(items)`, and serde_json reads
/// that text back as the same strings (it writes a JSON array of string
/// literals, escaping what JSON requires, and reading unescapes them).
#[verifier::external_body]
fn write_string_list(items: &Vec<String>) -> (r: Result<String, String>)
    ensures
        r is Ok,
        r matches Ok(s) ==> s@ == json_of_strings(strs(items@)),
        r matches Ok(s) ==> json_string_list(s@) == Some(strs(items@)),
{
    serde_json::to_string(items).map_err(|e| e.to_string())
}

/// A list kept as JSON text reads back as its strings, or as no strings
/// when the text is not such a list.
pub open spec fn stored_list(text: Seq<char>) -> Seq<Seq<char>> {
    match json_string_list(text) {
        Some(v) => v,
        None => Seq::<Seq<char>>::empty(),
    }
}

/// Reads a list of strings kept as JSON text; text that is not such a list
/// reads as none.
pub fn decode_string_list(text: &str) -> (v: Vec<String>)
    ensures
        strs(v@) == stored_list(text@),
{
    match parse_string_list(text) {
        Some(v) => v,
        None => Vec::new(),
    }
}

/// The JSON text tags or scopes are stored as; `what` names them in the
/// error.
pub fn encode_string_list(items: &Vec<String>, what: &str) -> (res: Result<String, AppError>)
    ensures
        res matches Ok(s) && s@ == json_of_strings(strs(items@)),
        res matches Ok(s) ==> stored_list(s@) == strs(items@),
{
    match write_string_list(items) {
        Ok(s) => Ok(s),
        Err(msg) => {
            let head = concat("failed to serialize ", what);
            let head = concat(head.as_str(), ": ");
            Err(AppError::Serialization(concat(head.as_str(), msg.as_str())))
        },
    }
}

/// `e` is the storage error for a row whose id text is not a UUID: SQLite's
/// conversion error for column 0 of type `Text`.
pub open spec fn row_id_error(id: Seq<char>, e: AppError) -> bool {
    e is Storage && match uuid_parse(id) {
        Err(m) => e.message_view() == "Conversion error from type Text at index: 0, "@ + m,
        Ok(_) => false,
    }
}

/// `rec` is the secret read from `row`.
pub open spec fn secret_of_row(row: SecretRow, rec: SecretRecord) -> bool {
    &&& uuid_parse(row.id@) == Ok::<u128, Seq<char>>(rec.id)
    &&& rec.path == row.path
    &&& rec.resource == row.resource
    &&& rec.login == row.login
    &&& rec.password_encrypted == row.password_encrypted
    &&& rec.url == row.url
    &&& rec.notes_encrypted == row.notes_encrypted
    &&& strs(rec.tags@) == stored_list(row.tags@)
    &&& rec.custom_fields_encrypted == row.custom_fields_encrypted
    &&& rec.created_at == row.created_at
    &&& rec.updated_at == row.updated_at
}

/// `rec` is the token read from `row`.
pub open spec fn token_of_row(row: TokenRow, rec: TokenRecord) -> bool {
    &&& uuid_parse(row.id@) == Ok::<u128, Seq<char>>(rec.id)
    &&& rec.name == row.name
    &&& rec.token_hash == row.token_hash
    &&& strs(rec.scopes@) == stored_list(row.scopes@)
    &&& rec.created_at == row.created_at
    &&& rec.expires_at == row.expires_at
    &&& rec.revoked_at == row.revoked_at
    &&& rec.last_used_at == row.last_used_at
}

/// Reads the id of a row.
fn row_id(id: &str) -> (res: Result<u128, AppError>)
    ensures
        match uuid_parse(id@) {
            Ok(v) => res == Ok::<u128, AppError>(v),
            Err(_) => res matches Err(e) && row_id_error(id@, e),
        },
{
    match parse_id(id) {
        Ok(v) => Ok(v),
        Err(msg) => Err(AppError::Storage(concat("Conversion error from type Text at index: 0, ", msg.as_str()))),
    }
}

/// Reads a secret from a row.
pub fn map_secret_row(row: SecretRow) -> (res: Result<SecretRecord, AppError>)
    ensures
        match uuid_parse(row.id@) {
            Ok(_) => res matches Ok(rec) && secret_of_row(row, rec),
            Err(_) => res matches Err(e) && row_id_error(row.id@, e),
        },
{
    let tags = decode_string_list(row.tags.as_str());
    let id = row_id(row.id.as_str())?;
    Ok(
        SecretRecord {
            id,
            path: row.path,
            resource: row.resource,
            login: row.login,
            password_encrypted: row.password_encrypted,
            url: row.url,
            notes_encrypted: row.notes_encrypted,
            tags,
            custom_fields_encrypted: row.custom_fields_encrypted,
            created_at: row.created_at,
            updated_at: row.updated_at,
        },
    )
}

/// Reads a token from a row.
pub fn map_token_row(row: TokenRow) -> (res: Result<TokenRecord, AppError>)
    ensures
        match uuid_parse(row.id@) {
            Ok(_) => res matches Ok(rec) && token_of_row(row, rec),
            Err(_) => res matches Err(e) && row_id_error(row.id@, e),
        },
{
    let scopes = decode_string_list(row.scopes.as_str());
    let id = row_id(row.id.as_str())?;
    Ok(
        TokenRecord {
            id,
            name: row.name,
            token_hash: row.token_hash,
            scopes,
            created_at: row.created_at,
            expires_at: row.expires_at,
            revoked_at: row.revoked_at,
            last_used_at: row.last_used_at,
        },
    )
}

/// Why SQLite refused a write.
#[derive(Debug, Clone, PartialEq, Eq)]
pub enum WriteFailure {
    /// A constraint, such as a unique path, was violated.
    Constraint,
    /// Anything else, with SQLite's text for it.
    Other(String),
}

/// The error of a refused write of an `entity`: a conflict when a
/// constraint was violated, else a storage error.
pub fn write_error(failure: WriteFailure, entity: &str) -> (e: AppError)
    ensures
        match failure {
            WriteFailure::Constraint => e is Conflict && e.message_view() == entity@ + " already exists"@,
            WriteFailure::Other(m) => e is Storage && e.message_view() == m@,
        },
{
    match failure {
        WriteFailure::Constraint => AppError::Conflict(concat(entity, " already exists")),
        WriteFailure::Other(m) => AppError::Storage(m),
    }
}

/// What a write that changed `changed` rows of the `entity` with id `id`
/// means: nothing changed is a missing record.
pub fn require_changed(changed: usize, entity: &str, id: u128) -> (res: Result<(), AppError>)
    ensures
        changed == 0 ==> (res matches Err(e) && e is NotFound && e.message_view() == entity@ + " not found: "@
            + uuid_text(id)),
        changed > 0 ==> res is Ok,
{
    if changed == 0 {
        let head = concat(entity, " not found: ");
        let t = id_text(id);
        return Err(AppError::NotFound(concat(head.as_str(), t.as_str())));
    }
    Ok(())
}

/// The current time in whole seconds since 1970, or 0 when the clock reads
/// earlier; migrations are stamped with it.
pub fn current_unix_ts() -> (t: i64) {
    now_unix()
}

/// Position `i` occurs in `order`.
pub open spec fn listed(order: Seq<usize>, i: int) -> bool {
    order.contains(i as usize)
}

/// Backup `i` is older than backup `j`: modified earlier, or at the same
/// time and listed first.
pub open spec fn older(t: Seq<u128>, i: int, j: int) -> bool {
    t[i] < t[j] || (t[i] == t[j] && i < j)
}

/// The backups ordered from oldest to newest, given their modification
/// times; backups modified at the same time keep their listed order.
pub fn oldest_first(times: &Vec<u128>) -> (order: Vec<usize>)
    ensures
        order@.len() == times@.len(),
        forall|k: int| 0 <= k < order@.len() ==> order@[k] < times@.len(),
        forall|a: int, b: int| 0 <= a < b < order@.len() ==> older(times@, #[trigger] order@[a] as int, #[trigger] order@[b] as int),
        forall|i: int| 0 <= i < times@.len() ==> #[trigger] listed(order@, i),
{
    let mut order: Vec<usize> = Vec::new();
    let mut i: usize = 0;
    while i < times.len()
        invariant
            i <= times@.len(),
            order@.len() == i,
            forall|k: int| 0 <= k < order@.len() ==> order@[k] < i,
            forall|a: int, b: int| 0 <= a < b < order@.len() ==> older(times@, #[trigger] order@[a] as int, #[trigger] order@[b] as int),
            forall|j: int| 0 <= j < i ==> #[trigger] listed(order@, j),
        decreases times@.len() - i,
    {
        let mut p: usize = 0;
        while p < order.len() && !(times[i] < times[order[p]] || (times[i] == times[order[p]] && i < order[p]))
            invariant
                p <= order@.len(),
                i < times@.len(),
                forall|k: int| 0 <= k < order@.len() ==> order@[k] < i,
                forall|k: int| 0 <= k < p ==> older(times@, #[trigger] order@[k] as int, i as int),
            decreases order@.len() - p,
        {
            assert(order@[p as int] < i);
            p = p + 1;
        }
        let ghost before = order@;
        proof {
            assert forall|k: int| p <= k < before.len() implies older(times@, i as int, #[trigger] before[k] as int) by {
                if k > p {
                    assert(older(times@, before[p as int] as int, before[k] as int));
                }
            }
        }
        order.insert(p, i);
        proof {
            assert(order@ == before.insert(p as int, i));
            assert forall|a: int, b: int| 0 <= a < b < order@.len() implies older(times@, #[trigger] order@[a] as int, #[trigger] order@[b] as int) by {
                if b < p {
                    assert(order@[a] == before[a] && order@[b] == before[b]);
                } else if b == p {
                    assert(order@[a] == before[a]);
                } else if a < p {
                    assert(order@[a] == before[a] && order@[b] == before[b - 1]);
                    assert(older(times@, before[a] as int, i as int));
                } else if a == p {
                    assert(order@[b] == before[b - 1]);
                } else {
                    assert(order@[a] == before[a - 1] && order@[b] == before[b - 1]);
                }
            }
            assert forall|j: int| 0 <= j < i + 1 implies #[trigger] listed(order@, j) by {
                if j == i {
                    assert(order@[p as int] == i);
                } else {
                    assert(listed(before, j));
                    let k = choose|k: int| 0 <= k < before.len() && before[k] == j as usize;
                    if k < p {
                        assert(order@[k] == before[k]);
                    } else {
                        assert(order@[k + 1] == before[k]);
                    }
                }
            }
        }
        i = i + 1;
    }
    order
}

/// The backups to delete so that at most `keep` remain, oldest first.
/// `times` are the modification times of the backups in the order they are
/// listed; the result holds positions in that list.
pub fn backups_to_remove(times: &Vec<u128>, keep: usize) -> (removed: Vec<usize>)
    ensures
        removed@.len() == if times@.len() > keep {
            times@.len() - keep
        } else {
            0
        },
        times@.len() - removed@.len() <= keep,
        removed@.no_duplicates(),
        forall|k: int| 0 <= k < removed@.len() ==> removed@[k] < times@.len(),
        forall|a: int, b: int| 0 <= a < b < removed@.len() ==> older(times@, #[trigger] removed@[a] as int, #[trigger] removed@[b] as int),
        forall|k: int, j: int|
            0 <= k < removed@.len() && 0 <= j < times@.len() && !#[trigger] listed(removed@, j) ==> older(
                times@,
                #[trigger] removed@[k] as int,
                j,
            ),
{
    let order = oldest_first(times);
    let n: usize = if times.len() > keep {
        times.len() - keep
    } else {
        0
    };
    let mut removed: Vec<usize> = Vec::new();
    let mut k: usize = 0;
    while k < n
        invariant
            k <= n <= order@.len(),
            removed@ == order@.subrange(0, k as int),
        decreases n - k,
    {
        removed.push(order[k]);
        assert(removed@ =~= order@.subrange(0, k + 1));
        k = k + 1;
    }
    proof {
        assert forall|a: int, b: int| 0 <= a < b < removed@.len() implies removed@[a] != removed@[b] by {
            assert(older(times@, order@[a] as int, order@[b] as int));
        }
        assert forall|k2: int, j: int|
            0 <= k2 < removed@.len() && 0 <= j < times@.len() && !#[trigger] listed(removed@, j) implies older(
                times@,
                #[trigger] removed@[k2] as int,
                j,
            ) by {
            assert(listed(order@, j));
            let m = choose|m: int| 0 <= m < order@.len() && order@[m] == j as usize;
            if m < n {
                assert(removed@[m] == j as usize);
            }
            assert(older(times@, order@[k2] as int, order@[m] as int));
        }
    }
    removed
}

} // verus!
