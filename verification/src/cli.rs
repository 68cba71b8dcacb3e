//! The command line: its commands, and the requests each command makes of
//! the local API. Running the requests and printing is left to the caller.
use vstd::prelude::*;
use vstd::utf8::encode_utf8;
use crate::addr::{dec_string, dec_text};
use crate::config::{Config, ConfigOverrides, load, validation_failure, validation_result, with_overrides};
use crate::error::AppError;
use crate::security::JsonValue;
use crate::net::chars_have;
use crate::text::{concat, eq_ignore_ascii_case, str_eq, str_eq_ignore_ascii_case, to_chars};

verus! {

/// The command line: an optional configuration file and a command.
#[derive(Debug)]
pub struct Cli {
    pub config: Option<String>,
    pub command: Commands,
}

/// What the program is asked to do.
#[derive(Debug)]
pub enum Commands {
    Serve { host: Option<String>, port: Option<u16> },
    Health { port: Option<u16> },
    Init,
    Add {
        path: String,
        resource: Option<String>,
        login: Option<String>,
        password: String,
        url: Option<String>,
        notes: Option<String>,
        tags: Vec<String>,
    },
    Get { path: String },
    List,
    Update {
        path: String,
        new_path: Option<String>,
        resource: Option<String>,
        login: Option<String>,
        password: Option<String>,
        url: Option<String>,
        notes: Option<String>,
        tags: Option<Vec<String>>,
    },
    Delete { path: String },
    Token { command: TokenCommands },
    Config { command: ConfigCommands },
}

/// The `config` subcommands.
#[derive(Debug)]
pub enum ConfigCommands {
    Init { force: bool },
    Show,
    Validate,
}

/// The `token` subcommands.
#[derive(Debug)]
pub enum TokenCommands {
    Create { name: String, scopes: Vec<String>, expires_at: Option<i64> },
    List,
    Revoke { id: String },
}

/// The HTTP methods the client uses.
#[derive(Debug, Clone, Copy, PartialEq, Eq, Structural)]
pub enum HttpMethod {
    Get,
    Post,
    Patch,
    Delete,
}

/// A request to the local API: method, path below the server's address,
/// and a JSON body if any.
#[derive(Debug)]
pub struct ApiRequest {
    pub method: HttpMethod,
    pub path: String,
    pub payload: Option<JsonValue>,
}

/// A byte that URL encoding leaves as it is.
pub open spec fn unreserved(b: u8) -> bool {
    ||| 48 <= b <= 57
    ||| 65 <= b <= 90
    ||| 97 <= b <= 122
    ||| b == 45
    ||| b == 46
    ||| b == 95
    ||| b == 126
}

/// An upper-case hexadecimal digit.
pub open spec fn upper_hex(d: nat) -> char {
    if d < 10 {
        ((d + 48) as u8) as char
    } else {
        ((d + 55) as u8) as char
    }
}

/// Bytes percent-encoded: every byte but ASCII letters, digits and
/// `-`, `.`, `_`, `~` is written as `%` and two upper-case hex digits.
pub open spec fn percent_encoded(bytes: Seq<u8>) -> Seq<char>
    decreases bytes.len(),
{
    if bytes.len() == 0 {
        Seq::<char>::empty()
    } else {
        let rest = percent_encoded(bytes.drop_last());
        let b = bytes.last();
        if unreserved(b) {
            rest.push(b as char)
        } else {
            rest + seq!['%', upper_hex((b / 16) as nat), upper_hex((b % 16) as nat)]
        }
    }
}

/// Calls `urlencoding::encode(s)`. Claimed, as its source shows: every
/// UTF-8 byte of `s` but ASCII letters, digits and `-`, `.`, `_`, `~` is
/// written as `%` and two upper-case hex digits.
#[verifier::external_body]
fn url_encode(s: &str) -> (r: String)
    ensures
        r@ == percent_encoded(encode_utf8(s@)),
{
    urlencoding::encode(s).into_owned()
}

/// `v` is the JSON string `s`.
pub open spec fn json_str(v: JsonValue, s: Seq<char>) -> bool {
    v matches JsonValue::Str(t) && t@ == s
}

/// `v` is the JSON string of `o`, or `null` when there is none.
pub open spec fn json_opt_str(v: JsonValue, o: Option<String>) -> bool {
    match o {
        Some(s) => json_str(v, s@),
        None => v is Null,
    }
}

/// `v` is the JSON array of the strings `items`.
pub open spec fn json_strs(v: JsonValue, items: Seq<String>) -> bool {
    v matches JsonValue::Array(a) && a@.len() == items.len() && forall|i: int|
        0 <= i < items.len() ==> json_str(#[trigger] a@[i], items[i]@)
}

/// `v` is the JSON number `n`.
pub open spec fn json_int(v: JsonValue, n: i64) -> bool {
    v matches JsonValue::Number(t) && t@ == int_text(n as int)
}

/// `n` in decimal, with a minus sign when negative.
pub open spec fn int_text(n: int) -> Seq<char> {
    if n < 0 {
        "-"@ + dec_text((-n) as nat)
    } else {
        dec_text(n as nat)
    }
}

/// `m` is an object member with key `k`.
pub open spec fn member_key(m: (String, JsonValue), k: Seq<char>) -> bool {
    m.0@ == k
}

/// A JSON string.
fn text_value(s: String) -> (v: JsonValue)
    ensures
        json_str(v, s@),
{
    JsonValue::Str(s)
}

/// A JSON string, or `null`.
fn opt_text_value(o: Option<String>) -> (v: JsonValue)
    ensures
        json_opt_str(v, o),
{
    match o {
        Some(s) => JsonValue::Str(s),
        None => JsonValue::Null,
    }
}

/// A JSON array of strings.
fn texts_value(items: Vec<String>) -> (v: JsonValue)
    ensures
        json_strs(v, items@),
{
    let mut rest = items;
    let ghost all = rest@;
    let mut out: Vec<JsonValue> = Vec::new();
    while rest.len() > 0
        invariant
            rest@.len() + out@.len() == all.len(),
            rest@ == all.subrange(out@.len() as int, all.len() as int),
            forall|i: int| 0 <= i < out@.len() ==> json_str(#[trigger] out@[i], all[i]@),
        decreases rest@.len(),
    {
        let ghost k = out@.len() as int;
        let s = rest.remove(0);
        assert(s == all[k]);
        out.push(JsonValue::Str(s));
    }
    JsonValue::Array(out)
}

/// A JSON number.
fn int_value(n: i64) -> (v: JsonValue)
    ensures
        json_int(v, n),
{
    if n < 0 {
        let m: u64 = if n == i64::MIN {
            9223372036854775808u64
        } else {
            (-n) as u64
        };
        let d = dec_string(m);
        proof {
            reveal_strlit("-");
        }
        JsonValue::Number(concat("-", d.as_str()))
    } else {
        JsonValue::Number(dec_string(n as u64))
    }
}

/// A key.
fn key(k: &str) -> (s: String)
    ensures
        s@ == k@,
{
    String::from_str(k)
}

/// The path of the secret stored at `path`.
pub fn secret_by_path_route(path: &str) -> (r: String)
    ensures
        r@ == "/api/v1/secrets/by-path/"@ + percent_encoded(encode_utf8(path@)),
{
    let encoded = url_encode(path);
    concat("/api/v1/secrets/by-path/", encoded.as_str())
}

/// The body of a request to create a secret from the command line.
pub open spec fn add_payload(v: JsonValue, path: String, resource: Option<String>, login: Option<String>, password: String, url: Option<String>, notes: Option<String>, tags: Seq<String>) -> bool {
    v matches JsonValue::Object(m) && m@.len() == 8 && {
        &&& member_key(m@[0], "path"@) && json_str(m@[0].1, path@)
        &&& member_key(m@[1], "resource"@) && json_opt_str(m@[1].1, resource)
        &&& member_key(m@[2], "login"@) && json_opt_str(m@[2].1, login)
        &&& member_key(m@[3], "password"@) && json_str(m@[3].1, password@)
        &&& member_key(m@[4], "url"@) && json_opt_str(m@[4].1, url)
        &&& member_key(m@[5], "notes"@) && json_opt_str(m@[5].1, notes)
        &&& member_key(m@[6], "tags"@) && json_strs(m@[6].1, tags)
        &&& member_key(m@[7], "custom_fields"@) && m@[7].1 is Null
    }
}

/// The fields an `update` command changes; absent ones are kept.
#[derive(Debug)]
pub struct SecretChanges {
    pub new_path: Option<String>,
    pub resource: Option<String>,
    pub login: Option<String>,
    pub password: Option<String>,
    pub url: Option<String>,
    pub notes: Option<String>,
    pub tags: Option<Vec<String>>,
}

/// The body of a request to change a secret from the command line; absent
/// fields are `null`, which leaves them as they are.
pub open spec fn update_payload(v: JsonValue, c: SecretChanges) -> bool {
    v matches JsonValue::Object(m) && m@.len() == 8 && {
        &&& member_key(m@[0], "path"@) && json_opt_str(m@[0].1, c.new_path)
        &&& member_key(m@[1], "resource"@) && json_opt_str(m@[1].1, c.resource)
        &&& member_key(m@[2], "login"@) && json_opt_str(m@[2].1, c.login)
        &&& member_key(m@[3], "password"@) && json_opt_str(m@[3].1, c.password)
        &&& member_key(m@[4], "url"@) && json_opt_str(m@[4].1, c.url)
        &&& member_key(m@[5], "notes"@) && json_opt_str(m@[5].1, c.notes)
        &&& member_key(m@[6], "tags"@) && match c.tags {
            Some(t) => json_strs(m@[6].1, t@),
            None => m@[6].1 is Null,
        }
        &&& member_key(m@[7], "custom_fields"@) && m@[7].1 is Null
    }
}

/// The value of the first member named `k` among the members `m` of a
/// JSON object, as a reader of the object finds it.
pub open spec fn member_of(m: Seq<(String, JsonValue)>, k: Seq<char>) -> Option<JsonValue>
    decreases m.len(),
{
    if m.len() == 0 {
        None
    } else if m[0].0@ == k {
        Some(m[0].1)
    } else {
        member_of(m.drop_first(), k)
    }
}

/// The members `m` carry under the name `k` the text `o` when it is given,
/// as a JSON string with exactly its characters, and `null` when not.
pub open spec fn carries(m: Seq<(String, JsonValue)>, k: Seq<char>, o: Option<String>) -> bool {
    match o {
        Some(t) => member_of(m, k) matches Some(JsonValue::Str(s)) && s@ == t@,
        None => member_of(m, k) == Some(JsonValue::Null),
    }
}

/// A change request carries every change it is given: read as a JSON
/// object, its `path` member is the new path when one is given (and
/// `null`, which leaves the path, only when none is), and so are its
/// `resource`, `login`, `password`, `url` and `notes` members.
pub proof fn lemma_update_carries_changes(p: JsonValue, c: SecretChanges)
    requires
        update_payload(p, c),
    ensures
        p matches JsonValue::Object(m) && carries(m@, "path"@, c.new_path) && carries(m@, "resource"@, c.resource)
            && carries(m@, "login"@, c.login) && carries(m@, "password"@, c.password) && carries(
            m@,
            "url"@,
            c.url,
        ) && carries(m@, "notes"@, c.notes),
{
    reveal_strlit("path");
    reveal_strlit("resource");
    reveal_strlit("login");
    reveal_strlit("password");
    reveal_strlit("url");
    reveal_strlit("notes");
    let m = p->Object_0@;
    let names = seq!["path"@, "resource"@, "login"@, "password"@, "url"@, "notes"@];
    assert(names[0].len() == 4 && names[1].len() == 8 && names[2].len() == 5);
    assert(names[3].len() == 8 && names[4].len() == 3 && names[5].len() == 5);
    assert(names[1][0] == 'r' && names[3][0] == 'p' && names[2][0] == 'l' && names[5][0] == 'n');
    assert(names[0] != names[3]);
    assert forall|a: int, b: int| 0 <= a < b < 6 implies names[a] != names[b] by {
        if names[a] == names[b] {
            assert(names[a].len() == names[b].len());
            assert(names[a][0] == names[b][0]);
        }
    }
    assert forall|j: int| 0 <= j < 6 implies m[j].0@ == names[j] by {}
    lemma_member_at(m, "path"@, 0);
    lemma_member_at(m, "resource"@, 1);
    lemma_member_at(m, "login"@, 2);
    lemma_member_at(m, "password"@, 3);
    lemma_member_at(m, "url"@, 4);
    lemma_member_at(m, "notes"@, 5);
}

proof fn lemma_member_at(m: Seq<(String, JsonValue)>, k: Seq<char>, i: int)
    requires
        0 <= i < m.len(),
        m[i].0@ == k,
        forall|j: int| 0 <= j < i ==> (#[trigger] m[j]).0@ != k,
    ensures
        member_of(m, k) == Some(m[i].1),
    decreases i,
{
    if i > 0 {
        let rest = m.drop_first();
        assert forall|j: int| 0 <= j < i - 1 implies (#[trigger] rest[j]).0@ != k by {
            assert(rest[j] == m[j + 1]);
        }
        assert(rest[i - 1] == m[i]);
        lemma_member_at(rest, k, i - 1);
    }
}

/// The request that creates a secret.
pub fn add_request(path: String, resource: Option<String>, login: Option<String>, password: String, url: Option<String>, notes: Option<String>, tags: Vec<String>) -> (r: ApiRequest)
    ensures
        r.method == HttpMethod::Post,
        r.path@ == "/api/v1/secrets"@,
        r.payload matches Some(p) && add_payload(p, path, resource, login, password, url, notes, tags@),
{
    let body = vec![
        (key("path"), text_value(path)),
        (key("resource"), opt_text_value(resource)),
        (key("login"), opt_text_value(login)),
        (key("password"), text_value(password)),
        (key("url"), opt_text_value(url)),
        (key("notes"), opt_text_value(notes)),
        (key("tags"), texts_value(tags)),
        (key("custom_fields"), JsonValue::Null),
    ];
    ApiRequest {
        method: HttpMethod::Post,
        path: String::from_str("/api/v1/secrets"),
        payload: Some(JsonValue::Object(body)),
    }
}

/// The request that changes the secret `id`.
pub fn update_request(id: &str, changes: SecretChanges) -> (r: ApiRequest)
    ensures
        r.method == HttpMethod::Patch,
        r.path@ == "/api/v1/secrets/"@ + id@,
        r.payload matches Some(p) && update_payload(p, changes),
        r.payload matches Some(JsonValue::Object(m)) && carries(m@, "path"@, changes.new_path) && carries(
            m@,
            "resource"@,
            changes.resource,
        ) && carries(m@, "login"@, changes.login) && carries(m@, "password"@, changes.password) && carries(
            m@,
            "url"@,
            changes.url,
        ) && carries(m@, "notes"@, changes.notes),
{
    let ghost c = changes;
    let tags_value = match changes.tags {
        Some(t) => texts_value(t),
        None => JsonValue::Null,
    };
    let body = vec![
        (key("path"), opt_text_value(changes.new_path)),
        (key("resource"), opt_text_value(changes.resource)),
        (key("login"), opt_text_value(changes.login)),
        (key("password"), opt_text_value(changes.password)),
        (key("url"), opt_text_value(changes.url)),
        (key("notes"), opt_text_value(changes.notes)),
        (key("tags"), tags_value),
        (key("custom_fields"), JsonValue::Null),
    ];
    let r = ApiRequest {
        method: HttpMethod::Patch,
        path: concat("/api/v1/secrets/", id),
        payload: Some(JsonValue::Object(body)),
    };
    proof {
        lemma_update_carries_changes(r.payload->Some_0, c);
    }
    r
}

/// The request that deletes the secret `id`.
pub fn delete_request(id: &str) -> (r: ApiRequest)
    ensures
        r.method == HttpMethod::Delete,
        r.path@ == "/api/v1/secrets/"@ + id@,
        r.payload is None,
{
    ApiRequest { method: HttpMethod::Delete, path: concat("/api/v1/secrets/", id), payload: None }
}

/// The request that reads the secret at `path`.
pub fn get_by_path_request(path: &str) -> (r: ApiRequest)
    ensures
        r.method == HttpMethod::Get,
        r.path@ == "/api/v1/secrets/by-path/"@ + percent_encoded(encode_utf8(path@)),
        r.payload is None,
{
    ApiRequest { method: HttpMethod::Get, path: secret_by_path_route(path), payload: None }
}

/// The body of a request to create a token.
pub open spec fn token_payload(v: JsonValue, name: String, scopes: Seq<String>, expires_at: Option<i64>) -> bool {
    v matches JsonValue::Object(m) && m@.len() == 3 && {
        &&& member_key(m@[0], "name"@) && json_str(m@[0].1, name@)
        &&& member_key(m@[1], "scopes"@) && json_strs(m@[1].1, scopes)
        &&& member_key(m@[2], "expires_at"@) && match expires_at {
            Some(x) => json_int(m@[2].1, x),
            None => m@[2].1 is Null,
        }
    }
}

/// `r` is the request the `token` subcommand `command` makes.
pub open spec fn token_request_matches(command: TokenCommands, r: ApiRequest) -> bool {
        match command {
            TokenCommands::Create { name, scopes, expires_at } => r.method == HttpMethod::Post && r.path@
                == "/api/v1/tokens"@ && (r.payload matches Some(p) && token_payload(p, name, scopes@, expires_at)),
            TokenCommands::List => r.method == HttpMethod::Get && r.path@ == "/api/v1/tokens"@ && r.payload is None,
            TokenCommands::Revoke { id } => r.method == HttpMethod::Post && r.path@ == "/api/v1/tokens/"@ + id@
                + "/revoke"@ && r.payload is None,
        }
}

/// The request a `token` subcommand makes.
pub fn token_request(command: TokenCommands) -> (r: ApiRequest)
    ensures
        token_request_matches(command, r),
{
    match command {
        TokenCommands::Create { name, scopes, expires_at } => {
            let expires = match expires_at {
                Some(x) => int_value(x),
                None => JsonValue::Null,
            };
            let body = vec![
                (key("name"), text_value(name)),
                (key("scopes"), texts_value(scopes)),
                (key("expires_at"), expires),
            ];
            ApiRequest {
                method: HttpMethod::Post,
                path: String::from_str("/api/v1/tokens"),
                payload: Some(JsonValue::Object(body)),
            }
        },
        TokenCommands::List => ApiRequest {
            method: HttpMethod::Get,
            path: String::from_str("/api/v1/tokens"),
            payload: None,
        },
        TokenCommands::Revoke { id } => {
            let p = concat("/api/v1/tokens/", id.as_str());
            ApiRequest { method: HttpMethod::Post, path: concat(p.as_str(), "/revoke"), payload: None }
        },
    }
}

/// What running a command takes: starting or checking the server, setting
/// up the data directory, a `config` subcommand, one request to the API, or
/// a lookup of a secret by path followed by a change or a deletion of it.
#[derive(Debug)]
pub enum CommandPlan {
    Serve { overrides: ConfigOverrides },
    Health { overrides: ConfigOverrides },
    Init,
    Config { command: ConfigCommands },
    Call { request: ApiRequest },
    UpdateByPath { lookup: ApiRequest, changes: SecretChanges },
    DeleteByPath { lookup: ApiRequest },
}

/// `r` reads the secret at `path`.
pub open spec fn reads_by_path(r: ApiRequest, path: Seq<char>) -> bool {
    r.method == HttpMethod::Get && r.path@ == "/api/v1/secrets/by-path/"@ + percent_encoded(encode_utf8(path))
        && r.payload is None
}

/// What a command is run as.
pub fn plan_command(command: Commands) -> (p: CommandPlan)
    ensures
        match command {
            Commands::Serve { host, port } => p == CommandPlan::Serve { overrides: ConfigOverrides { host, port } },
            Commands::Health { port } => p == CommandPlan::Health { overrides: ConfigOverrides { host: None, port } },
            Commands::Init => p is Init,
            Commands::Config { command } => p == CommandPlan::Config { command },
            Commands::Add { path, resource, login, password, url, notes, tags } => p matches CommandPlan::Call {
                request,
            } && request.method == HttpMethod::Post && request.path@ == "/api/v1/secrets"@ && (request.payload matches Some(
                b,
            ) && add_payload(b, path, resource, login, password, url, notes, tags@)),
            Commands::Get { path } => p matches CommandPlan::Call { request } && reads_by_path(request, path@),
            Commands::List => p matches CommandPlan::Call { request } && request.method == HttpMethod::Get
                && request.path@ == "/api/v1/secrets"@ && request.payload is None,
            Commands::Update { path, new_path, resource, login, password, url, notes, tags } => p matches CommandPlan::UpdateByPath {
                lookup,
                changes,
            } && reads_by_path(lookup, path@) && changes == SecretChanges {
                new_path,
                resource,
                login,
                password,
                url,
                notes,
                tags,
            },
            Commands::Delete { path } => p matches CommandPlan::DeleteByPath { lookup } && reads_by_path(lookup, path@),
            Commands::Token { command } => p matches CommandPlan::Call { request } && token_request_matches(
                command,
                request,
            ),
        },
{
    match command {
        Commands::Serve { host, port } => CommandPlan::Serve { overrides: ConfigOverrides { host, port } },
        Commands::Health { port } => CommandPlan::Health { overrides: ConfigOverrides { host: None, port } },
        Commands::Init => CommandPlan::Init,
        Commands::Config { command } => CommandPlan::Config { command },
        Commands::Add { path, resource, login, password, url, notes, tags } => CommandPlan::Call {
            request: add_request(path, resource, login, password, url, notes, tags),
        },
        Commands::Get { path } => CommandPlan::Call { request: get_by_path_request(path.as_str()) },
        Commands::List => CommandPlan::Call {
            request: ApiRequest {
                method: HttpMethod::Get,
                path: String::from_str("/api/v1/secrets"),
                payload: None,
            },
        },
        Commands::Update { path, new_path, resource, login, password, url, notes, tags } => CommandPlan::UpdateByPath {
            lookup: get_by_path_request(path.as_str()),
            changes: SecretChanges { new_path, resource, login, password, url, notes, tags },
        },
        Commands::Delete { path } => CommandPlan::DeleteByPath { lookup: get_by_path_request(path.as_str()) },
        Commands::Token { command } => CommandPlan::Call { request: token_request(command) },
    }
}

/// The value of the first member of an object named `k`.
pub open spec fn member_value(m: Seq<(String, JsonValue)>, k: Seq<char>) -> Option<JsonValue>
    decreases m.len(),
{
    if m.len() == 0 {
        None
    } else if m[0].0@ == k {
        Some(m[0].1)
    } else {
        member_value(m.drop_first(), k)
    }
}

/// The id of a secret as the API shows it: the string member `id`.
pub open spec fn secret_id_text(v: JsonValue) -> Option<Seq<char>> {
    match v {
        JsonValue::Object(m) => match member_value(m@, "id"@) {
            Some(JsonValue::Str(s)) => Some(s@),
            _ => None,
        },
        _ => None,
    }
}

/// The id of the secret the API showed, to change or delete it.
pub fn secret_id_of(current: &JsonValue) -> (res: Result<String, AppError>)
    ensures
        match secret_id_text(*current) {
            Some(t) => res matches Ok(s) && s@ == t,
            None => res matches Err(e) && e is Server && e.message_view() == "unable to get secret id"@,
        },
{
    if let JsonValue::Object(m) = current {
        let mut i: usize = 0;
        assert(m@.subrange(0, m@.len() as int) =~= m@);
        while i < m.len()
            invariant
                i <= m@.len(),
                *current == JsonValue::Object(*m),
                member_value(m@, "id"@) == member_value(m@.subrange(i as int, m@.len() as int), "id"@),
            decreases m@.len() - i,
        {
            let ghost rest = m@.subrange(i as int, m@.len() as int);
            assert(rest.drop_first() =~= m@.subrange(i + 1, m@.len() as int));
            if str_eq(m[i].0.as_str(), "id") {
                assert(rest[0] == m@[i as int]);
                if let JsonValue::Str(s) = &m[i].1 {
                    return Ok(s.clone());
                }
                return Err(AppError::Server(String::from_str("unable to get secret id")));
            }
            i = i + 1;
        }
    }
    Err(AppError::Server(String::from_str("unable to get secret id")))
}

/// The body shown for an answer without content: `{"status": "ok"}`.
pub fn no_content_body() -> (v: JsonValue)
    ensures
        v matches JsonValue::Object(m) && m@.len() == 1 && m@[0].0@ == "status"@ && json_str(m@[0].1, "ok"@),
{
    JsonValue::Object(vec![(key("status"), text_value(String::from_str("ok")))])
}

/// The body shown for an answer that is not JSON: `{"raw": text}`.
pub fn raw_body(text: String) -> (v: JsonValue)
    ensures
        v matches JsonValue::Object(m) && m@.len() == 1 && m@[0].0@ == "raw"@ && json_str(m@[0].1, text@),
{
    let ghost t = text;
    JsonValue::Object(vec![(key("raw"), text_value(text))])
}

/// The address of the local API: `localhost` (in any case) is reached at
/// `127.0.0.1`, and a host with a colon is put in brackets.
pub open spec fn base_url_text(host: Seq<char>, port: u16) -> Seq<char> {
    let h = if eq_ignore_ascii_case(host, "localhost"@) {
        "127.0.0.1"@
    } else {
        host
    };
    if h.contains(':') {
        "http://["@ + h + "]:"@ + dec_text(port as nat)
    } else {
        "http://"@ + h + ":"@ + dec_text(port as nat)
    }
}

/// The address of the local API.
pub fn base_url(host: &str, port: u16) -> (r: String)
    ensures
        r@ == base_url_text(host@, port),
{
    let h = if str_eq_ignore_ascii_case(host, "localhost") {
        String::from_str("127.0.0.1")
    } else {
        String::from_str(host)
    };
    let p = dec_string(port as u64);
    let hv = to_chars(h.as_str());
    if chars_have(hv.as_slice(), ':') {
        let u = concat("http://[", h.as_str());
        let u = concat(u.as_str(), "]:");
        concat(u.as_str(), p.as_str())
    } else {
        let u = concat("http://", h.as_str());
        let u = concat(u.as_str(), ":");
        concat(u.as_str(), p.as_str())
    }
}

/// The configuration a client command runs with: the file's, with the
/// given port if any.
pub fn load_command_config(raw: Config, port: Option<u16>) -> (res: Result<Config, AppError>)
    ensures
        match res {
            Ok(c) => c == with_overrides(raw, ConfigOverrides { host: None, port }) && validation_failure(c) is None,
            Err(e) => validation_result(
                Err(e),
                validation_failure(with_overrides(raw, ConfigOverrides { host: None, port })),
            ) && validation_failure(with_overrides(raw, ConfigOverrides { host: None, port })) is Some,
        },
{
    load(raw, ConfigOverrides { host: None, port })
}

} // verus!
