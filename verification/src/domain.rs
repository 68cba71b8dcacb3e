//! The records the service stores and the requests and answers of its API.
use vstd::prelude::*;

verus! {

/// A secret as it is stored: sensitive fields hold encrypted text.
#[derive(Debug, Clone, PartialEq, Eq)]
pub struct SecretRecord {
    pub id: u128,
    pub path: String,
    pub resource: Option<String>,
    pub login: Option<String>,
    pub password_encrypted: String,
    pub url: Option<String>,
    pub notes_encrypted: Option<String>,
    pub tags: Vec<String>,
    pub custom_fields_encrypted: Option<String>,
    pub created_at: i64,
    pub updated_at: i64,
}

/// A secret as it is handed out: sensitive fields in clear. The custom
/// fields are JSON text.
#[derive(Debug, Clone, PartialEq, Eq)]
pub struct Secret {
    pub id: u128,
    pub path: String,
    pub resource: Option<String>,
    pub login: Option<String>,
    pub password: String,
    pub url: Option<String>,
    pub notes: Option<String>,
    pub tags: Vec<String>,
    pub custom_fields: Option<String>,
    pub created_at: i64,
    pub updated_at: i64,
}

/// A request to create a secret; the custom fields are JSON text.
#[derive(Debug, Clone, PartialEq, Eq)]
pub struct CreateSecretRequest {
    pub path: String,
    pub resource: Option<String>,
    pub login: Option<String>,
    pub password: String,
    pub url: Option<String>,
    pub notes: Option<String>,
    pub tags: Option<Vec<String>>,
    pub custom_fields: Option<String>,
}

/// A request to change some fields of a secret; absent fields are kept.
#[derive(Debug, Clone, PartialEq, Eq)]
pub struct UpdateSecretRequest {
    pub path: Option<String>,
    pub resource: Option<String>,
    pub login: Option<String>,
    pub password: Option<String>,
    pub url: Option<String>,
    pub notes: Option<String>,
    pub tags: Option<Vec<String>>,
    pub custom_fields: Option<String>,
}

/// A token as it is stored: only a hash of the bearer value is kept.
#[derive(Debug, Clone, PartialEq, Eq)]
pub struct TokenRecord {
    pub id: u128,
    pub name: String,
    pub token_hash: String,
    pub scopes: Vec<String>,
    pub created_at: i64,
    pub expires_at: Option<i64>,
    pub revoked_at: Option<i64>,
    pub last_used_at: Option<i64>,
}

/// A token as it is shown: without its hash.
#[derive(Debug, Clone, PartialEq, Eq)]
pub struct Token {
    pub id: u128,
    pub name: String,
    pub scopes: Vec<String>,
    pub created_at: i64,
    pub expires_at: Option<i64>,
    pub revoked_at: Option<i64>,
    pub last_used_at: Option<i64>,
}

/// A request to create a token.
#[derive(Debug, Clone, PartialEq, Eq)]
pub struct CreateTokenRequest {
    pub name: String,
    pub scopes: Vec<String>,
    pub expires_at: Option<i64>,
}

/// A new token: the bearer value, shown once, and its public record.
#[derive(Debug, Clone, PartialEq, Eq)]
pub struct TokenCreationResult {
    pub token: String,
    pub record: Token,
}

/// The characters of each string in `v`.
pub open spec fn strs(v: Seq<String>) -> Seq<Seq<char>> {
    v.map_values(|s: String| s@)
}

/// The characters of an optional string.
pub open spec fn opt_str(o: Option<String>) -> Option<Seq<char>> {
    match o {
        Some(s) => Some(s@),
        None => None,
    }
}

} // verus!

verus! {

/// A copy of a list of strings.
pub fn copy_strings(v: &Vec<String>) -> (r: Vec<String>)
    ensures
        r@ == v@,
{
    let r = v.clone();
    assert forall|i: int| 0 <= i < v@.len() implies r@[i] == v@[i] by {
        assert(cloned::<String>(v[i], r[i]));
    }
    assert(r@ =~= v@);
    r
}

/// What a token shows, by value: id, name, scopes and times.
pub open spec fn token_view(t: Token) -> (u128, Seq<char>, Seq<Seq<char>>, i64, Option<i64>, Option<i64>, Option<i64>) {
    (t.id, t.name@, strs(t.scopes@), t.created_at, t.expires_at, t.revoked_at, t.last_used_at)
}

/// The public form of a stored token, taken from a copy of its fields.
pub fn public_copy(r: &TokenRecord) -> (t: Token)
    ensures
        token_view(t) == token_view(
            Token {
                id: r.id,
                name: r.name,
                scopes: r.scopes,
                created_at: r.created_at,
                expires_at: r.expires_at,
                revoked_at: r.revoked_at,
                last_used_at: r.last_used_at,
            },
        ),
{
    Token {
        id: r.id,
        name: r.name.clone(),
        scopes: copy_strings(&r.scopes),
        created_at: r.created_at,
        expires_at: r.expires_at,
        revoked_at: r.revoked_at,
        last_used_at: r.last_used_at,
    }
}

} // verus!
