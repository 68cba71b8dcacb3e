//! Identifiers: UUIDs held as 128-bit numbers, and the current time.
use vstd::prelude::*;

verus! {

/// The character of a hexadecimal digit, in lower case.
pub open spec fn hex_char(d: nat) -> char {
    if d < 10 {
        ((d + 48) as u8) as char
    } else {
        ((d + 87) as u8) as char
    }
}

/// The lowest `width` hexadecimal digits of `n`, most significant first.
pub open spec fn hex_digits(n: nat, width: nat) -> Seq<char>
    decreases width,
{
    if width == 0 {
        Seq::<char>::empty()
    } else {
        hex_digits(n / 16, (width - 1) as nat).push(hex_char(n % 16))
    }
}

/// The hyphenated lower-case form of a UUID, e.g.
/// `67e55044-10b1-426f-9247-bb680e5fe0c8`.
pub open spec fn uuid_text(id: u128) -> Seq<char> {
    let h = hex_digits(id as nat, 32);
    h.subrange(0, 8) + "-"@ + h.subrange(8, 12) + "-"@ + h.subrange(12, 16) + "-"@ + h.subrange(16, 20)
        + "-"@ + h.subrange(20, 32)
}

/// What `uuid::Uuid::parse_str` makes of `text`: the UUID it reads, or the
/// text of the error it reports.
pub uninterp spec fn uuid_parse(text: Seq<char>) -> Result<u128, Seq<char>>;

/// `text` is read by `uuid_parse` as the UUID `id`.
pub open spec fn reads_back_as(text: Seq<char>, id: u128) -> bool {
    uuid_parse(text) == Ok::<u128, Seq<char>>(id)
}

/// Calls `uuid::Uuid::new_v4().as_u128()`. Claimed: nothing; the value is
/// random.
#[verifier::external_body]
pub fn new_id() -> (id: u128) {
    uuid::Uuid::new_v4().as_u128()
}

/// Calls `uuid::Uuid::from_u128(id)` and formats it with `Display`, which
/// the `uuid` documentation gives as the hyphenated lower-case form.
/// Claimed too: `Uuid::parse_str` reads that form back as the same UUID
/// (it accepts the hyphenated form in either case).
#[verifier::external_body]
pub fn id_text(id: u128) -> (s: String)
    ensures
        s@ == uuid_text(id),
        reads_back_as(s@, id),
{
    uuid::Uuid::from_u128(id).to_string()
}

/// Calls `uuid::Uuid::parse_str(text)`. Claimed: the result, with the
/// error shown as text, is `uuid_parse(text)`.
#[verifier::external_body]
pub fn parse_id(text: &str) -> (r: Result<u128, String>)
    ensures
        match uuid_parse(text@) {
            Ok(id) => r == Ok::<u128, String>(id),
            Err(m) => r matches Err(e) && e@ == m,
        },
{
    match uuid::Uuid::parse_str(text) {
        Ok(u) => Ok(u.as_u128()),
        Err(e) => Err(e.to_string()),
    }
}

#[verifier::external_type_specification]
#[verifier::external_body]
pub struct ExSystemTime(std::time::SystemTime);

/// Calls `SystemTime::now`. Claimed: nothing; it is the clock's reading.
#[verifier::external_body]
fn clock_now() -> (t: std::time::SystemTime) {
    std::time::SystemTime::now()
}

/// Calls `SystemTime::duration_since(UNIX_EPOCH)`; `None` when the clock
/// reads before 1970. Claimed: nothing more.
#[verifier::external_body]
fn since_unix_epoch(t: std::time::SystemTime) -> (d: Option<core::time::Duration>) {
    t.duration_since(std::time::UNIX_EPOCH).ok()
}

/// `Duration::as_secs`: the whole seconds of a duration; nothing is
/// claimed of the value.
pub assume_specification[ core::time::Duration::as_secs ](d: &core::time::Duration) -> u64;

/// A time in whole seconds since 1970, as a signed number, given the
/// whole seconds the clock is past 1970 (`None` when it reads earlier,
/// which counts as 0).
pub fn seconds_since_epoch(since: Option<u64>) -> (t: i64)
    ensures
        t == match since {
            Some(s) => s as i64,
            None => 0i64,
        },
{
    match since {
        Some(s) => s as i64,
        None => 0,
    }
}

/// The current time in whole seconds since 1970, or 0 when the clock reads
/// earlier. The value is the clock's reading; see `seconds_since_epoch`
/// for what is made of it.
pub fn now_unix() -> (t: i64) {
    let since = match since_unix_epoch(clock_now()) {
        Some(d) => Some(d.as_secs()),
        None => None,
    };
    seconds_since_epoch(since)
}

} // verus!
