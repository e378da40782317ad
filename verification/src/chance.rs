//! What depends on chance or on the clock.

use vstd::prelude::*;

use rand::seq::SliceRandom;
use rand::{Rng, RngCore};

use crate::text::{lemma_hex_digits, opt_string, print_hex};

verus! {

/// Whether a character is a lower-case hexadecimal digit.
pub open spec fn is_hex_digit(c: char) -> bool {
    0x30 <= c as u32 <= 0x39 || 0x61 <= c as u32 <= 0x66
}

/// The shape of a hyphenated UUID: 36 characters, hyphens at four places and
/// hexadecimal digits at the others.
pub open spec fn is_uuid(s: Seq<char>) -> bool {
    &&& s.len() == 36
    &&& forall|i: int|
        0 <= i < 36 ==> (if i == 8 || i == 13 || i == 18 || i == 23 {
            #[trigger] s[i] == '-'
        } else {
            is_hex_digit(s[i])
        })
}

/// `uuid::Uuid::new_v4` in its hyphenated form. Which one comes out is chance.
#[verifier::external_body]
pub(crate) fn new_uuid() -> (r: String)
    ensures
        is_uuid(r@),
{
    uuid::Uuid::new_v4().to_string()
}

/// The first second of chrono's calendar, counted from the Unix epoch.
pub const MIN_UTC_SECS: i64 = -8_334_601_228_800;

/// The last second of chrono's calendar, counted from the Unix epoch.
pub const MAX_UTC_SECS: i64 = 8_210_266_876_799;

/// Whether chrono's calendar has a second.
pub open spec fn in_calendar(secs: int) -> bool {
    MIN_UTC_SECS <= secs <= MAX_UTC_SECS
}

/// `chrono::Utc::now` as the seconds since the Unix epoch and the nanoseconds
/// within the second. It does not return where the clock stands before the epoch.
/// Which time it is stays open.
#[verifier::external_body]
pub(crate) fn utc_now() -> (r: (i64, u32))
    ensures
        0 <= r.0 <= MAX_UTC_SECS,
        r.1 < 1_000_000_000,
{
    let t = chrono::Utc::now();
    (t.timestamp(), t.timestamp_subsec_nanos())
}

/// A time as [`write_rfc3339`] writes it.
pub uninterp spec fn rfc3339_text(secs: i64, nanos: u32) -> Seq<char>;

/// The form of a time in UTC: a date, a time of day, and an offset of zero at
/// the end.
pub open spec fn is_utc_time(s: Seq<char>) -> bool {
    s.len() >= 25 && "+00:00"@.is_suffix_of(s)
}

/// `chrono::DateTime::to_rfc3339` of the UTC time that
/// `chrono::DateTime::from_timestamp` gives: the text named [`rfc3339_text`]. It
/// has at least the 25 characters of a date, a time and an offset, and the offset
/// is `+00:00`.
#[verifier::external_body]
pub(crate) fn write_rfc3339(secs: i64, nanos: u32) -> (r: String)
    requires
        in_calendar(secs as int),
        nanos < 1_000_000_000,
    ensures
        r@ == rfc3339_text(secs, nanos),
        is_utc_time(r@),
{
    let time = chrono::DateTime::<chrono::Utc>::from_timestamp(secs, nanos);
    time.map(|t| t.to_rfc3339()).unwrap_or_default()
}

/// The time that it is, in RFC 3339 and in UTC.
pub(crate) fn now_rfc3339() -> (r: String)
    ensures
        is_utc_time(r@),
{
    let (secs, nanos) = utc_now();
    write_rfc3339(secs, nanos)
}

/// `std::time::SystemTime::now` as nanoseconds since the Unix epoch, zero where
/// the clock stands before it. Nothing is said of the time that it is.
#[verifier::external_body]
pub(crate) fn unix_nanos() -> (r: u128) {
    let now = std::time::SystemTime::now();
    now.duration_since(std::time::UNIX_EPOCH).unwrap_or_default().as_nanos()
}

/// What [`format_utc`] makes of a time; none where there is no such time.
pub uninterp spec fn utc_text(secs: i64, nanos: u32) -> Option<Seq<char>>;

/// `chrono::DateTime::from_timestamp`, written out with milliseconds and a `Z` by
/// its `format`: the text named [`utc_text`].
#[verifier::external_body]
pub(crate) fn format_utc(secs: i64, nanos: u32) -> (r: Option<String>)
    ensures
        opt_string(r) == utc_text(secs, nanos),
{
    let time = chrono::DateTime::<chrono::Utc>::from_timestamp(secs, nanos);
    time.map(|t| t.format("%Y-%m-%dT%H:%M:%S%.3fZ").to_string())
}

/// What [`parse_uuid`] makes of a text: the identifier in its canonical form, or
/// why it is none.
pub uninterp spec fn uuid_parsed(s: Seq<char>) -> Result<Seq<char>, Seq<char>>;

/// `uuid::Uuid::parse_str`, back in its hyphenated form, with its error as text:
/// the result named [`uuid_parsed`].
#[verifier::external_body]
pub(crate) fn parse_uuid(s: &str) -> (r: Result<String, String>)
    ensures
        text_result(r) == uuid_parsed(s@),
{
    uuid::Uuid::parse_str(s).map(|u| u.to_string()).map_err(|e| e.to_string())
}

/// What [`parse_rfc3339`] makes of a text: the time in UTC, in RFC 3339, or why
/// it is none.
pub uninterp spec fn rfc3339_parsed(s: Seq<char>) -> Result<Seq<char>, Seq<char>>;

/// `chrono::DateTime::parse_from_rfc3339`, taken to UTC and back in RFC 3339, with
/// its error as text: the result named [`rfc3339_parsed`].
#[verifier::external_body]
pub(crate) fn parse_rfc3339(s: &str) -> (r: Result<String, String>)
    ensures
        text_result(r) == rfc3339_parsed(s@),
{
    let parsed = chrono::DateTime::parse_from_rfc3339(s);
    parsed.map(|t| t.with_timezone(&chrono::Utc).to_rfc3339()).map_err(|e| e.to_string())
}

/// The text or the complaint that a parse came to.
pub open spec fn text_result(r: Result<String, String>) -> Result<Seq<char>, Seq<char>> {
    match r {
        Ok(s) => Ok(s@),
        Err(e) => Err(e@),
    }
}

/// Sixteen bytes from `rand::thread_rng`. Which ones is chance.
#[verifier::external_body]
fn sixteen_bytes() -> (r: Vec<u8>)
    ensures
        r@.len() == 16,
{
    let mut bytes = vec![0u8; 16];
    rand::thread_rng().fill_bytes(&mut bytes);
    bytes
}

/// `rand::Rng::gen_range` over an inclusive range. Which number of the range
/// comes out is chance.
#[verifier::external_body]
pub(crate) fn between(lo: i64, hi: i64) -> (r: i64)
    requires
        lo <= hi,
    ensures
        lo <= r <= hi,
{
    rand::thread_rng().gen_range(lo..=hi)
}

/// `rand::seq::SliceRandom::choose`: one of the bytes, or none where there are
/// none. Which one is chance.
#[verifier::external_body]
pub(crate) fn pick(bytes: &[u8]) -> (r: Option<u8>)
    ensures
        match r {
            Some(b) => bytes@.contains(b),
            None => bytes@.len() == 0,
        },
{
    bytes.choose(&mut rand::thread_rng()).copied()
}

/// Whether a text is the hexadecimal form of sixteen bytes.
pub open spec fn is_token(s: Seq<char>) -> bool {
    s.len() == 32 && forall|i: int| 0 <= i < 32 ==> is_hex_digit(#[trigger] s[i])
}

/// A token of sixteen random bytes in lower-case hexadecimal: a value that a
/// callback has to echo, or the credential of a widget.
pub fn generate_token() -> (r: String)
    ensures
        is_token(r@),
{
    let bytes = sixteen_bytes();
    proof {
        lemma_hex_digits(bytes@);
    }
    print_hex(&bytes)
}

} // verus!
