//! The calls that the store makes into other crates and into std where vstd
//! gives no specification. Each function here is trusted: its contract is
//! believed, not proved, and its doc comment says what it claims.

use vstd::prelude::*;

verus! {

/// `c` is a lower-case hexadecimal digit.
pub open spec fn is_lower_hex(c: char) -> bool {
    ('0' <= c && c <= '9') || ('a' <= c && c <= 'f')
}

/// `s` is the hyphenated lower-case text of a version-4 UUID: groups of 8, 4,
/// 4, 4 and 12 hexadecimal digits separated by hyphens, with version digit 4
/// and a variant digit among 8, 9, a and b.
pub open spec fn is_uuid_v4_text(s: Seq<char>) -> bool {
    &&& s.len() == 36
    &&& forall|i: int|
        0 <= i < 36 ==> if i == 8 || i == 13 || i == 18 || i == 23 {
            #[trigger] s[i] == '-'
        } else {
            is_lower_hex(s[i])
        }
    &&& s[14] == '4'
    &&& (s[19] == '8' || s[19] == '9' || s[19] == 'a' || s[19] == 'b')
}

/// A fresh random identifier: `uuid::Uuid::new_v4()` rendered by its
/// `Display` impl. The value is random; the contract states only its shape,
/// which `new_v4` (version and variant bits) and the crate's hyphenated
/// lower-case formatting give. That two calls give different values is not
/// stated.
#[verifier::external_body]
pub(crate) fn new_id() -> (r: String)
    ensures
        is_uuid_v4_text(r@),
{
    uuid::Uuid::new_v4().to_string()
}

/// The current time as RFC 3339 text: `chrono::Utc::now().to_rfc3339()`.
/// The value depends on the clock; the contract states what holds of every
/// reading (`is_clock_text`). `Utc::now` panics where the clock reads before
/// 1970.
#[verifier::external_body]
pub(crate) fn now_rfc3339() -> (r: String)
    ensures
        is_clock_text(r@),
{
    chrono::Utc::now().to_rfc3339()
}

/// Milliseconds since the Unix epoch of an RFC 3339 timestamp, `None` where
/// the text is not one: what `chrono::DateTime::parse_from_rfc3339` followed by
/// `timestamp_millis` gives.
pub uninterp spec fn rfc3339_millis(s: Seq<char>) -> Option<i64>;

/// `s` is a reading of the clock as `to_rfc3339` writes it: a year from 0 to
/// 9999 is written with four digits and the text reads back as a timestamp;
/// a later year is written with a leading `+`, which `parse_from_rfc3339`,
/// reading four digits for the year, refuses.
pub open spec fn is_clock_text(s: Seq<char>) -> bool {
    &&& s.len() > 0
    &&& if s[0] == '+' {
        rfc3339_millis(s) is None
    } else {
        rfc3339_millis(s) is Some
    }
}

/// Calls `chrono::DateTime::parse_from_rfc3339` and `timestamp_millis`. The
/// result is named by `rfc3339_millis`; beside the name the contract states
/// that every chrono timestamp (years within plus or minus 262143) lies
/// within plus or minus 10^16 milliseconds.
#[verifier::external_body]
pub(crate) fn parse_rfc3339_millis(s: &str) -> (r: Option<i64>)
    ensures
        r == rfc3339_millis(s@),
        r matches Some(m) ==> -10_000_000_000_000_000 < m < 10_000_000_000_000_000,
{
    match chrono::DateTime::parse_from_rfc3339(s) {
        Ok(t) => Some(t.timestamp_millis()),
        Err(_) => None,
    }
}

/// The Unicode lower-case mapping of a text, as `str::to_lowercase` gives it.
pub uninterp spec fn lowercase(s: Seq<char>) -> Seq<char>;

/// Every character of `s` is ASCII.
pub open spec fn is_ascii_text(s: Seq<char>) -> bool {
    forall|i: int| 0 <= i < s.len() ==> (#[trigger] s[i] as u32) < 128
}

/// `c` with an ASCII capital letter turned into its small letter.
pub open spec fn ascii_lower_char(c: char) -> char {
    let n = c as u32;
    if 65 <= n <= 90 {
        (n + 32) as char
    } else {
        c
    }
}

/// `s` with its ASCII capital letters turned into small letters.
pub open spec fn ascii_lowered(s: Seq<char>) -> Seq<char> {
    s.map_values(|c: char| ascii_lower_char(c))
}

/// Calls `str::to_lowercase`; its result is named by `lowercase`. Beside the
/// name the contract states the Unicode lower-case mapping of ASCII text: `A`
/// to `Z` become `a` to `z` and every other ASCII character stays.
#[verifier::external_body]
pub(crate) fn to_lower(s: &str) -> (r: String)
    ensures
        r@ == lowercase(s@),
        is_ascii_text(s@) ==> r@ == ascii_lowered(s@),
{
    s.to_lowercase()
}

} // verus!
