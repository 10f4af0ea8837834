//! Points in time as text.
use vstd::prelude::*;

verus! {

/// The point in time `seconds` and `nanos` after the start of 1970 (UTC), as
/// RFC 2822 writes it; `None` where `nanos` is no part of a second.
pub uninterp spec fn rfc2822_of(seconds: i64, nanos: u32) -> Option<Seq<char>>;

/// The first second of the year 0 and of the year 10000, counted from the
/// start of 1970: RFC 2822 writes the years between them.
pub const YEAR_0: i64 = -62_167_219_200;

pub const YEAR_10000: i64 = 253_402_300_800;

/// The text of a point in time, where there is one.
pub open spec fn date_text(seconds: i64, nanos: u32) -> Option<Seq<char>> {
    if YEAR_0 <= seconds < YEAR_10000 {
        rfc2822_of(seconds, nanos)
    } else {
        None
    }
}

/// `DateTime::from_timestamp` and `DateTime::to_rfc2822` of the chrono
/// crate. The result is the one that `rfc2822_of` names. `to_rfc2822` stops
/// the program on a year that has not one to four digits: those are left out.
#[verifier::external_body]
fn rfc2822(seconds: i64, nanos: u32) -> (text: Option<String>)
    requires
        YEAR_0 <= seconds < YEAR_10000,
    ensures
        crate::text::opt_string_view(text) == rfc2822_of(seconds, nanos),
{
    chrono::DateTime::from_timestamp(seconds, nanos).map(|time| time.to_rfc2822())
}

/// A point in time as RFC 2822 writes it; `None` where it lies outside the
/// years 0 to 9999 or `nanos` is no part of a second.
pub fn date_string(seconds: i64, nanos: u32) -> (text: Option<String>)
    ensures
        crate::text::opt_string_view(text) == date_text(seconds, nanos),
{
    if YEAR_0 <= seconds && seconds < YEAR_10000 {
        rfc2822(seconds, nanos)
    } else {
        None
    }
}

} // verus!
