//! The wall clock, read for the time stamps of console messages.

use vstd::prelude::*;

verus! {

/// Whether `c` is one of the ASCII digits.
pub open spec fn is_ascii_digit(c: char) -> bool {
    '0' <= c && c <= '9'
}

/// The shape of a time of day written as `HH:MM:SS.mmm`: twelve characters,
/// colons after the hours and the minutes, a point before the milliseconds,
/// and digits everywhere else.
pub open spec fn is_time_of_day_stamp(s: Seq<char>) -> bool {
    &&& s.len() == 12
    &&& s[2] == ':'
    &&& s[5] == ':'
    &&& s[8] == '.'
    &&& forall|i: int|
        0 <= i < 12 && i != 2 && i != 5 && i != 8 ==> #[trigger] is_ascii_digit(s[i])
}

/// Calls `chrono::Local::now()` and formats it with the pattern
/// `%H:%M:%S%.3f`. Which time it reads is up to the machine; the contract
/// claims only the shape that chrono's formatter gives every time of day:
/// two-digit hours, minutes and seconds, a point and three digits of
/// milliseconds.
#[verifier::external_body]
pub(crate) fn local_time_of_day() -> (stamp: String)
    ensures
        is_time_of_day_stamp(stamp@),
{
    chrono::Local::now().format("%H:%M:%S%.3f").to_string()
}

} // verus!
