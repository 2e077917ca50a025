//! Readings of the wall clock.

use vstd::prelude::*;

verus! {

/// `c` is an ASCII decimal digit.
pub open spec fn is_digit(c: char) -> bool {
    '0' <= c <= '9'
}

/// `s[at]` and `s[at + 1]` are decimal digits, and the number they write is
/// below `bound`.
pub open spec fn two_digits_below(s: Seq<char>, at: int, bound: int) -> bool {
    &&& 0 <= at
    &&& at + 2 <= s.len()
    &&& is_digit(s[at])
    &&& is_digit(s[at + 1])
    &&& (s[at] as int - '0' as int) * 10 + (s[at + 1] as int - '0' as int) < bound
}

/// `s[from..to]` holds decimal digits only.
pub open spec fn digits_between(s: Seq<char>, from: int, to: int) -> bool {
    forall|i: int| from <= i < to ==> is_digit(#[trigger] s[i])
}

/// `s[at..at + 8]` is a time of day `HH:MM:SS`: hour below 24, minute and
/// second below 60.
pub open spec fn clock_time_at(s: Seq<char>, at: int) -> bool {
    &&& two_digits_below(s, at, 24)
    &&& s[at + 2] == ':'
    &&& two_digits_below(s, at + 3, 60)
    &&& s[at + 5] == ':'
    &&& two_digits_below(s, at + 6, 60)
}

/// `s` is an RFC 3339 UTC timestamp whose `T` stands at `t` and whose
/// fraction of a second takes `f` characters (see `rfc3339_utc`).
pub open spec fn rfc3339_utc_at(s: Seq<char>, t: int, f: int) -> bool {
    &&& 10 <= t
    &&& (t == 10 && digits_between(s, 0, 4) || t > 10 && s[0] == '+' && digits_between(s, 1, t - 6))
    &&& s[t - 6] == '-'
    &&& two_digits_below(s, t - 5, 13)
    &&& s[t - 3] == '-'
    &&& two_digits_below(s, t - 2, 32)
    &&& s[t] == 'T'
    &&& clock_time_at(s, t + 1)
    &&& (f == 0 || f == 4 || f == 7 || f == 10)
    &&& (f > 0 ==> s[t + 9] == '.' && digits_between(s, t + 10, t + 9 + f))
    &&& s.len() == t + 9 + f + 6
    &&& s.subrange(t + 9 + f, s.len() as int) == seq!['+', '0', '0', ':', '0', '0']
}

/// `s` is an RFC 3339 UTC timestamp as chrono's `to_rfc3339` writes one
/// for a time after 1970: the year (four digits, or `+` and more digits
/// past 9999), `-MM-DD`, `T`, `HH:MM:SS`, no fraction or a dot and 3, 6 or 9
/// digits, and the offset `+00:00`.
pub open spec fn rfc3339_utc(s: Seq<char>) -> bool {
    exists|t: int, f: int| #[trigger] rfc3339_utc_at(s, t, f)
}

/// The local time of day, as chrono's `Local::now().format("%H:%M:%S")`
/// renders it: two digits each for hour (below 24), minute and second
/// (below 60), separated by colons. Which time it is depends on the moment
/// of the call.
#[verifier::external_body]
pub fn local_time_of_day() -> (s: String)
    ensures
        s@.len() == 8,
        clock_time_at(s@, 0),
{
    chrono::Local::now().format("%H:%M:%S").to_string()
}

/// The current UTC time in RFC 3339 form, as chrono's
/// `Utc::now().to_rfc3339()` renders it. Which time it is depends on the
/// moment of the call; its shape is that of `rfc3339_utc`.
#[verifier::external_body]
pub fn utc_now_rfc3339() -> (s: String)
    ensures
        rfc3339_utc(s@),
{
    chrono::Utc::now().to_rfc3339()
}

} // verus!
