//! The current time, read through the `time` crate. Everything read here
//! depends on the clock, so nothing is stated of it.

use vstd::prelude::*;

verus! {

/// `time::OffsetDateTime`, carried through unopened.
#[verifier::external_type_specification]
#[verifier::external_body]
pub struct ExOffsetDateTime(time::OffsetDateTime);

/// A moment read from the clock, in UTC. Its field is private to this
/// module, so `utc_now` is the only way to get one.
pub struct UtcMoment {
    moment: time::OffsetDateTime,
}

/// `OffsetDateTime::now_utc()`: the current moment, with the UTC offset.
#[verifier::external_body]
pub(crate) fn utc_now() -> (r: UtcMoment) {
    UtcMoment { moment: time::OffsetDateTime::now_utc() }
}

pub open spec fn is_digit_at(s: Seq<char>, i: int) -> bool {
    crate::text::is_ascii_digit(s[i])
}

/// The shape of an RFC 3339 date-time as the `time` crate writes it:
/// `YYYY-MM-DDTHH:MM:SS`, then an optional fraction and the offset (`Z` or
/// `+hh:mm`), so at least one more character.
pub open spec fn rfc3339_shaped(s: Seq<char>) -> bool {
    &&& s.len() >= 20
    &&& is_digit_at(s, 0) && is_digit_at(s, 1) && is_digit_at(s, 2) && is_digit_at(s, 3)
    &&& s[4] == '-'
    &&& is_digit_at(s, 5) && is_digit_at(s, 6)
    &&& s[7] == '-'
    &&& is_digit_at(s, 8) && is_digit_at(s, 9)
    &&& s[10] == 'T'
    &&& is_digit_at(s, 11) && is_digit_at(s, 12)
    &&& s[13] == ':'
    &&& is_digit_at(s, 14) && is_digit_at(s, 15)
    &&& s[16] == ':'
    &&& is_digit_at(s, 17) && is_digit_at(s, 18)
}

/// `OffsetDateTime::format` with the RFC 3339 description: the moment as
/// RFC 3339 text, or `None` where the crate cannot format it. The crate's
/// source writes a four-digit year, `-`, two-digit month, `-`, two-digit
/// day, `T`, two-digit hour, `:`, minute, `:`, second, then an optional
/// fraction and the offset, which is `Z` for a moment whose offset is UTC,
/// as every `UtcMoment` is. The contract claims that shape of every text it
/// returns, nothing of which moment it is.
#[verifier::external_body]
pub(crate) fn rfc3339_text(moment: &UtcMoment) -> (r: Option<String>)
    ensures
        r matches Some(t) ==> rfc3339_shaped(t@) && t@.last() == 'Z',
{
    moment.moment.format(&time::format_description::well_known::Rfc3339).ok()
}

/// `OffsetDateTime::unix_timestamp`: whole seconds since the Unix epoch.
#[verifier::external_body]
pub(crate) fn unix_seconds(moment: &UtcMoment) -> (r: i64) {
    moment.moment.unix_timestamp()
}

/// `OffsetDateTime::to_julian_day`: the Julian day number of the moment's
/// date.
#[verifier::external_body]
pub(crate) fn julian_day_of(moment: &UtcMoment) -> (r: i32) {
    moment.moment.to_julian_day()
}

} // verus!
