//! The zone database, as far as the search reads it.
//!
//! Nothing in this file is proved: the functions below call `chrono` and
//! `chrono-tz`, and their contracts say what the sources of the two show.

use vstd::prelude::*;

verus! {

/// The earliest instant at which the library probes a zone.
pub const MIN_PROBE: i64 = -8_000_000_000_000;

/// The latest instant at which the library probes a zone.
///
/// Both limits lie some 253,000 years from 1970, inside the 262,000 years
/// either side of year 0 that `chrono` can represent.
pub const MAX_PROBE: i64 = 8_000_000_000_000;

/// Whether the zone database holds a zone of exactly this name.
pub uninterp spec fn known_zone(name: Seq<char>) -> bool;

/// The DST component, in seconds, of the named zone's UTC offset at the given
/// instant: zero while standard time is in effect. `None` where the name is
/// unknown or the instant cannot be represented.
pub uninterp spec fn dst_seconds(name: Seq<char>, utc_seconds: int) -> Option<i64>;

/// The instant as the named zone's wall clock shows it: date, time of day and
/// the abbreviation in use. `None` where the name is unknown or the instant
/// cannot be represented.
pub uninterp spec fn local_text(name: Seq<char>, utc_seconds: int) -> Option<Seq<char>>;

/// Calls `<chrono_tz::Tz as FromStr>::from_str`, which looks the name up in the
/// table of zones compiled into `chrono-tz`, and tells whether it was found.
#[verifier::external_body]
pub(crate) fn zone_is_known(name: &str) -> (known: bool)
    ensures
        known == known_zone(name@),
{
    name.parse::<chrono_tz::Tz>().is_ok()
}

/// Calls `chrono::TimeZone::timestamp_opt` on the zone of that name and reads
/// `chrono_tz::OffsetComponents::dst_offset` of the offset in effect there.
///
/// The zone table is part of the compiled crate, so the result depends on the
/// two arguments alone. `timestamp_opt` answers for every instant that
/// `chrono` can represent, and the zone's table covers every instant, so a
/// known zone always gets an answer between `MIN_PROBE` and `MAX_PROBE`.
#[verifier::external_body]
pub(crate) fn dst_offset_at(name: &str, utc_seconds: i64) -> (dst: Option<i64>)
    ensures
        dst == dst_seconds(name@, utc_seconds as int),
        known_zone(name@) && MIN_PROBE <= utc_seconds <= MAX_PROBE ==> dst.is_some(),
{
    let zone = name.parse::<chrono_tz::Tz>().ok()?;
    let local = chrono::TimeZone::timestamp_opt(&zone, utc_seconds, 0).single()?;
    Some(chrono_tz::OffsetComponents::dst_offset(chrono::DateTime::offset(&local)).num_seconds())
}

/// Calls `chrono::TimeZone::timestamp_opt` on the zone of that name and
/// `to_string` on the date-time it gives, which writes the local date and time
/// and then the zone's abbreviation at that instant.
///
/// Neither reads anything but the two arguments and the compiled zone table.
/// As for `dst_offset_at`, a known zone gets an answer at every instant
/// between `MIN_PROBE` and `MAX_PROBE`.
#[verifier::external_body]
pub(crate) fn format_local(name: &str, utc_seconds: i64) -> (text: Option<String>)
    ensures
        match text {
            Some(written) => local_text(name@, utc_seconds as int) == Some(written@),
            None => local_text(name@, utc_seconds as int).is_none(),
        },
        known_zone(name@) && MIN_PROBE <= utc_seconds <= MAX_PROBE ==> text.is_some(),
{
    let zone = name.parse::<chrono_tz::Tz>().ok()?;
    let local = chrono::TimeZone::timestamp_opt(&zone, utc_seconds, 0).single()?;
    Some(local.to_string())
}

} // verus!
