//! The next two transitions of a zone, by name.

use vstd::prelude::*;
use crate::clock::{dst_seconds, known_zone, MAX_PROBE, MIN_PROBE};
use crate::search::{
    lemma_next_transition, next_transition, snap_to_minute, transition_after, MINUTE, QUARTER,
    SEARCH_SPAN,
};
use crate::zone::Zone;

verus! {

/// The earliest reference instant a search accepts: the minute that holds it
/// starts at or after `MIN_PROBE`.
pub const MIN_REFERENCE: i64 = -7_999_999_999_940;

/// The latest reference instant from which two searches in a row, the second
/// starting a minute after the first one's result, probe nothing after
/// `MAX_PROBE`: two search spans and four minutes before it.
pub const MAX_REFERENCE: i64 = 7_999_937_791_760;

/// Why a zone has no transitions to report.
#[derive(Clone, Copy, Debug, PartialEq, Eq, Structural)]
pub enum Reason {
    /// The database has no zone of that name.
    UnknownZone,
    /// The DST component did not change within the search's bound.
    NoDstObserved,
}

/// The last minute before a zone's DST component changes.
#[derive(Clone, Debug, PartialEq, Eq)]
pub struct TransitionPoint {
    pub zone_name: String,
    /// Seconds since the Unix epoch, UTC: a whole minute, unless the zone's
    /// DST component changes twice within two minutes.
    pub instant: i64,
}

/// The next two transitions of a zone.
#[derive(Clone, Debug, PartialEq, Eq)]
pub struct TransitionPair {
    pub zone_name: String,
    pub first: TransitionPoint,
    pub second: TransitionPoint,
}

/// A zone without transitions to report, and why.
#[derive(Clone, Debug, PartialEq, Eq)]
pub struct ResolutionError {
    pub zone_name: String,
    pub reason: Reason,
}

impl TransitionPoint {
    /// The point of the named zone at that instant.
    pub open spec fn is(&self, zone: Seq<char>, instant: int) -> bool {
        self.zone_name@ == zone && self.instant == instant
    }
}

impl TransitionPair {
    /// The pair of the named zone with these two instants.
    pub open spec fn is(&self, zone: Seq<char>, first: int, second: int) -> bool {
        &&& self.zone_name@ == zone
        &&& self.first.is(zone, first)
        &&& self.second.is(zone, second)
    }

    /// The second transition comes after the first, and all three names agree.
    pub open spec fn wf(&self) -> bool {
        &&& self.first.instant < self.second.instant
        &&& self.first.zone_name@ == self.zone_name@
        &&& self.second.zone_name@ == self.zone_name@
    }
}

impl ResolutionError {
    /// The failure of the named zone for that reason.
    pub open spec fn is(&self, zone: Seq<char>, reason: Reason) -> bool {
        self.zone_name@ == zone && self.reason == reason
    }
}

/// The next two transitions of a known zone from `reference`: the first as
/// `next_transition` finds it, the second as it finds it from the minute after
/// the first, which shows the other regime. `None` where either search sees
/// no change.
pub open spec fn next_two(zone: Seq<char>, reference: int) -> Option<(int, int)> {
    match next_transition(zone, reference) {
        None => None,
        Some(first) => match next_transition(zone, first + MINUTE) {
            None => None,
            Some(second) => Some((first, second)),
        },
    }
}

/// What resolving `name` at `reference` gives.
pub open spec fn resolution(name: Seq<char>, reference: int) -> Result<(int, int), Reason> {
    if !known_zone(name) {
        Err(Reason::UnknownZone)
    } else {
        match next_two(name, reference) {
            Some(pair) => Ok(pair),
            None => Err(Reason::NoDstObserved),
        }
    }
}

/// Whether `outcome` reports `expected` for the named zone.
pub open spec fn reports(
    outcome: Result<TransitionPair, ResolutionError>,
    name: Seq<char>,
    expected: Result<(int, int), Reason>,
) -> bool {
    match expected {
        Ok((first, second)) => outcome matches Ok(pair) && pair.is(name, first, second),
        Err(reason) => outcome matches Err(error) && error.is(name, reason),
    }
}

/// The latest reference instant from which one search probes nothing after
/// `MAX_PROBE`.
pub const MAX_SINGLE_REFERENCE: i64 = 7_999_968_895_880;

/// Finds the zone's next DST transition from `reference`: the last minute that
/// shows the DST component of `reference` before a minute that shows another.
/// It fails where the component at each of the four quarter probes after
/// `reference` is that at `reference`.
pub fn find_next_transition(zone: &Zone, reference: i64) -> (found: Result<
    TransitionPoint,
    ResolutionError,
>)
    requires
        MIN_REFERENCE <= reference <= MAX_SINGLE_REFERENCE,
    ensures
        match next_transition(zone@, reference as int) {
            Some(t) => found matches Ok(point) && point.is(zone@, t),
            None => found matches Err(error) && error.is(zone@, Reason::NoDstObserved),
        },
        found matches Ok(point) ==> {
            &&& dst_seconds(zone@, point.instant as int) == dst_seconds(zone@, reference as int)
            &&& dst_seconds(zone@, point.instant + MINUTE) != dst_seconds(zone@, reference as int)
            &&& reference - MINUTE < point.instant <= reference + SEARCH_SPAN + MINUTE
        },
        found is Err <==> {
            &&& dst_seconds(zone@, reference + QUARTER) == dst_seconds(zone@, reference as int)
            &&& dst_seconds(zone@, reference + 2 * QUARTER) == dst_seconds(zone@, reference as int)
            &&& dst_seconds(zone@, reference + 3 * QUARTER) == dst_seconds(zone@, reference as int)
            &&& dst_seconds(zone@, reference + 4 * QUARTER) == dst_seconds(zone@, reference as int)
        },
        known_zone(zone@),
{
    proof {
        crate::search::lemma_quarter_probes(zone@, reference as int);
    }
    let flag = zone.dst_at(reference);
    match transition_after(zone, reference) {
        Some(raw) => {
            proof {
                lemma_next_transition(zone@, reference as int);
            }
            let instant = snap_to_minute(zone, flag, raw);
            Ok(TransitionPoint { zone_name: zone.name().to_owned(), instant })
        },
        None => Err(
            ResolutionError { zone_name: zone.name().to_owned(), reason: Reason::NoDstObserved },
        ),
    }
}

/// Finds the next two transitions of a zone that has been looked up. A second
/// search that sees no change fails the whole resolution with `NoDstObserved`:
/// a pair is never reported by half.
pub fn resolve_known(zone: &Zone, reference: i64) -> (outcome: Result<
    TransitionPair,
    ResolutionError,
>)
    requires
        MIN_REFERENCE <= reference <= MAX_REFERENCE,
    ensures
        reports(outcome, zone@, resolution(zone@, reference as int)),
        outcome matches Ok(pair) ==> pair.wf(),
{
    let first = match find_next_transition(zone, reference) {
        Ok(point) => point,
        Err(error) => { return Err(error); },
    };
    let after: i64 = first.instant + MINUTE;
    match find_next_transition(zone, after) {
        Ok(second) => Ok(TransitionPair { zone_name: zone.name().to_owned(), first, second }),
        Err(error) => Err(error),
    }
}

/// Resolves `name` and finds the zone's next two transitions from
/// `reference`. An unknown name fails before any search is made.
pub fn resolve_zone(name: &str, reference: i64) -> (outcome: Result<TransitionPair, ResolutionError>)
    requires
        MIN_REFERENCE <= reference <= MAX_REFERENCE,
    ensures
        reports(outcome, name@, resolution(name@, reference as int)),
        outcome matches Ok(pair) ==> pair.wf(),
{
    match Zone::resolve(name) {
        Some(zone) => resolve_known(&zone, reference),
        None => Err(ResolutionError { zone_name: name.to_owned(), reason: Reason::UnknownZone }),
    }
}

/// Resolves each name in turn. No zone's failure touches another's outcome:
/// the result holds one outcome per name, in the order of the names.
pub fn resolve_all(names: &Vec<String>, reference: i64) -> (outcomes: Vec<
    Result<TransitionPair, ResolutionError>,
>)
    requires
        MIN_REFERENCE <= reference <= MAX_REFERENCE,
    ensures
        outcomes.len() == names.len(),
        forall|i: int|
            0 <= i < names.len() ==> reports(
                #[trigger] outcomes[i],
                names[i]@,
                resolution(names[i]@, reference as int),
            ),
        forall|i: int|
            0 <= i < names.len() ==> (#[trigger] outcomes[i] matches Ok(pair) ==> pair.wf()),
{
    let mut outcomes: Vec<Result<TransitionPair, ResolutionError>> = Vec::new();
    let mut done: usize = 0;
    while done < names.len()
        invariant
            done <= names.len(),
            outcomes.len() == done,
            MIN_REFERENCE <= reference <= MAX_REFERENCE,
            forall|i: int|
                0 <= i < done ==> reports(
                    #[trigger] outcomes[i],
                    names[i]@,
                    resolution(names[i]@, reference as int),
                ),
            forall|i: int| 0 <= i < done ==> (#[trigger] outcomes[i] matches Ok(pair) ==> pair.wf()),
        decreases names.len() - done,
    {
        let outcome = resolve_zone(names[done].as_str(), reference);
        outcomes.push(outcome);
        done = done + 1;
    }
    outcomes
}

} // verus!
