//! What holds of every search and every resolution.

use vstd::prelude::*;
use crate::clock::{dst_seconds, known_zone};
use crate::resolve::{reports, resolution, Reason, ResolutionError, TransitionPair};
use crate::search::{
    lemma_minute_floor, lemma_next_transition, lemma_quarter_probes, lemma_stops,
    lemma_transition_is_last_minute, minute_floor, minute_stop, next_transition, quarter_stop,
    steps_to_hit, transition_from, MINUTE, QUARTER, QUARTER_PROBES, SEARCH_SPAN,
};

verus! {

/// Of two instants a whole number of minutes apart, the later is at least a
/// minute later.
proof fn lemma_a_minute_apart(from: int, to: int)
    requires
        (to - from) % 60 == 0,
        from < to,
    ensures
        from + 60 <= to,
{
}

/// The first transition of a pair lies in or after the minute that holds the
/// reference, the second strictly after the first. The first shows the DST
/// component of the reference and ends its regime; the second ends the regime
/// that follows. From a whole-minute reference both are whole minutes.
pub proof fn lemma_pair_is_ordered(name: Seq<char>, reference: int, first: int, second: int)
    requires
        resolution(name, reference) == Ok::<(int, int), Reason>((first, second)),
    ensures
        minute_floor(reference) <= first < second,
        dst_seconds(name, first) == dst_seconds(name, reference),
        dst_seconds(name, first + MINUTE) != dst_seconds(name, first),
        dst_seconds(name, second) == dst_seconds(name, first + MINUTE),
        dst_seconds(name, second + MINUTE) != dst_seconds(name, second),
        reference % 60 == 0 ==> first % 60 == 0 && second % 60 == 0,
{
    assert(next_transition(name, reference) == Some(first));
    assert(next_transition(name, first + MINUTE) == Some(second));
    lemma_next_transition(name, reference);
    lemma_next_transition(name, first + MINUTE);
    lemma_minute_floor(first + MINUTE);
    if reference % 60 == 0 {
        assert((first + 60) % 60 == 0);
    }
}

/// Both transitions of a pair fall strictly after the reference, and the
/// second strictly after the first, where the reference is not in the last
/// minute before a change: where the DST component a minute after it is still
/// its own.
pub proof fn lemma_pair_follows_reference(name: Seq<char>, reference: int, first: int, second: int)
    requires
        resolution(name, reference) == Ok::<(int, int), Reason>((first, second)),
        dst_seconds(name, reference + MINUTE) == dst_seconds(name, reference),
    ensures
        reference < first < second,
{
    lemma_pair_is_ordered(name, reference, first, second);
    assert(next_transition(name, reference) == Some(first));
    lemma_next_transition(name, reference);
    lemma_transition_is_last_minute(name, reference);
    let raw = transition_from(name, reference).unwrap();
    lemma_a_minute_apart(reference, raw);
}

/// A name that the database does not hold is reported as unknown, whatever
/// the reference.
pub proof fn lemma_unknown_name_is_reported(name: Seq<char>, reference: int)
    requires
        !known_zone(name),
    ensures
        resolution(name, reference) == Err::<(int, int), Reason>(Reason::UnknownZone),
{
}

/// A known zone that shows the DST component of the reference at each of the
/// four quarter probes after it has no transition to report.
pub proof fn lemma_zone_without_dst(name: Seq<char>, reference: int)
    requires
        known_zone(name),
        dst_seconds(name, reference + QUARTER) == dst_seconds(name, reference),
        dst_seconds(name, reference + 2 * QUARTER) == dst_seconds(name, reference),
        dst_seconds(name, reference + 3 * QUARTER) == dst_seconds(name, reference),
        dst_seconds(name, reference + 4 * QUARTER) == dst_seconds(name, reference),
    ensures
        resolution(name, reference) == Err::<(int, int), Reason>(Reason::NoDstObserved),
{
    lemma_quarter_probes(name, reference);
}

/// Two outcomes that report the resolution of one name at one reference
/// agree: on success or failure, on both instants, on the reason and on the
/// names they carry.
pub proof fn lemma_same_question_same_answer(
    name: Seq<char>,
    reference: int,
    once: Result<TransitionPair, ResolutionError>,
    again: Result<TransitionPair, ResolutionError>,
)
    requires
        reports(once, name, resolution(name, reference)),
        reports(again, name, resolution(name, reference)),
    ensures
        once.is_ok() == again.is_ok(),
        once matches Ok(p) ==> again matches Ok(q) && q.is(
            p.zone_name@,
            p.first.instant as int,
            p.second.instant as int,
        ),
        once matches Err(e) ==> again matches Err(f) && f.is(e.zone_name@, e.reason),
{
}

/// The sweeps find the earliest change. Look at the instants a whole number
/// of minutes after `base` only. Let the DST component keep its value from
/// `base` up to `change`, one of them and less than four quarters away, and
/// have another value from there on for a quarter. Then the sweeps from
/// `base` stop at `change`.
pub proof fn lemma_finds_earliest_change(zone: Seq<char>, base: int, change: int)
    requires
        base <= change < base + SEARCH_SPAN,
        (change - base) % 60 == 0,
        forall|t: int|
            base <= t <= change && (t - base) % 60 == 0 ==> #[trigger] dst_seconds(zone, t)
                == dst_seconds(zone, base),
        forall|t: int|
            change < t <= change + QUARTER && (t - base) % 60 == 0 ==> #[trigger] dst_seconds(
                zone,
                t,
            ) != dst_seconds(zone, base),
    ensures
        transition_from(zone, base) == Some(change),
{
    let flag = dst_seconds(zone, base);
    reveal_with_fuel(steps_to_hit, 5);
    let hit = steps_to_hit(zone, flag, base, QUARTER as int, true, QUARTER_PROBES as nat);
    assert((base + QUARTER - base) % 60 == 0);
    assert((base + QUARTER + QUARTER - base) % 60 == 0);
    assert((base + QUARTER + QUARTER + QUARTER - base) % 60 == 0);
    assert((base + QUARTER + QUARTER + QUARTER + QUARTER - base) % 60 == 0);
    assert(hit.is_some() && change < quarter_stop(base, hit.unwrap()) <= change + QUARTER) by {
        if change < base + QUARTER {
            assert(dst_seconds(zone, base + QUARTER) != flag);
        } else if change < base + 2 * QUARTER {
            assert(dst_seconds(zone, base + QUARTER) == flag);
            assert(dst_seconds(zone, base + QUARTER + QUARTER) != flag);
        } else if change < base + 3 * QUARTER {
            assert(dst_seconds(zone, base + QUARTER) == flag);
            assert(dst_seconds(zone, base + QUARTER + QUARTER) == flag);
            assert(dst_seconds(zone, base + QUARTER + QUARTER + QUARTER) != flag);
        } else {
            assert(dst_seconds(zone, base + QUARTER) == flag);
            assert(dst_seconds(zone, base + QUARTER + QUARTER) == flag);
            assert(dst_seconds(zone, base + QUARTER + QUARTER + QUARTER) == flag);
            assert(dst_seconds(zone, base + QUARTER + QUARTER + QUARTER + QUARTER) != flag);
        }
    }
    let quarters = hit.unwrap();
    lemma_stops(zone, base, quarters);
    let found = minute_stop(zone, base, quarters) - MINUTE;
    assert(found - base == (minute_stop(zone, base, quarters) - base) - 60);
    assert((found - base) % 60 == 0);
    assert((found + MINUTE - base) % 60 == 0);
    assert(base <= found);
    assert(found + MINUTE <= change + QUARTER);
    assert(dst_seconds(zone, found) == flag);
    assert(dst_seconds(zone, found + MINUTE) != flag);
    assert(found <= change);
    assert(found + MINUTE > change);
    assert((change - found) % 60 == 0);
}

/// A whole-minute reference on the last minute before a change is its own
/// answer: where the DST component differs from that at `reference` at every
/// whole minute of the quarter that follows it, the search returns
/// `reference`.
pub proof fn lemma_last_minute_is_fixed(zone: Seq<char>, reference: int)
    requires
        reference % 60 == 0,
        forall|t: int|
            reference < t <= reference + QUARTER && t % 60 == 0 ==> #[trigger] dst_seconds(zone, t)
                != dst_seconds(zone, reference),
    ensures
        next_transition(zone, reference) == Some(reference),
{
    assert forall|t: int|
        reference < t <= reference + QUARTER && (t - reference) % 60 == 0 implies #[trigger] dst_seconds(
        zone,
        t,
    ) != dst_seconds(zone, reference) by {
        assert(t % 60 == 0);
    }
    lemma_finds_earliest_change(zone, reference, reference);
    lemma_next_transition(zone, reference);
}

/// The search reports the last whole minute before the earliest change. Let
/// the DST component be that of `reference` from the minute that holds
/// `reference` up to `change_at`, a later whole minute at most four quarters
/// after `reference`, and another from `change_at` on for a quarter. Then the
/// search returns the minute before `change_at`.
pub proof fn lemma_finds_minute_before_change(zone: Seq<char>, reference: int, change_at: int)
    requires
        change_at % 60 == 0,
        reference < change_at <= reference + SEARCH_SPAN,
        forall|t: int|
            minute_floor(reference) <= t < change_at ==> #[trigger] dst_seconds(zone, t)
                == dst_seconds(zone, reference),
        forall|t: int|
            change_at <= t <= change_at + QUARTER ==> #[trigger] dst_seconds(zone, t)
                != dst_seconds(zone, reference),
    ensures
        next_transition(zone, reference) == Some(change_at - MINUTE),
{
    lemma_minute_floor(reference);
    let last = change_at - 60 + (reference - minute_floor(reference));
    assert(minute_floor(reference) + 60 <= change_at) by {
        lemma_a_minute_apart(minute_floor(reference), change_at);
    }
    assert((last - reference) % 60 == 0) by {
        assert(last - reference == (change_at - 60) - minute_floor(reference));
    }
    assert forall|t: int|
        last < t <= last + QUARTER && (t - reference) % 60 == 0 implies #[trigger] dst_seconds(
        zone,
        t,
    ) != dst_seconds(zone, reference) by {
        assert((t - last) % 60 == 0);
        lemma_a_minute_apart(last, t);
    }
    lemma_finds_earliest_change(zone, reference, last);
    lemma_minute_floor(last);
    assert(minute_floor(last) == change_at - 60) by {
        assert((last - (change_at - 60)) == reference - minute_floor(reference));
        assert((change_at - 60) % 60 == 0);
    }
}

} // verus!
