//! The coarse-to-fine search for the next change of a zone's DST component.
//!
//! The search never reads a table of transitions. It probes the DST component
//! at chosen instants and compares it with the component at the instant it
//! started from: five sweeps, alternately forward and backward, with steps of
//! ninety days, thirty days, a day, an hour and a minute. What they find is
//! then put on a whole minute.

use vstd::prelude::*;
use crate::clock::{dst_seconds, known_zone, MAX_PROBE, MIN_PROBE};
use crate::zone::Zone;

verus! {

/// The step of the last sweep, in seconds.
pub const MINUTE: i64 = 60;

/// The step of the fourth sweep: sixty minutes.
pub const HOUR: i64 = 3_600;

/// The step of the third sweep: twenty-four hours.
pub const DAY: i64 = 86_400;

/// The step of the second sweep: thirty days.
pub const MONTH: i64 = 2_592_000;

/// The step of the first sweep: ninety days.
pub const QUARTER: i64 = 7_776_000;

/// How many quarter steps the first sweep probes before it gives up.
pub const QUARTER_PROBES: u32 = 4;

/// The farthest a search probes beyond the minute it starts from: four
/// quarters.
pub const SEARCH_SPAN: i64 = 31_104_000;

/// The start of the minute that holds `t`.
pub open spec fn minute_floor(t: int) -> int {
    t - t % 60
}

/// Whether the zone's DST component at `t` is another than `flag`.
pub open spec fn differs(zone: Seq<char>, flag: Option<i64>, t: int) -> bool {
    dst_seconds(zone, t) != flag
}

/// The number of the first probe among `start + step`, `start + 2 * step`, up
/// to `start + limit * step`, at which `differs` is `want`; `None` where it is
/// `want` at none of them.
pub open spec fn steps_to_hit(
    zone: Seq<char>,
    flag: Option<i64>,
    start: int,
    step: int,
    want: bool,
    limit: nat,
) -> Option<nat>
    decreases limit,
{
    if limit == 0 {
        None
    } else if differs(zone, flag, start + step) == want {
        Some(1)
    } else {
        match steps_to_hit(zone, flag, start + step, step, want, (limit - 1) as nat) {
            Some(n) => Some(n + 1),
            None => None,
        }
    }
}

/// The instant at which a sweep stops: its first hit, or `start` itself where
/// it has none.
pub open spec fn landing(
    zone: Seq<char>,
    flag: Option<i64>,
    start: int,
    step: int,
    want: bool,
    limit: nat,
) -> int {
    match steps_to_hit(zone, flag, start, step, want, limit) {
        Some(n) => start + n * step,
        None => start,
    }
}

/// Where the quarter sweep stops when its hit is probe number `quarters`.
pub open spec fn quarter_stop(base: int, quarters: nat) -> int {
    base + quarters * QUARTER
}

/// Where the sweep back by months stops, after three probes at most: in the
/// regime of `base`, less than thirty days before a probe in the other regime.
pub open spec fn month_stop(zone: Seq<char>, base: int, quarters: nat) -> int {
    landing(zone, dst_seconds(zone, base), quarter_stop(base, quarters), -MONTH, false, 3)
}

/// Where the sweep forward by days stops: in the other regime.
pub open spec fn day_stop(zone: Seq<char>, base: int, quarters: nat) -> int {
    landing(zone, dst_seconds(zone, base), month_stop(zone, base, quarters), DAY as int, true, 30)
}

/// Where the sweep back by hours stops: in the regime of `base` again.
pub open spec fn hour_stop(zone: Seq<char>, base: int, quarters: nat) -> int {
    landing(zone, dst_seconds(zone, base), day_stop(zone, base, quarters), -HOUR, false, 24)
}

/// Where the sweep forward by minutes stops: the first minute of the other
/// regime.
pub open spec fn minute_stop(zone: Seq<char>, base: int, quarters: nat) -> int {
    landing(zone, dst_seconds(zone, base), hour_stop(zone, base, quarters), MINUTE as int, true, 60)
}

/// The last instant before the zone's DST component changes, among those a
/// whole number of minutes after `base`, found by the five sweeps. `None` where the component at each of the four
/// quarter probes, ninety to three hundred and sixty days after `base`, is
/// that at `base`.
pub open spec fn transition_from(zone: Seq<char>, base: int) -> Option<int> {
    match steps_to_hit(zone, dst_seconds(zone, base), base, QUARTER as int, true, QUARTER_PROBES as nat) {
        None => None,
        Some(quarters) => Some(minute_stop(zone, base, quarters) - MINUTE),
    }
}

/// The whole minute that stands for `raw`, an instant that shows the
/// component `flag` one minute before an instant that does not: of the minute
/// that holds `raw` and the next, the one that shows `flag` one minute before
/// a whole minute that does not. Where neither does, which takes two changes
/// within two minutes, `raw` itself.
pub open spec fn snap(zone: Seq<char>, flag: Option<i64>, raw: int) -> int {
    let floor = minute_floor(raw);
    if !differs(zone, flag, floor) && differs(zone, flag, floor + MINUTE) {
        floor
    } else if !differs(zone, flag, floor + MINUTE) && differs(zone, flag, floor + 2 * MINUTE) {
        floor + MINUTE
    } else {
        raw
    }
}

/// The next transition of the zone after `reference`: the search compares with
/// the DST component at `reference` itself, probes instants a whole number
/// of minutes after it, and its result is then put on a whole minute.
pub open spec fn next_transition(zone: Seq<char>, reference: int) -> Option<int> {
    match transition_from(zone, reference) {
        None => None,
        Some(raw) => Some(snap(zone, dst_seconds(zone, reference), raw)),
    }
}

/// `steps_to_hit` moved `done` steps along: what it gives from `start` is what
/// it gives from one step further, counted from there.
spec fn shifted(hit: Option<nat>, done: nat) -> Option<nat> {
    match hit {
        Some(n) => Some(n + done),
        None => None,
    }
}

/// What a sweep's result says of the probes: a hit is in the wanted regime and
/// the probe before it, if the sweep made one, is not; without a hit the last
/// probe is not in the wanted regime.
pub proof fn lemma_sweep(zone: Seq<char>, flag: Option<i64>, start: int, step: int, want: bool, limit: nat)
    ensures
        match steps_to_hit(zone, flag, start, step, want, limit) {
            Some(n) => {
                &&& 1 <= n <= limit
                &&& differs(zone, flag, start + n * step) == want
                &&& n > 1 ==> differs(zone, flag, start + (n - 1) * step) != want
            },
            None => limit > 0 ==> differs(zone, flag, start + limit * step) != want,
        },
    decreases limit,
{
    assert(start + 1 * step == start + step) by (nonlinear_arith);
    if limit > 0 && differs(zone, flag, start + step) != want {
        let rest = (limit - 1) as nat;
        lemma_sweep(zone, flag, start + step, step, want, rest);
        match steps_to_hit(zone, flag, start + step, step, want, rest) {
            Some(n) => {
                assert(start + step + n * step == start + (n + 1) * step) by (nonlinear_arith);
                assert(start + step + (n - 1) * step == start + n * step) by (nonlinear_arith);
            },
            None => {
                assert(start + step + rest * step == start + limit * step) by (nonlinear_arith)
                    requires
                        rest == limit - 1,
                ;
            },
        }
    }
}

/// The five sweeps converge: once a quarter probe has found the other regime,
/// every later sweep has a hit, and each stop lies on the side of the change
/// that the next sweep starts from.
pub proof fn lemma_stops(zone: Seq<char>, base: int, quarters: nat)
    requires
        steps_to_hit(zone, dst_seconds(zone, base), base, QUARTER as int, true, QUARTER_PROBES as nat)
            == Some(quarters),
    ensures
        1 <= quarters <= QUARTER_PROBES,
        steps_to_hit(zone, dst_seconds(zone, base), quarter_stop(base, quarters), -MONTH, false, 3).is_some(),
        steps_to_hit(zone, dst_seconds(zone, base), month_stop(zone, base, quarters), DAY as int, true, 30).is_some(),
        steps_to_hit(zone, dst_seconds(zone, base), day_stop(zone, base, quarters), -HOUR, false, 24).is_some(),
        steps_to_hit(zone, dst_seconds(zone, base), hour_stop(zone, base, quarters), MINUTE as int, true, 60).is_some(),
        quarter_stop(base, quarters) <= base + SEARCH_SPAN,
        base <= month_stop(zone, base, quarters) <= quarter_stop(base, quarters) - MONTH,
        month_stop(zone, base, quarters) < day_stop(zone, base, quarters) <= month_stop(zone, base, quarters) + MONTH,
        day_stop(zone, base, quarters) - DAY <= hour_stop(zone, base, quarters) <= day_stop(zone, base, quarters) - HOUR,
        hour_stop(zone, base, quarters) < minute_stop(zone, base, quarters) <= hour_stop(zone, base, quarters) + HOUR,
        (minute_stop(zone, base, quarters) - base) % 60 == 0,
        differs(zone, dst_seconds(zone, base), minute_stop(zone, base, quarters)),
        !differs(zone, dst_seconds(zone, base), minute_stop(zone, base, quarters) - MINUTE),
{
    let flag = dst_seconds(zone, base);
    let changed = quarter_stop(base, quarters);
    let month = month_stop(zone, base, quarters);
    let day = day_stop(zone, base, quarters);
    let hour = hour_stop(zone, base, quarters);
    let minute = minute_stop(zone, base, quarters);
    lemma_sweep(zone, flag, base, QUARTER as int, true, QUARTER_PROBES as nat);
    assert(differs(zone, flag, changed));
    assert(!differs(zone, flag, base));
    assert(!differs(zone, flag, base + (quarters - 1) * (QUARTER as int)));
    lemma_sweep(zone, flag, changed, -MONTH, false, 3);
    assert(changed + 3 * (-MONTH) == base + (quarters - 1) * (QUARTER as int));
    let months = steps_to_hit(zone, flag, changed, -MONTH, false, 3);
    assert(months.is_some());
    assert(!differs(zone, flag, month));
    assert(differs(zone, flag, month + MONTH)) by {
        let n = months.unwrap();
        assert(changed + (n - 1) * (-MONTH) == month + MONTH);
    }
    lemma_sweep(zone, flag, month, DAY as int, true, 30);
    assert(month + 30 * (DAY as int) == month + MONTH);
    let days = steps_to_hit(zone, flag, month, DAY as int, true, 30);
    assert(days.is_some());
    assert(differs(zone, flag, day));
    assert(!differs(zone, flag, day - DAY)) by {
        let n = days.unwrap();
        assert(month + (n - 1) * (DAY as int) == day - DAY);
    }
    lemma_sweep(zone, flag, day, -HOUR, false, 24);
    assert(day + 24 * (-HOUR) == day - DAY);
    let hours = steps_to_hit(zone, flag, day, -HOUR, false, 24);
    assert(hours.is_some());
    assert(!differs(zone, flag, hour));
    assert(differs(zone, flag, hour + HOUR)) by {
        let n = hours.unwrap();
        assert(day + (n - 1) * (-HOUR) == hour + HOUR);
    }
    lemma_sweep(zone, flag, hour, MINUTE as int, true, 60);
    assert(hour + 60 * (MINUTE as int) == hour + HOUR);
    let minutes = steps_to_hit(zone, flag, hour, MINUTE as int, true, 60);
    assert(minutes.is_some());
    assert(differs(zone, flag, minute));
    assert(!differs(zone, flag, minute - MINUTE)) by {
        let n = minutes.unwrap();
        assert(hour + (n - 1) * (MINUTE as int) == minute - MINUTE);
    }
    let whole = quarters * 129_600 - months.unwrap() * 43_200 + days.unwrap() * 1_440
        - hours.unwrap() * 60 + minutes.unwrap();
    assert(minute - base == 60 * whole);
}

/// The sweeps, where they succeed, stop in the regime they started in:
/// a whole number of minutes after `base`, less than four quarters away, with
/// the DST component of `base`, and one minute before an instant with another.
pub proof fn lemma_transition_is_last_minute(zone: Seq<char>, base: int)
    requires
        transition_from(zone, base).is_some(),
    ensures
        ({
            let t = transition_from(zone, base).unwrap();
            &&& base <= t < base + SEARCH_SPAN
            &&& (t - base) % 60 == 0
            &&& dst_seconds(zone, t) == dst_seconds(zone, base)
            &&& dst_seconds(zone, t + MINUTE) != dst_seconds(zone, base)
        }),
{
    let quarters = steps_to_hit(
        zone,
        dst_seconds(zone, base),
        base,
        QUARTER as int,
        true,
        QUARTER_PROBES as nat,
    ).unwrap();
    lemma_stops(zone, base, quarters);
    let minute = minute_stop(zone, base, quarters);
    assert(minute - MINUTE - base == (minute - base) - 60);
}

proof fn lemma_between(start: int, step: int, n: int, limit: int, lo: int, hi: int)
    requires
        0 <= n <= limit,
        lo <= start <= hi,
        lo <= start + limit * step <= hi,
    ensures
        lo <= start + n * step <= hi,
{
    if step >= 0 {
        assert(0 <= n * step <= limit * step) by (nonlinear_arith)
            requires
                0 <= n <= limit,
                step >= 0,
        ;
    } else {
        assert(limit * step <= n * step <= 0) by (nonlinear_arith)
            requires
                0 <= n <= limit,
                step < 0,
        ;
    }
}

/// One sweep: probes `start + step`, `start + 2 * step`, ... and counts the
/// steps up to the first probe whose DST component differs from `flag`
/// (`want`), or equals it (`!want`). `None` after `limit` probes without one.
pub fn sweep(zone: &Zone, flag: i64, start: i64, step: i64, want: bool, limit: u32) -> (hit: Option<u32>)
    requires
        MIN_PROBE <= start <= MAX_PROBE,
        MIN_PROBE <= start + limit * step <= MAX_PROBE,
    ensures
        match steps_to_hit(zone@, Some(flag), start as int, step as int, want, limit as nat) {
            Some(n) => hit == Some(n as u32) && 1 <= n <= limit,
            None => hit.is_none(),
        },
{
    let mut probe: i64 = start;
    let mut done: u32 = 0;
    while done < limit
        invariant
            done <= limit,
            probe == start + done * step,
            MIN_PROBE <= start <= MAX_PROBE,
            MIN_PROBE <= start + limit * step <= MAX_PROBE,
            steps_to_hit(zone@, Some(flag), start as int, step as int, want, limit as nat)
                == shifted(
                steps_to_hit(zone@, Some(flag), probe as int, step as int, want, (limit - done) as nat),
                done as nat,
            ),
        decreases limit - done,
    {
        proof {
            lemma_between(start as int, step as int, done + 1, limit as int, MIN_PROBE as int, MAX_PROBE as int);
            assert(start + (done + 1) * step == start + done * step + step) by (nonlinear_arith);
        }
        probe = probe + step;
        done = done + 1;
        let changed = zone.dst_at(probe) != flag;
        if changed == want {
            return Some(done);
        }
    }
    None
}

/// The start of the minute that holds `t`, also before 1970.
pub fn floor_to_minute(t: i64) -> (m: i64)
    requires
        t >= i64::MIN + 59,
    ensures
        m == minute_floor(t as int),
{
    if t >= 0 {
        t - t % 60
    } else {
        let below: i64 = -(t + 1);
        t - (59 - below % 60)
    }
}

/// A search fails exactly where each of the four quarter probes shows the DST
/// component of the instant it started from.
pub proof fn lemma_quarter_probes(zone: Seq<char>, base: int)
    ensures
        transition_from(zone, base).is_none() <==> {
            &&& dst_seconds(zone, base + QUARTER) == dst_seconds(zone, base)
            &&& dst_seconds(zone, base + 2 * QUARTER) == dst_seconds(zone, base)
            &&& dst_seconds(zone, base + 3 * QUARTER) == dst_seconds(zone, base)
            &&& dst_seconds(zone, base + 4 * QUARTER) == dst_seconds(zone, base)
        },
{
    reveal_with_fuel(steps_to_hit, 5);
    let flag = dst_seconds(zone, base);
    assert(base + QUARTER + QUARTER == base + 2 * QUARTER);
    assert(base + QUARTER + QUARTER + QUARTER == base + 3 * QUARTER);
    assert(base + QUARTER + QUARTER + QUARTER + QUARTER == base + 4 * QUARTER);
    assert(differs(zone, flag, base + QUARTER) == (dst_seconds(zone, base + QUARTER) != flag));
}

/// The minute that holds `t` is a whole minute, at most fifty-nine seconds
/// before `t`.
pub proof fn lemma_minute_floor(t: int)
    ensures
        minute_floor(t) % 60 == 0,
        minute_floor(t) <= t < minute_floor(t) + 60,
        t % 60 == 0 ==> minute_floor(t) == t,
{
}

/// A later instant is not held by an earlier minute, and an instant a whole
/// number of minutes after a whole minute is a whole minute.
proof fn lemma_minutes_in_order(from: int, to: int)
    requires
        from <= to,
    ensures
        minute_floor(from) <= minute_floor(to),
        from % 60 == 0 && (to - from) % 60 == 0 ==> to % 60 == 0,
{
}

/// Where `raw` shows `flag` and the instant a minute later does not, what
/// `snap` picks does so too.
pub proof fn lemma_snap(zone: Seq<char>, flag: Option<i64>, raw: int)
    requires
        !differs(zone, flag, raw),
        differs(zone, flag, raw + MINUTE),
    ensures
        !differs(zone, flag, snap(zone, flag, raw)),
        differs(zone, flag, snap(zone, flag, raw) + MINUTE),
        minute_floor(raw) <= snap(zone, flag, raw) <= minute_floor(raw) + MINUTE,
        snap(zone, flag, raw) % 60 == 0 || snap(zone, flag, raw) == raw,
        raw % 60 == 0 ==> snap(zone, flag, raw) == raw,
{
    lemma_minute_floor(raw);
    let floor = minute_floor(raw);
    assert((floor + 60) % 60 == 0);
}

/// What a found transition shows: the DST component of `reference`, and
/// another one a minute later. It lies in or after the minute that holds
/// `reference`, and it is a whole minute unless the component changes twice
/// within two minutes; from a whole-minute reference it always is.
pub proof fn lemma_next_transition(zone: Seq<char>, reference: int)
    requires
        next_transition(zone, reference).is_some(),
    ensures
        ({
            let t = next_transition(zone, reference).unwrap();
            let raw = transition_from(zone, reference).unwrap();
            &&& dst_seconds(zone, t) == dst_seconds(zone, reference)
            &&& dst_seconds(zone, t + MINUTE) != dst_seconds(zone, reference)
            &&& minute_floor(reference) <= t <= raw + MINUTE
            &&& raw - MINUTE < t
            &&& reference <= raw < reference + SEARCH_SPAN
            &&& t % 60 == 0 || t == raw
            &&& reference % 60 == 0 ==> t == raw && t % 60 == 0
        }),
{
    let flag = dst_seconds(zone, reference);
    let raw = transition_from(zone, reference).unwrap();
    lemma_transition_is_last_minute(zone, reference);
    lemma_snap(zone, flag, raw);
    lemma_minute_floor(raw);
    lemma_minutes_in_order(reference, raw);
}

/// Puts the search's result on a whole minute.
pub fn snap_to_minute(zone: &Zone, flag: i64, raw: i64) -> (t: i64)
    requires
        MIN_PROBE + MINUTE <= raw <= MAX_PROBE - 2 * MINUTE,
    ensures
        t == snap(zone@, Some(flag), raw as int),
{
    let floor = floor_to_minute(raw);
    let here = zone.dst_at(floor);
    let next = zone.dst_at(floor + MINUTE);
    if here == flag && next != flag {
        floor
    } else if next == flag && zone.dst_at(floor + 2 * MINUTE) != flag {
        floor + MINUTE
    } else {
        raw
    }
}

/// Finds the next DST transition of `zone` from `base`: the last instant, a
/// whole number of minutes after `base`, before the DST component changes.
///
/// `None` where the zone shows the same DST component at each of the four
/// quarter probes after `base`: it observes no DST, as far as the search sees.
pub fn transition_after(zone: &Zone, base: i64) -> (found: Option<i64>)
    requires
        MIN_PROBE <= base <= MAX_PROBE - SEARCH_SPAN,
    ensures
        found matches Some(t) ==> transition_from(zone@, base as int) == Some(t as int),
        found.is_none() ==> transition_from(zone@, base as int).is_none(),
        known_zone(zone@),
{
    let flag = zone.dst_at(base);
    let quarters = match sweep(zone, flag, base, QUARTER, true, QUARTER_PROBES) {
        Some(n) => n,
        None => { return None; },
    };
    proof {
        lemma_stops(zone@, base as int, quarters as nat);
    }
    let changed: i64 = base + (quarters as i64) * QUARTER;
    let months = sweep(zone, flag, changed, -MONTH, false, 3);
    let month: i64 = match months {
        Some(n) => changed - (n as i64) * MONTH,
        None => changed,
    };
    let days = sweep(zone, flag, month, DAY, true, 30);
    let day: i64 = match days {
        Some(n) => month + (n as i64) * DAY,
        None => month,
    };
    let hours = sweep(zone, flag, day, -HOUR, false, 24);
    let hour: i64 = match hours {
        Some(n) => day - (n as i64) * HOUR,
        None => day,
    };
    let minutes = sweep(zone, flag, hour, MINUTE, true, 60);
    let minute: i64 = match minutes {
        Some(n) => hour + (n as i64) * MINUTE,
        None => hour,
    };
    Some(minute - MINUTE)
}

} // verus!

