use dst_transitions::resolve::{
    find_next_transition, resolve_all, resolve_known, resolve_zone, Reason, MAX_REFERENCE,
    MIN_REFERENCE,
};
use dst_transitions::search::{
    floor_to_minute, snap_to_minute, sweep, transition_after, DAY, HOUR, MINUTE, MONTH, QUARTER,
    SEARCH_SPAN,
};
use dst_transitions::zone::Zone;

// 2024-01-15T00:00:00Z
const MID_JANUARY: i64 = 1_705_276_800;
// 2024-03-31T00:59:00Z, 01:59 in Paris: the last minute of winter time.
const PARIS_SPRING: i64 = 1_711_846_740;
// 2024-10-27T00:59:00Z, 02:59 in Paris: the last minute of summer time.
const PARIS_AUTUMN: i64 = 1_729_990_740;
// 2025-03-30T00:59:00Z
const PARIS_NEXT_SPRING: i64 = 1_743_296_340;
// 2024-04-06T16:29:00Z, 02:59 in Adelaide: the last minute of summer time.
const ADELAIDE_AUTUMN: i64 = 1_712_420_940;
// 2024-10-05T16:29:00Z, 01:59 in Adelaide: the last minute of standard time.
const ADELAIDE_SPRING: i64 = 1_728_145_740;

fn paris() -> Zone {
    Zone::resolve("Europe/Paris").unwrap()
}

#[test]
fn paris_from_mid_january() {
    let pair = resolve_zone("Europe/Paris", MID_JANUARY).unwrap();
    assert_eq!(pair.zone_name, "Europe/Paris");
    assert_eq!(pair.first.zone_name, "Europe/Paris");
    assert_eq!(pair.second.zone_name, "Europe/Paris");
    assert_eq!(pair.first.instant, PARIS_SPRING);
    assert_eq!(pair.second.instant, PARIS_AUTUMN);
    assert_eq!(pair.first.instant % 60, 0);
    assert_eq!(pair.second.instant % 60, 0);
}

#[test]
fn pair_is_ordered_and_after_reference() {
    for name in ["Europe/Paris", "Europe/Berlin", "Australia/Adelaide", "America/Godthab"] {
        let pair = resolve_zone(name, MID_JANUARY).unwrap();
        assert!(pair.first.instant > MID_JANUARY);
        assert!(pair.second.instant > pair.first.instant);
    }
}

#[test]
fn adelaide_runs_the_other_way_round() {
    let pair = resolve_zone("Australia/Adelaide", MID_JANUARY).unwrap();
    assert_eq!(pair.first.instant, ADELAIDE_AUTUMN);
    assert_eq!(pair.second.instant, ADELAIDE_SPRING);
}

#[test]
fn zone_without_dst() {
    let error = resolve_zone("Africa/Abidjan", MID_JANUARY).unwrap_err();
    assert_eq!(error.zone_name, "Africa/Abidjan");
    assert_eq!(error.reason, Reason::NoDstObserved);
    let error = resolve_zone("Asia/Calcutta", MID_JANUARY).unwrap_err();
    assert_eq!(error.reason, Reason::NoDstObserved);
}

#[test]
fn unknown_zone() {
    let error = resolve_zone("toto en vacances", MID_JANUARY).unwrap_err();
    assert_eq!(error.zone_name, "toto en vacances");
    assert_eq!(error.reason, Reason::UnknownZone);
    assert!(Zone::resolve("bernard a la plage").is_none());
    assert!(Zone::resolve("europe/paris").is_none());
    assert!(Zone::resolve("").is_none());
}

#[test]
fn known_zone_keeps_its_name() {
    let zone = paris();
    assert_eq!(zone.name(), "Europe/Paris");
}

#[test]
fn same_question_same_answer() {
    let once = resolve_zone("Europe/Paris", MID_JANUARY);
    let again = resolve_zone("Europe/Paris", MID_JANUARY);
    assert_eq!(once, again);
    let once = resolve_zone("Africa/Abidjan", MID_JANUARY);
    let again = resolve_zone("Africa/Abidjan", MID_JANUARY);
    assert_eq!(once, again);
}

#[test]
fn reference_on_the_last_minute_is_returned() {
    let zone = paris();
    let found = find_next_transition(&zone, PARIS_SPRING).unwrap();
    assert_eq!(found.instant, PARIS_SPRING);
    let found = find_next_transition(&zone, PARIS_AUTUMN).unwrap();
    assert_eq!(found.instant, PARIS_AUTUMN);
}

#[test]
fn reference_one_minute_later_finds_the_next_change() {
    let zone = paris();
    let found = find_next_transition(&zone, PARIS_SPRING + 60).unwrap();
    assert_eq!(found.instant, PARIS_AUTUMN);
    let found = find_next_transition(&zone, PARIS_SPRING - 60).unwrap();
    assert_eq!(found.instant, PARIS_SPRING);
}

#[test]
fn pair_from_the_last_minute() {
    let pair = resolve_zone("Europe/Paris", PARIS_SPRING).unwrap();
    assert_eq!(pair.first.instant, PARIS_SPRING);
    assert_eq!(pair.second.instant, PARIS_AUTUMN);
    let pair = resolve_zone("Europe/Paris", PARIS_AUTUMN - 1).unwrap();
    assert_eq!(pair.first.instant, PARIS_AUTUMN);
    assert_eq!(pair.second.instant, PARIS_NEXT_SPRING);
}

#[test]
fn seconds_of_the_reference_are_dropped() {
    let zone = paris();
    let found = find_next_transition(&zone, MID_JANUARY + 37).unwrap();
    assert_eq!(found.instant, PARIS_SPRING);
    let found = find_next_transition(&zone, PARIS_SPRING + 59).unwrap();
    assert_eq!(found.instant, PARIS_SPRING);
}

#[test]
fn resolve_known_agrees_with_resolve_zone() {
    let zone = paris();
    assert_eq!(resolve_known(&zone, MID_JANUARY), resolve_zone("Europe/Paris", MID_JANUARY));
    let zone = Zone::resolve("Africa/Abidjan").unwrap();
    let error = resolve_known(&zone, MID_JANUARY).unwrap_err();
    assert_eq!(error.reason, Reason::NoDstObserved);
    let error = find_next_transition(&zone, MID_JANUARY).unwrap_err();
    assert_eq!(error.zone_name, "Africa/Abidjan");
    assert_eq!(error.reason, Reason::NoDstObserved);
}

#[test]
fn dst_component_at_an_instant() {
    let zone = paris();
    assert_eq!(zone.dst_at(MID_JANUARY), 0);
    // 2024-07-01T00:00:00Z
    assert_eq!(zone.dst_at(1_719_792_000), 3_600);
    assert_eq!(zone.dst_at(PARIS_SPRING), 0);
    assert_eq!(zone.dst_at(PARIS_SPRING + 60), 3_600);
    assert_eq!(zone.dst_at(PARIS_AUTUMN), 3_600);
    assert_eq!(zone.dst_at(PARIS_AUTUMN + 60), 0);
    let zone = Zone::resolve("Africa/Abidjan").unwrap();
    assert_eq!(zone.dst_at(1_719_792_000), 0);
}

#[test]
fn floor_to_minute_values() {
    assert_eq!(floor_to_minute(0), 0);
    assert_eq!(floor_to_minute(59), 0);
    assert_eq!(floor_to_minute(60), 60);
    assert_eq!(floor_to_minute(61), 60);
    assert_eq!(floor_to_minute(-1), -60);
    assert_eq!(floor_to_minute(-59), -60);
    assert_eq!(floor_to_minute(-60), -60);
    assert_eq!(floor_to_minute(-61), -120);
    assert_eq!(floor_to_minute(MID_JANUARY + 37), MID_JANUARY);
}

#[test]
fn step_lengths() {
    assert_eq!(MINUTE, 60);
    assert_eq!(HOUR, 60 * MINUTE);
    assert_eq!(DAY, 24 * HOUR);
    assert_eq!(MONTH, 30 * DAY);
    assert_eq!(QUARTER, 90 * DAY);
    assert_eq!(SEARCH_SPAN, 4 * QUARTER);
}

#[test]
fn sweep_counts_steps_to_the_first_hit() {
    let zone = paris();
    // Ninety days after mid January is mid April: summer time.
    assert_eq!(sweep(&zone, 0, MID_JANUARY, QUARTER, true, 3), Some(1));
    // From July, winter time is two quarters away.
    assert_eq!(sweep(&zone, 3_600, 1_719_792_000, QUARTER, true, 3), Some(2));
    // Back by months from mid April: mid March is winter time again.
    assert_eq!(sweep(&zone, 0, MID_JANUARY + QUARTER, -MONTH, false, 3), Some(1));
    // Minutes up to the change, from an hour before its last minute.
    assert_eq!(sweep(&zone, 0, PARIS_SPRING - 59 * MINUTE, MINUTE, true, 60), Some(60));
    assert_eq!(sweep(&zone, 0, PARIS_SPRING - 59 * MINUTE, MINUTE, true, 59), None);
    assert_eq!(sweep(&zone, 0, MID_JANUARY, DAY, true, 30), None);
    assert_eq!(sweep(&zone, 0, MID_JANUARY, DAY, true, 0), None);
    assert_eq!(sweep(&zone, 0, MID_JANUARY, DAY, false, 30), Some(1));
}

#[test]
fn transition_after_a_whole_minute() {
    let zone = paris();
    assert_eq!(transition_after(&zone, MID_JANUARY), Some(PARIS_SPRING));
    assert_eq!(transition_after(&zone, PARIS_SPRING + MINUTE), Some(PARIS_AUTUMN));
    let zone = Zone::resolve("Africa/Abidjan").unwrap();
    assert_eq!(transition_after(&zone, MID_JANUARY), None);
}

#[test]
fn change_in_the_third_quarter_probed_is_found() {
    // From a week after the change to summer time, the change back lies in
    // the third quarter probed.
    let zone = paris();
    let start = PARIS_SPRING + 60 + 7 * DAY;
    assert_eq!(sweep(&zone, 3_600, start, QUARTER, true, 4), Some(3));
    assert_eq!(transition_after(&zone, start), Some(PARIS_AUTUMN));
}

#[test]
fn change_in_the_fourth_quarter_probed_is_found() {
    // From 2024-03-01T00:00:00Z Casablanca shows its usual offset at the first
    // three quarter probes; the fourth falls into the weeks of Ramadan 2025,
    // when its clocks are set back.
    let zone = Zone::resolve("Africa/Casablanca").unwrap();
    let start: i64 = 1_709_251_200;
    assert_eq!(zone.dst_at(start), 0);
    assert_eq!(zone.dst_at(start + 3 * QUARTER), 0);
    assert_eq!(zone.dst_at(start + 4 * QUARTER), -3_600);
    assert_eq!(sweep(&zone, 0, start, QUARTER, true, 3), None);
    assert_eq!(sweep(&zone, 0, start, QUARTER, true, 4), Some(4));
    // 2025-02-23T01:59:00Z
    assert_eq!(transition_after(&zone, start), Some(1_740_275_940));
}

#[test]
fn batch_keeps_order_and_isolates_failures() {
    let names = vec![
        String::from("Australia/Adelaide"),
        String::from("toto en vacances"),
        String::from("Africa/Abidjan"),
        String::from("Europe/Paris"),
    ];
    let outcomes = resolve_all(&names, MID_JANUARY);
    assert_eq!(outcomes.len(), 4);
    assert_eq!(outcomes[0].as_ref().unwrap().first.instant, ADELAIDE_AUTUMN);
    assert_eq!(outcomes[1].as_ref().unwrap_err().reason, Reason::UnknownZone);
    assert_eq!(outcomes[1].as_ref().unwrap_err().zone_name, "toto en vacances");
    assert_eq!(outcomes[2].as_ref().unwrap_err().reason, Reason::NoDstObserved);
    let pair = outcomes[3].as_ref().unwrap();
    assert_eq!(pair.zone_name, "Europe/Paris");
    assert_eq!(pair.first.instant, PARIS_SPRING);
    assert_eq!(pair.second.instant, PARIS_AUTUMN);
    assert!(resolve_all(&Vec::new(), MID_JANUARY).is_empty());
}

#[test]
fn references_at_the_limits() {
    let error = resolve_zone("Europe/Paris", MIN_REFERENCE).unwrap_err();
    assert_eq!(error.reason, Reason::NoDstObserved);
    let error = resolve_zone("Europe/Paris", MAX_REFERENCE).unwrap_err();
    assert_eq!(error.reason, Reason::NoDstObserved);
    let error = resolve_zone("no such zone", MAX_REFERENCE).unwrap_err();
    assert_eq!(error.reason, Reason::UnknownZone);
}

#[test]
fn before_the_epoch() {
    // 1960-01-15: France kept no summer time between 1946 and 1976.
    let error = resolve_zone("Europe/Paris", -314_409_600).unwrap_err();
    assert_eq!(error.reason, Reason::NoDstObserved);
}

#[test]
fn probe_limits_are_representable() {
    assert!(chrono::DateTime::from_timestamp(-8_000_000_000_000, 0).is_some());
    assert!(chrono::DateTime::from_timestamp(8_000_000_000_000, 0).is_some());
    let zone = paris();
    assert_eq!(zone.dst_at(-8_000_000_000_000), 0);
    assert_eq!(zone.dst_at(8_000_000_000_000), 0);
}

// 1916-10-01T02:25:21Z: Dublin leaves summer time, off the minute grid.
const DUBLIN_CHANGE: i64 = -1_680_471_279;
// 1917-04-08T01:59:00Z: the last minute before Dublin's next summer time.
const DUBLIN_NEXT_SPRING: i64 = -1_664_143_260;

#[test]
fn reference_just_after_a_change_inside_its_minute() {
    let zone = Zone::resolve("Europe/Dublin").unwrap();
    assert_ne!(zone.dst_at(DUBLIN_CHANGE - 1), zone.dst_at(DUBLIN_CHANGE));
    // 1916-10-01T02:25:30Z
    let reference = DUBLIN_CHANGE + 9;
    let found = find_next_transition(&zone, reference).unwrap();
    assert_eq!(found.instant, DUBLIN_NEXT_SPRING);
    assert_eq!(zone.dst_at(found.instant), zone.dst_at(reference));
    assert_ne!(zone.dst_at(found.instant + 60), zone.dst_at(reference));
    let pair = resolve_zone("Europe/Dublin", reference).unwrap();
    assert_eq!(pair.first.instant, DUBLIN_NEXT_SPRING);
    assert!(pair.first.instant > reference);
    assert!(pair.second.instant > pair.first.instant);
    assert_eq!(pair.second.instant % 60, 0);
}

#[test]
fn reference_just_before_a_change_inside_its_minute() {
    let zone = Zone::resolve("Europe/Dublin").unwrap();
    // 1916-10-01T02:25:10Z: the change comes eleven seconds later.
    let reference = DUBLIN_CHANGE - 11;
    let found = find_next_transition(&zone, reference).unwrap();
    // 1916-10-01T02:25:00Z
    assert_eq!(found.instant, -1_680_471_300);
    assert_eq!(zone.dst_at(found.instant), zone.dst_at(reference));
    assert_ne!(zone.dst_at(found.instant + 60), zone.dst_at(reference));
    let pair = resolve_zone("Europe/Dublin", reference).unwrap();
    assert_eq!(pair.first.instant, -1_680_471_300);
    assert_eq!(pair.second.instant, DUBLIN_NEXT_SPRING);
}

#[test]
fn reference_a_minute_before_a_change_off_the_grid() {
    let zone = Zone::resolve("Europe/Dublin").unwrap();
    // 1916-10-01T02:24:30Z: a minute later the change has passed, but 02:25:00
    // still shows summer time, so that is the last whole minute.
    let reference = DUBLIN_CHANGE - 51;
    let found = find_next_transition(&zone, reference).unwrap();
    assert_eq!(found.instant, -1_680_471_300);
}

#[test]
fn snap_to_minute_picks_the_last_whole_minute() {
    let zone = paris();
    assert_eq!(snap_to_minute(&zone, 0, PARIS_SPRING), PARIS_SPRING);
    assert_eq!(snap_to_minute(&zone, 0, PARIS_SPRING + 30), PARIS_SPRING);
    assert_eq!(snap_to_minute(&zone, 3_600, PARIS_AUTUMN + 59), PARIS_AUTUMN);
    let zone = Zone::resolve("Europe/Dublin").unwrap();
    let summer = zone.dst_at(DUBLIN_CHANGE - 1);
    assert_eq!(snap_to_minute(&zone, summer, DUBLIN_CHANGE - 51), -1_680_471_300);
    assert_eq!(snap_to_minute(&zone, summer, DUBLIN_CHANGE - 1), -1_680_471_300);
    // No change nearby: the instant is left as it is.
    assert_eq!(snap_to_minute(&paris(), 0, MID_JANUARY + 7), MID_JANUARY + 7);
}

#[test]
fn failure_means_four_unchanged_quarter_probes() {
    let zone = Zone::resolve("Africa/Abidjan").unwrap();
    assert!(find_next_transition(&zone, MID_JANUARY + 13).is_err());
    for k in 1..=4 {
        assert_eq!(zone.dst_at(MID_JANUARY + 13 + k * QUARTER), zone.dst_at(MID_JANUARY + 13));
    }
}
