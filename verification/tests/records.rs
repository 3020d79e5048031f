use dst_transitions::record::{record_of, records_of, ChangeRecord};
use dst_transitions::resolve::{resolve_all, resolve_zone, TransitionPair, TransitionPoint};

fn pair_of(zone: &str, first: i64, second: i64) -> TransitionPair {
    TransitionPair {
        zone_name: zone.to_string(),
        first: TransitionPoint { zone_name: zone.to_string(), instant: first },
        second: TransitionPoint { zone_name: zone.to_string(), instant: second },
    }
}

#[test]
fn paris_record_from_mid_january() {
    let pair = resolve_zone("Europe/Paris", 1_705_276_800).unwrap();
    let record = record_of(&pair).unwrap();
    assert_eq!(record.zone_name, "Europe/Paris");
    assert_eq!(record.next_dst_change, "2024-03-31 01:59:00 CET");
    assert_eq!(record.second_dst_change, "2024-10-27 02:59:00 CEST");
}

#[test]
fn adelaide_record() {
    let pair = resolve_zone("Australia/Adelaide", 1_705_276_800).unwrap();
    let record = record_of(&pair).unwrap();
    assert_eq!(record.next_dst_change, "2024-04-07 02:59:00 ACDT");
    assert_eq!(record.second_dst_change, "2024-10-06 01:59:00 ACST");
}

#[test]
fn record_of_an_unknown_zone() {
    assert_eq!(record_of(&pair_of("toto en vacances", 0, 60)), None);
}

#[test]
fn record_of_an_instant_out_of_range() {
    assert_eq!(record_of(&pair_of("Europe/Paris", 0, i64::MAX)), None);
    assert_eq!(record_of(&pair_of("Europe/Paris", i64::MIN, 0)), None);
}

#[test]
fn assemble_needs_both_texts() {
    let record = ChangeRecord::assemble("Z", Some(String::from("a")), Some(String::from("b")));
    assert_eq!(
        record,
        Some(ChangeRecord {
            zone_name: String::from("Z"),
            next_dst_change: String::from("a"),
            second_dst_change: String::from("b"),
        })
    );
    assert_eq!(ChangeRecord::assemble("Z", None, Some(String::from("b"))), None);
    assert_eq!(ChangeRecord::assemble("Z", Some(String::from("a")), None), None);
    assert_eq!(ChangeRecord::assemble("Z", None, None), None);
}

#[test]
fn records_of_a_batch() {
    let names = vec![
        String::from("Australia/Adelaide"),
        String::from("toto en vacances"),
        String::from("Africa/Abidjan"),
        String::from("Europe/Paris"),
    ];
    let mut outcomes = resolve_all(&names, 1_705_276_800);
    outcomes.push(Ok(pair_of("Europe/Paris", 0, i64::MAX)));
    outcomes.push(Ok(pair_of("Europe/Paris", 1_711_846_740, 1_729_990_740)));
    let records = records_of(&outcomes);
    assert_eq!(records.len(), 3);
    assert_eq!(records[0].zone_name, "Australia/Adelaide");
    assert_eq!(records[0].next_dst_change, "2024-04-07 02:59:00 ACDT");
    assert_eq!(records[1].zone_name, "Europe/Paris");
    assert_eq!(records[1].next_dst_change, "2024-03-31 01:59:00 CET");
    assert_eq!(records[1].second_dst_change, "2024-10-27 02:59:00 CEST");
    assert_eq!(records[2], records[1]);
    assert!(records_of(&Vec::new()).is_empty());
}
