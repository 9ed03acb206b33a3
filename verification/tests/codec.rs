use chrono::{NaiveDateTime, TimeZone, Utc};
use fridge::codec::{parse_snapshot_list, parse_snapshot_name, SnapshotIdentifier};
use fridge::error::{FridgeError, SnapshotField};
use fridge::instant::Timestamp;
use fridge::location::Location;

fn repository() -> Location {
    let mut l = Location::default();
    l.path = "/.snapshots".to_string();
    l
}

fn field_at_fault(name: &str) -> SnapshotField {
    match SnapshotIdentifier::decode(name) {
        Err(FridgeError::ParseSnapshot { snapshot, what }) => {
            assert_eq!(snapshot, name);
            what
        }
        other => panic!("{:?} gave {:?}", name, other),
    }
}

#[test]
fn lib_test_parse_snapshot_name() {
    let snapshot = parse_snapshot_name("root@2000-01-02_03:04:05_daily", &repository()).unwrap();
    assert_eq!(&snapshot.name, "root");
    let datetime = Utc
        .from_utc_datetime(
            &NaiveDateTime::parse_from_str("2000-01-02 03:04:05", "%Y-%m-%d %H:%M:%S").unwrap(),
        );
    assert_eq!(snapshot.datetime.timestamp(), datetime.timestamp());
    assert_eq!(snapshot.suffix, "daily");
}

#[test]
fn decoding_gives_name_tier_and_instant() {
    let id = SnapshotIdentifier::decode("root@2000-01-02_03:04:05_daily").unwrap();
    assert_eq!(id.base_name, "root");
    assert_eq!(id.tier, "daily");
    assert_eq!(id.timestamp.year(), 2000);
    assert_eq!(id.timestamp.month(), 1);
    assert_eq!(id.timestamp.day(), 2);
    assert_eq!(id.timestamp.hour(), 3);
    assert_eq!(id.timestamp.minute(), 4);
    assert_eq!(id.timestamp.second(), 5);
    assert_eq!(id.timestamp.timestamp(), 946782245);
}

#[test]
fn encoding_writes_zero_padded_fields() {
    let t = Timestamp::from_civil(2000, 1, 2, 3, 4, 5).unwrap();
    let id = SnapshotIdentifier::new("root", t, Some("daily"));
    assert_eq!(id.encode(), "root@2000-01-02_03:04:05_daily");
    let t = Timestamp::from_civil(987, 12, 31, 23, 59, 59).unwrap();
    let id = SnapshotIdentifier::new("home", t, Some("yearly"));
    assert_eq!(id.encode(), "home@0987-12-31_23:59:59_yearly");
}

#[test]
fn encoding_without_a_tier_says_manual() {
    let t = Timestamp::from_civil(2021, 6, 7, 8, 9, 10).unwrap();
    let id = SnapshotIdentifier::new("root", t, None);
    assert_eq!(id.tier, "manual");
    assert_eq!(id.encode(), "root@2021-06-07_08:09:10_manual");
}

#[test]
fn decoding_an_encoded_identity_gives_it_back() {
    let stamps = [
        (0, 1, 1, 0, 0, 0),
        (1970, 1, 1, 0, 0, 0),
        (2000, 2, 29, 12, 30, 45),
        (2023, 12, 31, 23, 59, 59),
        (9999, 12, 31, 23, 59, 59),
    ];
    for (y, mo, d, h, mi, s) in stamps {
        for (name, tier) in [("root", "hourly"), ("my_volume", "manual"), ("", ""), ("a b", "x@y")] {
            let t = Timestamp::from_civil(y, mo, d, h, mi, s).unwrap();
            let id = SnapshotIdentifier::new(name, t, Some(tier));
            let back = SnapshotIdentifier::decode(&id.encode()).unwrap();
            assert_eq!(back.base_name, name);
            assert_eq!(back.tier, tier);
            assert_eq!(back.timestamp.timestamp(), t.timestamp());
            assert_eq!(back.timestamp.year(), y);
            assert_eq!(back.timestamp.month(), mo);
            assert_eq!(back.timestamp.day(), d);
            assert_eq!(back.timestamp.hour(), h);
            assert_eq!(back.timestamp.minute(), mi);
            assert_eq!(back.timestamp.second(), s);
        }
    }
}

#[test]
fn decoding_leaves_out_what_follows_a_third_underscore() {
    let id = SnapshotIdentifier::decode("root@2000-01-02_03:04:05_daily_extra_more").unwrap();
    assert_eq!(id.tier, "daily");
}

#[test]
fn decoding_names_the_field_at_fault() {
    assert_eq!(field_at_fault("root"), SnapshotField::Name);
    assert_eq!(field_at_fault(""), SnapshotField::Name);
    assert_eq!(field_at_fault("root@"), SnapshotField::DatetimeAndSuffix);
    assert_eq!(field_at_fault("root@2000-01-02"), SnapshotField::Time);
    assert_eq!(field_at_fault("root@2000-01-02_03:04:05"), SnapshotField::Suffix);
    assert_eq!(field_at_fault("root@2000-1-2_03:04:05_daily"), SnapshotField::Date);
    assert_eq!(field_at_fault("root@2000/01/02_03:04:05_daily"), SnapshotField::Date);
    assert_eq!(field_at_fault("root@2000-13-02_03:04:05_daily"), SnapshotField::Date);
    assert_eq!(field_at_fault("root@2000-01-00_03:04:05_daily"), SnapshotField::Date);
    assert_eq!(field_at_fault("root@2000-01-02_3:4:5_daily"), SnapshotField::Time);
    assert_eq!(field_at_fault("root@2000-01-02_24:00:00_daily"), SnapshotField::Time);
    assert_eq!(field_at_fault("root@2000-01-02_03:04:60_daily"), SnapshotField::Time);
    assert_eq!(field_at_fault("root@2001-02-29_03:04:05_daily"), SnapshotField::Datetime);
    assert_eq!(field_at_fault("root@2000-04-31_03:04:05_daily"), SnapshotField::Datetime);
}

#[test]
fn field_names_are_those_of_the_messages() {
    assert_eq!(SnapshotField::Name.name(), "name");
    assert_eq!(SnapshotField::DatetimeAndSuffix.name(), "datetime and suffix");
    assert_eq!(SnapshotField::Date.name(), "date");
    assert_eq!(SnapshotField::Time.name(), "time");
    assert_eq!(SnapshotField::Suffix.name(), "suffix");
    assert_eq!(SnapshotField::Datetime.name(), "datetime");
}

#[test]
fn names_are_ordered_as_their_instants() {
    let stamps = [
        (1999, 12, 31, 23, 59, 59),
        (2000, 1, 1, 0, 0, 0),
        (2000, 1, 1, 0, 0, 1),
        (2000, 1, 1, 0, 1, 0),
        (2000, 1, 1, 1, 0, 0),
        (2000, 1, 2, 0, 0, 0),
        (2000, 2, 1, 0, 0, 0),
        (2000, 10, 1, 0, 0, 0),
        (2001, 1, 1, 0, 0, 0),
    ];
    for a in stamps {
        for b in stamps {
            let ta = Timestamp::from_civil(a.0, a.1, a.2, a.3, a.4, a.5).unwrap();
            let tb = Timestamp::from_civil(b.0, b.1, b.2, b.3, b.4, b.5).unwrap();
            let na = SnapshotIdentifier::new("root", ta, Some("daily")).encode();
            let nb = SnapshotIdentifier::new("root", tb, Some("daily")).encode();
            assert_eq!(ta.is_before(&tb), na < nb);
            assert_eq!(ta.is_before(&tb), ta.timestamp() < tb.timestamp());
        }
    }
}

#[test]
fn a_list_of_names_is_read_in_order() {
    let names = vec![
        "root@2000-01-02_03:04:05_daily".to_string(),
        "root@2000-01-03_03:04:05_weekly".to_string(),
    ];
    let list = parse_snapshot_list(&names, &repository()).unwrap();
    assert_eq!(list.len(), 2);
    assert_eq!(list[0].full_name, names[0]);
    assert_eq!(list[0].suffix, "daily");
    assert_eq!(list[1].full_name, names[1]);
    assert_eq!(list[1].suffix, "weekly");
    assert_eq!(list[1].repository.path, "/.snapshots");
    assert_eq!(list[1].identifier().encode(), names[1]);
    assert!(parse_snapshot_list(&Vec::new(), &repository()).unwrap().is_empty());
}

#[test]
fn a_list_with_a_malformed_name_reports_the_first_one() {
    let names = vec![
        "root@2000-01-02_03:04:05_daily".to_string(),
        "root@2000-01-03".to_string(),
        "broken".to_string(),
    ];
    match parse_snapshot_list(&names, &repository()) {
        Err(FridgeError::ParseSnapshot { snapshot, what }) => {
            assert_eq!(snapshot, "root@2000-01-03");
            assert_eq!(what, SnapshotField::Time);
        }
        other => panic!("{:?}", other),
    }
}

#[test]
fn timestamps_agree_with_the_calendar() {
    let t = Timestamp::from_seconds(946782245).unwrap();
    assert_eq!(
        (t.year(), t.month(), t.day(), t.hour(), t.minute(), t.second()),
        (2000, 1, 2, 3, 4, 5)
    );
    assert_eq!(t.timestamp(), 946782245);
    let date: String = t.date().iter().collect();
    let time: String = t.time().iter().collect();
    assert_eq!(date, "2000-01-02");
    assert_eq!(time, "03:04:05");
    let e = Timestamp::from_seconds(0).unwrap();
    assert_eq!((e.year(), e.month(), e.day()), (1970, 1, 1));
    let n = Timestamp::from_seconds(-1).unwrap();
    assert_eq!((n.year(), n.month(), n.day(), n.second()), (1969, 12, 31, 59));
    assert_eq!(Timestamp::from_civil(1970, 1, 1, 0, 0, 0).unwrap().timestamp(), 0);
    assert_eq!(Timestamp::from_civil(0, 1, 1, 0, 0, 0).unwrap().timestamp(), -62167219200);
    assert_eq!(Timestamp::from_civil(9999, 12, 31, 23, 59, 59).unwrap().timestamp(), 253402300799);
}

#[test]
fn timestamps_out_of_the_calendar_are_refused() {
    assert!(Timestamp::from_civil(2001, 2, 29, 0, 0, 0).is_none());
    assert!(Timestamp::from_civil(2000, 2, 29, 0, 0, 0).is_some());
    assert!(Timestamp::from_civil(10000, 1, 1, 0, 0, 0).is_none());
    assert!(Timestamp::from_civil(2000, 0, 1, 0, 0, 0).is_none());
    assert!(Timestamp::from_civil(2000, 13, 1, 0, 0, 0).is_none());
    assert!(Timestamp::from_civil(2000, 1, 32, 0, 0, 0).is_none());
    assert!(Timestamp::from_civil(2000, 1, 1, 24, 0, 0).is_none());
    assert!(Timestamp::from_civil(2000, 1, 1, 0, 60, 0).is_none());
    assert!(Timestamp::from_civil(2000, 1, 1, 0, 0, 60).is_none());
    assert!(Timestamp::from_seconds(253402300800).is_none());
    assert!(Timestamp::from_seconds(-62167219201).is_none());
    assert!(Timestamp::from_seconds(i64::MAX).is_none());
    assert!(Timestamp::from_seconds(i64::MIN).is_none());
}
