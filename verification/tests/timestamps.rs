use forum::timestamp::{parse_dt, timestamp_or_epoch, Timestamp};

#[test]
fn parse_reads_database_times() {
    let t = parse_dt("2024-03-05 14:07:09");
    assert_eq!(
        (t.year(), t.month(), t.day(), t.hour(), t.minute(), t.second()),
        (2024, 3, 5, 14, 7, 9)
    );
    assert_eq!(t.format_minute(), "2024-03-05 14:07 UTC");
}

#[test]
fn unreadable_times_are_the_epoch() {
    for s in ["", "yesterday", "2024-02-30 00:00:00", "2024-03-05T14:07:09"] {
        let t = parse_dt(s);
        assert_eq!(t, Timestamp::unix_epoch(), "{s}");
        assert_eq!(t.format_minute(), "1970-01-01 00:00 UTC");
    }
}

#[test]
fn calendar_checks() {
    assert!(Timestamp::new(2024, 2, 29, 0, 0, 0).is_some());
    assert!(Timestamp::new(2023, 2, 29, 0, 0, 0).is_none());
    assert!(Timestamp::new(2000, 2, 29, 0, 0, 0).is_some());
    assert!(Timestamp::new(1900, 2, 29, 0, 0, 0).is_none());
    assert!(Timestamp::new(2024, 4, 31, 0, 0, 0).is_none());
    assert!(Timestamp::new(2024, 13, 1, 0, 0, 0).is_none());
    assert!(Timestamp::new(2024, 1, 1, 24, 0, 0).is_none());
    assert!(Timestamp::new(2024, 1, 1, 23, 60, 0).is_none());
    let t = Timestamp::new(7, 1, 2, 3, 4, 5).unwrap();
    assert_eq!(t.format_minute(), "0007-01-02 03:04 UTC");
}

#[test]
fn years_outside_four_digits_carry_a_sign() {
    let t = Timestamp::new(-1, 12, 31, 23, 59, 0).unwrap();
    assert_eq!(t.format_minute(), "-0001-12-31 23:59 UTC");
    let t = Timestamp::new(10000, 1, 1, 0, 5, 0).unwrap();
    assert_eq!(t.format_minute(), "+10000-01-01 00:05 UTC");
    let t = Timestamp::new(123, 6, 7, 8, 9, 10).unwrap();
    assert_eq!(t.format_minute(), "0123-06-07 08:09 UTC");
    let t = Timestamp::new(0, 1, 1, 0, 0, 0).unwrap();
    assert_eq!(t.format_minute(), "0000-01-01 00:00 UTC");
}

#[test]
fn chrono_answer_or_epoch() {
    let t = timestamp_or_epoch(Some((2021, 11, 30, 6, 45, 59)));
    assert_eq!(
        (t.year(), t.month(), t.day(), t.hour(), t.minute(), t.second()),
        (2021, 11, 30, 6, 45, 59)
    );
    assert_eq!(timestamp_or_epoch(None), Timestamp::unix_epoch());
}

#[test]
fn calendar_edges_of_chrono() {
    assert!(Timestamp::new(262142, 12, 31, 23, 59, 59).is_some());
    assert!(Timestamp::new(262143, 1, 1, 0, 0, 0).is_none());
    assert!(Timestamp::new(-262143, 1, 1, 0, 0, 0).is_some());
    assert!(Timestamp::new(-262144, 12, 31, 0, 0, 0).is_none());
    assert!(Timestamp::new(2024, 1, 1, 0, 0, 60).is_none());
    assert!(Timestamp::new(2024, 1, 0, 0, 0, 0).is_none());
    assert!(Timestamp::new(2024, 0, 1, 0, 0, 0).is_none());
}
