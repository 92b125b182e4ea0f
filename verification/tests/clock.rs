use doiget_core::clock::Timestamp;

#[test]
fn what_has_passed_since_the_epoch_is_a_point_in_time() {
    assert_eq!(
        Timestamp::from_passed(Some((1_700_000_000, 123_456_789))),
        Timestamp { secs: 1_700_000_000, nanos: 123_456_789 }
    );
    assert_eq!(Timestamp::from_passed(None), Timestamp { secs: 0, nanos: 0 });
    assert_eq!(
        Timestamp::from_passed(Some((u64::MAX, 1))),
        Timestamp { secs: i64::MAX, nanos: 1 }
    );
}

#[test]
fn the_clock_tells_the_time() {
    let now = Timestamp::now();
    assert!(now.secs > 1_600_000_000);
    assert!(now.nanos < 1_000_000_000);
    let later = Timestamp::now();
    assert!(later.secs - now.secs < 20);
}
