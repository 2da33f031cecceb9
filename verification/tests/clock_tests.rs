use chat_room::clock::Timestamp;

#[test]
fn the_epoch_in_rfc3339() {
    let epoch = Timestamp { secs: 0, nanos: 0 };
    assert_eq!(epoch.to_rfc3339(), Some("1970-01-01T00:00:00+00:00".to_string()));
}

#[test]
fn a_whole_second_in_rfc3339() {
    let instant = Timestamp { secs: 1_431_648_000, nanos: 0 };
    assert_eq!(instant.to_rfc3339(), Some("2015-05-15T00:00:00+00:00".to_string()));
}

#[test]
fn fractions_are_written_in_groups_of_three_digits() {
    let millis = Timestamp { secs: 851_013_597, nanos: 500_000_000 };
    assert_eq!(millis.to_rfc3339(), Some("1996-12-19T16:39:57.500+00:00".to_string()));
    let micros = Timestamp { secs: 851_013_597, nanos: 1_000 };
    assert_eq!(micros.to_rfc3339(), Some("1996-12-19T16:39:57.000001+00:00".to_string()));
    let nanos = Timestamp { secs: 851_013_597, nanos: 1 };
    assert_eq!(nanos.to_rfc3339(), Some("1996-12-19T16:39:57.000000001+00:00".to_string()));
}

#[test]
fn instants_before_the_epoch_in_rfc3339() {
    let instant = Timestamp { secs: -1, nanos: 0 };
    assert_eq!(instant.to_rfc3339(), Some("1969-12-31T23:59:59+00:00".to_string()));
}

#[test]
fn parts_that_name_no_instant_have_no_text() {
    assert_eq!(Timestamp { secs: i64::MAX, nanos: 0 }.to_rfc3339(), None);
    assert_eq!(Timestamp { secs: i64::MIN, nanos: 0 }.to_rfc3339(), None);
    assert_eq!(Timestamp { secs: 0, nanos: 2_000_000_000 }.to_rfc3339(), None);
}

#[test]
fn the_current_time_has_a_text_that_reads_back() {
    let now = Timestamp::now();
    let text = now.to_rfc3339().expect("the current time can be written");
    let parsed = chrono::DateTime::parse_from_rfc3339(&text).expect("RFC 3339");
    assert_eq!(parsed.timestamp(), now.secs);
    assert_eq!(parsed.timestamp_subsec_nanos(), now.nanos);
    assert!(now.secs > 1_600_000_000);
}

#[test]
fn the_clock_does_not_run_backwards_by_much() {
    let first = Timestamp::now();
    let second = Timestamp::now();
    assert!(second.secs >= first.secs - 1);
}
