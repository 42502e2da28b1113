use tmux_watch::calendar::{civil_from_days, timestamp_iso};

fn now_ms() -> u128 {
    match std::time::SystemTime::now().duration_since(std::time::UNIX_EPOCH) {
        Ok(d) => d.as_millis(),
        Err(_) => 0,
    }
}

#[test]
fn timestamp_is_iso8601_utc() {
    let ts = timestamp_iso(now_ms());
    assert!(ts.ends_with('Z'), "{ts}");
    assert_eq!(ts.len(), 24, "{ts}");
    assert_eq!(&ts[4..5], "-");
    assert_eq!(&ts[10..11], "T");
}

#[test]
fn civil_from_days_matches_known_epoch_dates() {
    assert_eq!(civil_from_days(0), (1970, 1, 1));
    assert_eq!(civil_from_days(19_000), (2022, 1, 8));
}

#[test]
fn leap_days_and_centuries_are_counted() {
    assert_eq!(civil_from_days(-1), (1969, 12, 31));
    assert_eq!(civil_from_days(11_016), (2000, 2, 29));
    assert_eq!(civil_from_days(11_017), (2000, 3, 1));
    assert_eq!(civil_from_days(-25_509), (1900, 2, 28));
    assert_eq!(civil_from_days(-25_508), (1900, 3, 1));
    assert_eq!(civil_from_days(-719_468), (0, 3, 1));
    assert_eq!(civil_from_days(-719_469), (0, 2, 29));
}

#[test]
fn dates_follow_one_another() {
    let mut previous = civil_from_days(-150_000);
    for day in -149_999i64..150_000 {
        let date = civil_from_days(day);
        assert!(previous < date, "{previous:?} {date:?}");
        previous = date;
    }
}

#[test]
fn times_are_written_to_the_millisecond() {
    assert_eq!(timestamp_iso(0), "1970-01-01T00:00:00.000Z");
    assert_eq!(timestamp_iso(1_787_745_600_000), "2026-08-26T12:00:00.000Z");
    assert_eq!(timestamp_iso(951_782_399_007), "2000-02-28T23:59:59.007Z");
}

#[test]
fn years_before_the_common_era_carry_a_sign() {
    // Seconds are kept in 64 bits, so a time this large wraps to a negative one.
    let wrapped = (u128::from(u64::MAX) - 62_198_755_200 + 1) * 1000;
    assert_eq!(timestamp_iso(wrapped), "-001-01-01T00:00:00.000Z");
}
