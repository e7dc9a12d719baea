use proxysvpn::calendar::{day_number, days_to_ymd, format_date, format_iso};

#[test]
fn epoch_day_is_first_of_january_1970() {
    assert_eq!(days_to_ymd(0), (1970, 1, 1));
}

#[test]
fn day_before_epoch() {
    assert_eq!(days_to_ymd(-1), (1969, 12, 31));
}

#[test]
fn leap_days() {
    assert_eq!(days_to_ymd(19782), (2024, 2, 29));
    assert_eq!(days_to_ymd(11016), (2000, 2, 29));
    assert_eq!(days_to_ymd(-719469), (0, 2, 29));
}

#[test]
fn consecutive_days_follow_the_calendar() {
    // 1900 is not a leap year: 28 February is followed by 1 March.
    let feb28_1900 = days_to_ymd(-25509);
    assert_eq!(feb28_1900, (1900, 2, 28));
    assert_eq!(days_to_ymd(-25508), (1900, 3, 1));
    assert_eq!(days_to_ymd(-719468), (0, 3, 1));
}

#[test]
fn iso_of_epoch() {
    assert_eq!(format_iso(0), "1970-01-01T00:00:00Z");
}

#[test]
fn iso_of_ordinary_times() {
    assert_eq!(format_iso(1704067199), "2023-12-31T23:59:59Z");
    assert_eq!(format_iso(1709164800), "2024-02-29T00:00:00Z");
    assert_eq!(format_iso(951782400), "2000-02-29T00:00:00Z");
}

#[test]
fn iso_reads_seconds_as_signed_64_bit() {
    assert_eq!(format_iso(u64::MAX as u128), "1970-01-01T00:00:-1Z");
    assert_eq!(format_iso((u64::MAX as u128) + 6), "1970-01-01T00:00:05Z");
    assert_eq!(format_iso(i64::MAX as u128), "292277026596-12-04T15:30:07Z");
    assert_eq!(format_iso(1u128 << 63), "-292277022657-01-28T-15:-30:-8Z");
}

#[test]
fn timestamps_have_twenty_characters_and_sort_by_time() {
    let times: [u128; 6] = [0, 59, 3_600, 86_399, 951_782_400, 253_402_300_799];
    for w in times.windows(2) {
        let a = format_iso(w[0]);
        let b = format_iso(w[1]);
        assert_eq!(a.len(), 20);
        assert_eq!(b.len(), 20);
        assert!(a < b);
    }
    assert_eq!(format_iso(253_402_300_799), "9999-12-31T23:59:59Z");
}

#[test]
fn dates_of_day_numbers() {
    assert_eq!(format_date(0), "1970-01-01");
    assert_eq!(format_date(19_844), "2024-05-01");
    assert_eq!(format_date(-1), "1969-12-31");
    assert_eq!(day_number(86_399), 0);
    assert_eq!(day_number(86_400), 1);
}
