use per::naming::{civil_from_days, file_name_for, file_name_string_for};

#[test]
fn epoch_is_first_of_january_1970() {
    assert_eq!(civil_from_days(0), (1970, 1, 1));
    assert_eq!(civil_from_days(1), (1970, 1, 2));
    assert_eq!(civil_from_days(31), (1970, 2, 1));
    assert_eq!(civil_from_days(365), (1971, 1, 1));
}

#[test]
fn leap_days_are_placed_correctly() {
    // 2000 is a leap year (divisible by 400): day 11016 is 2000-02-29.
    assert_eq!(civil_from_days(11016), (2000, 2, 29));
    assert_eq!(civil_from_days(11017), (2000, 3, 1));
    // 1972 is the first leap year after the epoch: 1972-02-29 is day
    // 730 (1970, 1971) + 31 + 28 = 789.
    assert_eq!(civil_from_days(789), (1972, 2, 29));
}

#[test]
fn century_rule_is_honored() {
    // 2100 is not a leap year: the day after 2100-02-28 is 2100-03-01.
    // 2100-01-01 is day 47482 = 130 years of 365 days plus 32 leap days
    // (1972..=2096 step 4, minus 2100's predecessors none, 2000 counts).
    assert_eq!(civil_from_days(47482), (2100, 1, 1));
    assert_eq!(civil_from_days(47482 + 31 + 27), (2100, 2, 28));
    assert_eq!(civil_from_days(47482 + 31 + 28), (2100, 3, 1));
}

#[test]
fn epoch_file_name() {
    assert_eq!(file_name_for(0), b"1970-01-01 00.00.00+0000.mp3".to_vec());
}

#[test]
fn modern_timestamp_file_name() {
    // 1700000000 s = 2023-11-14 22:13:20 UTC.
    assert_eq!(
        file_name_for(1700000000),
        b"2023-11-14 22.13.20+0000.mp3".to_vec()
    );
}

#[test]
fn file_name_as_string() {
    let name = file_name_string_for(951782400);
    assert_eq!(name, "2000-02-29 00.00.00+0000.mp3");
}
