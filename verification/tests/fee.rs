use parking_fee::fee::{calculate_fee, calculate_fee_str, fee, try_calculate_fee_str, DAILY_CAP};
use parking_fee::time::TimeOfDay;

fn testcase(from_time: &str, to_time: &str, expected: i32) {
    assert_eq!(calculate_fee_str(from_time, to_time), expected);
}

#[test]
fn tests() {
    testcase("09:00:00", "09:00:00", 0); // [0,10]
    testcase("09:00:00", "09:10:59", 0); // [0,10]
    testcase("09:00:00", "09:11:59", 7); // [11,30]
    testcase("09:00:00", "09:30:59", 7); // [11,30]
    testcase("09:00:00", "09:31:59", 10); // [31,59]
    testcase("09:00:00", "09:59:59", 10); // [31,59]
    testcase("09:00:00", "10:00:59", 10); // on the hour
    testcase("09:00:00", "11:00:59", 20); // on the hour
    testcase("09:00:00", "12:00:59", 30); // on the hour
    testcase("09:00:00", "13:00:59", 40); // on the hour
    testcase("09:00:00", "14:00:59", 50); // on the hour

    testcase("09:00:00", "10:01:59", 17); // one hour and at most 30 minutes
    testcase("09:00:00", "10:30:59", 17); // one hour and at most 30 minutes
    testcase("09:00:00", "11:01:59", 27); // two hours and at most 30 minutes
    testcase("09:00:00", "11:30:59", 27); // two hours and at most 30 minutes
    testcase("09:00:00", "12:01:59", 37); // three hours and at most 30 minutes
    testcase("09:00:00", "12:30:59", 37); // three hours and at most 30 minutes
    testcase("09:00:00", "13:01:59", 47); // four hours and at most 30 minutes
    testcase("09:00:00", "13:30:59", 47); // four hours and at most 30 minutes

    testcase("09:00:00", "10:31:59", 20); // one hour and more than 30 minutes
    testcase("09:00:00", "10:59:59", 20); // one hour and more than 30 minutes
    testcase("09:00:00", "11:31:59", 30); // two hours and more than 30 minutes
    testcase("09:00:00", "11:59:59", 30); // two hours and more than 30 minutes
    testcase("09:00:00", "12:31:59", 40); // three hours and more than 30 minutes
    testcase("09:00:00", "12:59:59", 40); // three hours and more than 30 minutes
    testcase("09:00:00", "13:31:59", 50); // four hours and more than 30 minutes
    testcase("09:00:00", "13:59:59", 50); // four hours and more than 30 minutes

    testcase("09:00:00", "14:01:59", 50); // never more than 50 a day
    testcase("00:00:00", "23:59:59", 50); // never more than 50 a day
}

#[test]
fn fee_of_the_named_durations() {
    assert_eq!(fee(0), 0);
    assert_eq!(fee(10), 0);
    assert_eq!(fee(11), 7);
    assert_eq!(fee(30), 7);
    assert_eq!(fee(31), 10);
    assert_eq!(fee(60), 10);
    assert_eq!(fee(61), 17);
    assert_eq!(fee(300), 50);
}

#[test]
fn fee_is_free_for_the_first_ten_minutes() {
    for minutes in 0..=10 {
        assert_eq!(fee(minutes), 0, "{} minutes", minutes);
    }
}

#[test]
fn fee_of_whole_hours() {
    for hours in 1..=30 {
        assert_eq!(fee(hours * 60), (hours * 10).min(50), "{} hours", hours);
    }
}

#[test]
fn fee_of_a_started_half_hour() {
    for hours in 0..=30 {
        for remainder in 1..=30 {
            if hours == 0 && remainder <= 10 {
                continue;
            }
            assert_eq!(
                fee(hours * 60 + remainder),
                (hours * 10 + 7).min(50),
                "{} hours and {} minutes",
                hours,
                remainder
            );
        }
    }
}

#[test]
fn fee_past_the_half_hour() {
    for hours in 0..=30 {
        for remainder in 31..=59 {
            assert_eq!(
                fee(hours * 60 + remainder),
                (hours * 10 + 10).min(50),
                "{} hours and {} minutes",
                hours,
                remainder
            );
        }
    }
}

#[test]
fn fee_never_falls_and_never_passes_the_cap() {
    let mut last = 0;
    for minutes in 0..=3000 {
        let charge = fee(minutes);
        assert!(charge >= last, "{} minutes", minutes);
        assert!(charge <= DAILY_CAP, "{} minutes", minutes);
        last = charge;
    }
    assert_eq!(DAILY_CAP, 50);
    assert_eq!(fee(i32::MAX), 50);
}

#[test]
fn fee_at_the_edges_of_each_tier() {
    assert_eq!(fee(59), 10);
    assert_eq!(fee(90), 17);
    assert_eq!(fee(91), 20);
    assert_eq!(fee(120), 20);
    assert_eq!(fee(240), 40);
    assert_eq!(fee(241), 47);
    assert_eq!(fee(270), 47);
    assert_eq!(fee(271), 50);
    assert_eq!(fee(1439), 50);
}

#[test]
fn calculate_fee_counts_whole_minutes() {
    let time = |hour, minute, second| TimeOfDay::new(hour, minute, second).unwrap();
    assert_eq!(calculate_fee(time(9, 0, 0), time(9, 0, 0)), 0);
    assert_eq!(calculate_fee(time(9, 0, 30), time(9, 11, 29)), 0);
    assert_eq!(calculate_fee(time(9, 0, 30), time(9, 11, 30)), 7);
    assert_eq!(calculate_fee(time(23, 48, 0), time(23, 59, 59)), 7);
    assert_eq!(calculate_fee(time(23, 49, 0), time(23, 59, 59)), 0);
    assert_eq!(calculate_fee(time(0, 0, 0), time(23, 59, 59)), 50);
    assert_eq!(calculate_fee(time(8, 15, 0), time(10, 50, 0)), 30);
}

#[test]
fn try_calculate_fee_str_agrees_with_calculate_fee_str() {
    assert_eq!(try_calculate_fee_str("09:00:00", "09:11:59"), Some(7));
    assert_eq!(try_calculate_fee_str("09:00:00", "10:31:59"), Some(20));
    assert_eq!(try_calculate_fee_str("00:00:00", "23:59:59"), Some(50));
    assert_eq!(try_calculate_fee_str("7:05:09", "7:16:09"), Some(7));
}

#[test]
fn try_calculate_fee_str_refuses_what_is_no_time() {
    assert_eq!(try_calculate_fee_str("", "09:00:00"), None);
    assert_eq!(try_calculate_fee_str("09:00:00", "nine"), None);
    assert_eq!(try_calculate_fee_str("24:00:00", "24:10:00"), None);
    assert_eq!(try_calculate_fee_str("09:60:00", "10:00:00"), None);
    assert_eq!(try_calculate_fee_str("09:00", "10:00"), None);
    assert_eq!(try_calculate_fee_str("09:00:00 ", "10:00:00"), None);
}

#[test]
fn try_calculate_fee_str_refuses_a_leap_second() {
    assert_eq!(try_calculate_fee_str("09:00:00", "09:10:60"), None);
    assert_eq!(try_calculate_fee_str("09:00:60", "09:10:00"), None);
}

#[test]
fn try_calculate_fee_str_refuses_a_stay_that_ends_before_it_starts() {
    assert_eq!(try_calculate_fee_str("10:00:00", "09:00:00"), None);
    assert_eq!(try_calculate_fee_str("10:00:01", "10:00:00"), None);
}
