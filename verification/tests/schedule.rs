use statusbar::schedule::{sleep_step, Schedule, TimeOfMonth, MIN_UPDATE_NANOS};

fn at(day0: u32, hour: u32, minute: u32, second: u32, subsec_millis: u32) -> TimeOfMonth {
    TimeOfMonth { day0, hour, minute, second, subsec_millis }
}

#[test]
fn every_is_empty() {
    assert_eq!(Schedule::every().as_nanos(), 0);
    assert_eq!(Schedule::default(), Schedule::every());
}

#[test]
fn units_add_their_length() {
    assert_eq!(Schedule::every().milli().as_nanos(), 1_000_000);
    assert_eq!(Schedule::every().millis(1500).as_nanos(), 1_500_000_000);
    assert_eq!(Schedule::every().sec().as_nanos(), 1_000_000_000);
    assert_eq!(Schedule::every().secs(30).as_nanos(), 30_000_000_000);
    assert_eq!(Schedule::every().min().as_nanos(), 60_000_000_000);
    assert_eq!(Schedule::every().mins(2).as_nanos(), 120_000_000_000);
    assert_eq!(Schedule::every().hour().as_nanos(), 3_600_000_000_000);
    assert_eq!(Schedule::every().hours(2).as_nanos(), 7_200_000_000_000);
    assert_eq!(Schedule::every().day().as_nanos(), 86_400_000_000_000);
    assert_eq!(Schedule::every().days(2).as_nanos(), 172_800_000_000_000);
}

#[test]
fn units_agree_with_each_other() {
    assert_eq!(Schedule::every().min(), Schedule::every().secs(60));
    assert_eq!(Schedule::every().hour(), Schedule::every().mins(60));
    assert_eq!(Schedule::every().day(), Schedule::every().hours(24));
    assert_eq!(Schedule::every().sec(), Schedule::every().millis(1000));
}

#[test]
fn units_accumulate() {
    let s = Schedule::every().secs(1).millis(500);
    assert_eq!(s.as_millis(), 1500);
    assert_eq!(s.as_nanos(), 1_500_000_000);
    let carry = Schedule::every().millis(999).millis(2);
    assert_eq!(carry.as_nanos(), 1_001_000_000);
    assert_eq!(carry, Schedule::every().sec().milli());
    assert!(Schedule::every().sec() < Schedule::every().min());
}

#[test]
fn as_millis_rounds_down() {
    assert_eq!(Schedule::every().millis(2).as_millis(), 2);
    assert_eq!(Schedule::every().days(1).as_millis(), 86_400_000);
}

#[test]
fn delay_to_next_minute() {
    let minute = Schedule::every().min();
    assert_eq!(minute.delay_millis(&at(0, 12, 34, 56, 789)), 3211);
    assert_eq!(minute.delay_millis(&at(0, 12, 35, 0, 0)), 0);
    assert_eq!(minute.delay_millis(&at(0, 12, 35, 0, 1)), 59_999);
}

#[test]
fn delay_to_next_second() {
    let second = Schedule::every().sec();
    assert_eq!(second.delay_millis(&at(4, 1, 2, 3, 0)), 0);
    assert_eq!(second.delay_millis(&at(4, 1, 2, 3, 1)), 999);
}

#[test]
fn delay_counts_from_start_of_month() {
    let thirty = Schedule::every().secs(30);
    assert_eq!(thirty.delay_millis(&at(0, 12, 34, 10, 789)), 19_211);
    let day = Schedule::every().day();
    assert_eq!(day.delay_millis(&at(3, 23, 59, 59, 999)), 1);
    assert_eq!(day.delay_millis(&at(3, 0, 0, 0, 0)), 0);
    // seven-hour intervals are aligned to the month, not to the day
    let seven = Schedule::every().hours(7);
    assert_eq!(seven.delay_millis(&at(1, 0, 0, 0, 0)), 4 * 3_600_000);
}

#[test]
fn delay_is_idempotent() {
    let minute = Schedule::every().min();
    let first = minute.delay_millis(&at(0, 12, 34, 56, 789));
    assert_eq!(first, 3211);
    // 12:34:56.789 + 3.211 s is 12:35:00.000
    assert_eq!(minute.delay_millis(&at(0, 12, 35, 0, 0)), 0);
}

#[test]
fn sleep_never_passes_the_deadline() {
    assert_eq!(sleep_step(0, 25_000_000_000), Some(MIN_UPDATE_NANOS));
    assert_eq!(sleep_step(0, 3), Some(3));
    assert_eq!(sleep_step(0, 10_000_000_000), Some(10_000_000_000));
    assert_eq!(sleep_step(5, 5), None);
    assert_eq!(sleep_step(6, 5), None);
    assert_eq!(sleep_step(-20_000_000_000, -15_000_000_000), Some(5_000_000_000));
}

#[test]
fn delay_repeats_every_interval() {
    let five = Schedule::every().secs(5);
    // 00:00:07.250 and 00:00:12.250 are one interval apart
    assert_eq!(five.delay_millis(&at(0, 0, 0, 7, 250)), 2750);
    assert_eq!(five.delay_millis(&at(0, 0, 0, 12, 250)), 2750);
    assert_eq!(five.delay_millis(&at(0, 0, 0, 10, 0)), 0);
}

#[test]
fn delay_across_month_end_lands_on_aligned_time() {
    // an hourly update at 23:30 on the 30th of a 30-day month waits half an
    // hour, which is midnight of the 1st of the next month
    let hour = Schedule::every().hour();
    assert_eq!(hour.delay_millis(&at(29, 23, 30, 0, 0)), 30 * 60_000);
    assert_eq!(hour.delay_millis(&at(0, 0, 0, 0, 0)), 0);
    // an interval that does not divide a day is not aligned after the month
    // ends: 7 h at 29 d 23:00 waits 2 h, and 01:00 of the 1st is not aligned
    let seven = Schedule::every().hours(7);
    assert_eq!(seven.delay_millis(&at(29, 23, 0, 0, 0)), 2 * 3_600_000);
    assert_eq!(seven.delay_millis(&at(0, 1, 0, 0, 0)), 6 * 3_600_000);
}

#[test]
fn delay_across_day_end_keeps_counting() {
    let ten = Schedule::every().mins(10);
    assert_eq!(ten.delay_millis(&at(4, 23, 55, 0, 0)), 5 * 60_000);
    assert_eq!(ten.delay_millis(&at(5, 0, 0, 0, 0)), 0);
}
