use breadpad::clock::{local_naive_to_utc, weekday_of_day, WallTime};
use chrono::{Duration, Local, NaiveDate};

fn wall(date: NaiveDate, secs: u32) -> WallTime {
    let day = (date - NaiveDate::from_ymd_opt(1970, 1, 1).unwrap()).num_days();
    WallTime { day, secs }
}

#[test]
fn ordinary_time_round_trips() {
    let date = NaiveDate::from_ymd_opt(2026, 6, 15).unwrap();
    let naive = date.and_hms_opt(9, 30, 0).unwrap();
    let utc = local_naive_to_utc(wall(date, 9 * 3600 + 30 * 60));
    let local = chrono::DateTime::from_timestamp(utc, 0).unwrap().with_timezone(&Local);
    assert_eq!(local.naive_local(), naive);
}

#[test]
fn never_panics_across_a_full_year_of_hours() {
    let mut dt = NaiveDate::from_ymd_opt(2026, 1, 1).unwrap().and_hms_opt(0, 0, 0).unwrap();
    for _ in 0..(366 * 24) {
        let w = wall(dt.date(), (dt - dt.date().and_hms_opt(0, 0, 0).unwrap()).num_seconds() as u32);
        let _ = local_naive_to_utc(w);
        dt += Duration::hours(1);
    }
}

#[test]
fn weekdays_count_from_monday() {
    assert_eq!(weekday_of_day(0), 3);
    assert_eq!(weekday_of_day(20619), 0);
    assert_eq!(weekday_of_day(-1), 2);
}

#[test]
fn on_calendar_text_is_the_local_reading() {
    let t = 20619 * 86400 + 14 * 3600 + 30 * 60;
    let local = chrono::DateTime::from_timestamp(t, 0).unwrap().with_timezone(&Local);
    assert_eq!(
        breadpad::scheduler::on_calendar_text(t),
        Some(local.format("%Y-%m-%d %H:%M:%S").to_string())
    );
}
