use breadpad::clock::{Clock, TimeOfDay, WallTime};
use breadpad::scheduler::{
    on_calendar_text, parse_next_from_rrule, rrule_schedule, rrule_target, service_unit_name,
    timer_command, timer_unit_name, Freq, ScheduleError, Scheduler, WeekDays,
};
use breadpad::types::{Note, NoteType, RecurrenceRule};
use chrono::{Datelike, Duration, Local, Timelike, Utc};

fn reminder(id: &str) -> Note {
    let mut n = Note::new("test reminder".into(), NoteType::Reminder, None);
    n.id = id.to_string();
    n
}

fn local(t: i64) -> chrono::DateTime<Local> {
    chrono::DateTime::from_timestamp(t, 0).unwrap().with_timezone(&Local)
}

fn now() -> i64 {
    Utc::now().timestamp()
}

// ---- Scheduler::fire ----

#[test]
fn fire_note_without_time_always_fires() {
    let note = reminder("no-time");
    assert!(Scheduler::fire(&note, 60));
}

#[test]
fn fire_future_reminder_fires() {
    let mut note = reminder("future");
    note.time = Some((Utc::now() + Duration::minutes(10)).timestamp());
    assert!(Scheduler::fire(&note, 60));
}

#[test]
fn fire_recent_past_reminder_fires() {
    let mut note = reminder("recent");
    note.time = Some((Utc::now() - Duration::minutes(5)).timestamp());
    assert!(Scheduler::fire(&note, 60));
}

#[test]
fn fire_exactly_at_grace_boundary_fires() {
    let mut note = reminder("boundary");
    note.time = Some((Utc::now() - Duration::minutes(59)).timestamp());
    assert!(Scheduler::fire(&note, 60));
}

#[test]
fn fire_missed_reminder_beyond_grace_skips() {
    let mut note = reminder("missed");
    note.time = Some((Utc::now() - Duration::minutes(90)).timestamp());
    assert!(!Scheduler::fire(&note, 60));
}

#[test]
fn fire_uses_snoozed_until_if_set() {
    let mut note = reminder("snoozed");
    note.time = Some((Utc::now() - Duration::hours(5)).timestamp());
    note.snoozed_until = Some((Utc::now() - Duration::minutes(5)).timestamp());
    assert!(Scheduler::fire(&note, 60));
}

#[test]
fn fire_zero_grace_only_fires_future() {
    let mut future = reminder("zero-future");
    future.time = Some((Utc::now() + Duration::seconds(1)).timestamp());
    assert!(Scheduler::fire(&future, 0));

    let mut past = reminder("zero-past");
    past.time = Some((Utc::now() - Duration::seconds(1)).timestamp());
    assert!(!Scheduler::fire(&past, 0));
}

#[test]
fn fire_at_grace_boundary_exact() {
    let mut note = reminder("edge");
    note.time = Some(1_000_000);
    assert!(Scheduler::fire_at(&note, 60, 1_000_000 + 3600));
    assert!(!Scheduler::fire_at(&note, 60, 1_000_000 + 3601));
}

// ---- Scheduler::next_recurrence ----

#[test]
fn next_recurrence_none_without_rrule() {
    let note = reminder("no-rrule");
    assert!(Scheduler::next_recurrence(&note, "08:00").is_none());
}

#[test]
fn next_recurrence_daily_in_future() {
    let mut note = reminder("daily");
    note.rrule = Some(RecurrenceRule::new("RRULE:FREQ=DAILY;BYHOUR=8;BYMINUTE=0;BYSECOND=0"));
    let t = Scheduler::next_recurrence(&note, "08:00").unwrap();
    assert!(t >= now());
}

#[test]
fn next_recurrence_weekly_is_correct_weekday() {
    let mut note = reminder("weekly-mon");
    note.rrule = Some(RecurrenceRule::new(
        "RRULE:FREQ=WEEKLY;BYDAY=MO;BYHOUR=9;BYMINUTE=0;BYSECOND=0",
    ));
    let t = Scheduler::next_recurrence(&note, "08:00").unwrap();
    assert_eq!(local(t).weekday(), chrono::Weekday::Mon);
}

// ---- parse_next_from_rrule ----

#[test]
fn daily_rrule_next_is_in_future() {
    let t = parse_next_from_rrule("RRULE:FREQ=DAILY;BYHOUR=14;BYMINUTE=0;BYSECOND=0", "08:00");
    assert!(t.is_some());
    assert!(t.unwrap() >= now());
}

#[test]
fn daily_rrule_correct_hour() {
    let t = parse_next_from_rrule("RRULE:FREQ=DAILY;BYHOUR=14;BYMINUTE=30;BYSECOND=0", "08:00")
        .unwrap();
    let local = local(t);
    assert_eq!(local.hour(), 14);
    assert_eq!(local.minute(), 30);
}

#[test]
fn daily_rrule_defaults_hour_from_morning() {
    let t = parse_next_from_rrule("RRULE:FREQ=DAILY", "07:15").unwrap();
    let local = local(t);
    assert_eq!(local.hour(), 7);
    assert_eq!(local.minute(), 15);
}

#[test]
fn weekly_monday_is_monday() {
    let t = parse_next_from_rrule(
        "RRULE:FREQ=WEEKLY;BYDAY=MO;BYHOUR=9;BYMINUTE=0;BYSECOND=0",
        "08:00",
    )
    .unwrap();
    assert_eq!(local(t).weekday(), chrono::Weekday::Mon);
    assert!(t >= now());
}

#[test]
fn weekly_friday_is_friday() {
    let t = parse_next_from_rrule(
        "RRULE:FREQ=WEEKLY;BYDAY=FR;BYHOUR=12;BYMINUTE=0;BYSECOND=0",
        "08:00",
    )
    .unwrap();
    assert_eq!(local(t).weekday(), chrono::Weekday::Fri);
}

#[test]
fn weekly_wednesday_correct_hour() {
    let t = parse_next_from_rrule(
        "RRULE:FREQ=WEEKLY;BYDAY=WE;BYHOUR=15;BYMINUTE=45;BYSECOND=0",
        "08:00",
    )
    .unwrap();
    let local = local(t);
    assert_eq!(local.hour(), 15);
    assert_eq!(local.minute(), 45);
}

#[test]
fn weekly_saturday_is_saturday() {
    let t = parse_next_from_rrule(
        "RRULE:FREQ=WEEKLY;BYDAY=SA;BYHOUR=10;BYMINUTE=0;BYSECOND=0",
        "08:00",
    )
    .unwrap();
    assert_eq!(local(t).weekday(), chrono::Weekday::Sat);
}

#[test]
fn weekly_sunday_is_sunday() {
    let t = parse_next_from_rrule(
        "RRULE:FREQ=WEEKLY;BYDAY=SU;BYHOUR=19;BYMINUTE=0;BYSECOND=0",
        "08:00",
    )
    .unwrap();
    assert_eq!(local(t).weekday(), chrono::Weekday::Sun);
}

#[test]
fn unknown_freq_returns_none() {
    assert!(parse_next_from_rrule("RRULE:FREQ=MONTHLY;BYHOUR=9;BYMINUTE=0", "08:00").is_none());
}

#[test]
fn empty_rrule_string_returns_none() {
    assert!(parse_next_from_rrule("", "08:00").is_none());
}

#[test]
fn rrule_without_rrule_prefix_still_parses() {
    let _ = parse_next_from_rrule("FREQ=DAILY;BYHOUR=8;BYMINUTE=0", "08:00");
}

// ---- unit name helpers ----

#[test]
fn timer_unit_name_format() {
    assert_eq!(timer_unit_name("abc123"), "breadpad-reminder-abc123.timer");
}

#[test]
fn service_unit_name_format() {
    assert_eq!(service_unit_name("abc123"), "breadpad-reminder-abc123.service");
}

// ---- Rule reading at a fixed moment ----

/// Monday 2026-06-15, 10:00 local, with the zone at UTC.
fn monday_ten() -> Clock {
    let day = 20619;
    Clock { utc: day * 86400 + 10 * 3600, local: WallTime { day, secs: 10 * 3600 } }
}

#[test]
fn rrule_schedule_reads_frequency_and_time() {
    assert_eq!(
        rrule_schedule("RRULE:FREQ=WEEKLY;BYDAY=FR;BYHOUR=13;BYMINUTE=5", "08:00"),
        Some((
            Freq::Weekly(WeekDays {
                mo: false,
                tu: false,
                we: false,
                th: false,
                fr: true,
                sa: false,
                su: false
            }),
            TimeOfDay { hour: 13, minute: 5 }
        ))
    );
    assert_eq!(
        rrule_schedule("RRULE:FREQ=DAILY", "07:15"),
        Some((Freq::Daily, TimeOfDay { hour: 7, minute: 15 }))
    );
    assert_eq!(rrule_schedule("RRULE:FREQ=YEARLY", "08:00"), None);
}

#[test]
fn rrule_target_daily_later_today_or_tomorrow() {
    let c = monday_ten();
    assert_eq!(
        rrule_target("RRULE:FREQ=DAILY;BYHOUR=14;BYMINUTE=0", "08:00", c),
        Some(WallTime { day: 20619, secs: 14 * 3600 })
    );
    assert_eq!(
        rrule_target("RRULE:FREQ=DAILY;BYHOUR=9;BYMINUTE=0", "08:00", c),
        Some(WallTime { day: 20620, secs: 9 * 3600 })
    );
}

#[test]
fn rrule_target_weekly_same_day_passed_goes_a_week_on() {
    let c = monday_ten();
    assert_eq!(
        rrule_target("RRULE:FREQ=WEEKLY;BYDAY=MO;BYHOUR=9;BYMINUTE=0", "08:00", c),
        Some(WallTime { day: 20626, secs: 9 * 3600 })
    );
    assert_eq!(
        rrule_target("RRULE:FREQ=WEEKLY;BYDAY=WE;BYHOUR=9;BYMINUTE=0", "08:00", c),
        Some(WallTime { day: 20621, secs: 9 * 3600 })
    );
}

// ---- Timers ----

#[test]
fn schedule_uses_effective_time() {
    let mut n = reminder("abc");
    assert_eq!(Scheduler::schedule(&n).err(), Some(ScheduleError::NoTime));
    n.time = Some(100);
    n.snoozed_until = Some(200);
    let req = Scheduler::schedule(&n).unwrap();
    assert_eq!(req.id, "abc");
    assert_eq!(req.fire_time, 200);
}

#[test]
fn cancel_stops_and_disables_units() {
    let calls = Scheduler::cancel("abc");
    assert_eq!(
        calls,
        vec![
            vec!["--user", "stop", "breadpad-reminder-abc.timer"],
            vec!["--user", "disable", "--now", "breadpad-reminder-abc.timer"],
            vec!["--user", "stop", "breadpad-reminder-abc.service"],
        ]
    );
}

#[test]
fn snooze_records_new_time_only() {
    let mut n = reminder("abc");
    n.time = Some(100);
    let req = Scheduler::snooze(&mut n, 500);
    assert_eq!(n.snoozed_until, Some(500));
    assert_eq!(n.time, Some(100));
    assert_eq!(req.fire_time, 500);
    assert_eq!(req.id, "abc");
}

#[test]
fn fire_plan_moves_recurring_note_forward() {
    let mut n = reminder("abc");
    n.time = Some(100);
    n.snoozed_until = Some(150);
    n.rrule = Some(RecurrenceRule::new("RRULE:FREQ=DAILY"));
    let plan = Scheduler::fire_plan(&n, true, Some(86500));
    let moved = plan.reschedule.unwrap();
    assert_eq!(moved.time, Some(86500));
    assert_eq!(moved.snoozed_until, None);
    assert!(Scheduler::fire_plan(&n, false, Some(86500)).reschedule.is_none());
}

#[test]
fn timer_command_arguments() {
    let args = timer_command("abc", "2026-06-15 19:00:00");
    assert_eq!(
        args,
        vec![
            "--user",
            "--unit",
            "breadpad-reminder-abc",
            "--timer-property",
            "OnCalendar=2026-06-15 19:00:00",
            "--timer-property",
            "Persistent=true",
            "--",
            "breadpad",
            "fire",
            "abc",
        ]
    );
}

#[test]
fn on_calendar_text_is_local_seconds_format() {
    let t = on_calendar_text(Utc::now().timestamp()).unwrap();
    assert_eq!(t.len(), 19);
    assert_eq!(&t[4..5], "-");
    assert_eq!(&t[13..14], ":");
}

#[test]
fn on_calendar_text_none_at_the_end_of_the_range() {
    assert_eq!(on_calendar_text(breadpad::clock::MAX_UTC), None);
    assert!(on_calendar_text(breadpad::clock::MAX_UTC - 2 * 86400).is_some());
}

/// Friday 2026-06-19, 10:00 local, with the zone at UTC.
fn friday_ten() -> Clock {
    let day = 20623;
    Clock { utc: day * 86400 + 10 * 3600, local: WallTime { day, secs: 10 * 3600 } }
}

const WEEKDAY_MORNINGS: &str = "RRULE:FREQ=WEEKLY;BYDAY=MO,TU,WE,TH,FR;BYHOUR=8;BYMINUTE=0;BYSECOND=0";

#[test]
fn weekday_rule_lists_monday_to_friday() {
    assert_eq!(
        rrule_schedule(WEEKDAY_MORNINGS, "08:00"),
        Some((
            Freq::Weekly(WeekDays {
                mo: true,
                tu: true,
                we: true,
                th: true,
                fr: true,
                sa: false,
                su: false
            }),
            TimeOfDay { hour: 8, minute: 0 }
        ))
    );
}

#[test]
fn weekday_rule_next_fires_on_the_next_working_day() {
    // Monday 10:00: Tuesday 08:00.
    assert_eq!(
        rrule_target(WEEKDAY_MORNINGS, "08:00", monday_ten()),
        Some(WallTime { day: 20620, secs: 8 * 3600 })
    );
    // Friday 10:00: Monday 08:00, skipping the weekend.
    assert_eq!(
        rrule_target(WEEKDAY_MORNINGS, "08:00", friday_ten()),
        Some(WallTime { day: 20626, secs: 8 * 3600 })
    );
    // Monday 10:00 with a rule at 11:00: later the same day.
    assert_eq!(
        rrule_target("RRULE:FREQ=WEEKLY;BYDAY=MO,WE;BYHOUR=11;BYMINUTE=0", "08:00", monday_ten()),
        Some(WallTime { day: 20619, secs: 11 * 3600 })
    );
}

#[test]
fn weekday_rule_next_from_now_is_a_working_day_morning() {
    let t = parse_next_from_rrule(WEEKDAY_MORNINGS, "08:00").unwrap();
    let local = chrono::DateTime::from_timestamp(t, 0).unwrap().with_timezone(&Local);
    assert!(local.weekday().num_days_from_monday() < 5);
    assert_eq!((local.hour(), local.minute()), (8, 0));
    assert!(t > Utc::now().timestamp());
}
