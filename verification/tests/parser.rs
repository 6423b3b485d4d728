use breadpad::parser::{infer_type, parse_rule_based, parse_rule_based_at};
use breadpad::types::NoteType;
use chrono::{Datelike, Duration, Local, Timelike, Utc};

fn p(text: &str) -> breadpad::types::ClassificationResult {
    parse_rule_based(text, "08:00").unwrap()
}

fn p_morning(text: &str, morning: &str) -> breadpad::types::ClassificationResult {
    parse_rule_based(text, morning).unwrap()
}

fn local(t: i64) -> chrono::DateTime<Local> {
    chrono::DateTime::from_timestamp(t, 0).unwrap().with_timezone(&Local)
}

// ---- NoteType inference ----

#[test]
fn todo_buy() {
    assert_eq!(p("buy groceries").note_type, NoteType::Todo);
}

#[test]
fn todo_pick_up() {
    assert_eq!(p("pick up dry cleaning").note_type, NoteType::Todo);
}

#[test]
fn todo_fix() {
    assert_eq!(p("fix the broken test").note_type, NoteType::Todo);
}

#[test]
fn todo_check() {
    assert_eq!(p("check the deploy status").note_type, NoteType::Todo);
}

#[test]
fn todo_call() {
    assert_eq!(p("call the dentist").note_type, NoteType::Todo);
}

#[test]
fn todo_finish() {
    assert_eq!(p("finish the PR description").note_type, NoteType::Todo);
}

#[test]
fn todo_write() {
    assert_eq!(p("write release notes").note_type, NoteType::Todo);
}

#[test]
fn todo_update() {
    assert_eq!(p("update breadman dependencies").note_type, NoteType::Todo);
}

#[test]
fn question_why() {
    assert_eq!(p("why does nmcli drop on suspend").note_type, NoteType::Question);
}

#[test]
fn question_how() {
    assert_eq!(p("how do I configure zbus async").note_type, NoteType::Question);
}

#[test]
fn question_what_prefix() {
    assert_eq!(p("what is the difference between Arc and Rc").note_type, NoteType::Question);
}

#[test]
fn question_ends_with_mark() {
    assert_eq!(p("is this thread safe?").note_type, NoteType::Question);
    assert_eq!(p("does GTK4 run on Wayland?").note_type, NoteType::Question);
}

#[test]
fn idea_what_if() {
    assert_eq!(p("what if breadman had a calendar view").note_type, NoteType::Idea);
}

#[test]
fn idea_prefix() {
    assert_eq!(p("idea: reactive state module in Lua").note_type, NoteType::Idea);
}

#[test]
fn idea_maybe() {
    assert_eq!(p("maybe we could cache the ONNX model").note_type, NoteType::Idea);
}

#[test]
fn idea_could() {
    assert_eq!(p("the sidebar could show counts per type").note_type, NoteType::Idea);
}

#[test]
fn note_generic_observation() {
    assert_eq!(p("meeting went well").note_type, NoteType::Note);
    assert_eq!(p("the new keyboard feels great").note_type, NoteType::Note);
}

// ---- Time extraction: at <time> ----

#[test]
fn at_time_pm_is_reminder_type() {
    assert_eq!(p("pack bag at 7pm").note_type, NoteType::Reminder);
}

#[test]
fn at_time_am_is_reminder_type() {
    assert_eq!(p("standup at 9am").note_type, NoteType::Reminder);
}

#[test]
fn at_time_pm_correct_hour() {
    let r = p("dinner reservation at 7pm");
    let local = local(r.time.unwrap());
    assert_eq!(local.hour(), 19);
}

#[test]
fn at_time_am_correct_hour() {
    let r = p("meeting at 10am");
    let local = local(r.time.unwrap());
    assert_eq!(local.hour(), 10);
}

#[test]
fn at_time_noon() {
    let r = p("lunch at 12pm");
    let local = local(r.time.unwrap());
    assert_eq!(local.hour(), 12);
}

#[test]
fn at_time_with_minutes() {
    let r = p("call mum at 6:30pm");
    let local = local(r.time.unwrap());
    assert_eq!(local.hour(), 18);
    assert_eq!(local.minute(), 30);
}

#[test]
fn at_time_no_ampm_bare_number() {
    // "at 14" should parse as 14:00
    let r = p("check logs at 14");
    assert!(r.time.is_some());
    let local = local(r.time.unwrap());
    assert_eq!(local.hour(), 14);
}

#[test]
fn at_time_is_in_the_future() {
    let r = p("check servers at 11pm");
    assert!(r.time.unwrap() > Utc::now().timestamp());
}

// ---- Time extraction: in <duration> ----

#[test]
fn in_30_minutes_correct_delta() {
    let before = Utc::now().timestamp();
    let r = p("take a break in 30 minutes");
    let t = r.time.unwrap();
    let delta = t - before;
    assert!(delta >= 29 * 60 && delta <= 31 * 60, "delta was {}s", delta);
}

#[test]
fn in_1_minute() {
    let before = Utc::now().timestamp();
    let r = p("ping in 1 minute");
    let delta = r.time.unwrap() - before;
    assert!(delta >= 55 && delta <= 65, "delta was {}s", delta);
}

#[test]
fn in_2_hours_correct_delta() {
    let before = Utc::now().timestamp();
    let r = p("review PR in 2 hours");
    let delta_min = (r.time.unwrap() - before) / 60;
    assert!(delta_min >= 119 && delta_min <= 121, "delta was {}min", delta_min);
}

#[test]
fn in_3_days_correct_delta() {
    let before = Utc::now().timestamp();
    let r = p("follow up in 3 days");
    let delta_h = (r.time.unwrap() - before) / 3600;
    assert!(delta_h >= 71 && delta_h <= 73, "delta was {}h", delta_h);
}

// ---- Time extraction: tomorrow ----

#[test]
fn tomorrow_morning_correct_date_and_hour() {
    let r = p("sync tomorrow morning");
    let local = local(r.time.unwrap());
    let expected = (Local::now() + Duration::days(1)).date_naive();
    assert_eq!(local.date_naive(), expected);
    assert_eq!(local.hour(), 8);
    assert_eq!(local.minute(), 0);
}

#[test]
fn tomorrow_morning_respects_custom_morning_time() {
    let r = p_morning("standup tomorrow morning", "09:30");
    let local = local(r.time.unwrap());
    assert_eq!(local.hour(), 9);
    assert_eq!(local.minute(), 30);
}

#[test]
fn tomorrow_evening_hour() {
    let r = p("call family tomorrow evening");
    let local = local(r.time.unwrap());
    let expected = (Local::now() + Duration::days(1)).date_naive();
    assert_eq!(local.date_naive(), expected);
    assert_eq!(local.hour(), 18);
}

#[test]
fn tomorrow_alone_uses_morning_time() {
    let r = p("dentist appointment tomorrow");
    let local = local(r.time.unwrap());
    assert_eq!(local.hour(), 8);
}

#[test]
fn tomorrow_type_is_reminder() {
    assert_eq!(p("gym tomorrow morning").note_type, NoteType::Reminder);
}

// ---- Time extraction: next <weekday> ----

#[test]
fn next_monday_is_monday() {
    let r = p("dentist next monday");
    let local = local(r.time.unwrap());
    assert_eq!(local.weekday(), chrono::Weekday::Mon);
    assert!(r.time.unwrap() > Utc::now().timestamp());
}

#[test]
fn next_friday_is_friday() {
    let r = p("team lunch next friday");
    let local = local(r.time.unwrap());
    assert_eq!(local.weekday(), chrono::Weekday::Fri);
}

#[test]
fn next_weekday_at_morning_hour() {
    let r = p("meeting next wednesday");
    let local = local(r.time.unwrap());
    assert_eq!(local.hour(), 8);
}

// ---- Recurrence rules ----

#[test]
fn every_day_daily_rrule() {
    let r = p("take medication every day");
    let rule = r.rrule.expect("rrule should be set");
    assert!(rule.as_str().contains("FREQ=DAILY"), "rule: {}", rule.as_str());
}

#[test]
fn every_day_type_is_reminder() {
    assert_eq!(p("take vitamin every day").note_type, NoteType::Reminder);
}

#[test]
fn every_day_at_time_byhour() {
    let r = p("stand every day at 7am");
    let rule = r.rrule.unwrap();
    assert!(rule.as_str().contains("BYHOUR=7"), "rule: {}", rule.as_str());
    assert!(rule.as_str().contains("BYMINUTE=0"), "rule: {}", rule.as_str());
}

#[test]
fn every_monday_weekly_with_byday() {
    let r = p("standup every monday");
    let rule = r.rrule.unwrap();
    assert!(rule.as_str().contains("FREQ=WEEKLY"), "rule: {}", rule.as_str());
    assert!(rule.as_str().contains("BYDAY=MO"), "rule: {}", rule.as_str());
}

#[test]
fn every_friday_at_time_rrule() {
    let r = p("team lunch every friday at 1pm");
    let rule = r.rrule.unwrap();
    assert!(rule.as_str().contains("BYDAY=FR"), "rule: {}", rule.as_str());
    assert!(rule.as_str().contains("BYHOUR=13"), "rule: {}", rule.as_str());
}

#[test]
fn every_sunday_evening_rrule() {
    let r = p("family call every sunday at 7pm");
    let rule = r.rrule.unwrap();
    assert!(rule.as_str().contains("BYDAY=SU"), "rule: {}", rule.as_str());
    assert!(rule.as_str().contains("BYHOUR=19"), "rule: {}", rule.as_str());
}

#[test]
fn every_wednesday_sets_first_time() {
    let r = p("review PRs every wednesday at 10am");
    assert!(r.time.is_some(), "recurrence should set initial time");
    let local = local(r.time.unwrap());
    assert_eq!(local.weekday(), chrono::Weekday::Wed);
}

#[test]
fn every_week_at_time_rrule() {
    let r = p("retro every week at 4pm");
    let rule = r.rrule.unwrap();
    assert!(rule.as_str().contains("FREQ=WEEKLY"), "rule: {}", rule.as_str());
    assert!(rule.as_str().contains("BYHOUR=16"), "rule: {}", rule.as_str());
}

// ---- Body cleaning ----

#[test]
fn at_time_removed_from_body() {
    let r = p("pack calculator in bag at 7pm");
    assert!(!r.body.to_lowercase().contains("at 7pm"), "body: {:?}", r.body);
    assert!(r.body.contains("pack calculator"), "body: {:?}", r.body);
}

#[test]
fn in_duration_removed_from_body() {
    let r = p("call dentist in 30 minutes");
    assert!(!r.body.contains("in 30 minutes"), "body: {:?}", r.body);
    assert!(r.body.contains("call dentist"), "body: {:?}", r.body);
}

#[test]
fn every_day_removed_from_body() {
    let r = p("take vitamin every day at 8am");
    assert!(!r.body.to_lowercase().contains("every day"), "body: {:?}", r.body);
    assert!(r.body.contains("take vitamin"), "body: {:?}", r.body);
}

#[test]
fn body_never_empty_after_stripping() {
    for text in &["tomorrow morning", "every day at 8am", "at 9pm", "in 5 minutes"] {
        let r = p(text);
        assert!(!r.body.is_empty(), "body was empty for '{}'", text);
    }
}

#[test]
fn plain_text_body_unchanged() {
    let r = p("meeting went well, follow up needed");
    assert_eq!(r.body, "meeting went well, follow up needed");
}

// ---- Edge cases ----

#[test]
fn empty_string_does_not_panic() {
    let r = p("");
    let _ = r.body.is_empty();
}

#[test]
fn whitespace_only_does_not_panic() {
    let _ = p("   ");
}

#[test]
fn confidence_is_in_range() {
    for text in &["buy milk", "why?", "idea: tabs", "meeting done"] {
        let r = p(text);
        assert!(r.confidence <= 100, "confidence {} for '{}'", r.confidence, text);
    }
}

#[test]
fn buy_with_at_store_not_parsed_as_time() {
    // "at the store" should NOT parse as a time expression since there is no digit after "at"
    let r = p("buy milk at the store");
    // Should still be a Todo (no time extracted)
    assert_eq!(r.note_type, NoteType::Todo);
}

// ---- Word-form durations (in_duration_word) ----

#[test]
fn in_an_hour_sets_time() {
    let before = Utc::now().timestamp();
    let r = p("check on the server in an hour");
    let delta_min = (r.time.unwrap() - before) / 60;
    assert!(delta_min >= 59 && delta_min <= 61, "delta was {}min", delta_min);
}

#[test]
fn in_an_hour_type_is_reminder() {
    assert_eq!(p("check on the deployment in an hour").note_type, NoteType::Reminder);
}

#[test]
fn in_an_hour_stripped_from_body() {
    let r = p("check on the deployment in an hour");
    assert!(!r.body.to_lowercase().contains("in an hour"), "body: {:?}", r.body);
    assert!(r.body.contains("check on the deployment"), "body: {:?}", r.body);
}

#[test]
fn in_a_couple_of_hours_sets_two_hours() {
    let before = Utc::now().timestamp();
    let r = p("in a couple of hours remind me to check the oven");
    let delta_min = (r.time.unwrap() - before) / 60;
    assert!(delta_min >= 119 && delta_min <= 121, "delta was {}min", delta_min);
}

#[test]
fn in_a_couple_of_hours_is_reminder() {
    assert_eq!(p("in a couple of hours remind me to check the oven").note_type, NoteType::Reminder);
}

#[test]
fn in_a_few_hours_sets_three_hours() {
    let before = Utc::now().timestamp();
    let r = p("in a few hours we need to submit this");
    let delta_h = (r.time.unwrap() - before) / 3600;
    assert_eq!(delta_h, 3, "expected 3h, got {}", delta_h);
}

#[test]
fn in_half_an_hour_sets_thirty_minutes() {
    let before = Utc::now().timestamp();
    let r = p("in half an hour submit the report");
    let delta_min = (r.time.unwrap() - before) / 60;
    assert!(delta_min >= 29 && delta_min <= 31, "delta was {}min", delta_min);
}

// ---- Tonight / this evening ----

#[test]
fn tonight_type_is_reminder() {
    assert_eq!(p("tonight watch the football").note_type, NoteType::Reminder);
}

#[test]
fn tonight_anchors_to_21h() {
    let r = p("tonight put the bins out");
    let local = local(r.time.unwrap());
    assert_eq!(local.hour(), 21);
}

#[test]
fn tonight_stripped_from_body() {
    let r = p("tonight put the bins out");
    assert!(!r.body.to_lowercase().contains("tonight"), "body: {:?}", r.body);
    assert!(r.body.contains("put the bins out"), "body: {:?}", r.body);
}

#[test]
fn this_evening_type_is_reminder() {
    assert_eq!(p("this evening water the plants").note_type, NoteType::Reminder);
}

#[test]
fn this_evening_stripped_from_body() {
    let r = p("this evening water the plants");
    assert!(!r.body.to_lowercase().contains("this evening"), "body: {:?}", r.body);
    assert!(r.body.contains("water the plants"), "body: {:?}", r.body);
}

// ---- Every weekday (Mon–Fri) ----

#[test]
fn every_weekday_is_not_matched_by_every_week() {
    let r = p("every weekday morning check email");
    let rule = r.rrule.unwrap();
    assert!(rule.as_str().contains("BYDAY=MO,TU,WE,TH,FR"), "rule: {}", rule.as_str());
}

#[test]
fn every_weekday_type_is_reminder() {
    assert_eq!(p("every weekday morning check email").note_type, NoteType::Reminder);
}

#[test]
fn every_weekday_morning_uses_morning_time() {
    let r = p("every weekday morning standup");
    let rule = r.rrule.unwrap();
    assert!(rule.as_str().contains("BYHOUR=8"), "rule: {}", rule.as_str());
}

#[test]
fn every_weekday_at_time_uses_explicit_hour() {
    let r = p("every weekday at 9am standup");
    let rule = r.rrule.unwrap();
    assert!(rule.as_str().contains("BYDAY=MO,TU,WE,TH,FR"), "rule: {}", rule.as_str());
    assert!(rule.as_str().contains("BYHOUR=9"), "rule: {}", rule.as_str());
}

#[test]
fn every_weekday_body_cleaned() {
    let r = p("every weekday morning check email");
    assert!(!r.body.to_lowercase().contains("every weekday"), "body: {:?}", r.body);
    assert!(!r.body.to_lowercase().contains("morning"), "body: {:?}", r.body);
    assert!(r.body.contains("check email"), "body: {:?}", r.body);
}

#[test]
fn every_week_not_confused_by_weekday() {
    // "every weekday" should NOT produce a BYDAY equal to the current weekday
    let r = p("every weekday morning check email");
    let rule = r.rrule.unwrap();
    assert!(!rule.as_str().contains("BYDAY=MO;"), "every_week matched weekday: {}", rule.as_str());
}

#[test]
fn every_week_still_works_after_fix() {
    let r = p("retro every week at 4pm");
    let rule = r.rrule.unwrap();
    assert!(rule.as_str().contains("FREQ=WEEKLY"), "rule: {}", rule.as_str());
    assert!(rule.as_str().contains("BYHOUR=16"), "rule: {}", rule.as_str());
}

// ---- Readings at a fixed moment ----

use breadpad::clock::{Clock, WallTime};
use breadpad::parser::Target;

/// Monday 2026-06-15, 10:00 local, with the zone at UTC.
fn monday_ten() -> Clock {
    let day = 20619;
    Clock { utc: day * 86400 + 10 * 3600, local: WallTime { day, secs: 10 * 3600 } }
}

#[test]
fn fixed_clock_at_time_later_today() {
    let c = monday_ten();
    let r = parse_rule_based_at("pack bag at 7pm", "08:00", c);
    assert_eq!(r.when, Some(Target::Local(WallTime { day: 20619, secs: 19 * 3600 })));
    assert_eq!(r.note_type, NoteType::Reminder);
    assert_eq!(r.body, "pack bag");
    assert_eq!(r.confidence, 95);
}

#[test]
fn fixed_clock_at_time_already_past_moves_to_tomorrow() {
    let c = monday_ten();
    let r = parse_rule_based_at("standup at 9am", "08:00", c);
    assert_eq!(r.when, Some(Target::Local(WallTime { day: 20620, secs: 9 * 3600 })));
}

#[test]
fn fixed_clock_in_duration_is_utc_offset() {
    let c = monday_ten();
    let r = parse_rule_based_at("take a break in 30 minutes", "08:00", c);
    assert_eq!(r.when, Some(Target::Utc(c.utc + 1800)));
    assert_eq!(r.body, "take a break");
}

#[test]
fn fixed_clock_tomorrow_morning_custom() {
    let c = monday_ten();
    let r = parse_rule_based_at("standup tomorrow morning", "09:30", c);
    assert_eq!(r.when, Some(Target::Local(WallTime { day: 20620, secs: 9 * 3600 + 30 * 60 })));
}

#[test]
fn fixed_clock_every_friday_rule_and_first_time() {
    let c = monday_ten();
    let r = parse_rule_based_at("team lunch every friday at 1pm", "08:00", c);
    let rule = r.rrule.unwrap();
    assert!(rule.as_str().contains("FREQ=WEEKLY"), "rule: {}", rule.as_str());
    assert!(rule.as_str().contains("BYDAY=FR"), "rule: {}", rule.as_str());
    assert!(rule.as_str().contains("BYHOUR=13"), "rule: {}", rule.as_str());
    assert_eq!(r.when, Some(Target::Local(WallTime { day: 20623, secs: 13 * 3600 })));
}

#[test]
fn fixed_clock_plain_text_is_unchanged_note() {
    let c = monday_ten();
    let r = parse_rule_based_at("meeting went well", "08:00", c);
    assert_eq!(r.when, None);
    assert!(r.rrule.is_none());
    assert_eq!(r.note_type, NoteType::Note);
    assert_eq!(r.body, "meeting went well");
    assert_eq!(r.confidence, 45);
}

#[test]
fn infer_type_time_makes_reminder() {
    assert_eq!(infer_type("buy milk", true, false), NoteType::Reminder);
    assert_eq!(infer_type("buy milk", false, false), NoteType::Todo);
    assert_eq!(infer_type("why is the sky blue", false, false), NoteType::Question);
    assert_eq!(infer_type("what if we tried", false, false), NoteType::Idea);
    assert_eq!(infer_type("lovely day", false, false), NoteType::Note);
}
