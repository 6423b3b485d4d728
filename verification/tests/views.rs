use chrono::TimeZone;
use breadpad::config::CalendarConfig;
use breadpad::man_cli::{archived, notes_of_type, open_notes_newest_first, type_chip_class, upcoming};
use breadpad::pad_cli::scheduled_listing;
use breadpad::store::Store;
use breadpad::types::{ClassificationResult, Note, NoteType, RecurrenceRule};
use breadpad::views::{
    card_class, chip_states, delete_click, edited_note, enter_submits, form_note,
    initial_view_name, mark_done_by_id, new_note_label, note_from_form, parse_snooze_options,
    schedules_on_capture, search_notes, snooze_options_text, type_emoji, workspace_chip,
    workspace_text, DeleteStep, FormError,
};
use breadpad::views::{choose_time, parse_time_field};
use breadpad::clock::{LocalLookup, WallTime};

fn n(body: &str, nt: NoteType, created: i64) -> Note {
    let mut x = Note::new(body.into(), nt, None);
    x.created = created;
    x
}

#[test]
fn upcoming_lists_due_open_reminders_and_todos_soonest_first() {
    let mut a = n("later", NoteType::Reminder, 1);
    a.time = Some(500);
    let mut b = n("sooner", NoteType::Todo, 2);
    b.time = Some(100);
    let mut c = n("snoozed", NoteType::Reminder, 3);
    c.time = Some(50);
    c.snoozed_until = Some(300);
    let mut d = n("done", NoteType::Reminder, 4);
    d.time = Some(10);
    d.done = true;
    let mut e = n("idea", NoteType::Idea, 5);
    e.time = Some(20);
    let f = n("no time", NoteType::Todo, 6);
    let mut g = n("tie", NoteType::Todo, 7);
    g.time = Some(100);
    let notes = vec![a, b, c, d, e, f, g];
    let up = upcoming(&notes);
    let bodies: Vec<&str> = up.iter().map(|x| x.body.as_str()).collect();
    assert_eq!(bodies, vec!["sooner", "tie", "snoozed", "later"]);
}

#[test]
fn open_notes_are_newest_first() {
    let mut done = n("done", NoteType::Note, 9);
    done.done = true;
    let notes = vec![n("old", NoteType::Note, 1), done, n("new", NoteType::Idea, 5), n("mid", NoteType::Todo, 3)];
    let list = open_notes_newest_first(&notes);
    let bodies: Vec<&str> = list.iter().map(|x| x.body.as_str()).collect();
    assert_eq!(bodies, vec!["new", "mid", "old"]);
}

#[test]
fn archive_is_most_recently_completed_first() {
    let mut a = n("a", NoteType::Todo, 1);
    a.done = true;
    a.completed = Some(10);
    let mut b = n("b", NoteType::Todo, 50);
    b.done = true;
    let mut c = n("c", NoteType::Todo, 2);
    c.done = true;
    c.completed = Some(30);
    let open = n("open", NoteType::Todo, 100);
    let list = archived(&vec![a, b, c, open]);
    let bodies: Vec<&str> = list.iter().map(|x| x.body.as_str()).collect();
    assert_eq!(bodies, vec!["b", "c", "a"]);
}

#[test]
fn type_pages_list_open_notes_of_their_type() {
    let mut d = n("done todo", NoteType::Todo, 1);
    d.done = true;
    let notes = vec![n("t1", NoteType::Todo, 1), d, n("i", NoteType::Idea, 2), n("t2", NoteType::Todo, 3)];
    let todos = notes_of_type(&notes, &NoteType::Todo);
    let bodies: Vec<&str> = todos.iter().map(|x| x.body.as_str()).collect();
    assert_eq!(bodies, vec!["t1", "t2"]);
}

#[test]
fn chip_classes_by_type() {
    assert_eq!(type_chip_class(&NoteType::Todo), "type-chip-todo");
    assert_eq!(type_chip_class(&NoteType::Question), "type-chip-question");
    assert_eq!(type_chip_class(&NoteType::Tag("x".into())), "type-chip");
    assert_eq!(card_class(&NoteType::Reminder), "note-card-reminder");
    assert_eq!(type_emoji(&NoteType::Idea), "💡");
    assert_eq!(type_emoji(&NoteType::Note), "📝");
    assert_eq!(workspace_chip("3"), "ws:3");
    assert_eq!(new_note_label(&NoteType::Todo), "+  New todo");
}

#[test]
fn search_ignores_case_and_blank_query() {
    let notes = vec![n("Buy Milk", NoteType::Todo, 1), n("call mum", NoteType::Todo, 2)];
    let hits = search_notes(&notes, "MILK");
    assert_eq!(hits.len(), 1);
    assert_eq!(hits[0].body, "Buy Milk");
    assert_eq!(search_notes(&notes, "   ").len(), 2);
    assert_eq!(search_notes(&notes, "zzz").len(), 0);
}

#[test]
fn initial_view_defaults_to_all() {
    assert_eq!(initial_view_name(&None), "all");
    assert_eq!(initial_view_name(&Some("upcoming".into())), "upcoming");
}

#[test]
fn delete_needs_two_clicks() {
    let (step, armed) = delete_click(false);
    assert_eq!(step, DeleteStep::AskConfirm);
    assert!(armed);
    assert_eq!(delete_click(armed).0, DeleteStep::Delete);
}

#[test]
fn chip_states_mark_selected() {
    assert_eq!(chip_states("idea"), vec![false, false, true, false, false]);
    assert_eq!(chip_states("standup"), vec![false; 5]);
}

#[test]
fn workspace_text_is_decimal() {
    assert_eq!(workspace_text(3), "3");
    assert_eq!(workspace_text(-98), "-98");
    assert_eq!(workspace_text(i64::MIN), i64::MIN.to_string());
}

#[test]
fn editor_blank_fields_clear_time_and_rule() {
    let mut note = n("old", NoteType::Note, 1);
    note.time = Some(5);
    note.rrule = Some(RecurrenceRule::new("RRULE:FREQ=DAILY"));
    let e = edited_note(&note, "new body", "Todo", "  ", Some(99), "");
    assert_eq!(e.body, "new body");
    assert_eq!(e.note_type, NoteType::Todo);
    assert_eq!(e.time, None);
    assert!(e.rrule.is_none());
    assert_eq!(e.id, note.id);
    let f = edited_note(&note, "b", "idea", "tomorrow", Some(99), "RRULE:FREQ=WEEKLY");
    assert_eq!(f.time, Some(99));
    assert_eq!(f.rrule.unwrap().as_str(), "RRULE:FREQ=WEEKLY");
}

fn parsed(nt: NoteType, time: Option<i64>, rule: Option<&str>) -> ClassificationResult {
    ClassificationResult {
        note_type: nt,
        time,
        rrule: rule.map(RecurrenceRule::new),
        body: "body".into(),
        confidence: 95,
    }
}

#[test]
fn form_note_combines_fields() {
    let fresh = n("body", NoteType::Note, 1);
    let body = parsed(NoteType::Reminder, Some(10), None);
    let time = Some(parsed(NoteType::Reminder, Some(20), Some("RRULE:FREQ=DAILY")));
    let made = form_note(fresh, &body, &time, "", &NoteType::Note, &NoteType::Note);
    assert_eq!(made.note_type, NoteType::Reminder);
    assert_eq!(made.time, Some(20));
    assert_eq!(made.rrule.unwrap().as_str(), "RRULE:FREQ=DAILY");

    let fresh2 = n("body", NoteType::Idea, 1);
    let made2 = form_note(fresh2, &body, &None, "RRULE:FREQ=WEEKLY", &NoteType::Idea, &NoteType::Note);
    assert_eq!(made2.note_type, NoteType::Idea);
    assert_eq!(made2.time, Some(10));
    assert_eq!(made2.rrule.unwrap().as_str(), "RRULE:FREQ=WEEKLY");
}

#[test]
fn new_note_form_requires_body() {
    let r = note_from_form("   ", "", "", &NoteType::Note, &NoteType::Note, "08:00");
    assert_eq!(r.err(), Some(FormError::BodyRequired));
    let ok = note_from_form("buy milk", "", "", &NoteType::Note, &NoteType::Note, "08:00").unwrap();
    assert_eq!(ok.note_type, NoteType::Todo);
    assert_eq!(ok.body, "buy milk");
}

#[test]
fn enter_adds_only_with_empty_extra_fields() {
    assert!(enter_submits("", ""));
    assert!(!enter_submits("9am", ""));
    assert!(!enter_submits("", "RRULE:FREQ=DAILY"));
}

#[test]
fn capture_schedules_timed_notes_only() {
    let mut a = n("a", NoteType::Reminder, 1);
    assert!(!schedules_on_capture(&a));
    a.rrule = Some(RecurrenceRule::new("RRULE:FREQ=DAILY"));
    assert!(!schedules_on_capture(&a));
    a.time = Some(5);
    assert!(schedules_on_capture(&a));
}

#[test]
fn mark_done_by_id_updates_only_that_note() {
    let store = Store::from_dir("/tmp/x").with_calendar(CalendarConfig {
        enabled: false,
        url: String::new(),
        username: String::new(),
        password: String::new(),
    });
    let mut a = n("a", NoteType::Todo, 1);
    a.id = "aaaaaa".into();
    let mut b = n("b", NoteType::Todo, 2);
    b.id = "bbbbbb".into();
    let notes = vec![a, b];
    let (updated, cal) = mark_done_by_id(&store, &notes, "bbbbbb").unwrap();
    assert!(!updated[0].done);
    assert!(updated[1].done);
    assert!(updated[1].completed.is_some());
    assert!(cal.is_none());
    assert!(mark_done_by_id(&store, &notes, "zzzzzz").is_none());
}

#[test]
fn snooze_options_parse_and_show() {
    let opts = parse_snooze_options(" 15m, 1h ,, tomorrow_morning ,");
    assert_eq!(opts, vec!["15m", "1h", "tomorrow_morning"]);
    assert_eq!(snooze_options_text(&opts), "15m, 1h, tomorrow_morning");
    assert_eq!(parse_snooze_options(&snooze_options_text(&opts)), opts);
}

#[test]
fn scheduled_listing_shows_uid_and_body() {
    let mut a = n("timed", NoteType::Reminder, 1);
    a.id = "aaaaaa".into();
    a.time = Some(5);
    let b = n("plain", NoteType::Note, 2);
    let mut c = n("ruled", NoteType::Reminder, 3);
    c.caldav_uid = Some("custom".into());
    c.rrule = Some(RecurrenceRule::new("RRULE:FREQ=DAILY"));
    let lines = scheduled_listing(&vec![a, b, c]);
    assert_eq!(lines, vec!["aaaaaa@breadpad\ttimed", "custom\truled"]);
}

#[test]
fn time_field_reads_minute_stamp_in_local_zone() {
    let naive = chrono::NaiveDate::from_ymd_opt(2026, 8, 1).unwrap().and_hms_opt(9, 0, 0).unwrap();
    let t = breadpad::views::parse_time_field("  2026-08-01 09:00 ", "08:00").unwrap();
    if let chrono::LocalResult::Single(expected) = chrono::Local.from_local_datetime(&naive) {
        assert_eq!(t, expected.timestamp());
    }
}

#[test]
fn time_field_falls_back_to_rule_reading() {
    let before = chrono::Utc::now().timestamp();
    let t = breadpad::views::parse_time_field("in 30 minutes", "08:00").unwrap();
    assert!(t >= before + 1800 && t <= before + 1810);
    assert_eq!(breadpad::views::parse_time_field("no time here", "08:00"), None);
}

#[test]
fn form_takes_the_parsed_body_and_the_time_field() {
    let before = chrono::Utc::now().timestamp();
    let n = note_from_form(
        "call mom at 7pm",
        "in 30 minutes",
        "",
        &NoteType::Todo,
        &NoteType::Note,
        "08:00",
    )
    .unwrap();
    let after = chrono::Utc::now().timestamp();
    // The chosen type differs from the default, so it is kept.
    assert_eq!(n.note_type, NoteType::Todo);
    assert!(n.body.to_lowercase().starts_with("call mom") && !n.body.contains("7pm"));
    // The time field's time replaces the body's.
    let t = n.time.unwrap();
    assert!(t >= before + 1800 && t <= after + 1800);
    assert!(n.rrule.is_none());
    let r = note_from_form("stretch", "", "RRULE:FREQ=DAILY", &NoteType::Note, &NoteType::Note, "08:00")
        .unwrap();
    assert_eq!(r.rrule.map(|x| x.0), Some("RRULE:FREQ=DAILY".to_string()));
}

#[test]
fn choose_time_prefers_the_zone_single_answer() {
    let w = WallTime { day: 20619, secs: 9 * 3600 };
    assert_eq!(choose_time(Some(w), Some(LocalLookup::Single(77)), Some(5)), Some(77));
    assert_eq!(choose_time(Some(w), Some(LocalLookup::Gap), Some(5)), Some(5));
    assert_eq!(choose_time(Some(w), Some(LocalLookup::Ambiguous(1, 2)), None), None);
    assert_eq!(choose_time(None, None, Some(5)), Some(5));
}

#[test]
fn time_field_reads_a_stamp_in_local_time() {
    let t = parse_time_field("2026-06-15 09:30", "08:00").unwrap();
    let local = chrono::Local.timestamp_opt(t, 0).unwrap();
    assert_eq!(local.format("%Y-%m-%d %H:%M").to_string(), "2026-06-15 09:30");
    assert_eq!(parse_time_field("nothing here", "08:00"), None);
}
