use breadpad::types::{Note, NoteType, RecurrenceRule};
use chrono::{Duration, Utc};

// ---- NoteType ----

#[test]
fn note_type_from_str_all_builtins() {
    assert_eq!(NoteType::from_str("todo"), NoteType::Todo);
    assert_eq!(NoteType::from_str("reminder"), NoteType::Reminder);
    assert_eq!(NoteType::from_str("idea"), NoteType::Idea);
    assert_eq!(NoteType::from_str("note"), NoteType::Note);
    assert_eq!(NoteType::from_str("question"), NoteType::Question);
}

#[test]
fn note_type_from_str_case_insensitive() {
    assert_eq!(NoteType::from_str("TODO"), NoteType::Todo);
    assert_eq!(NoteType::from_str("Reminder"), NoteType::Reminder);
    assert_eq!(NoteType::from_str("IDEA"), NoteType::Idea);
    assert_eq!(NoteType::from_str("Note"), NoteType::Note);
    assert_eq!(NoteType::from_str("QUESTION"), NoteType::Question);
}

#[test]
fn note_type_custom_tag_preserved() {
    let nt = NoteType::from_str("standup");
    assert!(matches!(nt, NoteType::Tag(ref s) if s == "standup"));
    assert_eq!(nt.as_str(), "standup");
}

#[test]
fn note_type_custom_tag_is_lowercased() {
    let nt = NoteType::from_str("StandUp");
    assert_eq!(nt, NoteType::Tag("standup".into()));
}

#[test]
fn note_type_empty_string_becomes_tag() {
    let nt = NoteType::from_str("");
    assert!(matches!(nt, NoteType::Tag(ref s) if s.is_empty()));
}

#[test]
fn note_type_all_builtin_round_trip() {
    for &s in NoteType::all_builtin().iter() {
        assert_eq!(NoteType::from_str(s).as_str(), s, "round-trip failed for '{}'", s);
    }
}

#[test]
fn note_type_display_matches_as_str() {
    for &s in NoteType::all_builtin().iter() {
        let nt = NoteType::from_str(s);
        assert_eq!(nt.display_string(), nt.as_str());
    }
    let tag = NoteType::Tag("weekly".into());
    assert_eq!(tag.display_string(), "weekly");
}

// ---- RecurrenceRule ----

#[test]
fn recurrence_rule_new_stores_value() {
    let r = RecurrenceRule::new("RRULE:FREQ=DAILY");
    assert_eq!(r.as_str(), "RRULE:FREQ=DAILY");
}

#[test]
fn recurrence_rule_from_string_owned() {
    let s = String::from("RRULE:FREQ=MONTHLY");
    let r = RecurrenceRule::new(&s);
    assert_eq!(r.as_str(), "RRULE:FREQ=MONTHLY");
}

// ---- Note::new ----

#[test]
fn note_new_defaults() {
    let note = Note::new("body text".into(), NoteType::Note, Some("3".into()));
    assert_eq!(note.body, "body text");
    assert_eq!(note.note_type, NoteType::Note);
    assert_eq!(note.workspace, Some("3".into()));
    assert!(!note.done);
    assert!(note.completed.is_none());
    assert!(note.time.is_none());
    assert!(note.rrule.is_none());
    assert!(note.snoozed_until.is_none());
    assert!(note.tags.is_empty());
}

#[test]
fn note_new_without_workspace() {
    let note = Note::new("x".into(), NoteType::Idea, None);
    assert!(note.workspace.is_none());
}

#[test]
fn note_id_is_six_chars() {
    for _ in 0..50 {
        let note = Note::new("x".into(), NoteType::Note, None);
        assert_eq!(note.id.len(), 6, "id '{}' is not 6 chars", note.id);
        assert!(note.id.chars().all(|c| c.is_ascii_digit() || ('a'..='f').contains(&c)));
    }
}

#[test]
fn note_id_is_unique() {
    let ids: Vec<String> =
        (0..100).map(|_| Note::new("x".into(), NoteType::Note, None).id).collect();
    let unique: std::collections::HashSet<&str> = ids.iter().map(|s| s.as_str()).collect();
    assert_eq!(unique.len(), 100, "found duplicate IDs in 100 notes");
}

#[test]
fn note_created_is_recent() {
    let before = Utc::now().timestamp();
    let note = Note::new("x".into(), NoteType::Note, None);
    let after = Utc::now().timestamp();
    assert!(note.created >= before && note.created <= after);
}

// ---- Note::mark_done ----

#[test]
fn note_mark_done_sets_done_and_completed() {
    let before = Utc::now().timestamp();
    let mut note = Note::new("task".into(), NoteType::Todo, None);
    note.mark_done();
    let after = Utc::now().timestamp();

    assert!(note.done);
    let completed = note.completed.expect("completed should be set after mark_done");
    assert!(completed >= before && completed <= after);
}

#[test]
fn note_mark_done_twice_updates_timestamp() {
    let mut note = Note::new("task".into(), NoteType::Todo, None);
    note.mark_done();
    let first = note.completed.unwrap();
    note.mark_done();
    let second = note.completed.unwrap();
    assert!(second >= first);
}

// ---- Note::effective_time ----

#[test]
fn effective_time_none_when_nothing_set() {
    let note = Note::new("x".into(), NoteType::Note, None);
    assert_eq!(note.effective_time(), None);
}

#[test]
fn effective_time_returns_time_when_no_snooze() {
    let mut note = Note::new("x".into(), NoteType::Reminder, None);
    let t = (Utc::now() + Duration::hours(1)).timestamp();
    note.time = Some(t);
    assert_eq!(note.effective_time(), Some(t));
}

#[test]
fn effective_time_prefers_snoozed_over_time() {
    let mut note = Note::new("x".into(), NoteType::Reminder, None);
    let original = (Utc::now() + Duration::hours(1)).timestamp();
    let snoozed = (Utc::now() + Duration::hours(2)).timestamp();
    note.time = Some(original);
    note.snoozed_until = Some(snoozed);
    assert_eq!(note.effective_time(), Some(snoozed));
}

#[test]
fn effective_time_snoozed_without_original() {
    let mut note = Note::new("x".into(), NoteType::Reminder, None);
    let snoozed = (Utc::now() + Duration::hours(3)).timestamp();
    note.snoozed_until = Some(snoozed);
    assert_eq!(note.effective_time(), Some(snoozed));
}

#[test]
fn note_copy_is_equal() {
    let mut n = Note::new("x".into(), NoteType::Tag("work".into()), Some("2".into()));
    n.tags = vec!["a".into()];
    n.rrule = Some(RecurrenceRule::new("RRULE:FREQ=DAILY"));
    let c = n.copy();
    assert_eq!(c.id, n.id);
    assert_eq!(c.note_type, n.note_type);
    assert_eq!(c.tags, n.tags);
    assert_eq!(c.rrule.unwrap().as_str(), "RRULE:FREQ=DAILY");
}
