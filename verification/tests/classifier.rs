use breadpad::ai::LlmReply;
use breadpad::classifier::{
    after_tier1, after_tier2, after_tier3, hypotheses, merge_tier2, ollama_tier, tier1_decides,
    tier3_wanted, ClassifyStep, ExecutionProvider, TIER1_SKIP_THRESHOLD,
};
use breadpad::config::OllamaConfig;
use breadpad::pad_cli::apply_classification;
use breadpad::parser::parse_rule_based;
use breadpad::store::Store;
use breadpad::types::{ClassificationResult, Note, NoteType, RecurrenceRule};
use chrono::{Local, Timelike};

/// The pipeline with no Tier 2 model and Tier 3 switched off.
fn classify_with(text: &str, morning: &str) -> ClassificationResult {
    let tier1 = parse_rule_based(text, morning).unwrap();
    match after_tier1(tier1, false, None) {
        ClassifyStep::Finish(r) => r,
        other => panic!("unexpected step {:?}", other),
    }
}

fn classify(text: &str) -> ClassificationResult {
    classify_with(text, "08:00")
}

fn result(nt: NoteType, confidence: u32) -> ClassificationResult {
    ClassificationResult {
        note_type: nt,
        time: Some(1000),
        rrule: Some(RecurrenceRule::new("RRULE:FREQ=DAILY")),
        body: "cleaned".into(),
        confidence,
    }
}

fn ollama(enabled: bool, threshold: u32) -> OllamaConfig {
    OllamaConfig {
        endpoint: "http://localhost:11434".into(),
        model: "llama3.2:3b".into(),
        confidence_threshold: threshold,
        enabled,
    }
}

#[test]
fn execution_provider_names() {
    assert_eq!(ExecutionProvider::Cpu.as_str(), "CPU");
    assert_eq!(ExecutionProvider::Gpu.as_str(), "ROCm (iGPU)");
}

#[test]
fn classify_falls_back_to_rule_based() {
    let r = classify("buy milk");
    assert_eq!(r.note_type, NoteType::Todo);
    assert!(r.time.is_none());
}

#[test]
fn classify_todo_via_fallback() {
    assert_eq!(classify("fix the segfault").note_type, NoteType::Todo);
}

#[test]
fn classify_reminder_via_fallback() {
    let r = classify("call mum at 6pm");
    assert_eq!(r.note_type, NoteType::Reminder);
    assert!(r.time.is_some());
}

#[test]
fn classify_idea_via_fallback() {
    assert_eq!(classify("what if we added a calendar view").note_type, NoteType::Idea);
}

#[test]
fn classify_question_via_fallback() {
    assert_eq!(classify("why does this fail?").note_type, NoteType::Question);
}

#[test]
fn classify_note_via_fallback() {
    assert_eq!(classify("meeting went well today").note_type, NoteType::Note);
}

#[test]
fn classify_recurrence_via_fallback() {
    let r = classify("standup every monday at 9am");
    assert!(r.rrule.is_some(), "expected rrule from fallback parser");
    assert_eq!(r.note_type, NoteType::Reminder);
}

#[test]
fn classify_custom_morning_time() {
    let r = classify_with("sync tomorrow morning", "07:15");
    let t = r.time.expect("should have a time for tomorrow morning");
    let local = chrono::DateTime::from_timestamp(t, 0).unwrap().with_timezone(&Local);
    assert_eq!(local.hour(), 7);
    assert_eq!(local.minute(), 15);
}

#[test]
fn classify_empty_string_does_not_panic() {
    let _ = classify("");
}

#[test]
fn classify_whitespace_only_does_not_panic() {
    let _ = classify("   ");
}

#[test]
fn classify_in_duration_sets_time() {
    let r = classify("take a break in 30 minutes");
    assert!(r.time.is_some(), "should have a time for 'in 30 minutes'");
    assert_eq!(r.note_type, NoteType::Reminder);
}

#[test]
fn classify_tomorrow_sets_time() {
    let r = classify("submit the invoice tomorrow");
    assert!(r.time.is_some(), "tomorrow should produce a scheduled time");
}

#[test]
fn classify_returns_cleaned_body() {
    let r = classify("call mum at 6pm");
    assert!(r.body.contains("call mum"), "body: {}", r.body);
    assert!(!r.body.contains("6pm"), "time phrase should be stripped from body: {}", r.body);
}

// ---- pipeline steps ----

#[test]
fn confident_tier1_finishes() {
    assert_eq!(TIER1_SKIP_THRESHOLD, 82);
    assert!(tier1_decides(&result(NoteType::Todo, 82)));
    assert!(!tier1_decides(&result(NoteType::Todo, 81)));
    match after_tier1(result(NoteType::Todo, 88), true, Some(ollama(true, 60))) {
        ClassifyStep::Finish(r) => assert_eq!(r.confidence, 88),
        other => panic!("unexpected {:?}", other),
    }
}

#[test]
fn unsure_tier1_runs_model_when_loaded() {
    assert!(matches!(after_tier1(result(NoteType::Note, 45), true, None), ClassifyStep::RunTier2(_)));
}

#[test]
fn without_model_tier3_takes_over() {
    match after_tier1(result(NoteType::Note, 45), false, Some(ollama(true, 60))) {
        ClassifyStep::RunTier3(r, cfg) => {
            assert_eq!(r.confidence, 45);
            assert_eq!(cfg.confidence_threshold, 60);
        },
        other => panic!("unexpected {:?}", other),
    }
}

#[test]
fn tier2_keeps_tier1_time_rule_and_body() {
    let t1 = result(NoteType::Note, 45);
    let merged = merge_tier2(&t1, NoteType::Idea, 91);
    assert_eq!(merged.note_type, NoteType::Idea);
    assert_eq!(merged.confidence, 91);
    assert_eq!(merged.time, Some(1000));
    assert_eq!(merged.body, "cleaned");
    assert_eq!(merged.rrule.unwrap().as_str(), "RRULE:FREQ=DAILY");
}

#[test]
fn confident_tier2_finishes() {
    match after_tier2(result(NoteType::Note, 45), Some((NoteType::Idea, 70)), Some(ollama(true, 60))) {
        ClassifyStep::Finish(r) => assert_eq!(r.note_type, NoteType::Idea),
        other => panic!("unexpected {:?}", other),
    }
}

#[test]
fn unsure_tier2_asks_tier3() {
    assert!(matches!(
        after_tier2(result(NoteType::Note, 45), Some((NoteType::Idea, 50)), Some(ollama(true, 60))),
        ClassifyStep::RunTier3(_, _)
    ));
    assert!(matches!(
        after_tier2(result(NoteType::Note, 45), Some((NoteType::Idea, 50)), None),
        ClassifyStep::Finish(_)
    ));
}

#[test]
fn disabled_tier3_is_not_in_force() {
    assert!(ollama_tier(ollama(false, 60)).is_none());
    assert!(ollama_tier(ollama(true, 60)).is_some());
    assert!(!tier3_wanted(&None, 10));
    assert!(tier3_wanted(&Some(ollama(true, 60)), 59));
    assert!(!tier3_wanted(&Some(ollama(true, 60)), 60));
}

#[test]
fn unreachable_tier3_keeps_fallback() {
    let r = after_tier3(result(NoteType::Idea, 50), "text", None);
    assert_eq!(r.note_type, NoteType::Idea);
    assert_eq!(r.confidence, 50);
}

#[test]
fn tier3_reply_sets_type_and_caps_confidence() {
    let reply = LlmReply { note_type: Some("Question".into()), body: Some("other".into()), confidence: Some(140) };
    let r = after_tier3(result(NoteType::Idea, 50), "text", Some(reply));
    assert_eq!(r.note_type, NoteType::Question);
    assert_eq!(r.confidence, 100);
    assert_eq!(r.body, "cleaned");
    assert_eq!(r.time, Some(1000));
}

#[test]
fn hypotheses_cover_builtin_types() {
    let h = hypotheses();
    let names: Vec<&str> = h.iter().map(|p| p.1).collect();
    assert_eq!(names, vec!["todo", "reminder", "idea", "note", "question"]);
}

// ---- capture pipeline: classify → apply → store list ----

fn capture(notes: &mut Vec<Note>, text: &str, user_type: NoteType) -> Note {
    let result = classify(text);
    let mut note = Note::new(text.into(), user_type.copy(), None);
    apply_classification(&mut note, result, &user_type, &NoteType::from_str("note"));
    notes.push(note.copy());
    note
}

#[test]
fn todo_note_appears_in_store() {
    let mut notes = Vec::new();
    let saved = capture(&mut notes, "buy groceries", NoteType::from_str("note"));
    assert_eq!(notes.len(), 1);
    assert_eq!(notes[0].id, saved.id);
    assert_eq!(notes[0].note_type, NoteType::Todo);
    assert_eq!(notes[0].body, "buy groceries");
    assert!(!notes[0].done);
}

#[test]
fn idea_note_appears_in_store() {
    let mut notes = Vec::new();
    capture(&mut notes, "what if we added dark mode", NoteType::from_str("note"));
    assert_eq!(notes[0].note_type, NoteType::Idea);
}

#[test]
fn question_note_appears_in_store() {
    let mut notes = Vec::new();
    capture(&mut notes, "why does the cache miss on cold start?", NoteType::from_str("note"));
    assert_eq!(notes[0].note_type, NoteType::Question);
}

#[test]
fn plain_note_appears_in_store() {
    let mut notes = Vec::new();
    capture(&mut notes, "retro went well today", NoteType::from_str("note"));
    assert_eq!(notes[0].note_type, NoteType::Note);
}

#[test]
fn reminder_has_time_set() {
    let mut notes = Vec::new();
    capture(&mut notes, "call mum at 6pm", NoteType::from_str("note"));
    assert_eq!(notes[0].note_type, NoteType::Reminder);
    let t = notes[0].time.expect("reminder should have a scheduled time");
    let local = chrono::DateTime::from_timestamp(t, 0).unwrap().with_timezone(&Local);
    assert_eq!(local.hour(), 18);
}

#[test]
fn reminder_body_has_time_stripped() {
    let mut notes = Vec::new();
    capture(&mut notes, "call mum at 6pm", NoteType::from_str("note"));
    assert!(!notes[0].body.contains("6pm"), "time phrase should be removed from body");
    assert!(notes[0].body.contains("call mum"));
}

#[test]
fn in_duration_reminder_has_time() {
    let mut notes = Vec::new();
    capture(&mut notes, "check on the build in 30 minutes", NoteType::from_str("note"));
    assert_eq!(notes[0].note_type, NoteType::Reminder);
    assert!(notes[0].time.is_some());
}

#[test]
fn recurring_reminder_has_rrule() {
    let mut notes = Vec::new();
    capture(&mut notes, "standup every monday at 9am", NoteType::from_str("note"));
    assert_eq!(notes[0].note_type, NoteType::Reminder);
    let rrule = notes[0].rrule.as_ref().expect("should have rrule");
    assert!(rrule.as_str().contains("FREQ=WEEKLY"));
    assert!(rrule.as_str().contains("BYDAY=MO"));
}

#[test]
fn daily_reminder_has_rrule() {
    let mut notes = Vec::new();
    capture(&mut notes, "drink water every day at 8am", NoteType::from_str("note"));
    assert_eq!(notes[0].note_type, NoteType::Reminder);
    assert!(notes[0].rrule.as_ref().unwrap().as_str().contains("FREQ=DAILY"));
}

#[test]
fn user_selected_type_overrides_classifier() {
    let mut notes = Vec::new();
    capture(&mut notes, "fix the login bug", NoteType::Idea);
    assert_eq!(notes[0].note_type, NoteType::Idea, "user chip selection should win over classifier");
}

#[test]
fn user_selected_reminder_overrides_classifier() {
    let mut notes = Vec::new();
    capture(&mut notes, "team meeting notes from today", NoteType::Reminder);
    assert_eq!(notes[0].note_type, NoteType::Reminder);
}

#[test]
fn three_notes_all_visible_to_breadman() {
    let mut notes = Vec::new();
    capture(&mut notes, "buy milk", NoteType::from_str("note"));
    capture(&mut notes, "what if we rewrote in Zig", NoteType::from_str("note"));
    capture(&mut notes, "team standup went well", NoteType::from_str("note"));
    assert_eq!(notes.len(), 3);
    let types: Vec<NoteType> = notes.iter().map(|n| n.note_type.copy()).collect();
    assert!(types.contains(&NoteType::Todo));
    assert!(types.contains(&NoteType::Idea));
    assert!(types.contains(&NoteType::Note));
}

#[test]
fn note_id_is_stable_after_reload() {
    let mut notes = Vec::new();
    let saved = capture(&mut notes, "check the logs", NoteType::Todo);
    let found = Store::get_by_id(&notes, &saved.id).unwrap();
    assert_eq!(found.id, saved.id);
    assert_eq!(found.created, saved.created);
}
