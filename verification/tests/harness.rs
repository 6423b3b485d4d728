use breadpad::harness::{
    answer_opt, check_mark, evaluate, find_entry_line, format_time, hh_mm, input_display,
    run_tests, tally, CorpusEntry, TierArg,
};
use breadpad::clock::WallTime;
use chrono::Timelike;
use breadpad::types::{ClassificationResult, NoteType, RecurrenceRule};

fn entry(input: &str) -> CorpusEntry {
    CorpusEntry {
        input: input.into(),
        expected_type: None,
        expected_time: None,
        expected_body: None,
        expected_rrule: None,
        notes: None,
    }
}

fn result(nt: NoteType, body: &str, rule: Option<&str>) -> ClassificationResult {
    ClassificationResult {
        note_type: nt,
        time: None,
        rrule: rule.map(RecurrenceRule::new),
        body: body.into(),
        confidence: 88,
    }
}

#[test]
fn tier_labels() {
    assert_eq!(TierArg::One.label(), "1");
    assert_eq!(TierArg::Two.label(), "2");
    assert_eq!(TierArg::Three.label(), "3");
    assert_eq!(TierArg::All.label(), "all");
}

#[test]
fn check_marks() {
    assert_eq!(check_mark(Some(true)), "✓");
    assert_eq!(check_mark(Some(false)), "✗");
    assert_eq!(check_mark(None), "-");
}

#[test]
fn unasserted_fields_pass() {
    let r = evaluate(0, &entry("buy milk"), &TierArg::One, &result(NoteType::Todo, "buy milk", None), None);
    assert!(r.pass);
    assert_eq!(r.index, 1);
    assert_eq!(r.tier_used, "1");
    assert_eq!(r.actual_type, "todo");
    assert_eq!(r.type_pass, None);
    assert!(r.failure_reason.is_none());
}

#[test]
fn type_compared_in_lowercase() {
    let mut e = entry("buy milk");
    e.expected_type = Some("TODO".into());
    let r = evaluate(4, &e, &TierArg::Two, &result(NoteType::Todo, "buy milk", None), None);
    assert_eq!(r.type_pass, Some(true));
    assert_eq!(r.index, 5);
    e.expected_type = Some("idea".into());
    let r2 = evaluate(4, &e, &TierArg::Two, &result(NoteType::Todo, "buy milk", None), None);
    assert_eq!(r2.type_pass, Some(false));
    assert_eq!(r2.failure_reason.as_deref(), Some("type: expected idea, got todo"));
}

#[test]
fn failures_are_joined_in_check_order() {
    let mut e = entry("x");
    e.expected_time = Some("09:00".into());
    e.expected_rrule = Some("FREQ=DAILY".into());
    e.expected_body = Some("Milk".into());
    let r = evaluate(0, &e, &TierArg::All, &result(NoteType::Note, "bread", Some("RRULE:FREQ=WEEKLY")), Some("10:30".into()));
    assert!(!r.pass);
    assert_eq!(r.time_pass, Some(false));
    assert_eq!(r.rrule_pass, Some(false));
    assert_eq!(r.body_pass, Some(false));
    assert_eq!(
        r.failure_reason.as_deref(),
        Some("time: expected 09:00, got 10:30; rrule: expected to contain \"FREQ=DAILY\"; body: \"Milk\" not found in \"bread\"")
    );
}

#[test]
fn substring_checks_pass() {
    let mut e = entry("x");
    e.expected_rrule = Some("FREQ=WEEKLY".into());
    e.expected_body = Some("MILK".into());
    e.expected_time = Some("10:30".into());
    let r = evaluate(0, &e, &TierArg::One, &result(NoteType::Note, "buy milk now", Some("RRULE:FREQ=WEEKLY;BYDAY=MO")), Some("10:30".into()));
    assert!(r.pass);
    let missing = evaluate(0, &e, &TierArg::One, &result(NoteType::Note, "buy milk now", None), None);
    assert_eq!(missing.rrule_pass, Some(false));
    assert_eq!(missing.time_pass, Some(false));
}

#[test]
fn hh_mm_pads() {
    assert_eq!(hh_mm(WallTime { day: 0, secs: 7 * 3600 + 5 * 60 + 59 }), "07:05");
    assert_eq!(hh_mm(WallTime { day: 0, secs: 23 * 3600 + 59 * 60 }), "23:59");
}

#[test]
fn format_time_matches_local_clock() {
    let now = chrono::Utc::now().timestamp();
    let local = chrono::DateTime::from_timestamp(now, 0).unwrap().with_timezone(&chrono::Local);
    assert_eq!(format_time(Some(now)), Some(format!("{:02}:{:02}", local.hour(), local.minute())));
    assert_eq!(format_time(None), None);
}

#[test]
fn run_tests_counts_results() {
    let mut e = entry("c");
    e.expected_type = Some("idea".into());
    let entries = vec![entry("a"), entry("b"), e];
    let results = vec![
        result(NoteType::Note, "a", None),
        result(NoteType::Note, "b", None),
        result(NoteType::Note, "c", None),
    ];
    let out = run_tests(&entries, &TierArg::One, &results);
    assert_eq!(out.len(), 3);
    assert_eq!(out[2].index, 3);
    assert_eq!(tally(&out), (2, 1));
}

#[test]
fn long_inputs_are_cut() {
    let long = "a".repeat(50);
    assert_eq!(input_display(&long), format!("{}…", "a".repeat(41)));
    assert_eq!(input_display("short"), "short");
    let exact = "b".repeat(42);
    assert_eq!(input_display(&exact), exact);
}

#[test]
fn entry_lines_count_opening_braces() {
    let corpus = "[\n  {\n    \"input\": \"a\"\n  },\n  {\n    \"input\": \"b\"\n  }\n]\n";
    assert_eq!(find_entry_line(corpus, 1), Some(2));
    assert_eq!(find_entry_line(corpus, 2), Some(5));
    assert_eq!(find_entry_line(corpus, 3), None);
    assert_eq!(find_entry_line(corpus, 0), None);
}

#[test]
fn blank_answers_are_none() {
    assert_eq!(answer_opt("  \n"), None);
    assert_eq!(answer_opt(" todo \n").as_deref(), Some("todo"));
}

#[test]
fn format_time_none_at_the_end_of_the_range() {
    assert_eq!(format_time(Some(breadpad::clock::MIN_UTC)), None);
    assert!(format_time(Some(0)).is_some());
}
