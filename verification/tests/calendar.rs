use breadpad::calendar::{
    build_ical, build_ical_at, caldav_uid, delete_request, delete_result, escape_ical, event_url,
    fold_line, parse_report_response, propfind_request, propfind_result, put_request,
    put_result, report_request, report_result, CalendarError, PROPFIND_BODY, REPORT_BODY,
};
use breadpad::config::CalendarConfig;
use breadpad::types::{Note, NoteType, RecurrenceRule};
use chrono::{TimeZone, Utc};

fn reminder(body: &str) -> Note {
    let mut n = Note::new(body.into(), NoteType::Reminder, None);
    n.time = Some(Utc::now().timestamp());
    n
}

fn cfg() -> CalendarConfig {
    CalendarConfig {
        enabled: true,
        url: "https://cloud.example.com/cal/".into(),
        username: "alice".into(),
        password: "hunter2".into(),
    }
}

// ---- escape_ical ----

#[test]
fn escape_ical_clean_string_unchanged() {
    assert_eq!(escape_ical("hello world"), "hello world");
}

#[test]
fn escape_ical_empty_string() {
    assert_eq!(escape_ical(""), "");
}

#[test]
fn escape_ical_escapes_backslash() {
    assert_eq!(escape_ical("back\\slash"), "back\\\\slash");
}

#[test]
fn escape_ical_escapes_semicolon() {
    assert_eq!(escape_ical("a;b"), "a\\;b");
}

#[test]
fn escape_ical_escapes_comma() {
    assert_eq!(escape_ical("apples,oranges"), "apples\\,oranges");
}

#[test]
fn escape_ical_escapes_newline() {
    assert_eq!(escape_ical("line1\nline2"), "line1\\nline2");
}

#[test]
fn escape_ical_multiple_special_chars() {
    assert_eq!(escape_ical("a;b,c\nd"), "a\\;b\\,c\\nd");
}

// ---- caldav_uid ----

#[test]
fn caldav_uid_uses_existing_field() {
    let mut n = Note::new("test".into(), NoteType::Reminder, None);
    n.caldav_uid = Some("my-custom-uid".into());
    assert_eq!(caldav_uid(&n), "my-custom-uid");
}

#[test]
fn caldav_uid_falls_back_to_id_at_breadpad() {
    let n = Note::new("test".into(), NoteType::Reminder, None);
    assert_eq!(caldav_uid(&n), format!("{}@breadpad", n.id));
}

// ---- event_url ----

#[test]
fn event_url_with_trailing_slash() {
    let url = event_url("https://cloud.example.com/cal/", "abc@breadpad");
    assert_eq!(url, "https://cloud.example.com/cal/abc@breadpad.ics");
}

#[test]
fn event_url_without_trailing_slash() {
    let url = event_url("https://cloud.example.com/cal", "abc@breadpad");
    assert_eq!(url, "https://cloud.example.com/cal/abc@breadpad.ics");
}

#[test]
fn event_url_strips_every_trailing_slash() {
    let url = event_url("https://cloud.example.com/cal///", "x");
    assert_eq!(url, "https://cloud.example.com/cal/x.ics");
}

// ---- build_ical ----

#[test]
fn build_ical_contains_vcalendar_markers() {
    let n = reminder("team sync");
    let uid = caldav_uid(&n);
    let ical = build_ical(&n, &uid);
    assert!(ical.contains("BEGIN:VCALENDAR"), "missing BEGIN:VCALENDAR");
    assert!(ical.contains("END:VCALENDAR"), "missing END:VCALENDAR");
    assert!(ical.contains("BEGIN:VEVENT"), "missing BEGIN:VEVENT");
    assert!(ical.contains("END:VEVENT"), "missing END:VEVENT");
}

#[test]
fn build_ical_contains_uid() {
    let n = reminder("team sync");
    let uid = caldav_uid(&n);
    let ical = build_ical(&n, &uid);
    assert!(ical.contains(&format!("UID:{}", uid)));
}

#[test]
fn build_ical_contains_summary() {
    let n = reminder("team sync");
    let uid = caldav_uid(&n);
    let ical = build_ical(&n, &uid);
    assert!(ical.contains("SUMMARY:team sync"));
}

#[test]
fn build_ical_description_contains_type() {
    let n = reminder("team sync");
    let uid = caldav_uid(&n);
    let ical = build_ical(&n, &uid);
    assert!(ical.contains("DESCRIPTION:type=reminder"));
}

#[test]
fn build_ical_uses_note_time_for_dtstart() {
    let mut n = Note::new("dentist".into(), NoteType::Reminder, None);
    n.time = Some(Utc.with_ymd_and_hms(2026, 6, 15, 14, 30, 0).unwrap().timestamp());
    let uid = caldav_uid(&n);
    let ical = build_ical(&n, &uid);
    assert!(ical.contains("DTSTART:20260615T143000Z"), "ical: {}", &ical[..400]);
}

#[test]
fn build_ical_falls_back_to_created_when_no_time() {
    let n = Note::new("no time set".into(), NoteType::Reminder, None);
    let uid = caldav_uid(&n);
    let ical = build_ical(&n, &uid);
    assert!(ical.contains("DTSTART:"), "DTSTART should be present");
}

#[test]
fn build_ical_includes_rrule_when_set() {
    let mut n = reminder("standup");
    n.rrule = Some(RecurrenceRule::new(
        "RRULE:FREQ=WEEKLY;BYDAY=MO;BYHOUR=9;BYMINUTE=0;BYSECOND=0",
    ));
    let uid = caldav_uid(&n);
    let ical = build_ical(&n, &uid);
    assert!(ical.contains("RRULE:FREQ=WEEKLY;BYDAY=MO"));
}

#[test]
fn build_ical_no_rrule_when_not_set() {
    let n = reminder("one-off");
    let uid = caldav_uid(&n);
    let ical = build_ical(&n, &uid);
    assert!(!ical.contains("RRULE:"));
}

#[test]
fn build_ical_escapes_special_chars_in_summary() {
    let n = Note::new("dentist; bring card, and ID".into(), NoteType::Reminder, None);
    let uid = caldav_uid(&n);
    let ical = build_ical(&n, &uid);
    assert!(
        ical.contains("SUMMARY:dentist\\; bring card\\, and ID"),
        "ical: {}",
        &ical[..400]
    );
}

#[test]
fn build_ical_contains_dtstamp() {
    let n = reminder("team sync");
    let uid = caldav_uid(&n);
    let ical = build_ical(&n, &uid);
    assert!(ical.contains("DTSTAMP:"), "missing DTSTAMP in:\n{}", ical);
}

#[test]
fn build_ical_at_exact_text() {
    let mut n = Note::new("lunch".into(), NoteType::Todo, None);
    n.id = "abc123".into();
    n.time = Some(Utc.with_ymd_and_hms(2026, 6, 15, 12, 0, 0).unwrap().timestamp());
    let stamp = Utc.with_ymd_and_hms(2026, 6, 1, 8, 5, 9).unwrap().timestamp();
    let ical = build_ical_at(&n, "abc123@breadpad", stamp);
    let expected = "BEGIN:VCALENDAR\r\nVERSION:2.0\r\nPRODID:-//breadpad//EN\r\nBEGIN:VEVENT\r\n\
UID:abc123@breadpad\r\nSUMMARY:lunch\r\nDTSTART:20260615T120000Z\r\nDTEND:20260615T120000Z\r\n\
DTSTAMP:20260601T080509Z\r\nDESCRIPTION:type=todo\r\nEND:VEVENT\r\nEND:VCALENDAR\r\n";
    assert_eq!(ical, expected);
}

// ---- fold_line ----

#[test]
fn fold_line_short_unchanged() {
    let line = "SUMMARY:short";
    assert_eq!(fold_line(line), line);
}

#[test]
fn fold_line_exactly_75_unchanged() {
    let line = "A".repeat(75);
    assert_eq!(fold_line(&line), line);
}

#[test]
fn fold_line_76_chars_splits() {
    let line = "X".repeat(76);
    let folded = fold_line(&line);
    assert!(folded.contains("\r\n "), "expected fold in: {:?}", folded);
    let rejoined: String = folded.split("\r\n ").collect();
    assert_eq!(rejoined, line);
}

#[test]
fn fold_line_pieces_fit_in_75_octets() {
    let line = "é".repeat(100);
    let folded = fold_line(&line);
    for piece in folded.split("\r\n") {
        assert!(piece.len() <= 75, "piece too long: {}", piece.len());
    }
    let rejoined: String = folded.split("\r\n ").collect();
    assert_eq!(rejoined, line);
}

#[test]
fn build_ical_long_summary_is_folded() {
    let long_body = "a".repeat(200);
    let n = Note::new(long_body.clone(), NoteType::Reminder, None);
    let uid = caldav_uid(&n);
    let ical = build_ical(&n, &uid);
    for line in ical.split("\r\n") {
        assert!(line.len() <= 75, "line too long ({} octets): {:?}", line.len(), line);
    }
}

// ---- parse_report_response ----

#[test]
fn parse_report_response_empty_xml_returns_empty() {
    let events = parse_report_response("").unwrap();
    assert!(events.is_empty());
}

#[test]
fn parse_report_response_single_event() {
    let xml = "\
BEGIN:VCALENDAR\r\n\
VERSION:2.0\r\n\
BEGIN:VEVENT\r\n\
UID:abc123@breadpad\r\n\
SUMMARY:team sync\r\n\
DTSTART:20260615T140000Z\r\n\
DTEND:20260615T140000Z\r\n\
END:VEVENT\r\n\
END:VCALENDAR\r\n";
    let events = parse_report_response(xml).unwrap();
    assert_eq!(events.len(), 1);
    assert_eq!(events[0].uid, "abc123@breadpad");
    assert_eq!(events[0].summary, "team sync");
}

#[test]
fn parse_report_response_no_vcalendar_block_returns_empty() {
    let xml = "<multistatus><response><status>HTTP/1.1 200 OK</status></response></multistatus>";
    let events = parse_report_response(xml).unwrap();
    assert!(events.is_empty());
}

#[test]
fn parse_report_response_two_blocks() {
    let xml = "<d>BEGIN:VCALENDAR\r\nBEGIN:VEVENT\r\nUID:a\r\nSUMMARY:one\r\nEND:VEVENT\r\nEND:VCALENDAR</d>\
<d>BEGIN:VCALENDAR\r\nBEGIN:VEVENT\r\nUID:b\r\nSUMMARY:two\r\nEND:VEVENT\r\nEND:VCALENDAR</d>";
    let events = parse_report_response(xml).unwrap();
    assert_eq!(events.len(), 2);
    assert_eq!(events[0].uid, "a");
    assert_eq!(events[1].summary, "two");
}

// ---- server answers ----

#[test]
fn propfind_accepts_success_statuses() {
    assert_eq!(propfind_result(200), Ok(()));
    assert_eq!(propfind_result(207), Ok(()));
    assert_eq!(propfind_result(401), Err(CalendarError::Status(401)));
}

#[test]
fn put_returns_uid_on_success() {
    assert_eq!(put_result(201, "u@breadpad".into()), Ok("u@breadpad".to_string()));
    assert_eq!(put_result(204, "u".into()), Ok("u".to_string()));
    assert_eq!(put_result(500, "u".into()), Err(CalendarError::Status(500)));
}

#[test]
fn delete_treats_missing_event_as_deleted() {
    assert_eq!(delete_result(404), Ok(()));
    assert_eq!(delete_result(204), Ok(()));
    assert_eq!(delete_result(403), Err(CalendarError::Status(403)));
}

#[test]
fn report_fails_on_error_status() {
    assert!(matches!(report_result(500, ""), Err(CalendarError::Status(500))));
    assert_eq!(report_result(207, "").unwrap().len(), 0);
}

// ---- requests ----

#[test]
fn propfind_request_shape() {
    let r = propfind_request(&cfg());
    assert_eq!(r.method, "PROPFIND");
    assert_eq!(r.url, "https://cloud.example.com/cal/");
    assert_eq!(r.username, "alice");
    assert_eq!(r.password, "hunter2");
    assert_eq!(r.depth.as_deref(), Some("0"));
    assert_eq!(r.content_type.as_deref(), Some("application/xml; charset=utf-8"));
    assert_eq!(r.body.as_deref(), Some(PROPFIND_BODY));
}

#[test]
fn put_request_shape() {
    let mut n = reminder("team sync");
    n.id = "abc123".into();
    let (r, uid) = put_request(&cfg(), &n);
    assert_eq!(uid, "abc123@breadpad");
    assert_eq!(r.method, "PUT");
    assert_eq!(r.url, "https://cloud.example.com/cal/abc123@breadpad.ics");
    assert_eq!(r.depth, None);
    assert_eq!(r.content_type.as_deref(), Some("text/calendar; charset=utf-8"));
    assert!(r.body.unwrap().contains("SUMMARY:team sync"));
}

#[test]
fn delete_request_shape() {
    let r = delete_request(&cfg(), "x@breadpad");
    assert_eq!(r.method, "DELETE");
    assert_eq!(r.url, "https://cloud.example.com/cal/x@breadpad.ics");
    assert!(r.body.is_none() && r.content_type.is_none() && r.depth.is_none());
}

#[test]
fn report_request_shape() {
    let r = report_request(&cfg());
    assert_eq!(r.method, "REPORT");
    assert_eq!(r.depth.as_deref(), Some("1"));
    assert_eq!(r.body.as_deref(), Some(REPORT_BODY));
    assert!(REPORT_BODY.contains("<c:comp-filter name=\"VEVENT\"/>"));
}

#[test]
fn escape_is_per_character() {
    assert_eq!(escape_ical("a\\b;c,d\ne"), "a\\\\b\\;c\\,d\\ne");
    assert_eq!(escape_ical("plain text"), "plain text");
    let (a, b) = ("x;y", ",z\\");
    assert_eq!(escape_ical(&format!("{}{}", a, b)), format!("{}{}", escape_ical(a), escape_ical(b)));
}

#[test]
fn folded_pieces_fill_the_width() {
    let line = "é".repeat(80);
    let folded = breadpad::calendar::fold_line(&line);
    let pieces: Vec<&str> = folded.split("\r\n ").collect();
    assert_eq!(pieces.iter().map(|p| p.len()).collect::<Vec<_>>(), vec![74, 74, 12]);
}
