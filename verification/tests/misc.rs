use breadpad::ai::{extract_json_span, merge_reply, prompt, LlmReply, OllamaClient};
use breadpad::config::OllamaConfig;
use breadpad::listen::{capture_reply, command_action, command_verb, CommandAction};
use breadpad::theme::{build_css, COMPONENT_CSS};
use breadpad::types::{ClassificationResult, NoteType};

#[test]
fn command_verb_strips_pad_prefix() {
    assert_eq!(command_verb("bread.command.pad.capture"), Some("capture".to_string()));
    assert_eq!(command_verb("bread.command.pad.snooze"), Some("snooze".to_string()));
    assert_eq!(command_verb("bread.command.box.open"), None);
    assert_eq!(command_verb("bread.pad.captured"), None);
}

#[test]
fn only_capture_is_honoured() {
    assert_eq!(command_action("bread.command.pad.capture"), CommandAction::Capture);
    assert_eq!(command_action("bread.command.pad.snooze"), CommandAction::Ignore);
    assert_eq!(command_action("bread.pad.capture"), CommandAction::Ignore);
    assert_eq!(capture_reply(true), "bread.pad.capture.done");
    assert_eq!(capture_reply(false), "bread.pad.capture.failed");
}

#[test]
fn css_contains_window_rule() {
    let css = build_css("", None);
    assert!(css.contains("window {"));
}

#[test]
fn css_contains_popup_entry_class() {
    let css = build_css("", None);
    assert!(css.contains(".popup-entry {"), "css: {}", &css[..200]);
}

#[test]
fn css_contains_note_card_class() {
    let css = build_css("", None);
    assert!(css.contains(".note-card {"));
}

#[test]
fn css_appends_user_css() {
    let user = ".my-override { color: hotpink; }";
    let css = build_css("", Some(user));
    assert!(css.contains(".my-override { color: hotpink; }"));
    assert!(css.ends_with(&format!("\n{}", user)));
}

#[test]
fn css_without_user_css_omits_user_rules() {
    let css = build_css("", None);
    assert!(!css.contains(".my-override"));
}

#[test]
fn css_starts_with_base_sheet() {
    let css = build_css("@define-color bg #deadbe;\n", None);
    assert!(css.starts_with("@define-color bg #deadbe;\n"));
    assert_eq!(css.len(), "@define-color bg #deadbe;\n".len() + COMPONENT_CSS.len());
}

#[test]
fn ollama_client_drops_trailing_slash() {
    let cfg = OllamaConfig {
        endpoint: "http://localhost:11434//".into(),
        model: "m".into(),
        confidence_threshold: 60,
        enabled: true,
    };
    let c = OllamaClient::new(&cfg);
    assert_eq!(c.generate_url(), "http://localhost:11434/api/generate");
    assert_eq!(c.model(), "m");
}

#[test]
fn prompt_quotes_the_note() {
    let p = prompt("buy milk");
    assert!(p.contains("Note: \"buy milk\"\n"));
    assert!(p.starts_with("Classify the following note into exactly one type.\n"));
}

#[test]
fn json_span_is_first_brace_to_last() {
    assert_eq!(extract_json_span("Sure! {\"type\": \"todo\"} done").as_deref(), Some("{\"type\": \"todo\"}"));
    assert_eq!(extract_json_span("no json"), None);
    assert_eq!(extract_json_span("} then {"), None);
}

#[test]
fn reply_body_used_only_when_uncleaned() {
    let fallback = ClassificationResult {
        note_type: NoteType::Note,
        time: None,
        rrule: None,
        body: "buy milk".into(),
        confidence: 45,
    };
    let reply = LlmReply { note_type: None, body: Some("Buy milk".into()), confidence: None };
    let r = merge_reply(&fallback, "buy milk", reply);
    assert_eq!(r.body, "Buy milk");
    assert_eq!(r.note_type, NoteType::Note);
    assert_eq!(r.confidence, 75);
    let reply2 = LlmReply { note_type: Some("todo".into()), body: Some("   ".into()), confidence: Some(30) };
    let r2 = merge_reply(&fallback, "buy milk", reply2);
    assert_eq!(r2.body, "buy milk");
    assert_eq!(r2.note_type, NoteType::Todo);
    assert_eq!(r2.confidence, 30);
}
