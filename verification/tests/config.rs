use breadpad::config::{
    config_path, expand_path, expand_path_with, path_join_exec, style_css_path, CalendarConfig,
    Config, ModelConfig, RemindersConfig, Settings,
};

// ---- Default values ----

#[test]
fn default_settings() {
    let s = Settings::default();
    assert_eq!(s.default_type, "note");
    assert!(s.workspace_tag);
    assert_eq!(s.archive_after_days, 30);
}

#[test]
fn default_snooze_options_contains_all_three() {
    let s = Settings::default();
    assert!(s.snooze_options.iter().any(|x| x == "15m"));
    assert!(s.snooze_options.iter().any(|x| x == "1h"));
    assert!(s.snooze_options.iter().any(|x| x == "tomorrow_morning"));
}

#[test]
fn default_model_config() {
    let m = ModelConfig::default();
    assert!(m.path.contains("classifier.onnx"));
    assert!(m.tokenizer.contains("tokenizer.json"));
    assert_eq!(m.ort_dylib_path, "");
}

#[test]
fn default_reminders_config() {
    let r = RemindersConfig::default();
    assert_eq!(r.default_morning, "08:00");
    assert_eq!(r.missed_grace_minutes, 60);
}

#[test]
fn default_config_composes_defaults() {
    let cfg = Config::default();
    assert_eq!(cfg.settings.default_type, "note");
    assert_eq!(cfg.reminders.default_morning, "08:00");
}

#[test]
fn default_calendar_config_is_disabled() {
    let c = CalendarConfig::default();
    assert!(!c.enabled);
    assert!(c.url.is_empty());
    assert!(c.username.is_empty());
    assert!(c.password.is_empty());
}

#[test]
fn default_config_calendar_disabled() {
    let cfg = Config::default();
    assert!(!cfg.calendar.enabled);
}

#[test]
fn default_ollama_config_enabled() {
    let m = ModelConfig::default();
    assert!(m.ollama.enabled);
    assert_eq!(m.ollama.endpoint, "http://localhost:11434");
    assert!(!m.ollama.model.is_empty());
    assert!(m.ollama.confidence_threshold > 0 && m.ollama.confidence_threshold <= 100);
    assert_eq!(m.ollama.confidence_threshold, 60);
}

// ---- expand_path ----

#[test]
fn expand_path_tilde_prefix_replaced_with_home() {
    let home = dirs::home_dir().unwrap();
    let expanded = expand_path("~/some/path");
    assert!(std::path::Path::new(&expanded).starts_with(&home));
    assert!(expanded.ends_with("some/path"));
}

#[test]
fn expand_path_bare_tilde_is_home() {
    let home = dirs::home_dir().unwrap();
    assert_eq!(std::path::PathBuf::from(expand_path("~")), home);
}

#[test]
fn expand_path_absolute_path_unchanged() {
    let p = expand_path("/usr/local/bin/breadpad");
    assert_eq!(p.as_str(), "/usr/local/bin/breadpad");
}

#[test]
fn expand_path_relative_path_unchanged() {
    let p = expand_path("relative/path");
    assert_eq!(p.as_str(), "relative/path");
}

#[test]
fn expand_path_with_given_home() {
    assert_eq!(expand_path_with("~/a/b", Some("/home/me".into())), "/home/me/a/b");
    assert_eq!(expand_path_with("~", Some("/home/me".into())), "/home/me");
    assert_eq!(expand_path_with("~x", Some("/home/me".into())), "~x");
    assert_eq!(expand_path_with("~/a", None), "~/a");
}

#[test]
fn path_join_follows_path_rules() {
    assert_eq!(path_join_exec("/a", "b"), "/a/b");
    assert_eq!(path_join_exec("/a/", "b"), "/a/b");
    assert_eq!(path_join_exec("/a", "/b"), "/b");
    assert_eq!(path_join_exec("", "b"), "b");
}

// ---- ModelConfig ----

#[test]
fn resolved_ort_dylib_empty_returns_none() {
    let m = ModelConfig::default();
    assert!(m.resolved_ort_dylib_path().is_none());
}

#[test]
fn resolved_ort_dylib_whitespace_only_returns_none() {
    let mut m = ModelConfig::default();
    m.ort_dylib_path = "   ".into();
    assert!(m.resolved_ort_dylib_path().is_none());
}

#[test]
fn resolved_ort_dylib_set_returns_some() {
    let mut m = ModelConfig::default();
    m.ort_dylib_path = "/usr/lib/libonnxruntime.so".into();
    assert_eq!(m.resolved_ort_dylib_path().unwrap().as_str(), "/usr/lib/libonnxruntime.so");
}

#[test]
fn resolved_paths_expands_tildes() {
    let m = ModelConfig::default();
    let (model, tokenizer) = m.resolved_paths();
    let home = dirs::home_dir().unwrap();
    assert!(std::path::Path::new(&model).starts_with(&home), "model: {:?}", model);
    assert!(std::path::Path::new(&tokenizer).starts_with(&home), "tokenizer: {:?}", tokenizer);
}

#[test]
fn config_paths_end_in_breadpad_folder() {
    assert!(config_path().ends_with("breadpad/breadpad.toml"));
    assert!(style_css_path().ends_with("breadpad/style.css"));
}

#[test]
fn model_path_points_to_expected_location() {
    let path = path_join_exec(&breadpad::config::model_dir(), "classifier.onnx");
    assert!(path.contains("breadpad"), "model path: {:?}", path);
    assert!(path.ends_with("classifier.onnx"));
    assert!(path.ends_with("breadpad/model/classifier.onnx"));
}
