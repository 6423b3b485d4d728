//! Configuration values, their defaults, and the paths they resolve to.

use crate::text::{chars_of, push_all, push_str, starts_with, string_from, string_of, trim, trim_vec};
use vstd::prelude::*;

verus! {

pub fn default_type_str() -> (r: String)
    ensures
        r@ == "note"@,
{
    string_from("note")
}

pub fn default_workspace_tag() -> (r: bool)
    ensures
        r,
{
    true
}

pub open spec fn default_snooze_spec() -> Seq<Seq<char>> {
    seq!["15m"@, "1h"@, "tomorrow_morning"@]
}

pub fn default_snooze_options() -> (r: Vec<String>)
    ensures
        r@.map_values(|s: String| s@) == default_snooze_spec(),
{
    let mut r: Vec<String> = Vec::new();
    r.push(string_from("15m"));
    r.push(string_from("1h"));
    r.push(string_from("tomorrow_morning"));
    proof { assert(r@.map_values(|s: String| s@) =~= default_snooze_spec()); }
    r
}

pub fn default_archive_after_days() -> (r: i64)
    ensures
        r == 30,
{
    30
}

pub fn default_model_path() -> (r: String)
    ensures
        r@ == "~/.local/share/breadpad/model/classifier.onnx"@,
{
    string_from("~/.local/share/breadpad/model/classifier.onnx")
}

pub fn default_tokenizer_path() -> (r: String)
    ensures
        r@ == "~/.local/share/breadpad/model/tokenizer.json"@,
{
    string_from("~/.local/share/breadpad/model/tokenizer.json")
}

pub fn default_execution_provider() -> (r: String)
    ensures
        r@ == "auto"@,
{
    string_from("auto")
}

pub fn default_morning_time() -> (r: String)
    ensures
        r@ == "08:00"@,
{
    string_from("08:00")
}

pub fn default_missed_grace_minutes() -> (r: i64)
    ensures
        r == 60,
{
    60
}

pub fn default_ollama_endpoint() -> (r: String)
    ensures
        r@ == "http://localhost:11434"@,
{
    string_from("http://localhost:11434")
}

pub fn default_ollama_model() -> (r: String)
    ensures
        r@ == "llama3.2:3b"@,
{
    string_from("llama3.2:3b")
}

/// Default Tier 3 confidence threshold, in hundredths.
pub fn default_ollama_confidence_threshold() -> (r: u32)
    ensures
        r == 60,
{
    60
}

pub fn default_ollama_enabled() -> (r: bool)
    ensures
        r,
{
    true
}

pub fn default_calendar_enabled() -> (r: bool)
    ensures
        !r,
{
    false
}

/// General behaviour settings.
#[derive(Debug)]
pub struct Settings {
    pub default_type: String,
    pub workspace_tag: bool,
    pub snooze_options: Vec<String>,
    pub archive_after_days: i64,
}

impl Default for Settings {
    fn default() -> (r: Self)
        ensures
            r.default_type@ == "note"@,
            r.workspace_tag,
            r.snooze_options@.map_values(|s: String| s@) == default_snooze_spec(),
            r.archive_after_days == 30,
    {
        Settings {
            default_type: default_type_str(),
            workspace_tag: default_workspace_tag(),
            snooze_options: default_snooze_options(),
            archive_after_days: default_archive_after_days(),
        }
    }
}

/// Tier 3 (local LLM) settings. The confidence threshold is in
/// hundredths.
#[derive(Debug)]
pub struct OllamaConfig {
    pub endpoint: String,
    pub model: String,
    pub confidence_threshold: u32,
    pub enabled: bool,
}

impl Default for OllamaConfig {
    fn default() -> (r: Self)
        ensures
            r.endpoint@ == "http://localhost:11434"@,
            r.model@ == "llama3.2:3b"@,
            r.confidence_threshold == 60,
            r.enabled,
    {
        OllamaConfig {
            endpoint: default_ollama_endpoint(),
            model: default_ollama_model(),
            confidence_threshold: default_ollama_confidence_threshold(),
            enabled: default_ollama_enabled(),
        }
    }
}

impl OllamaConfig {
    /// An equal copy.
    pub fn copy(&self) -> (r: OllamaConfig)
        ensures
            r == *self,
    {
        OllamaConfig {
            endpoint: self.endpoint.clone(),
            model: self.model.clone(),
            confidence_threshold: self.confidence_threshold,
            enabled: self.enabled,
        }
    }
}

/// Tier 2 (local model) settings.
#[derive(Debug)]
pub struct ModelConfig {
    pub path: String,
    pub tokenizer: String,
    pub execution_provider: String,
    pub ort_dylib_path: String,
    pub ollama: OllamaConfig,
}

impl Default for ModelConfig {
    fn default() -> (r: Self)
        ensures
            r.path@ == "~/.local/share/breadpad/model/classifier.onnx"@,
            r.tokenizer@ == "~/.local/share/breadpad/model/tokenizer.json"@,
            r.execution_provider@ == "auto"@,
            r.ort_dylib_path@ == Seq::<char>::empty(),
            r.ollama.endpoint@ == "http://localhost:11434"@,
            r.ollama.model@ == "llama3.2:3b"@,
            r.ollama.confidence_threshold == 60,
            r.ollama.enabled,
    {
        ModelConfig {
            path: default_model_path(),
            tokenizer: default_tokenizer_path(),
            execution_provider: default_execution_provider(),
            ort_dylib_path: String::new(),
            ollama: OllamaConfig::default(),
        }
    }
}

/// Reminder settings.
#[derive(Debug)]
pub struct RemindersConfig {
    pub default_morning: String,
    pub missed_grace_minutes: i64,
}

impl Default for RemindersConfig {
    fn default() -> (r: Self)
        ensures
            r.default_morning@ == "08:00"@,
            r.missed_grace_minutes == 60,
    {
        RemindersConfig {
            default_morning: default_morning_time(),
            missed_grace_minutes: default_missed_grace_minutes(),
        }
    }
}

/// CalDAV calendar sync settings.
#[derive(Debug)]
pub struct CalendarConfig {
    pub enabled: bool,
    pub url: String,
    pub username: String,
    pub password: String,
}

impl Default for CalendarConfig {
    fn default() -> (r: Self)
        ensures
            !r.enabled,
            r.url@ == Seq::<char>::empty(),
            r.username@ == Seq::<char>::empty(),
            r.password@ == Seq::<char>::empty(),
    {
        CalendarConfig {
            enabled: false,
            url: String::new(),
            username: String::new(),
            password: String::new(),
        }
    }
}

impl CalendarConfig {
    /// An equal copy.
    pub fn copy(&self) -> (r: CalendarConfig)
        ensures
            r == *self,
    {
        CalendarConfig {
            enabled: self.enabled,
            url: self.url.clone(),
            username: self.username.clone(),
            password: self.password.clone(),
        }
    }
}

/// The whole configuration file.
#[derive(Debug)]
pub struct Config {
    pub settings: Settings,
    pub model: ModelConfig,
    pub reminders: RemindersConfig,
    pub calendar: CalendarConfig,
}

impl Default for Config {
    fn default() -> (r: Self)
        ensures
            r.settings.default_type@ == "note"@,
            r.settings.workspace_tag,
            r.settings.snooze_options@.map_values(|s: String| s@) == default_snooze_spec(),
            r.settings.archive_after_days == 30,
            r.model.path@ == "~/.local/share/breadpad/model/classifier.onnx"@,
            r.model.tokenizer@ == "~/.local/share/breadpad/model/tokenizer.json"@,
            r.model.ort_dylib_path@ == Seq::<char>::empty(),
            r.model.ollama.enabled,
            r.model.ollama.confidence_threshold == 60,
            r.reminders.default_morning@ == "08:00"@,
            r.reminders.missed_grace_minutes == 60,
            !r.calendar.enabled,
    {
        Config {
            settings: Settings::default(),
            model: ModelConfig::default(),
            reminders: RemindersConfig::default(),
            calendar: CalendarConfig::default(),
        }
    }
}

// ---------------------------------------------------------------------------
// Paths

/// `Path::join`: an absolute component replaces the base; otherwise the
/// component is appended after a `/` (none is added after an empty base or
/// one that already ends with `/`).
pub open spec fn path_join(base: Seq<char>, comp: Seq<char>) -> Seq<char> {
    if starts_with(comp, "/"@) {
        comp
    } else if base.len() == 0 || base.last() == '/' {
        base + comp
    } else {
        base + "/"@ + comp
    }
}

pub fn path_join_exec(base: &str, comp: &str) -> (r: String)
    ensures
        r@ == path_join(base@, comp@),
{
    let cv = chars_of(comp);
    if crate::text::starts_with_exec(&cv, "/") {
        return string_of(&cv);
    }
    let mut bv = chars_of(base);
    if bv.len() == 0 || bv[bv.len() - 1] == '/' {
        push_all(&mut bv, &cv);
    } else {
        push_str(&mut bv, "/");
        push_all(&mut bv, &cv);
    }
    string_of(&bv)
}

/// The user's home directory (`dirs::home_dir`), when known and valid
/// UTF-8. It comes from the environment and is not stated here.
#[verifier::external_body]
pub(crate) fn home_dir() -> (r: Option<String>) {
    dirs::home_dir().and_then(|p| p.to_str().map(|s| s.to_string()))
}

/// The user's configuration directory (`dirs::config_dir`), when known
/// and valid UTF-8. It comes from the environment and is not stated here.
#[verifier::external_body]
pub(crate) fn config_dir() -> (r: Option<String>) {
    dirs::config_dir().and_then(|p| p.to_str().map(|s| s.to_string()))
}

/// The user's local data directory (`dirs::data_local_dir`), when known
/// and valid UTF-8. It comes from the environment and is not stated here.
#[verifier::external_body]
pub(crate) fn data_local_dir() -> (r: Option<String>) {
    dirs::data_local_dir().and_then(|p| p.to_str().map(|s| s.to_string()))
}

/// `~` expansion with home directory `home`: `~` alone is the home
/// directory, `~/rest` is `rest` under it; anything else (or any path when
/// the home directory is unknown) is kept.
pub open spec fn expand_spec(s: Seq<char>, home: Option<Seq<char>>) -> Seq<char> {
    match home {
        Some(h) => if s == "~"@ {
            h
        } else if starts_with(s, "~/"@) {
            path_join(h, s.subrange(2, s.len() as int))
        } else {
            s
        },
        None => s,
    }
}

pub fn expand_path_with(s: &str, home: Option<String>) -> (r: String)
    ensures
        r@ == expand_spec(s@, crate::types::opt_view(home)),
{
    match home {
        Some(h) => {
            let v = chars_of(s);
            proof { reveal_strlit("~/"); }
            if crate::types::vec_eq_str(&v, "~") {
                h
            } else if crate::text::starts_with_exec(&v, "~/") {
                let rest = crate::text::slice_vec(&v, 2, v.len());
                path_join_exec(h.as_str(), string_of(&rest).as_str())
            } else {
                string_of(&v)
            }
        },
        None => string_from(s),
    }
}

/// Expands a leading `~` to the user's home directory.
pub fn expand_path(s: &str) -> (r: String)
    ensures
        exists|h: Option<Seq<char>>| r@ == expand_spec(s@, h),
        !starts_with(s@, "~"@) ==> r@ == s@,
{
    let home = home_dir();
    let r = expand_path_with(s, home);
    proof {
        reveal_strlit("~");
        reveal_strlit("~/");
        if s@ == "~"@ {
            assert(s@.subrange(0, 1) =~= "~"@);
        }
        if starts_with(s@, "~/"@) {
            assert(s@[0] == s@.subrange(0, 2)[0]);
            assert(s@.subrange(0, 1) =~= "~"@);
        }
    }
    r
}

impl ModelConfig {
    /// The model and tokenizer paths with `~` expanded.
    pub fn resolved_paths(&self) -> (r: (String, String))
        ensures
            exists|h: Option<Seq<char>>| r.0@ == expand_spec(self.path@, h) && r.1@ == expand_spec(
                self.tokenizer@,
                h,
            ),
    {
        let home = home_dir();
        let h2 = match &home {
            Some(h) => Some(h.clone()),
            None => None,
        };
        (expand_path_with(self.path.as_str(), home), expand_path_with(self.tokenizer.as_str(), h2))
    }

    /// The configured ONNX Runtime library path with `~` expanded; `None`
    /// when the setting is blank.
    pub fn resolved_ort_dylib_path(&self) -> (r: Option<String>)
        ensures
            trim(self.ort_dylib_path@).len() == 0 <==> r is None,
            r matches Some(p) ==> exists|h: Option<Seq<char>>| p@ == expand_spec(
                trim(self.ort_dylib_path@),
                h,
            ),
    {
        let v = chars_of(self.ort_dylib_path.as_str());
        let t = trim_vec(&v);
        if t.len() == 0 {
            None
        } else {
            let ts = string_of(&t);
            let home = home_dir();
            Some(expand_path_with(ts.as_str(), home))
        }
    }
}

/// The configuration file path under a configuration directory (or
/// `~/.config` when there is none): `<dir>/breadpad/breadpad.toml`.
pub open spec fn config_path_spec(dir: Option<Seq<char>>) -> Seq<char> {
    let base = match dir {
        Some(d) => d,
        None => "~/.config"@,
    };
    path_join(path_join(base, "breadpad"@), "breadpad.toml"@)
}

/// The user stylesheet path: `<dir>/breadpad/style.css`.
pub open spec fn style_css_path_spec(dir: Option<Seq<char>>) -> Seq<char> {
    let base = match dir {
        Some(d) => d,
        None => "~/.config"@,
    };
    path_join(path_join(base, "breadpad"@), "style.css"@)
}

pub fn config_path() -> (r: String)
    ensures
        exists|d: Option<Seq<char>>| r@ == config_path_spec(d),
{
    let d = config_dir();
    let ghost dv = crate::types::opt_view(d);
    let base = match d {
        Some(x) => x,
        None => string_from("~/.config"),
    };
    let a = path_join_exec(base.as_str(), "breadpad");
    let r = path_join_exec(a.as_str(), "breadpad.toml");
    proof { assert(r@ == config_path_spec(dv)); }
    r
}

pub fn style_css_path() -> (r: String)
    ensures
        exists|d: Option<Seq<char>>| r@ == style_css_path_spec(d),
{
    let d = config_dir();
    let ghost dv = crate::types::opt_view(d);
    let base = match d {
        Some(x) => x,
        None => string_from("~/.config"),
    };
    let a = path_join_exec(base.as_str(), "breadpad");
    let r = path_join_exec(a.as_str(), "style.css");
    proof { assert(r@ == style_css_path_spec(dv)); }
    r
}

/// Where the Tier 2 model files live under a data directory (or
/// `~/.local/share` when there is none): `<dir>/breadpad/model`.
pub open spec fn model_dir_spec(dir: Option<Seq<char>>) -> Seq<char> {
    let base = match dir {
        Some(d) => d,
        None => "~/.local/share"@,
    };
    path_join(path_join(base, "breadpad"@), "model"@)
}

pub fn model_dir() -> (r: String)
    ensures
        exists|d: Option<Seq<char>>| r@ == model_dir_spec(d),
{
    let d = data_local_dir();
    let ghost dv = crate::types::opt_view(d);
    let base = match d {
        Some(x) => x,
        None => string_from("~/.local/share"),
    };
    let a = path_join_exec(base.as_str(), "breadpad");
    let r = path_join_exec(a.as_str(), "model");
    proof { assert(r@ == model_dir_spec(dv)); }
    r
}

} // verus!
