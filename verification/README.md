# breadpad

Quick-capture notes for a Wayland desktop: a capture popup that classifies
what you type (todo, reminder, idea, note, question), reminders run by
systemd user timers, recurrence rules, snoozing, a note manager, and an
optional CalDAV calendar sync.

The decisions are a library verified with Verus; the programs around it do
the input and output.

## Layout

- `src/` — the verified library.
  - `parser.rs` — the rule-based reader: times ("at 7pm", "in 30 minutes",
    "tomorrow morning", "next friday"), recurrences ("every weekday
    morning") as `RRULE` text, body cleaning, type inference, confidence.
  - `clock.rs` — wall-clock readings and day arithmetic; the local zone and
    date formatting are chrono's, behind stated wrappers.
  - `scheduler.rs` — when a reminder fires, its timer and the systemd
    arguments, reading `RRULE` text back into the next occurrence.
  - `store.rs` — what saving, updating, deleting and archiving do to the
    list of notes, and the JSONL framing of the note files.
  - `calendar.rs` — iCalendar text (escaping, line folding), CalDAV
    requests and answers, reading events from a calendar report.
  - `classifier.rs`, `ai.rs` — the three-tier classification pipeline and
    the local-LLM prompt and reply handling.
  - `types.rs`, `config.rs` — notes, note types, recurrence rules, settings.
  - `pad_cli.rs`, `man_cli.rs`, `views.rs`, `harness.rs`, `listen.rs`,
    `theme.rs` — the decisions of the capture program, the manager, their
    windows, the classification test harness and the command listener.
  - `text.rs`, `order.rs` — text and ordering helpers with their proofs.
- `tests/` — tests of the library.
- `app/` — the programs: files, HTTP, systemd, the ONNX model and the GTK
  windows. The binary acts as `breadpad`, `breadman` or `breadpad-test`
  according to the name it is run under.

Instants are whole seconds since the Unix epoch; confidences and the Tier 3
threshold are whole hundredths.
