//! Decisions of the command listener: which bus events are pad commands,
//! which of them it honours, and what it announces afterwards.

use crate::text::{chars_of, slice_vec, starts_with, starts_with_exec, string_from, string_of};
use crate::types::{opt_view, vec_eq_str};
use vstd::prelude::*;

verus! {

/// The verb of a pad command event: the name after `bread.command.pad.`,
/// for events under that prefix.
pub open spec fn verb_spec(event_name: Seq<char>) -> Option<Seq<char>> {
    if starts_with(event_name, "bread.command.pad."@) {
        Some(event_name.skip("bread.command.pad."@.len() as int))
    } else {
        None
    }
}

pub fn command_verb(event_name: &str) -> (r: Option<String>)
    ensures
        opt_view(r) == verb_spec(event_name@),
{
    let v = chars_of(event_name);
    let p = chars_of("bread.command.pad.");
    if starts_with_exec(&v, "bread.command.pad.") {
        let rest = slice_vec(&v, p.len(), v.len());
        proof {
            assert(rest@ =~= event_name@.skip("bread.command.pad."@.len() as int));
        }
        Some(string_of(&rest))
    } else {
        None
    }
}

/// What the listener does with a bus event.
#[derive(Debug, Clone, Copy, PartialEq, Eq, Structural)]
pub enum CommandAction {
    /// Open the capture popup.
    Capture,
    /// Leave the event alone: not a pad command, or a verb not honoured.
    Ignore,
}

/// Only the `capture` verb is honoured; every other event is ignored.
pub fn command_action(event_name: &str) -> (r: CommandAction)
    ensures
        (r == CommandAction::Capture) <==> verb_spec(event_name@) == Some("capture"@),
{
    match command_verb(event_name) {
        Some(verb) => if vec_eq_str(&chars_of(verb.as_str()), "capture") {
            CommandAction::Capture
        } else {
            CommandAction::Ignore
        },
        None => CommandAction::Ignore,
    }
}

/// The event announced after a capture request: done when the popup could
/// be started, failed otherwise.
pub fn capture_reply(started: bool) -> (r: String)
    ensures
        started ==> r@ == "bread.pad.capture.done"@,
        !started ==> r@ == "bread.pad.capture.failed"@,
{
    if started {
        string_from("bread.pad.capture.done")
    } else {
        string_from("bread.pad.capture.failed")
    }
}

} // verus!
