//! The three-tier classification pipeline's decisions. Tier 1 is the
//! rule-based parser; Tier 2 (a local ONNX model) and Tier 3 (a local
//! LLM) are run by the caller, and their results are combined here.

use crate::ai::{merge_reply, merge_spec, LlmReply};
use crate::config::OllamaConfig;
use crate::types::{ClassificationResult, NoteType};
use vstd::prelude::*;

verus! {

/// Where the Tier 2 model runs.
#[derive(Debug, Clone, Copy, PartialEq, Eq, Structural)]
pub enum ExecutionProvider {
    Gpu,
    Cpu,
}

impl ExecutionProvider {
    /// The provider's display name.
    pub fn as_str(&self) -> (r: &'static str)
        ensures
            r@ == (match self {
                ExecutionProvider::Gpu => "ROCm (iGPU)"@,
                ExecutionProvider::Cpu => "CPU"@,
            }),
    {
        match self {
            ExecutionProvider::Gpu => "ROCm (iGPU)",
            ExecutionProvider::Cpu => "CPU",
        }
    }
}

/// Minimum Tier 1 confidence (in hundredths) that skips Tiers 2 and 3.
pub const TIER1_SKIP_THRESHOLD: u32 = 82;

/// Tier 1 settles the classification when it is confident enough.
pub fn tier1_decides(r: &ClassificationResult) -> (b: bool)
    ensures
        b == (r.confidence >= TIER1_SKIP_THRESHOLD),
{
    r.confidence >= TIER1_SKIP_THRESHOLD
}

/// Tier 2 decides the type only: its type and confidence, with Tier 1's
/// time, recurrence rule and cleaned body.
pub fn merge_tier2(tier1: &ClassificationResult, note_type: NoteType, confidence: u32) -> (r:
    ClassificationResult)
    ensures
        r.note_type == note_type,
        r.confidence == confidence,
        r.time == tier1.time,
        r.rrule == tier1.rrule,
        r.body == tier1.body,
{
    ClassificationResult {
        note_type,
        time: tier1.time,
        rrule: match &tier1.rrule {
            Some(r) => Some(r.copy()),
            None => None,
        },
        body: tier1.body.clone(),
        confidence,
    }
}

/// The Tier 3 settings in force: the configuration when it is enabled.
pub fn ollama_tier(cfg: OllamaConfig) -> (r: Option<OllamaConfig>)
    ensures
        cfg.enabled ==> r == Some(cfg),
        !cfg.enabled ==> r is None,
{
    if cfg.enabled {
        Some(cfg)
    } else {
        None
    }
}

/// Tier 3 runs when it is in force and Tier 2's confidence is below its
/// threshold (both in hundredths).
pub fn tier3_wanted(ollama: &Option<OllamaConfig>, tier2_confidence: u32) -> (b: bool)
    ensures
        b == (ollama matches Some(cfg) && tier2_confidence < cfg.confidence_threshold),
{
    match ollama {
        Some(cfg) => tier2_confidence < cfg.confidence_threshold,
        None => false,
    }
}

/// The NLI hypotheses the Tier 2 model scores, with the type each stands
/// for, in scoring order.
pub fn hypotheses() -> (r: Vec<(&'static str, &'static str)>)
    ensures
        r@.len() == 5,
        r@[0].1@ == "todo"@,
        r@[1].1@ == "reminder"@,
        r@[2].1@ == "idea"@,
        r@[3].1@ == "note"@,
        r@[4].1@ == "question"@,
{
    let mut r: Vec<(&'static str, &'static str)> = Vec::new();
    r.push(("This note is a task or action item to complete.", "todo"));
    r.push(("This note is a reminder with a specific time or deadline.", "reminder"));
    r.push(("This note is an idea, suggestion, or creative thought.", "idea"));
    r.push(("This note is a general observation or piece of information.", "note"));
    r.push(("This note is a question that needs an answer.", "question"));
    r
}

/// The next step of the classification pipeline.
#[derive(Debug)]
pub enum ClassifyStep {
    /// The classification is settled.
    Finish(ClassificationResult),
    /// Run the Tier 2 model on the text; the Tier 1 result is carried along.
    RunTier2(ClassificationResult),
    /// Ask Tier 3 with these settings; the result so far is the fallback.
    RunTier3(ClassificationResult, OllamaConfig),
}

/// The Tier 2 result: the model's type and confidence over Tier 1's other
/// fields, or Tier 1 itself when the model gave nothing.
pub open spec fn tier2_spec(tier1: ClassificationResult, out: Option<(NoteType, u32)>) -> ClassificationResult {
    match out {
        Some((k, c)) => ClassificationResult { note_type: k, confidence: c, ..tier1 },
        None => tier1,
    }
}

/// After Tier 2: ask Tier 3 when it is in force and the confidence is
/// below its threshold, else finish.
pub open spec fn tier3_or_finish(t2: ClassificationResult, ollama: Option<OllamaConfig>) -> ClassifyStep {
    match ollama {
        Some(cfg) => if t2.confidence < cfg.confidence_threshold {
            ClassifyStep::RunTier3(t2, cfg)
        } else {
            ClassifyStep::Finish(t2)
        },
        None => ClassifyStep::Finish(t2),
    }
}

/// The step after Tier 2, given what the model produced (`None` when no
/// model is loaded or inference failed).
pub fn after_tier2(
    tier1: ClassificationResult,
    out: Option<(NoteType, u32)>,
    ollama: Option<OllamaConfig>,
) -> (r: ClassifyStep)
    ensures
        r == tier3_or_finish(tier2_spec(tier1, out), ollama),
{
    let t2 = match out {
        Some((k, c)) => merge_tier2(&tier1, k, c),
        None => tier1,
    };
    match ollama {
        Some(cfg) => if tier3_wanted(&Some(cfg.copy()), t2.confidence) {
            ClassifyStep::RunTier3(t2, cfg)
        } else {
            ClassifyStep::Finish(t2)
        },
        None => ClassifyStep::Finish(t2),
    }
}

/// The step after Tier 1: a confident reading is final; otherwise the
/// model runs when loaded, and without one the pipeline goes on as if the
/// model had given nothing.
pub fn after_tier1(tier1: ClassificationResult, model_loaded: bool, ollama: Option<OllamaConfig>) -> (r:
    ClassifyStep)
    ensures
        tier1.confidence >= TIER1_SKIP_THRESHOLD ==> r == ClassifyStep::Finish(tier1),
        tier1.confidence < TIER1_SKIP_THRESHOLD && model_loaded ==> r == ClassifyStep::RunTier2(
            tier1,
        ),
        tier1.confidence < TIER1_SKIP_THRESHOLD && !model_loaded ==> r == tier3_or_finish(
            tier1,
            ollama,
        ),
{
    if tier1_decides(&tier1) {
        ClassifyStep::Finish(tier1)
    } else if model_loaded {
        ClassifyStep::RunTier2(tier1)
    } else {
        after_tier2(tier1, None, ollama)
    }
}

/// The result after Tier 3: the reply merged into the fallback, or the
/// fallback itself when Tier 3 gave no usable reply.
pub fn after_tier3(fallback: ClassificationResult, text: &str, reply: Option<LlmReply>) -> (r:
    ClassificationResult)
    ensures
        reply is None ==> r == fallback,
        reply matches Some(rep) ==> (r.note_type@, r.body@, r.confidence) == merge_spec(
            fallback.note_type@,
            fallback.body@,
            text@,
            crate::types::opt_view(rep.note_type),
            crate::types::opt_view(rep.body),
            rep.confidence,
        ) && r.time == fallback.time && r.rrule == fallback.rrule,
{
    match reply {
        Some(rep) => merge_reply(&fallback, text, rep),
        None => fallback,
    }
}

/// Tier 2 decides the type only: whatever the model gave, the Tier 1
/// time, recurrence rule and cleaned body are kept.
pub proof fn law_tier2_keeps_tier1_fields(tier1: ClassificationResult, out: Option<(NoteType, u32)>)
    ensures
        tier2_spec(tier1, out).time == tier1.time,
        tier2_spec(tier1, out).rrule == tier1.rrule,
        tier2_spec(tier1, out).body == tier1.body,
{
}

} // verus!
