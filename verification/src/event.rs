//! Pattern events and evaluation results exchanged with the pattern engine.
use vstd::prelude::*;

verus! {

#[verifier::external_type_specification]
#[verifier::external_body]
pub struct ExJsonValue(serde_json::Value);

/// Copies an event's parameters. `serde_json::Value::clone` is the derived
/// deep copy, so the copy is the same JSON value as the original.
#[verifier::external_body]
fn clone_params(params: &serde_json::Value) -> (copy: serde_json::Value)
    ensures
        copy == *params,
{
    params.clone()
}

/// Strudel event produced by pattern queries.
#[derive(Debug)]
pub struct StrudelEvent {
    /// Event onset time as a fraction (numerator, denominator).
    pub onset: (i64, i64),
    /// Event duration as a fraction (numerator, denominator).
    pub duration: (i64, i64),
    /// Event type: "audio" or "midi".
    pub event_type: String,
    /// Full event parameters (Strudel `hap.value`), carried through unchanged.
    pub params: serde_json::Value,
}

impl StrudelEvent {
    /// An exact copy of the event.
    pub fn duplicate(&self) -> (copy: Self)
        ensures
            copy == *self,
    {
        StrudelEvent {
            onset: self.onset,
            duration: self.duration,
            event_type: self.event_type.clone(),
            params: clone_params(&self.params),
        }
    }
}

impl Clone for StrudelEvent {
    fn clone(&self) -> (copy: Self)
        ensures
            copy == *self,
    {
        self.duplicate()
    }
}

/// Result of evaluating Strudel code.
#[derive(Clone, Debug, PartialEq, Eq)]
pub struct EvaluationResult {
    pub success: bool,
    pub error: Option<String>,
    pub stack: Option<String>,
}

/// The message reported when the engine's reply cannot be read.
pub open spec fn unreadable_reply_message() -> Seq<char> {
    "Failed to parse evaluation result"@
}

impl EvaluationResult {
    /// A failed evaluation carrying `message` and no stack trace.
    pub fn failure(message: String) -> (r: Self)
        ensures
            !r.success,
            r.error == Some(message),
            r.stack.is_none(),
    {
        EvaluationResult { success: false, error: Some(message), stack: None }
    }

    /// The outcome of an evaluation given the engine's decoded reply: the
    /// reply itself, or a failure saying that it could not be read.
    pub fn from_reply(reply: Option<EvaluationResult>) -> (r: Self)
        ensures
            reply.is_some() ==> r == reply.unwrap(),
            reply.is_none() ==> !r.success && r.stack.is_none() && r.error.is_some()
                && r.error.unwrap()@ == unreadable_reply_message(),
    {
        match reply {
            Some(r) => r,
            None => EvaluationResult::failure(String::from_str("Failed to parse evaluation result")),
        }
    }
}

} // verus!
