//! Call-control instructions: the declarative units a webhook reply is
//! made of, following the calling platform's webhook contract.

use vstd::prelude::*;

verus! {

/// Fixed speech-synthesizer selection attached to spoken text.
pub struct SaySynthesizer {
    pub vendor: String,
    pub language: String,
    pub gender: Option<String>,
    pub voice: String,
}

/// Speak a piece of text to the caller.
pub struct Say {
    pub text: String,
    pub synthesizer: Option<SaySynthesizer>,
}

/// Unconditionally continue the call at another step.
pub struct Redirect {
    pub action_hook: String,
}

/// The input modes a Gather instruction may wait for.
#[derive(Clone, Copy, Debug, PartialEq, Eq, Structural)]
pub enum GatherInputs {
    Digits,
}

/// Collect caller input and post it to another step.
pub struct Gather {
    pub action_hook: String,
    pub input: Vec<GatherInputs>,
    pub num_digits: Option<usize>,
    pub recognizer: Option<GatherRecognizer>,
    pub say: Option<Say>,
}

/// Speech-recognizer selection for a Gather instruction; present for
/// completeness of the instruction family, unused by the current flow.
pub struct GatherRecognizer {
    pub vendor: String,
    pub language: String,
    pub hints: Vec<String>,
    pub hints_boost: i32,
}

/// One call-control instruction. An outbound reply is an ordered,
/// non-empty sequence of these.
pub enum Verb {
    Redirect(Redirect),
    Say(Say),
    Gather(Gather),
}

/// Payload of the digit-collection callback.
pub struct GatherResponse {
    pub digits: Option<String>,
}

/// Progress state of a call, as reported by status-update webhooks.
#[derive(Clone, Copy, Debug, PartialEq, Eq, Structural)]
pub enum CallStatus {
    Trying,
    Ringing,
    EarlyMedia,
    InProgress,
    Completed,
    Failed,
    Busy,
    NoAnswer,
}

/// The observability label of a call status.
pub open spec fn status_label(s: CallStatus) -> Seq<char> {
    match s {
        CallStatus::Trying => "Trying"@,
        CallStatus::Ringing => "Ringing"@,
        CallStatus::EarlyMedia => "EarlyMedia"@,
        CallStatus::InProgress => "InProgress"@,
        CallStatus::Completed => "Completed"@,
        CallStatus::Failed => "Failed"@,
        CallStatus::Busy => "Busy"@,
        CallStatus::NoAnswer => "NoAnswer"@,
    }
}

impl CallStatus {
    /// The label under which this status is counted.
    pub fn label(&self) -> (s: String)
        ensures
            s@ == status_label(*self),
    {
        match self {
            CallStatus::Trying => String::from_str("Trying"),
            CallStatus::Ringing => String::from_str("Ringing"),
            CallStatus::EarlyMedia => String::from_str("EarlyMedia"),
            CallStatus::InProgress => String::from_str("InProgress"),
            CallStatus::Completed => String::from_str("Completed"),
            CallStatus::Failed => String::from_str("Failed"),
            CallStatus::Busy => String::from_str("Busy"),
            CallStatus::NoAnswer => String::from_str("NoAnswer"),
        }
    }
}

/// Inbound status-update payload; recorded for observability only and
/// never answered with spoken instructions.
pub struct CallStatusDetails {
    pub call_id: String,
    pub call_sid: String,
    pub call_status: CallStatus,
    pub call_termination_by: Option<String>,
    pub duration: Option<i64>,
    pub from: String,
}

/// The synthesizer configuration is the single fixed voice selection.
pub open spec fn is_default_synth(c: SaySynthesizer) -> bool {
    &&& c.vendor@ == "aws"@
    &&& c.language@ == "en-GB"@
    &&& c.gender is None
    &&& c.voice@ == "Amy"@
}

/// The verb speaks `text` with the fixed voice configuration.
pub open spec fn is_default_say(v: Verb, text: Seq<char>) -> bool {
    match v {
        Verb::Say(s) => s.text@ == text && match s.synthesizer {
            Some(c) => is_default_synth(c),
            None => false,
        },
        _ => false,
    }
}

/// The verb redirects the call to the step behind `hook`.
pub open spec fn is_redirect(v: Verb, hook: Seq<char>) -> bool {
    match v {
        Verb::Redirect(r) => r.action_hook@ == hook,
        _ => false,
    }
}

} // verus!
