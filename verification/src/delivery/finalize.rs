//! Whether a finished prompt has a final reply to publish, and what it means when it
//! cannot be.
use vstd::prelude::*;

use crate::delivery::outbox::FinalReplyTarget;
use crate::delivery::run;
use crate::delivery::run::{HostFinalDeliveryOutcome, OutcomeModel};
use crate::text;

verus! {

/// The largest final reply that is published, in bytes.
pub const MAX_HOST_FINAL_REPLY_BYTES: usize = 65536;

/// Why an agent ended a turn.
#[derive(Debug, Clone, Copy, PartialEq, Eq, Structural)]
pub enum StopReason {
    EndTurn,
    Cancelled,
    MaxTokens,
    MaxTurnRequests,
    Refusal,
}

/// Why an agent ended a turn, by the word that it gives for it, in lower case.
pub open spec fn stop_reason(word: Seq<char>) -> Option<StopReason> {
    if word == "end_turn"@ {
        Some(StopReason::EndTurn)
    } else if word == "cancelled"@ {
        Some(StopReason::Cancelled)
    } else if word == "max_tokens"@ {
        Some(StopReason::MaxTokens)
    } else if word == "max_turn_requests"@ {
        Some(StopReason::MaxTurnRequests)
    } else if word == "refusal"@ {
        Some(StopReason::Refusal)
    } else {
        None
    }
}

impl StopReason {
    /// Why an agent ended a turn, by the word that it gives for it. Letter case does not count.
    pub fn from_str(s: &str) -> (r: Option<StopReason>)
        ensures
            r == stop_reason(text::ascii_lower(s@)),
    {
        let word: String = s.to_ascii_lowercase();
        if text::same(word.as_str(), "end_turn") {
            Some(StopReason::EndTurn)
        } else if text::same(word.as_str(), "cancelled") {
            Some(StopReason::Cancelled)
        } else if text::same(word.as_str(), "max_tokens") {
            Some(StopReason::MaxTokens)
        } else if text::same(word.as_str(), "max_turn_requests") {
            Some(StopReason::MaxTurnRequests)
        } else if text::same(word.as_str(), "refusal") {
            Some(StopReason::Refusal)
        } else {
            None
        }
    }
}

/// How a prompt ended, with the reply that the agent handed over for publication.
#[derive(Debug)]
pub struct PromptCompletion {
    pub stop_reason: StopReason,
    pub final_reply: Option<String>,
}

impl PromptCompletion {
    /// Whether a turn that ended in this way has a reply to publish.
    pub open spec fn publishable(self) -> bool {
        self.stop_reason is EndTurn || self.stop_reason is Refusal
    }

    /// Whether a turn that ended in this way has a reply to publish.
    pub fn is_publishable_terminal(&self) -> (r: bool)
        ensures
            r == self.publishable(),
    {
        match self.stop_reason {
            StopReason::EndTurn => true,
            StopReason::Refusal => true,
            StopReason::Cancelled => false,
            StopReason::MaxTokens => false,
            StopReason::MaxTurnRequests => false,
        }
    }
}

/// Where a prompt came from, as far as a reply to it is concerned.
#[derive(Debug, Clone, Copy)]
pub enum ReplyOrigin<'a> {
    /// Not from a conversation.
    Absent,
    /// From one that no reply can be addressed to.
    Invalid,
    /// From this one.
    Target(&'a FinalReplyTarget),
}

/// What is done about the final reply of a prompt.
pub enum FinalReplyStep {
    /// There is none to publish.
    NotApplicable,
    /// It cannot be published; this is the outcome to tell.
    Terminal(HostFinalDeliveryOutcome),
    /// It is published with this content, and mentions this author.
    Publish { content: String, mention: Option<String> },
}

/// What a step holds.
#[verifier::ext_equal]
pub enum FinalReplyModel {
    NotApplicable,
    Terminal(OutcomeModel),
    Publish { content: Seq<char>, mention: Option<Seq<char>> },
}

impl View for FinalReplyStep {
    type V = FinalReplyModel;

    open spec fn view(&self) -> FinalReplyModel {
        match *self {
            FinalReplyStep::NotApplicable => FinalReplyModel::NotApplicable,
            FinalReplyStep::Terminal(outcome) => FinalReplyModel::Terminal(outcome@),
            FinalReplyStep::Publish { content, mention } => FinalReplyModel::Publish {
                content: content@,
                mention: text::opt_text(mention),
            },
        }
    }
}

/// What is done about the final reply of a prompt, for a host that publishes replies or
/// not, under the public key `own_pubkey`.
pub open spec fn final_reply_step(
    host_publishes: bool,
    origin: ReplyOrigin,
    completion: PromptCompletion,
    own_pubkey: Seq<char>,
) -> FinalReplyModel {
    if !host_publishes || !completion.publishable() || origin is Absent {
        FinalReplyModel::NotApplicable
    } else {
        match (origin, text::opt_text(completion.final_reply)) {
            (ReplyOrigin::Target(target), Some(content)) => {
                if text::blank(content) {
                    FinalReplyModel::Terminal(
                        run::recordless_outcome(Some(*target), "missing_or_blank_final_reply"@),
                    )
                } else if vstd::utf8::encode_utf8(content).len() > MAX_HOST_FINAL_REPLY_BYTES {
                    FinalReplyModel::Terminal(
                        run::recordless_outcome(Some(*target), "final_reply_too_large"@),
                    )
                } else {
                    FinalReplyModel::Publish {
                        content,
                        mention: if target.trigger_author@ != own_pubkey {
                            Some(target.trigger_author@)
                        } else {
                            None
                        },
                    }
                }
            },
            (ReplyOrigin::Target(target), None) => FinalReplyModel::Terminal(
                run::recordless_outcome(Some(*target), "missing_or_blank_final_reply"@),
            ),
            _ => FinalReplyModel::Terminal(run::recordless_outcome(None, "invalid_origin"@)),
        }
    }
}

/// Decides what is done about the final reply of a prompt.
pub fn admit_final_reply(
    host_publishes: bool,
    origin: ReplyOrigin,
    completion: &PromptCompletion,
    own_pubkey: &str,
) -> (r: FinalReplyStep)
    ensures
        r@ == final_reply_step(host_publishes, origin, *completion, own_pubkey@),
{
    if !host_publishes || !completion.is_publishable_terminal() {
        return FinalReplyStep::NotApplicable;
    }
    let target: &FinalReplyTarget = match origin {
        ReplyOrigin::Absent => return FinalReplyStep::NotApplicable,
        ReplyOrigin::Invalid => {
            return FinalReplyStep::Terminal(
                HostFinalDeliveryOutcome::terminal_without_record(None, "invalid_origin"),
            );
        },
        ReplyOrigin::Target(target) => target,
    };
    let content: &String = match &completion.final_reply {
        Some(content) if !text::is_blank(content.as_str()) => content,
        _ => {
            return FinalReplyStep::Terminal(
                HostFinalDeliveryOutcome::terminal_without_record(
                    Some(target),
                    "missing_or_blank_final_reply",
                ),
            );
        },
    };
    if content.as_str().as_bytes().len() > MAX_HOST_FINAL_REPLY_BYTES {
        return FinalReplyStep::Terminal(
            HostFinalDeliveryOutcome::terminal_without_record(
                Some(target),
                "final_reply_too_large",
            ),
        );
    }
    let mention = if text::same(target.trigger_author.as_str(), own_pubkey) {
        None
    } else {
        Some(target.trigger_author.clone())
    };
    FinalReplyStep::Publish { content: content.clone(), mention }
}

/// What can go wrong between the decision to publish and the first delivery attempt.
#[derive(Debug, Clone, Copy, PartialEq, Eq, Structural)]
pub enum PublishStage {
    Build,
    Sign,
    Serialize,
    Persist,
}

/// The reason code of a failure at this stage.
pub open spec fn stage_reason(stage: PublishStage) -> Seq<char> {
    match stage {
        PublishStage::Build => "build_failed"@,
        PublishStage::Sign => "sign_failed"@,
        PublishStage::Serialize => "serialize_failed"@,
        PublishStage::Persist => "outbox_persist_failed"@,
    }
}

/// The outcome of a reply that failed at `stage`.
pub fn publish_failure(target: &FinalReplyTarget, stage: PublishStage) -> (r:
    HostFinalDeliveryOutcome)
    ensures
        r@ == run::recordless_outcome(Some(*target), stage_reason(stage)),
{
    let reason = match stage {
        PublishStage::Build => "build_failed",
        PublishStage::Sign => "sign_failed",
        PublishStage::Serialize => "serialize_failed",
        PublishStage::Persist => "outbox_persist_failed",
    };
    HostFinalDeliveryOutcome::terminal_without_record(Some(target), reason)
}

/// A final reply is either not due, or published as it stands, or told as failed: what is
/// published is not blank and not too large, and nothing else is due to a host that
/// publishes no replies or to a turn that did not end.
pub proof fn law_only_whole_replies_are_published(
    host_publishes: bool,
    origin: ReplyOrigin,
    completion: PromptCompletion,
    own_pubkey: Seq<char>,
)
    ensures
        ({
            let step = final_reply_step(host_publishes, origin, completion, own_pubkey);
            &&& step matches FinalReplyModel::Publish { content, mention } ==> {
                &&& host_publishes && completion.publishable() && origin is Target
                &&& text::opt_text(completion.final_reply) == Some(content)
                &&& !text::blank(content)
                &&& vstd::utf8::encode_utf8(content).len() <= MAX_HOST_FINAL_REPLY_BYTES
                &&& mention != Some(own_pubkey)
            }
            &&& step is Terminal ==> host_publishes && completion.publishable()
        }),
{
}

} // verus!
