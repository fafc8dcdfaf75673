//! What is told to an observer of deliveries.
use vstd::prelude::*;

use crate::delivery::outbox::{HostFinalDeliveryOutbox, IssueModel, LoadIssue, OutboxModel};
use crate::delivery::record::{HostFinalDeliveryRecord, RecordModel};
use crate::delivery::run;
use crate::delivery::run::{
    DeliveryTransition, HostFinalDeliveryDisposition, HostFinalDeliveryOutcome, OutcomeModel,
    TransitionModel,
};
use crate::outside;
use crate::text;

verus! {

/// One event for an observer: its kind, and the fields of its payload.
#[derive(Debug)]
pub struct DeliveryFrame {
    pub kind: &'static str,
    pub event_id: Option<String>,
    pub trigger_event_id: Option<String>,
    pub channel_id: Option<String>,
    pub resumed: bool,
    pub attempt: Option<u8>,
    pub reason: Option<&'static str>,
    pub will_retry: Option<bool>,
    pub delay_ms: Option<u128>,
}

/// What a frame holds.
#[verifier::ext_equal]
pub struct FrameModel {
    pub kind: Seq<char>,
    pub event_id: Option<Seq<char>>,
    pub trigger_event_id: Option<Seq<char>>,
    pub channel_id: Option<Seq<char>>,
    pub resumed: bool,
    pub attempt: Option<u8>,
    pub reason: Option<Seq<char>>,
    pub will_retry: Option<bool>,
    pub delay_ms: Option<u128>,
}

impl View for DeliveryFrame {
    type V = FrameModel;

    open spec fn view(&self) -> FrameModel {
        FrameModel {
            kind: self.kind@,
            event_id: text::opt_text(self.event_id),
            trigger_event_id: text::opt_text(self.trigger_event_id),
            channel_id: text::opt_text(self.channel_id),
            resumed: self.resumed,
            attempt: self.attempt,
            reason: match self.reason {
                Some(r) => Some(r@),
                None => None,
            },
            will_retry: self.will_retry,
            delay_ms: self.delay_ms,
        }
    }
}

/// A frame of this kind with the fields that all frames of an outcome share.
pub open spec fn common_frame(outcome: OutcomeModel, kind: Seq<char>) -> FrameModel {
    FrameModel {
        kind,
        event_id: outcome.event_id,
        trigger_event_id: outcome.trigger_event_id,
        channel_id: match outcome.channel_id {
            Some(c) => Some(outside::uuid_text(c)),
            None => None,
        },
        resumed: outcome.resumed,
        attempt: None,
        reason: None,
        will_retry: None,
        delay_ms: None,
    }
}

/// The frames that one transition of an outcome is told by. A scheduled retry is told
/// twice: as the failure of its attempt, and as the retry.
pub open spec fn transition_frames(outcome: OutcomeModel, t: TransitionModel) -> Seq<FrameModel> {
    match t {
        TransitionModel::Attempt { attempt } => seq![
            FrameModel {
                attempt: Some(attempt),
                ..common_frame(outcome, "reply_delivery_attempt"@)
            },
        ],
        TransitionModel::RetryScheduled { attempt } => seq![
            FrameModel {
                attempt: Some(attempt),
                reason: Some("relay_rejected_or_unconfirmed"@),
                will_retry: Some(true),
                ..common_frame(outcome, "reply_delivery_failed"@)
            },
            FrameModel {
                attempt: Some(attempt),
                delay_ms: Some(run::DELIVERY_RETRY_DELAY_MS),
                ..common_frame(outcome, "reply_delivery_retry_scheduled"@)
            },
        ],
        TransitionModel::Accepted { attempt } => seq![
            FrameModel {
                attempt: Some(attempt),
                ..common_frame(outcome, "reply_delivery_accepted"@)
            },
        ],
        TransitionModel::Terminal { reason } => seq![
            FrameModel {
                reason: Some(reason),
                ..common_frame(outcome, "reply_delivery_terminal"@)
            },
        ],
    }
}

/// The frames of the first `n` transitions of an outcome, in order.
pub open spec fn frames_until(outcome: OutcomeModel, n: int) -> Seq<FrameModel>
    decreases n,
{
    if n <= 0 {
        Seq::empty()
    } else {
        frames_until(outcome, n - 1) + transition_frames(outcome, outcome.transitions[n - 1])
    }
}

/// What a list of frames holds.
pub open spec fn frame_models(v: Seq<DeliveryFrame>) -> Seq<FrameModel> {
    v.map_values(|f: DeliveryFrame| f@)
}

/// A frame of this kind with the fields that all frames of an outcome share.
fn shared_frame(outcome: &HostFinalDeliveryOutcome, kind: &'static str) -> (r: DeliveryFrame)
    ensures
        r@ == common_frame(outcome@, kind@),
{
    DeliveryFrame {
        kind,
        event_id: text::copy_opt(&outcome.event_id),
        trigger_event_id: text::copy_opt(&outcome.trigger_event_id),
        channel_id: match outcome.channel_id {
            Some(c) => Some(outside::uuid_to_string(c)),
            None => None,
        },
        resumed: outcome.resumed,
        attempt: None,
        reason: None,
        will_retry: None,
        delay_ms: None,
    }
}

/// The frames that an outcome is told by, in the order of its transitions.
pub fn outcome_frames(outcome: &HostFinalDeliveryOutcome) -> (r: Vec<DeliveryFrame>)
    ensures
        frame_models(r@) == frames_until(outcome@, outcome@.transitions.len() as int),
{
    let mut out: Vec<DeliveryFrame> = Vec::new();
    let mut i: usize = 0;
    assert(frame_models(out@) =~= frames_until(outcome@, 0));
    while i < outcome.transitions.len()
        invariant
            i <= outcome.transitions.len(),
            outcome@.transitions.len() == outcome.transitions.len(),
            frame_models(out@) == frames_until(outcome@, i as int),
        decreases outcome.transitions.len() - i,
    {
        let ghost before = frame_models(out@);
        let ghost t = outcome@.transitions[i as int];
        match outcome.transitions[i] {
            DeliveryTransition::Attempt { attempt } => {
                let mut frame = shared_frame(outcome, "reply_delivery_attempt");
                frame.attempt = Some(attempt);
                out.push(frame);
            },
            DeliveryTransition::RetryScheduled { attempt } => {
                let mut failure = shared_frame(outcome, "reply_delivery_failed");
                failure.attempt = Some(attempt);
                failure.reason = Some("relay_rejected_or_unconfirmed");
                failure.will_retry = Some(true);
                out.push(failure);
                let mut retry = shared_frame(outcome, "reply_delivery_retry_scheduled");
                retry.attempt = Some(attempt);
                retry.delay_ms = Some(run::DELIVERY_RETRY_DELAY_MS);
                out.push(retry);
            },
            DeliveryTransition::Accepted { attempt } => {
                let mut frame = shared_frame(outcome, "reply_delivery_accepted");
                frame.attempt = Some(attempt);
                out.push(frame);
            },
            DeliveryTransition::Terminal { reason } => {
                let mut frame = shared_frame(outcome, "reply_delivery_terminal");
                frame.reason = Some(reason);
                out.push(frame);
            },
        }
        assert(frame_models(out@) =~= before + transition_frames(outcome@, t));
        i += 1;
    }
    out
}

/// The frame that tells that the delivery of `record` is taken up again.
pub open spec fn recovery_frame(record: RecordModel) -> FrameModel {
    FrameModel {
        kind: "reply_delivery_recovery_resumed"@,
        event_id: Some(record.event_id),
        trigger_event_id: Some(record.trigger_event_id),
        channel_id: Some(record.channel_id),
        resumed: true,
        attempt: None,
        reason: None,
        will_retry: None,
        delay_ms: None,
    }
}

/// The frame that tells that the delivery of `record` is taken up again.
pub fn recovery_started(record: &HostFinalDeliveryRecord) -> (r: DeliveryFrame)
    ensures
        r@ == recovery_frame(record@),
{
    DeliveryFrame {
        kind: "reply_delivery_recovery_resumed",
        event_id: Some(record.event_id.clone()),
        trigger_event_id: Some(record.trigger_event_id.clone()),
        channel_id: Some(record.channel_id.clone()),
        resumed: true,
        attempt: None,
        reason: None,
        will_retry: None,
        delay_ms: None,
    }
}

/// The outcome that a load issue is told as.
pub open spec fn issue_outcome(issue: IssueModel) -> OutcomeModel {
    OutcomeModel {
        disposition: HostFinalDeliveryDisposition::TerminalFailed,
        event_id: issue.event_id,
        channel_id: issue.channel_id,
        trigger_event_id: None,
        resumed: true,
        transitions: seq![TransitionModel::Terminal { reason: issue.reason }],
    }
}

/// A record whose delivery is to be taken up again.
pub struct PendingDelivery {
    /// The event id as the outbox holds it.
    pub stored_id: String,
    /// The event id in the form that a delivery is started with.
    pub event_id: String,
}

/// What a restart has to tell and to take up again.
pub struct Recovery {
    pub issues: Vec<HostFinalDeliveryOutcome>,
    pub pending: Vec<PendingDelivery>,
}

/// What a list of outcomes holds.
pub open spec fn outcome_models(v: Seq<HostFinalDeliveryOutcome>) -> Seq<OutcomeModel> {
    v.map_values(|o: HostFinalDeliveryOutcome| o@)
}

/// What the issues of an outbox are told as.
pub open spec fn issue_outcomes(issues: Seq<IssueModel>) -> Seq<OutcomeModel> {
    Seq::new(issues.len(), |i: int| issue_outcome(issues[i]))
}

/// The stored ids of a list of pending deliveries.
pub open spec fn stored_ids(v: Seq<PendingDelivery>) -> Seq<Seq<char>> {
    v.map_values(|p: PendingDelivery| p.stored_id@)
}

/// Tells each load issue as an outcome.
fn tell_issues(issues: Vec<LoadIssue>) -> (r: Vec<HostFinalDeliveryOutcome>)
    ensures
        outcome_models(r@) == issue_outcomes(issues@.map_values(|i: LoadIssue| i@)),
{
    let mut out: Vec<HostFinalDeliveryOutcome> = Vec::new();
    let mut i: usize = 0;
    while i < issues.len()
        invariant
            i <= issues.len(),
            out@.len() == i,
            forall|k: int| 0 <= k < i ==> (#[trigger] out@[k])@ == issue_outcome(issues@[k]@),
        decreases issues.len() - i,
    {
        let mut transitions: Vec<DeliveryTransition> = Vec::new();
        transitions.push(DeliveryTransition::Terminal { reason: issues[i].reason });
        let outcome = HostFinalDeliveryOutcome {
            disposition: HostFinalDeliveryDisposition::TerminalFailed,
            event_id: text::copy_opt(&issues[i].event_id),
            channel_id: issues[i].channel_id,
            trigger_event_id: None,
            resumed: true,
            transitions,
        };
        assert(outcome@.transitions =~= issue_outcome(issues@[i as int]@).transitions);
        out.push(outcome);
        i += 1;
    }
    assert(outcome_models(out@) =~= issue_outcomes(issues@.map_values(|i: LoadIssue| i@)));
    out
}

/// Takes the load issues out of the outbox, each as the outcome it is told as, and lists
/// the records whose delivery has not ended.
pub fn begin_recovery(outbox: &mut HostFinalDeliveryOutbox) -> (r: Recovery)
    requires
        old(outbox).wf(),
    ensures
        final(outbox).wf(),
        final(outbox)@ == (OutboxModel { issues: Seq::empty(), ..old(outbox)@ }),
        outcome_models(r.issues@) == issue_outcomes(old(outbox)@.issues),
        stored_ids(r.pending@).no_duplicates(),
        forall|id: Seq<char>| #[trigger]
            stored_ids(r.pending@).contains(id) <==> {
                &&& old(outbox)@.records.contains_key(id)
                &&& !old(outbox)@.records[id].state.terminal()
                &&& text::hex_event_id(id)
            },
        forall|k: int|
            0 <= k < r.pending@.len() ==> (#[trigger] r.pending@[k]).event_id@ == text::hex_encode(
                text::hex_decode(r.pending@[k].stored_id@),
            ),
{
    let ghost before = outbox@;
    let issues = tell_issues(outbox.take_load_issues());
    let ids: Vec<String> = outbox.pending_events();
    let ghost listed = text::texts(ids@);
    let mut pending: Vec<PendingDelivery> = Vec::new();
    let mut i: usize = 0;
    while i < ids.len()
        invariant
            i <= ids.len(),
            listed == text::texts(ids@),
            listed.no_duplicates(),
            stored_ids(pending@).no_duplicates(),
            forall|id: Seq<char>| #[trigger]
                stored_ids(pending@).contains(id) <==> listed.take(i as int).contains(id)
                    && text::hex_event_id(id),
            forall|k: int|
                0 <= k < pending@.len() ==> (#[trigger] pending@[k]).event_id@ == text::hex_encode(
                    text::hex_decode(pending@[k].stored_id@),
                ),
        decreases ids.len() - i,
    {
        let ghost was = stored_ids(pending@);
        let ghost seen = listed.take(i as int);
        let ghost id = listed[i as int];
        assert(id == ids@[i as int]@);
        assert(listed.take(i + 1) =~= seen.push(id));
        assert(!seen.contains(id)) by {
            if seen.contains(id) {
                let k = seen.index_of(id);
                assert(listed[k] == listed[i as int]);
            }
        }
        assert forall|x: Seq<char>| #[trigger] seen.push(id).contains(x) <==> seen.contains(x) || x
            == id by {
            if seen.contains(x) {
                assert(seen.push(id)[seen.index_of(x)] == x);
            }
            assert(seen.push(id)[seen.len() as int] == id);
        }
        match outside::event_id_from_hex(ids[i].as_str()) {
            Some(bytes) => {
                let event_id: String = outside::event_id_to_hex(&bytes);
                pending.push(PendingDelivery { stored_id: ids[i].clone(), event_id });
                proof {
                    let now = stored_ids(pending@);
                    assert(now =~= was.push(id));
                    assert(!was.contains(id));
                    assert forall|x: Seq<char>| #[trigger] now.contains(x) <==> listed.take(
                        i + 1,
                    ).contains(x) && text::hex_event_id(x) by {
                        if was.contains(x) {
                            assert(now[was.index_of(x)] == x);
                        }
                        assert(now[was.len() as int] == id);
                        if now.contains(x) && x != id {
                            assert(was[now.index_of(x)] == x);
                        }
                    }
                }
            },
            None => {
                assert forall|x: Seq<char>| #[trigger] was.contains(x) <==> listed.take(
                    i + 1,
                ).contains(x) && text::hex_event_id(x) by {}
            },
        }
        i += 1;
    }
    assert(listed.take(ids@.len() as int) =~= listed);
    Recovery { issues, pending }
}

} // verus!
