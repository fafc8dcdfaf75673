//! What holds of every delivery and every outbox.
use vstd::prelude::*;

use crate::delivery::outbox;
use crate::delivery::outbox::{LoadPlan, OutboxModel};
use crate::delivery::record;
use crate::delivery::record::{HostFinalDeliveryRecord, RecordModel, ScopeModel};
use crate::delivery::run::{
    ActionModel, DeliveryInput, PhaseModel, RunModel, TransitionModel,
};
use crate::delivery::run;
use crate::outside;
use crate::text;

verus! {

/// How many submissions a record has left.
pub open spec fn record_budget(record: RecordModel) -> int {
    if record.state.terminal() || record.logical_attempts
        >= record::MAX_LOGICAL_RECEIPT_SUBMISSIONS {
        0
    } else {
        record::MAX_LOGICAL_RECEIPT_SUBMISSIONS - record.logical_attempts
    }
}

/// How many submissions a delivery has left.
pub open spec fn submissions_left(run: RunModel, outbox: OutboxModel) -> int {
    match run.phase {
        PhaseModel::Start => if outbox.records.contains_key(run.event_id) {
            record_budget(outbox.records[run.event_id])
        } else {
            0
        },
        PhaseModel::Waiting { record } => record_budget(record),
        PhaseModel::Sending { record, .. } => record_budget(record),
        PhaseModel::Submitting { sending, .. } => record_budget(sending),
        PhaseModel::Retrying { retry, .. } => record_budget(retry),
        PhaseModel::Closing { .. } => 0,
        PhaseModel::Accepting { .. } => 0,
        PhaseModel::Done => 0,
    }
}

/// How far a delivery is from its end.
pub open spec fn distance(run: RunModel, outbox: OutboxModel) -> int {
    8 * submissions_left(run, outbox) + match run.phase {
        PhaseModel::Start => 4,
        PhaseModel::Waiting { .. } => 3,
        PhaseModel::Sending { .. } => 2,
        PhaseModel::Submitting { .. } => 7,
        PhaseModel::Retrying { .. } => 5,
        PhaseModel::Closing { .. } => 1,
        PhaseModel::Accepting { .. } => 1,
        PhaseModel::Done => 0int,
    }
}

/// A delivery never has more submissions left than the budget allows, a submission uses
/// one up, and no other step gives any back: its body is handed to the relay at most
/// twice over all its attempts, across restarts too.
pub proof fn law_submissions_are_bounded(
    run: RunModel,
    outbox: OutboxModel,
    input: DeliveryInput,
    now: u128,
)
    requires
        outbox.sound(),
        run.fits(outbox),
        run.expects(input),
    ensures
        ({
            let next = run.step(outbox, input, now);
            &&& 0 <= submissions_left(run, outbox) <= record::MAX_LOGICAL_RECEIPT_SUBMISSIONS
            &&& 0 <= submissions_left(next.run, next.outbox) <= submissions_left(run, outbox)
            &&& next.action is Submit ==> submissions_left(next.run, next.outbox)
                == submissions_left(run, outbox) - 1
        }),
{
}

/// Every step brings a delivery closer to its end, so every delivery ends; it has ended
/// exactly when it hands out its outcome.
pub proof fn law_delivery_ends(
    run: RunModel,
    outbox: OutboxModel,
    input: DeliveryInput,
    now: u128,
)
    requires
        outbox.sound(),
        run.fits(outbox),
        run.expects(input),
    ensures
        ({
            let next = run.step(outbox, input, now);
            &&& 0 <= distance(next.run, next.outbox) < distance(run, outbox)
            &&& next.action is Finish <==> next.run.phase is Done
            &&& next.run.phase is Done ==> distance(next.run, next.outbox) == 0
        }),
{
}

/// A step lifts no fence, forgets no record, and touches no record but the delivery's own.
pub proof fn law_step_keeps_fence_and_other_records(
    run: RunModel,
    outbox: OutboxModel,
    input: DeliveryInput,
    now: u128,
    id: Seq<char>,
)
    requires
        outbox.sound(),
        run.fits(outbox),
        run.expects(input),
    ensures
        ({
            let next = run.step(outbox, input, now).outbox;
            &&& next.scope == outbox.scope
            &&& outbox.fenced.contains(id) ==> next.fenced.contains(id)
            &&& outbox.records.contains_key(id) ==> next.records.contains_key(id)
            &&& id != run.event_id && next.records.contains_key(id) ==> outbox.records.contains_key(
                id,
            ) && next.records[id] == outbox.records[id]
        }),
{
}

/// Every step keeps the outbox sound: whatever has ended keeps no body and no retry
/// time, and all that was consumed stays fenced.
pub proof fn law_step_keeps_outbox_sound(
    run: RunModel,
    outbox: OutboxModel,
    input: DeliveryInput,
    now: u128,
)
    requires
        outbox.sound(),
        run.fits(outbox),
        run.expects(input),
    ensures
        run.step(outbox, input, now).outbox.sound(),
        run.step(outbox, input, now).run.fits(run.step(outbox, input, now).outbox),
{
    let next = run.step(outbox, input, now);
    match (run.phase, input) {
        (PhaseModel::Closing { terminal, .. }, _) => {
            crate::delivery::outbox::law_indexing_keeps_sound(outbox, terminal);
        },
        (PhaseModel::Sending { sending, .. }, _) => {
            crate::delivery::outbox::law_indexing_keeps_sound(outbox, sending);
        },
        (PhaseModel::Accepting { accepted }, _) => {
            crate::delivery::outbox::law_indexing_keeps_sound(outbox, accepted);
        },
        (PhaseModel::Retrying { retry, .. }, _) => {
            crate::delivery::outbox::law_indexing_keeps_sound(outbox, retry);
        },
        (PhaseModel::Submitting { record, sending }, _) => {
            assert(sending.retrying(now) == record.sending().retrying(now));
        },
        _ => {},
    }
}

/// Nothing is handed to the relay before its attempt stands in the outbox: at every
/// submission the outbox holds the record, pending, with this attempt counted.
pub proof fn law_attempt_is_stored_before_it_is_made(
    run: RunModel,
    outbox: OutboxModel,
    input: DeliveryInput,
    now: u128,
)
    requires
        outbox.sound(),
        run.fits(outbox),
        run.expects(input),
        run.step(outbox, input, now).action is Submit,
    ensures
        ({
            let next = run.step(outbox, input, now);
            &&& run.phase is Sending
            &&& next.outbox.records.contains_key(run.event_id)
            &&& next.outbox.records[run.event_id] == run.phase->Sending_record.sending()
            &&& next.outbox.records[run.event_id].state is Pending
            &&& next.outbox.records[run.event_id].logical_attempts
                == run.phase->Sending_record.logical_attempts + 1
        }),
{
}

/// Whether every record that the delivery might still send holds this body.
pub open spec fn carries(run: RunModel, outbox: OutboxModel, body: Seq<char>) -> bool {
    &&& outbox.records.contains_key(run.event_id) ==> {
        let record = outbox.records[run.event_id];
        record.state.terminal() || record.event_bytes_b64 == Some(body)
    }
    &&& match run.phase {
        PhaseModel::Waiting { record } => record.event_bytes_b64 == Some(body),
        PhaseModel::Sending { record, .. } => record.event_bytes_b64 == Some(body),
        PhaseModel::Submitting { record, .. } => record.event_bytes_b64 == Some(body),
        PhaseModel::Retrying { record, .. } => record.event_bytes_b64 == Some(body),
        _ => true,
    }
}

/// A delivery sends the bytes that its record was kept with and no others, on the first
/// attempt and on the retry.
pub proof fn law_every_attempt_sends_the_kept_bytes(
    run: RunModel,
    outbox: OutboxModel,
    input: DeliveryInput,
    now: u128,
    body: Seq<char>,
)
    requires
        outbox.sound(),
        run.fits(outbox),
        run.expects(input),
        carries(run, outbox, body),
    ensures
        ({
            let next = run.step(outbox, input, now);
            &&& carries(next.run, next.outbox, body)
            &&& next.action matches ActionModel::Submit { bytes } ==> outside::base64_bytes(body)
                == Some(bytes)
        }),
{
}

/// A delivery that reports acceptance has the record stored as accepted, one that does
/// not report acceptance reports failure, and every failure reached by this delivery is
/// told by its last transition.
pub proof fn law_outcome_is_truthful(
    run: RunModel,
    outbox: OutboxModel,
    input: DeliveryInput,
    now: u128,
)
    requires
        outbox.sound(),
        run.fits(outbox),
        run.expects(input),
        run.step(outbox, input, now).action is Finish,
    ensures
        ({
            let next = run.step(outbox, input, now);
            let outcome = next.action->Finish_outcome;
            &&& outcome.event_id == Some(run.event_id)
            &&& outcome.resumed == run.resumed
            &&& outcome.disposition !is NotApplicable
            &&& outcome.disposition is Accepted ==> next.outbox.records.contains_key(run.event_id)
                && next.outbox.records[run.event_id].state is Accepted
            &&& outcome.disposition is TerminalFailed ==> {
                ||| outcome.transitions.len() > 0 && outcome.transitions.last() is Terminal
                ||| outbox.records.contains_key(run.event_id)
                    && outbox.records[run.event_id].state is TerminalFailed
            }
        }),
{
}

/// Counting an attempt, and scheduling the next, keep a valid record valid.
pub proof fn law_attempts_keep_a_record_valid(record: RecordModel, scope: ScopeModel, now: u128)
    requires
        record::fault(record, scope) is None,
        !record.state.terminal(),
        record.logical_attempts < record::MAX_LOGICAL_RECEIPT_SUBMISSIONS,
    ensures
        record::fault(record.sending(), scope) is None,
        record::fault(record.sending().retrying(now), scope) is None,
        record::record_bytes(record) is Ok,
        record::record_bytes(record.sending()) == record::record_bytes(record),
        record::record_bytes(record.sending().retrying(now)) == record::record_bytes(record),
{
    let id = text::hex_decode(record.event_id);
    assert(record::signed_body_fault(record.sending(), id) == record::signed_body_fault(record, id));
    assert(record::signed_body_fault(record.sending().retrying(now), id)
        == record::signed_body_fault(record, id));
}

/// A valid record whose first submission the relay confirms is delivered in one attempt.
pub proof fn law_confirmed_submission_is_accepted(
    start: RunModel,
    outbox: OutboxModel,
    now: u128,
)
    requires
        outbox.sound(),
        start.phase is Start,
        outbox.records.contains_key(start.event_id),
        record::fault(outbox.records[start.event_id], outbox.scope) is None,
        outbox.records[start.event_id].state is Pending,
        outbox.records[start.event_id].logical_attempts == 0,
        outbox.records[start.event_id].next_attempt_unix_ms is None,
    ensures
        ({
            let record = outbox.records[start.event_id];
            let s1 = start.step(outbox, DeliveryInput::Proceed, now);
            let s2 = s1.run.step(s1.outbox, DeliveryInput::Written { ok: true }, now);
            let s3 = s2.run.step(s2.outbox, DeliveryInput::Submitted { accepted: true }, now);
            let s4 = s3.run.step(s3.outbox, DeliveryInput::Written { ok: true }, now);
            &&& s1.action == (ActionModel::Write { record: record.sending() })
            &&& s2.action == (ActionModel::Submit { bytes: record::record_bytes(record)->Ok_0 })
            &&& s3.action == (ActionModel::Write { record: record.sending().accepted() })
            &&& s4.action is Finish
            &&& s4.action->Finish_outcome.disposition is Accepted
            &&& s4.action->Finish_outcome.transitions == start.transitions.push(
                TransitionModel::Attempt { attempt: 1 },
            ).push(TransitionModel::Accepted { attempt: 1 })
            &&& s4.outbox.records[start.event_id] == record.sending().accepted()
        }),
{
    law_attempts_keep_a_record_valid(outbox.records[start.event_id], outbox.scope, now);
}

/// A valid record that the relay never confirms is submitted twice, one retry delay
/// apart, with the same bytes, and then ends.
pub proof fn law_unconfirmed_submissions_end_the_delivery(
    start: RunModel,
    outbox: OutboxModel,
    now: u128,
)
    requires
        outbox.sound(),
        start.phase is Start,
        outbox.records.contains_key(start.event_id),
        record::fault(outbox.records[start.event_id], outbox.scope) is None,
        outbox.records[start.event_id].state is Pending,
        outbox.records[start.event_id].logical_attempts == 0,
        outbox.records[start.event_id].next_attempt_unix_ms is None,
        now + run::DELIVERY_RETRY_DELAY_MS <= u128::MAX,
    ensures
        ({
            let record = outbox.records[start.event_id];
            let bytes = record::record_bytes(record)->Ok_0;
            let ok = DeliveryInput::Written { ok: true };
            let no = DeliveryInput::Submitted { accepted: false };
            let s1 = start.step(outbox, DeliveryInput::Proceed, now);
            let s2 = s1.run.step(s1.outbox, ok, now);
            let s3 = s2.run.step(s2.outbox, no, now);
            let s4 = s3.run.step(s3.outbox, ok, now);
            let s5 = s4.run.step(s4.outbox, DeliveryInput::Proceed, now);
            let s6 = s5.run.step(s5.outbox, ok, now);
            let s7 = s6.run.step(s6.outbox, no, now);
            let s8 = s7.run.step(s7.outbox, ok, now);
            &&& s2.action == (ActionModel::Submit { bytes })
            &&& s4.action == (ActionModel::Wait { millis: run::DELIVERY_RETRY_DELAY_MS as u64 })
            &&& s6.action == (ActionModel::Submit { bytes })
            &&& s8.action is Finish
            &&& s8.action->Finish_outcome.disposition is TerminalFailed
            &&& s8.action->Finish_outcome.transitions == start.transitions.push(
                TransitionModel::Attempt { attempt: 1 },
            ).push(TransitionModel::RetryScheduled { attempt: 1 }).push(
                TransitionModel::Attempt { attempt: 2 },
            ).push(TransitionModel::Terminal { reason: "relay_rejected_or_unconfirmed"@ })
            &&& s8.outbox.records[start.event_id].state is TerminalFailed
            &&& s8.outbox.records[start.event_id].event_bytes_b64 is None
            &&& s8.outbox.records[start.event_id].source_event_ids == record.source_event_ids
        }),
{
    let record = outbox.records[start.event_id];
    law_attempts_keep_a_record_valid(record, outbox.scope, now);
    let retry = record.sending().retrying(now);
    law_attempts_keep_a_record_valid(retry, outbox.scope, now);
}

/// Reading back a record of another relay or sender changes nothing, whatever it holds.
pub proof fn law_foreign_records_are_left_alone(
    outbox: OutboxModel,
    record: RecordModel,
    channel: Option<u128>,
    written: bool,
)
    requires
        record.relay_url != outbox.scope.relay_url || record.sender_pubkey
            != outbox.scope.sender_pubkey,
    ensures
        outbox::load_plan(record, record::fault(record, outbox.scope)) is Foreign,
        outbox.loaded_record(record, record::fault(record, outbox.scope), channel, written)
            == outbox,
{
}

/// Reading back a record of another relay or sender, or a valid one that has attempts left, asks
/// nothing of `write`: the file stays as it is, even where `write` must not be called at all.
pub proof fn law_untouched_files_are_not_written<
    W: Fn(&HostFinalDeliveryRecord) -> Result<(), String>,
>(write: W, record: RecordModel, scope: ScopeModel)
    requires
        record.relay_url != scope.relay_url || record.sender_pubkey != scope.sender_pubkey || (
        record::fault(record, scope) is None && !record.state.terminal()
            && record.logical_attempts < record::MAX_LOGICAL_RECEIPT_SUBMISSIONS),
    ensures
        outbox::can_rewrite(write, record, scope),
{
}

/// Reading back a record of this relay and sender fences all its source events, even
/// where the record is not valid or could not be written again; where it is not valid or
/// has used up its attempts it has ended, and where it has ended it holds no body.
pub proof fn law_loaded_records_are_fenced(
    outbox: OutboxModel,
    record: RecordModel,
    channel: Option<u128>,
    written: bool,
    id: Seq<char>,
)
    requires
        outbox.sound(),
        record.relay_url == outbox.scope.relay_url,
        record.sender_pubkey == outbox.scope.sender_pubkey,
    ensures
        ({
            let fault = record::fault(record, outbox.scope);
            let next = outbox.loaded_record(record, fault, channel, written);
            let kept = next.records[record.event_id];
            &&& next.sound()
            &&& next.records.contains_key(record.event_id)
            &&& record.source_event_ids.contains(id) ==> next.fenced.contains(id)
            &&& outbox.fenced.contains(id) ==> next.fenced.contains(id)
            &&& kept.source_event_ids == record.source_event_ids
            &&& fault is Some ==> kept.state is TerminalFailed
            &&& record.logical_attempts >= record::MAX_LOGICAL_RECEIPT_SUBMISSIONS
                ==> kept.state.terminal()
            &&& kept.state.terminal() ==> kept.event_bytes_b64 is None
            &&& fault is None && !record.state.terminal() && record.logical_attempts
                < record::MAX_LOGICAL_RECEIPT_SUBMISSIONS ==> kept == record
        }),
{
    record::law_scope_mismatch_is_exact(record, outbox.scope);
    let fault = record::fault(record, outbox.scope);
    let noted = outbox.with_issue(
        Some(record.event_id),
        channel,
        match outbox::load_plan(record, fault) {
            LoadPlan::Rewrite(_, reason) => reason,
            _ => Seq::empty(),
        },
    );
    assert(noted.sound()) by {
        assert forall|k: Seq<char>| #[trigger] noted.records.contains_key(k) implies {
            &&& noted.records[k].event_id == k
            &&& noted.admits(noted.records[k])
            &&& noted.records[k].source_event_ids.to_set().subset_of(noted.fenced)
        } by {
            assert(outbox.records.contains_key(k));
        }
    }
    assert(record.source_event_ids.to_set().contains(id) == record.source_event_ids.contains(id));
    match outbox::load_plan(record, fault) {
        LoadPlan::Rewrite(rewritten, _) => {
            crate::delivery::outbox::law_indexing_keeps_sound(outbox, rewritten);
            crate::delivery::outbox::law_indexing_keeps_sound(noted, rewritten);
        },
        _ => {
            crate::delivery::outbox::law_indexing_keeps_sound(outbox, record);
        },
    }
}

/// What a valid record is stored as, pending, scheduled for its retry, accepted or failed, is
/// read back as it was stored, with nothing written and all its source events fenced; only a
/// pending record that has used up its attempts is ended instead.
pub proof fn law_stored_records_survive_reopening(
    reopened: OutboxModel,
    record: RecordModel,
    channel: Option<u128>,
    written: bool,
    diagnostic: Seq<char>,
    id: Seq<char>,
)
    requires
        record::fault(record, reopened.scope) is None,
    ensures
        ({
            let read = |stored: RecordModel|
                reopened.loaded_record(
                    stored,
                    record::fault(stored, reopened.scope),
                    channel,
                    written,
                );
            let ended = record.terminalized(diagnostic);
            &&& !record.state.terminal() && record.logical_attempts
                < record::MAX_LOGICAL_RECEIPT_SUBMISSIONS ==> {
                &&& read(record) == reopened.indexed(record)
                &&& record::record_bytes(read(record).records[record.event_id])
                    == record::record_bytes(record)
            }
            &&& read(record.accepted()) == reopened.indexed(record.accepted())
            &&& read(ended) == reopened.indexed(ended)
            &&& record.source_event_ids.contains(id) ==> {
                &&& read(record.accepted()).fenced.contains(id)
                &&& read(ended).fenced.contains(id)
                &&& read(record).fenced.contains(id)
            }
        }),
{
    let ended = record.terminalized(diagnostic);
    assert(record::fault(record.accepted(), reopened.scope) is None);
    assert(record::fault(ended, reopened.scope) is None);
    assert(outbox::load_plan(record.accepted(), None) is Keep);
    assert(outbox::load_plan(ended, None) is Keep);
    if record.source_event_ids.contains(id) {
        assert(record.source_event_ids.to_set().contains(id));
    }
}

} // verus!
