//! What a delivery does in each of its phases, told by the fields of its record.
use vstd::prelude::*;

use crate::delivery::finalize;
use crate::delivery::finalize::{FinalReplyModel, PromptCompletion, PublishStage, ReplyOrigin, StopReason};
use crate::delivery::observe;
use crate::delivery::observe::FrameModel;
use crate::delivery::outbox;
use crate::delivery::outbox::{FinalReplyTarget, IssueModel, LoadPlan, OutboxModel};
use crate::delivery::record;
use crate::delivery::record::{RecordModel, ScopeModel};
use crate::delivery::recovery::{RecoveryActionModel, RecoveryModel};
use crate::delivery::run;
use crate::delivery::run::{
    ActionModel, DeliveryInput, HostFinalDeliveryDisposition, OutcomeModel, PhaseModel, RunModel,
    StepModel, TransitionModel,
};
use crate::json::JsonTree;
use crate::outside;
use crate::search;
use crate::text;

verus! {

/// Whether two records are of one reply: all that was fixed when it was kept is the same.
pub open spec fn same_reply(a: RecordModel, b: RecordModel) -> bool {
    &&& a.version == b.version
    &&& a.event_id == b.event_id
    &&& a.relay_url == b.relay_url
    &&& a.sender_pubkey == b.sender_pubkey
    &&& a.channel_id == b.channel_id
    &&& a.trigger_event_id == b.trigger_event_id
    &&& a.source_event_ids == b.source_event_ids
}

/// Whether `w` is `record` with one more attempt counted, to be sent now.
pub open spec fn counts_one_more(record: RecordModel, w: RecordModel) -> bool {
    &&& same_reply(record, w)
    &&& w.logical_attempts == record.logical_attempts + 1
    &&& w.event_bytes_b64 == record.event_bytes_b64
    &&& w.state is Pending
    &&& w.next_attempt_unix_ms is None
    &&& w.diagnostic is None
}

/// Whether `w` is `record` ended as failed for this reason, without its body.
pub open spec fn ends_as_failed(record: RecordModel, w: RecordModel, reason: Seq<char>) -> bool {
    &&& same_reply(record, w)
    &&& w.logical_attempts == record.logical_attempts
    &&& w.event_bytes_b64 is None
    &&& w.state is TerminalFailed
    &&& w.next_attempt_unix_ms is None
    &&& w.diagnostic == Some(reason)
}

/// Whether `w` is `record` ended as accepted, without its body.
pub open spec fn ends_as_accepted(record: RecordModel, w: RecordModel) -> bool {
    &&& same_reply(record, w)
    &&& w.logical_attempts == record.logical_attempts
    &&& w.event_bytes_b64 is None
    &&& w.state is Accepted
    &&& w.next_attempt_unix_ms is None
    &&& w.diagnostic is None
}

/// Whether `w` is `record` set to be sent again one second from `now`, with its body.
pub open spec fn waits_for_its_retry(record: RecordModel, w: RecordModel, now: u128) -> bool {
    &&& same_reply(record, w)
    &&& w.logical_attempts == record.logical_attempts
    &&& w.event_bytes_b64 == record.event_bytes_b64
    &&& w.state is AwaitingRetry
    &&& w.next_attempt_unix_ms == Some((now + 1000) as u128)
    &&& w.diagnostic == Some("relay_rejected_or_unconfirmed"@)
}

/// Whether a step asks for a record to be stored and changes nothing yet.
pub open spec fn asks_to_store(run: RunModel, outbox: OutboxModel, next: StepModel) -> bool {
    &&& next.action is Write
    &&& next.outbox == outbox
    &&& next.run.event_id == run.event_id
    &&& next.run.resumed == run.resumed
    &&& next.run.transitions == run.transitions
}

/// Whether a step hands out an outcome of `record` with these transitions.
pub open spec fn reports(
    run: RunModel,
    record: RecordModel,
    disposition: HostFinalDeliveryDisposition,
    transitions: Seq<TransitionModel>,
    next: StepModel,
) -> bool {
    &&& next.run.phase is Done
    &&& next.action == ActionModel::Finish {
        outcome: OutcomeModel {
            disposition,
            event_id: Some(record.event_id),
            channel_id: outside::uuid_value(record.channel_id),
            trigger_event_id: Some(record.trigger_event_id),
            resumed: run.resumed,
            transitions,
        },
    }
}

/// What a delivery does that looks at a valid record which has not ended and has attempts left,
/// however many it has made: it waits exactly where the retry time is still to come, and for
/// exactly that long; otherwise it asks to store the record with one more attempt counted. It
/// never closes such a record.
pub open spec fn takes_up(
    run: RunModel,
    outbox: OutboxModel,
    record: RecordModel,
    now: u128,
    next: StepModel,
) -> bool {
    let early = match record.next_attempt_unix_ms {
        Some(at) => at > now,
        None => false,
    };
    &&& early ==> {
        let left = record.next_attempt_unix_ms->0 - now;
        &&& next.action == (ActionModel::Wait {
            millis: if left <= u64::MAX {
                left as u64
            } else {
                u64::MAX
            },
        })
        &&& next.outbox == outbox
        &&& next.run.phase == (PhaseModel::Waiting { record })
        &&& next.run.transitions == run.transitions
    }
    &&& !early ==> {
        &&& asks_to_store(run, outbox, next)
        &&& counts_one_more(record, next.action->Write_record)
        &&& next.run.phase == (PhaseModel::Sending {
            record,
            sending: next.action->Write_record,
        })
    }
}

/// A delivery takes up every valid record that has not ended and has attempts left, whatever the
/// attempts made so far; one that has ended is only reported; one that is not there is told as
/// missing; one of another relay or sender is left alone; and one that is not valid, or has used
/// up both its attempts, is closed.
pub proof fn law_open_records_are_taken_up(run: RunModel, outbox: OutboxModel, now: u128)
    requires
        outbox.sound(),
        run.phase is Start,
    ensures
        ({
            let next = run.step(outbox, DeliveryInput::Proceed, now);
            let record = outbox.records[run.event_id];
            let fault = record::fault(record, outbox.scope);
            &&& !outbox.records.contains_key(run.event_id) ==> {
                &&& next.outbox == outbox
                &&& next.run.phase is Done
                &&& next.action is Finish
                &&& next.action->Finish_outcome.disposition is TerminalFailed
                &&& next.action->Finish_outcome.event_id == Some(run.event_id)
                &&& next.action->Finish_outcome.resumed == run.resumed
                &&& next.action->Finish_outcome.transitions == run.transitions.push(
                    TransitionModel::Terminal { reason: "outbox_record_missing"@ },
                )
            }
            &&& outbox.records.contains_key(run.event_id) ==> {
                &&& record.state is Accepted ==> next.outbox == outbox && reports(
                    run,
                    record,
                    HostFinalDeliveryDisposition::Accepted,
                    run.transitions,
                    next,
                )
                &&& record.state is TerminalFailed ==> next.outbox == outbox && reports(
                    run,
                    record,
                    HostFinalDeliveryDisposition::TerminalFailed,
                    run.transitions,
                    next,
                )
                &&& (record.state is Pending || record.state is AwaitingRetry) && fault is None
                    && record.logical_attempts < 2 ==> takes_up(run, outbox, record, now, next)
                &&& (record.state is Pending || record.state is AwaitingRetry) && fault is None
                    && record.logical_attempts >= 2 ==> asks_to_store(run, outbox, next)
                    && ends_as_failed(
                    record,
                    next.action->Write_record,
                    "retry_budget_exhausted"@,
                )
                &&& (record.state is Pending || record.state is AwaitingRetry) && (fault matches
                    Some(f) && f != "record_scope_mismatch"@) ==> asks_to_store(run, outbox, next)
                    && ends_as_failed(
                    record,
                    next.action->Write_record,
                    "record_validation_failed"@,
                )
            }
        }),
{
}

/// Once the wait is over the attempt is counted, whatever time it is.
pub proof fn law_a_wait_ends_with_an_attempt(run: RunModel, outbox: OutboxModel, now: u128)
    requires
        run.phase is Waiting,
        run.phase->Waiting_record.logical_attempts < 2,
    ensures
        ({
            let next = run.step(outbox, DeliveryInput::Proceed, now);
            &&& asks_to_store(run, outbox, next)
            &&& counts_one_more(run.phase->Waiting_record, next.action->Write_record)
            &&& next.run.phase == (PhaseModel::Sending {
                record: run.phase->Waiting_record,
                sending: next.action->Write_record,
            })
        }),
{
}

/// A counted attempt is made: the bytes that the record keeps are handed over, the record stands
/// in the outbox as it was counted, and the attempt is told by its number. Where it could not be
/// stored nothing is handed over and nothing has changed.
pub proof fn law_counted_attempts_are_made(run: RunModel, outbox: OutboxModel, now: u128)
    requires
        run.phase is Sending,
        record::record_bytes(run.phase->Sending_sending) is Ok,
    ensures
        ({
            let sending = run.phase->Sending_sending;
            let made = run.step(outbox, DeliveryInput::Written { ok: true }, now);
            let failed = run.step(outbox, DeliveryInput::Written { ok: false }, now);
            &&& made.action == (ActionModel::Submit {
                bytes: record::record_bytes(sending)->Ok_0,
            })
            &&& made.outbox.records == outbox.records.insert(sending.event_id, sending)
            &&& made.run.phase == (PhaseModel::Submitting {
                record: run.phase->Sending_record,
                sending,
            })
            &&& made.run.transitions == run.transitions.push(
                TransitionModel::Attempt { attempt: sending.logical_attempts },
            )
            &&& failed.outbox == outbox
            &&& reports(
                run,
                run.phase->Sending_record,
                HostFinalDeliveryDisposition::TerminalFailed,
                run.transitions.push(
                    TransitionModel::Terminal { reason: "persist_before_send_failed"@ },
                ),
                failed,
            )
        }),
{
}

/// What the relay confirms is stored as accepted. What it does not confirm is set to be sent again
/// in one second, as long as an attempt is left, and is ended otherwise.
pub proof fn law_answers_of_the_relay_are_stored(run: RunModel, outbox: OutboxModel, now: u128)
    requires
        run.phase is Submitting,
    ensures
        ({
            let sending = run.phase->Submitting_sending;
            let yes = run.step(outbox, DeliveryInput::Submitted { accepted: true }, now);
            let no = run.step(outbox, DeliveryInput::Submitted { accepted: false }, now);
            &&& asks_to_store(run, outbox, yes)
            &&& ends_as_accepted(sending, yes.action->Write_record)
            &&& yes.run.phase == (PhaseModel::Accepting { accepted: yes.action->Write_record })
            &&& asks_to_store(run, outbox, no)
            &&& sending.logical_attempts < 2 ==> {
                &&& waits_for_its_retry(sending, no.action->Write_record, now)
                &&& no.run.phase == (PhaseModel::Retrying {
                    record: run.phase->Submitting_record,
                    retry: no.action->Write_record,
                })
            }
            &&& sending.logical_attempts >= 2 ==> {
                &&& ends_as_failed(
                    sending,
                    no.action->Write_record,
                    "relay_rejected_or_unconfirmed"@,
                )
                &&& no.run.phase == (PhaseModel::Closing {
                    terminal: no.action->Write_record,
                    reason: "relay_rejected_or_unconfirmed"@,
                })
            }
        }),
{
}

/// A stored acceptance is reported as acceptance, and stands in the outbox; one that could not be
/// stored is told as failed, and leaves the outbox as it was.
pub proof fn law_stored_acceptance_is_reported(run: RunModel, outbox: OutboxModel, now: u128)
    requires
        run.phase is Accepting,
    ensures
        ({
            let accepted = run.phase->Accepting_accepted;
            let stored = run.step(outbox, DeliveryInput::Written { ok: true }, now);
            let failed = run.step(outbox, DeliveryInput::Written { ok: false }, now);
            &&& stored.outbox.records == outbox.records.insert(accepted.event_id, accepted)
            &&& reports(
                run,
                accepted,
                HostFinalDeliveryDisposition::Accepted,
                run.transitions.push(
                    TransitionModel::Accepted { attempt: accepted.logical_attempts },
                ),
                stored,
            )
            &&& failed.outbox == outbox
            &&& reports(
                run,
                accepted,
                HostFinalDeliveryDisposition::TerminalFailed,
                run.transitions.push(
                    TransitionModel::Terminal { reason: "persist_accepted_failed"@ },
                ),
                failed,
            )
        }),
{
}

/// A record that is closed is told as failed, for its reason where that was stored.
pub proof fn law_closed_records_are_reported_as_failed(run: RunModel, outbox: OutboxModel, now: u128)
    requires
        run.phase is Closing,
    ensures
        ({
            let terminal = run.phase->Closing_terminal;
            let stored = run.step(outbox, DeliveryInput::Written { ok: true }, now);
            let failed = run.step(outbox, DeliveryInput::Written { ok: false }, now);
            &&& stored.outbox.records == outbox.records.insert(terminal.event_id, terminal)
            &&& reports(
                run,
                terminal,
                HostFinalDeliveryDisposition::TerminalFailed,
                run.transitions.push(
                    TransitionModel::Terminal { reason: run.phase->Closing_reason },
                ),
                stored,
            )
            &&& failed.outbox == outbox
            &&& reports(
                run,
                terminal,
                HostFinalDeliveryDisposition::TerminalFailed,
                run.transitions.push(
                    TransitionModel::Terminal { reason: "persist_terminal_failed"@ },
                ),
                failed,
            )
        }),
{
}

/// A retry that was stored is taken up as any open record is, in the same delivery; one that could
/// not be stored ends the delivery and leaves the outbox as it was.
pub proof fn law_stored_retries_are_taken_up(run: RunModel, outbox: OutboxModel, now: u128)
    requires
        run.phase is Retrying,
        run.phase->Retrying_retry.event_id == run.event_id,
        run.phase->Retrying_retry.state is AwaitingRetry,
        run.phase->Retrying_retry.logical_attempts < 2,
        record::fault(run.phase->Retrying_retry, outbox.scope) is None,
    ensures
        ({
            let retry = run.phase->Retrying_retry;
            let stored = run.step(outbox, DeliveryInput::Written { ok: true }, now);
            let failed = run.step(outbox, DeliveryInput::Written { ok: false }, now);
            let told = RunModel {
                transitions: run.transitions.push(
                    TransitionModel::RetryScheduled { attempt: retry.logical_attempts },
                ),
                ..run
            };
            &&& stored.outbox.records == outbox.records.insert(retry.event_id, retry)
            &&& takes_up(told, stored.outbox, retry, now, stored)
            &&& failed.outbox == outbox
            &&& reports(
                run,
                run.phase->Retrying_record,
                HostFinalDeliveryDisposition::TerminalFailed,
                run.transitions.push(TransitionModel::Terminal { reason: "persist_retry_failed"@ }),
                failed,
            )
        }),
{
}

/// Putting a record in the outbox puts it under its event id, fences its sources, and changes
/// nothing else.
pub proof fn law_indexing_changes_one_record(m: OutboxModel, record: RecordModel, source: Seq<char>, id: Seq<char>)
    ensures
        ({
            let n = m.indexed(record);
            &&& n.records.contains_key(record.event_id) && n.records[record.event_id] == record
            &&& id != record.event_id ==> n.records.contains_key(id) == m.records.contains_key(id)
            &&& id != record.event_id && m.records.contains_key(id) ==> n.records[id]
                == m.records[id]
            &&& n.fenced.contains(source) <==> m.fenced.contains(source)
                || record.source_event_ids.contains(source)
            &&& n.salvaged == m.salvaged
            &&& n.scope == m.scope
            &&& n.issues == m.issues
        }),
{
    assert(record.source_event_ids.to_set().contains(source) == record.source_event_ids.contains(
        source,
    ));
}

/// A record is valid in a scope exactly where it is of that relay and sender and of the one
/// version, its ids are well formed, it has made two attempts at most, it names its sources and
/// its trigger is one of them, its channel is one, an ended record waits for no retry, and it has
/// a body unless it has ended; and where it has one, that is the signed event of its id and
/// sender, and verifies. How many attempts it has made, and when it is to be sent, is no fault.
pub proof fn law_valid_records(record: RecordModel, scope: ScopeModel)
    ensures
        record::fault(record, scope) is None <==> {
            &&& record.relay_url == scope.relay_url
            &&& record.sender_pubkey == scope.sender_pubkey
            &&& record.version == 1
            &&& text::hex_event_id(record.event_id)
            &&& record.logical_attempts <= 2
            &&& record.source_event_ids.len() > 0
            &&& text::hex_event_id(record.trigger_event_id)
            &&& outside::uuid_value(record.channel_id) is Some
            &&& forall|i: int|
                0 <= i < record.source_event_ids.len() ==> text::hex_event_id(
                    #[trigger] record.source_event_ids[i],
                )
            &&& exists|i: int|
                0 <= i < record.source_event_ids.len() && text::hex_decode(
                    #[trigger] record.source_event_ids[i],
                ) == text::hex_decode(record.trigger_event_id)
            &&& (record.state is Accepted || record.state is TerminalFailed)
                ==> record.next_attempt_unix_ms is None
            &&& record.event_bytes_b64 is None ==> record.state is Accepted || record.state is
                TerminalFailed
            &&& record.event_bytes_b64 matches Some(encoded) ==> {
                &&& outside::base64_bytes(encoded) matches Some(bytes) && outside::event_fields(
                    bytes,
                ) == Some((text::hex_decode(record.event_id), record.sender_pubkey))
                    && outside::event_verifies(bytes)
            }
        },
        record::MAX_LOGICAL_RECEIPT_SUBMISSIONS == 2,
        run::DELIVERY_RETRY_DELAY_MS == 1000,
{
    let ids = record.source_event_ids;
    assert(record::ids_well_formed(ids) <==> forall|i: int|
        0 <= i < ids.len() ==> text::hex_event_id(#[trigger] ids[i]));
    assert(record::claims(ids, record.trigger_event_id) <==> exists|i: int|
        0 <= i < ids.len() && text::hex_decode(#[trigger] ids[i]) == text::hex_decode(
            record.trigger_event_id,
        ));
}

/// The bytes of a record are what its text decodes to; without a text, or with one that does not
/// decode, there are none.
pub proof fn law_record_bytes_are_its_text_decoded(record: RecordModel, bytes: Seq<u8>)
    ensures
        record::record_bytes(record) == Ok::<Seq<u8>, Seq<char>>(bytes) <==> (
        record.event_bytes_b64 matches Some(encoded) && outside::base64_bytes(encoded) == Some(
            bytes,
        )),
        record.event_bytes_b64 is None ==> record::record_bytes(record) == Err::<
            Seq<u8>,
            Seq<char>,
        >("record_body_missing"@),
        record.event_bytes_b64 is Some && outside::base64_bytes(record.event_bytes_b64->0) is None
            ==> record::record_bytes(record) == Err::<Seq<u8>, Seq<char>>("record_bytes_invalid"@),
{
}

/// A signed event is kept pending, with its bytes, under its own id, in the outbox's scope, for
/// its target's channel and trigger, with all its sources and no attempt made. It is refused
/// exactly where it names no source, is not valid, or its id is taken.
pub proof fn law_signed_events_are_kept_whole(
    m: OutboxModel,
    event_id: Seq<u8>,
    event_bytes: Seq<u8>,
    target: FinalReplyTarget,
    source_event_ids: Seq<[u8; 32]>,
    i: int,
)
    ensures
        ({
            let r = outbox::signed_record(m.scope, event_id, event_bytes, target, source_event_ids);
            let fault = record::fault(r, m.scope);
            let refusal = outbox::persist_refusal(m, r, fault);
            &&& r.version == 1
            &&& r.event_id == text::hex_encode(event_id)
            &&& r.event_bytes_b64 == Some(outside::base64_text(event_bytes))
            &&& r.relay_url == m.scope.relay_url
            &&& r.sender_pubkey == m.scope.sender_pubkey
            &&& r.channel_id == outside::uuid_text(target.channel_id)
            &&& r.trigger_event_id == text::hex_encode(target.trigger_event_id@)
            &&& r.source_event_ids.len() == source_event_ids.len()
            &&& 0 <= i < source_event_ids.len() ==> r.source_event_ids[i] == text::hex_encode(
                source_event_ids[i]@,
            )
            &&& r.logical_attempts == 0
            &&& r.state is Pending
            &&& r.next_attempt_unix_ms is None
            &&& r.diagnostic is None
            &&& refusal is None <==> source_event_ids.len() > 0 && fault is None
                && !m.records.contains_key(text::hex_encode(event_id))
            &&& source_event_ids.len() == 0 ==> refusal == Some("host_final_missing_source_events"@)
            &&& source_event_ids.len() > 0 && fault is Some ==> refusal == fault
            &&& source_event_ids.len() > 0 && fault is None && m.records.contains_key(
                text::hex_encode(event_id),
            ) ==> refusal == Some("host_final_duplicate_event_id"@)
        }),
{
}

/// A record that is read back is left alone exactly where it is of another relay or sender; it is
/// ended exactly where it is not valid or has used up its attempts without having ended; it loses
/// its body where it has ended with one; and in every other case, and so wherever it is valid and
/// has attempts left, it is kept as it is.
pub proof fn law_read_records_are_kept_or_ended(record: RecordModel, scope: ScopeModel)
    ensures
        ({
            let own = record.relay_url == scope.relay_url && record.sender_pubkey
                == scope.sender_pubkey;
            let fault = record::fault(record, scope);
            let over = record.state is Accepted || record.state is TerminalFailed;
            let plan = outbox::load_plan(record, fault);
            &&& plan is Foreign <==> !own
            &&& own && (fault is Some || record.logical_attempts > 2 || (record.logical_attempts == 2
                && !over)) ==> (plan matches LoadPlan::Rewrite(w, reason) && reason
                == "persist_terminal_failed"@ && ends_as_failed(
                record,
                w,
                "record_validation_or_retry_budget_failed"@,
            ))
            &&& own && fault is None && over && record.event_bytes_b64 is Some ==> (plan matches
                LoadPlan::Rewrite(w, reason) && reason == "persist_terminal_compaction_failed"@
                && w == RecordModel { event_bytes_b64: None, next_attempt_unix_ms: None, ..record })
            &&& own && fault is None && (over ==> record.event_bytes_b64 is None) && (!over
                ==> record.logical_attempts < 2) ==> plan is Keep
        }),
{
    record::law_scope_mismatch_is_exact(record, scope);
}

/// What is left of a file that holds no record: the texts that it lists as its sources, all of
/// them and in their order, unless it names another relay or sender.
pub proof fn law_sources_are_salvaged(tree: JsonTree, scope: ScopeModel) -> (at: Seq<int>)
    ensures
        ({
            let listed = tree.member("source_event_ids"@).items();
            let foreign = (tree.member("relay_url"@).text() matches Some(u) && u
                != scope.relay_url) || (tree.member("sender_pubkey"@).text() matches Some(k) && k
                != scope.sender_pubkey);
            let ids = outbox::salvaged_ids(Some(tree), scope);
            &&& foreign ==> ids.len() == 0
            &&& search::places(listed, |v: JsonTree| v is Text, at)
            &&& !foreign ==> ids.len() == at.len() && forall|k: int|
                0 <= k < at.len() ==> listed[#[trigger] at[k]] == JsonTree::Text(ids[k])
            &&& outbox::salvaged_ids(None, scope).len() == 0
        }),
{
    texts_have_places(tree.member("source_event_ids"@).items())
}

proof fn texts_have_places(values: Seq<JsonTree>) -> (at: Seq<int>)
    ensures
        search::places(values, |v: JsonTree| v is Text, at),
        outbox::texts_among(values).len() == at.len(),
        forall|k: int|
            0 <= k < at.len() ==> values[#[trigger] at[k]] == JsonTree::Text(
                outbox::texts_among(values)[k],
            ),
    decreases values.len(),
{
    let p = |v: JsonTree| v is Text;
    if values.len() == 0 {
        Seq::empty()
    } else {
        let rest = texts_have_places(values.drop_last());
        search::places_extend(values, p, rest);
        if p(values.last()) {
            rest.push(values.len() - 1)
        } else {
            rest
        }
    }
}

/// A record is kept in the file named by its event id, where that is well formed; and a file's
/// stem gives an event id exactly where it is written as one.
pub proof fn law_files_are_named_by_event_ids(id: Seq<char>)
    ensures
        text::hex_event_id(id) ==> outbox::file_name(id) == Some(id + ".json"@),
        !text::hex_event_id(id) ==> outbox::file_name(id) is None,
        text::hex_event_id(id) ==> outbox::stem_event_id(Some(id)) == Some(id),
        !text::hex_event_id(id) ==> outbox::stem_event_id(Some(id)) is None,
        outbox::stem_event_id(None) is None,
{
}

/// A file that cannot be read, or holds no record, is noted with the event id that its name
/// gives, and changes no record.
pub proof fn law_unusable_files_are_noted(m: OutboxModel, stem: Option<Seq<char>>, bytes: Seq<u8>, written: bool)
    ensures
        ({
            let unread = m.loaded(stem, outbox::ContentModel::Unreadable, written);
            let corrupt = m.loaded(stem, outbox::ContentModel::Corrupt(bytes), written);
            &&& unread.records == m.records && corrupt.records == m.records
            &&& unread.fenced == m.fenced && unread.scope == m.scope && corrupt.scope == m.scope
            &&& unread.issues == m.issues.push(
                IssueModel {
                    event_id: outbox::stem_event_id(stem),
                    channel_id: None,
                    reason: "outbox_record_unreadable"@,
                },
            )
            &&& corrupt.issues == m.issues.push(
                IssueModel {
                    event_id: outbox::stem_event_id(stem),
                    channel_id: None,
                    reason: "outbox_record_corrupt"@,
                },
            )
            &&& forall|id: Seq<char>| #[trigger]
                corrupt.fenced.contains(id) <==> m.fenced.contains(id) || outbox::salvaged_ids(
                    outside::json_value(bytes),
                    m.scope,
                ).contains(id)
        }),
{
    let ids = outbox::salvaged_ids(outside::json_value(bytes), m.scope);
    assert forall|id: Seq<char>| ids.to_set().contains(id) == #[trigger] ids.contains(id) by {}
}

/// Every frame of an outcome names its event, its trigger, its channel and whether it was taken
/// up again. An attempt, an acceptance and an end are told by one frame each; a retry by two, the
/// failure of its attempt and its delay.
pub proof fn law_transitions_are_told(outcome: OutcomeModel, attempt: u8, reason: Seq<char>)
    ensures
        ({
            let base = |kind: Seq<char>|
                FrameModel {
                    kind,
                    event_id: outcome.event_id,
                    trigger_event_id: outcome.trigger_event_id,
                    channel_id: match outcome.channel_id {
                        Some(c) => Some(outside::uuid_text(c)),
                        None => None,
                    },
                    resumed: outcome.resumed,
                    attempt: None,
                    reason: None,
                    will_retry: None,
                    delay_ms: None,
                };
            &&& observe::transition_frames(outcome, TransitionModel::Attempt { attempt }) == seq![
                FrameModel { attempt: Some(attempt), ..base("reply_delivery_attempt"@) },
            ]
            &&& observe::transition_frames(outcome, TransitionModel::Accepted { attempt }) == seq![
                FrameModel { attempt: Some(attempt), ..base("reply_delivery_accepted"@) },
            ]
            &&& observe::transition_frames(outcome, TransitionModel::Terminal { reason }) == seq![
                FrameModel { reason: Some(reason), ..base("reply_delivery_terminal"@) },
            ]
            &&& observe::transition_frames(outcome, TransitionModel::RetryScheduled { attempt })
                == seq![
                FrameModel {
                    attempt: Some(attempt),
                    reason: Some("relay_rejected_or_unconfirmed"@),
                    will_retry: Some(true),
                    ..base("reply_delivery_failed"@)
                },
                FrameModel {
                    attempt: Some(attempt),
                    delay_ms: Some(1000),
                    ..base("reply_delivery_retry_scheduled"@)
                },
            ]
        }),
{
}

/// The frames of an outcome are those of its transitions, one after the other: the first ones do
/// not depend on what follows, and each transition adds its own frames behind them.
pub proof fn law_frames_follow_the_transitions(outcome: OutcomeModel, n: int)
    requires
        0 <= n < outcome.transitions.len(),
    ensures
        observe::frames_until(outcome, 0).len() == 0,
        observe::frames_until(outcome, n + 1).take(
            observe::frames_until(outcome, n).len() as int,
        ) == observe::frames_until(outcome, n),
        observe::frames_until(outcome, n + 1).skip(
            observe::frames_until(outcome, n).len() as int,
        ) == observe::transition_frames(outcome, outcome.transitions[n]),
{
    let before = observe::frames_until(outcome, n);
    let own = observe::transition_frames(outcome, outcome.transitions[n]);
    assert(observe::frames_until(outcome, n + 1) == before + own);
    assert((before + own).take(before.len() as int) =~= before);
    assert((before + own).skip(before.len() as int) =~= own);
}

/// A load issue is told as a delivery that was taken up again and failed for its reason, one
/// outcome for each issue, in their order; and the frame of a delivery that is taken up names its
/// record.
pub proof fn law_issues_and_recoveries_are_told(issues: Seq<IssueModel>, i: int, record: RecordModel)
    requires
        0 <= i < issues.len(),
    ensures
        observe::issue_outcomes(issues).len() == issues.len(),
        ({
            let o = observe::issue_outcomes(issues)[i];
            &&& o.disposition is TerminalFailed
            &&& o.event_id == issues[i].event_id
            &&& o.channel_id == issues[i].channel_id
            &&& o.trigger_event_id is None
            &&& o.resumed
            &&& o.transitions == seq![TransitionModel::Terminal { reason: issues[i].reason }]
        }),
        ({
            let f = observe::recovery_frame(record);
            &&& f.kind == "reply_delivery_recovery_resumed"@
            &&& f.event_id == Some(record.event_id)
            &&& f.trigger_event_id == Some(record.trigger_event_id)
            &&& f.channel_id == Some(record.channel_id)
            &&& f.resumed
            &&& f.attempt is None && f.reason is None && f.will_retry is None && f.delay_ms is None
        }),
{
}

/// A reply is published wherever it can be: the host publishes, the turn ended normally or by a
/// refusal, the prompt came from a conversation that can be answered, and the reply has more than
/// white space and at most 65536 bytes. It is published as it stands, and mentions the author of
/// the prompt unless that is the agent itself. What stands in its way is told, each by its reason.
pub proof fn law_whole_replies_are_published(
    origin: ReplyOrigin,
    target: FinalReplyTarget,
    completion: PromptCompletion,
    own_pubkey: Seq<char>,
)
    requires
        completion.stop_reason == StopReason::EndTurn || completion.stop_reason
            == StopReason::Refusal,
        origin matches ReplyOrigin::Target(t) ==> *t == target,
    ensures
        ({
            let step = finalize::final_reply_step(true, origin, completion, own_pubkey);
            &&& origin is Target ==> match completion.final_reply {
                Some(reply) => {
                    &&& text::blank(reply@) ==> step == FinalReplyModel::Terminal(
                        run::recordless_outcome(Some(target), "missing_or_blank_final_reply"@),
                    )
                    &&& !text::blank(reply@) && vstd::utf8::encode_utf8(reply@).len() > 65536
                        ==> step == FinalReplyModel::Terminal(
                        run::recordless_outcome(Some(target), "final_reply_too_large"@),
                    )
                    &&& !text::blank(reply@) && vstd::utf8::encode_utf8(reply@).len() <= 65536
                        ==> step == (FinalReplyModel::Publish {
                        content: reply@,
                        mention: if target.trigger_author@ == own_pubkey {
                            None
                        } else {
                            Some(target.trigger_author@)
                        },
                    })
                },
                None => step == FinalReplyModel::Terminal(
                    run::recordless_outcome(Some(target), "missing_or_blank_final_reply"@),
                ),
            }
            &&& origin is Absent ==> step is NotApplicable
            &&& origin is Invalid ==> step == FinalReplyModel::Terminal(
                run::recordless_outcome(None, "invalid_origin"@),
            )
        }),
{
}

/// No reply is due where the host publishes none, or where the turn was cancelled or cut off.
pub proof fn law_unfinished_turns_have_no_reply(
    host_publishes: bool,
    origin: ReplyOrigin,
    completion: PromptCompletion,
    own_pubkey: Seq<char>,
)
    requires
        !host_publishes || completion.stop_reason == StopReason::Cancelled || completion.stop_reason
            == StopReason::MaxTokens || completion.stop_reason == StopReason::MaxTurnRequests,
    ensures
        finalize::final_reply_step(host_publishes, origin, completion, own_pubkey) is NotApplicable,
{
}

/// What fails before a record is kept is told as failed, for its reason, with the target's channel
/// and trigger and without an event; each stage of publication has a reason of its own, and each
/// word for the end of a turn stands for one reason.
pub proof fn law_failures_before_a_record_are_told(target: FinalReplyTarget, reason: Seq<char>, word: Seq<char>)
    ensures
        ({
            let o = run::recordless_outcome(Some(target), reason);
            &&& o.disposition is TerminalFailed
            &&& o.event_id is None
            &&& o.channel_id == Some(target.channel_id)
            &&& o.trigger_event_id == Some(text::hex_encode(target.trigger_event_id@))
            &&& !o.resumed
            &&& o.transitions == seq![TransitionModel::Terminal { reason }]
            &&& run::recordless_outcome(None, reason).channel_id is None
            &&& run::recordless_outcome(None, reason).trigger_event_id is None
            &&& run::recordless_outcome(None, reason).transitions == o.transitions
        }),
        finalize::stage_reason(PublishStage::Build) == "build_failed"@,
        finalize::stage_reason(PublishStage::Sign) == "sign_failed"@,
        finalize::stage_reason(PublishStage::Serialize) == "serialize_failed"@,
        finalize::stage_reason(PublishStage::Persist) == "outbox_persist_failed"@,
        finalize::stop_reason(word) == Some(StopReason::EndTurn) <==> word == "end_turn"@,
        finalize::stop_reason(word) == Some(StopReason::Cancelled) <==> word == "cancelled"@,
        finalize::stop_reason(word) == Some(StopReason::MaxTokens) <==> word == "max_tokens"@,
        finalize::stop_reason(word) == Some(StopReason::MaxTurnRequests) <==> word
            == "max_turn_requests"@,
        finalize::stop_reason(word) == Some(StopReason::Refusal) <==> word == "refusal"@,
{
    reveal_strlit("end_turn");
    reveal_strlit("cancelled");
    reveal_strlit("max_tokens");
    reveal_strlit("max_turn_requests");
    reveal_strlit("refusal");
    assert("max_tokens"@.len() == 10 && "max_turn_requests"@.len() == 17);
    assert("end_turn"@.len() == 8 && "cancelled"@.len() == 9 && "refusal"@.len() == 7);
}

/// A record of another relay or sender that has not ended is left alone: nothing is stored or
/// handed over, and it is told as skipped. One that is missing is told without channel or
/// trigger.
pub proof fn law_foreign_and_missing_records_are_only_told(
    run: RunModel,
    outbox: OutboxModel,
    now: u128,
)
    requires
        run.phase is Start,
    ensures
        ({
            let next = run.step(outbox, DeliveryInput::Proceed, now);
            let record = outbox.records[run.event_id];
            &&& outbox.records.contains_key(run.event_id) && (record.state is Pending
                || record.state is AwaitingRetry) && (record.relay_url != outbox.scope.relay_url
                || record.sender_pubkey != outbox.scope.sender_pubkey) ==> next.outbox == outbox
                && reports(
                run,
                record,
                HostFinalDeliveryDisposition::TerminalFailed,
                run.transitions.push(
                    TransitionModel::Terminal { reason: "record_scope_mismatch_skipped"@ },
                ),
                next,
            )
            &&& !outbox.records.contains_key(run.event_id) ==> next.action is Finish
                && next.action->Finish_outcome.channel_id is None
                && next.action->Finish_outcome.trigger_event_id is None
        }),
{
}

/// A counted record whose bytes cannot be had is closed in place of being sent.
pub proof fn law_unreadable_bytes_are_not_sent(run: RunModel, outbox: OutboxModel, now: u128)
    requires
        run.phase is Sending,
        record::record_bytes(run.phase->Sending_sending) is Err,
    ensures
        ({
            let sending = run.phase->Sending_sending;
            let next = run.step(outbox, DeliveryInput::Written { ok: true }, now);
            &&& next.action is Write
            &&& ends_as_failed(sending, next.action->Write_record, "record_validation_failed"@)
            &&& next.run.phase == (PhaseModel::Closing {
                terminal: next.action->Write_record,
                reason: "record_validation_failed"@,
            })
            &&& next.outbox.records == outbox.records.insert(sending.event_id, sending)
        }),
{
}

/// What is wrong with a record is told by the first of its faults: that it is of another relay or
/// sender, that its metadata are not valid, its trigger's id, its channel, the id of a source,
/// that its trigger is none of its sources, that it has ended and yet waits for a retry, that it
/// has no body and has not ended, and then what is wrong with its body.
pub proof fn law_faults_are_named_in_order(record: RecordModel, scope: ScopeModel)
    ensures
        ({
            let f = record::fault(record, scope);
            let over = record.state is Accepted || record.state is TerminalFailed;
            let own = record.relay_url == scope.relay_url && record.sender_pubkey
                == scope.sender_pubkey;
            let plain = record.version == 1 && text::hex_event_id(record.event_id)
                && record.logical_attempts <= 2 && record.source_event_ids.len() > 0;
            let trigger = text::hex_event_id(record.trigger_event_id);
            let channel = outside::uuid_value(record.channel_id) is Some;
            let sources = forall|i: int|
                0 <= i < record.source_event_ids.len() ==> text::hex_event_id(
                    #[trigger] record.source_event_ids[i],
                );
            let claimed = exists|i: int|
                0 <= i < record.source_event_ids.len() && text::hex_decode(
                    #[trigger] record.source_event_ids[i],
                ) == text::hex_decode(record.trigger_event_id);
            let head = own && plain && trigger && channel && sources && claimed;
            let body = head && !(over && record.next_attempt_unix_ms is Some);
            &&& !own ==> f == Some("record_scope_mismatch"@)
            &&& own && !plain ==> f == Some("record_metadata_invalid"@)
            &&& own && plain && !trigger ==> f == Some("record_trigger_id_invalid"@)
            &&& own && plain && trigger && !channel ==> f == Some("record_channel_id_invalid"@)
            &&& own && plain && trigger && channel && !sources ==> f == Some(
                "record_source_id_invalid"@,
            )
            &&& own && plain && trigger && channel && sources && !claimed ==> f == Some(
                "record_trigger_not_claimed"@,
            )
            &&& head && over && record.next_attempt_unix_ms is Some ==> f == Some(
                "record_terminal_retry_scheduled"@,
            )
            &&& body && !over && record.event_bytes_b64 is None ==> f == Some(
                "record_body_missing"@,
            )
            &&& body && record.event_bytes_b64 is Some ==> match outside::base64_bytes(
                record.event_bytes_b64->0,
            ) {
                None => f == Some("record_bytes_invalid"@),
                Some(bytes) => {
                    &&& outside::event_fields(bytes) is None ==> f == Some(
                        "record_event_invalid"@,
                    )
                    &&& outside::event_fields(bytes) is Some && !(outside::event_fields(bytes)
                        == Some((text::hex_decode(record.event_id), record.sender_pubkey))
                        && outside::event_verifies(bytes)) ==> f == Some(
                        "record_signature_invalid"@,
                    )
                },
            }
        }),
{
    let ids = record.source_event_ids;
    assert(record::ids_well_formed(ids) <==> forall|i: int|
        0 <= i < ids.len() ==> text::hex_event_id(#[trigger] ids[i]));
    assert(record::claims(ids, record.trigger_event_id) <==> exists|i: int|
        0 <= i < ids.len() && text::hex_decode(#[trigger] ids[i]) == text::hex_decode(
            record.trigger_event_id,
        ));
}

/// A record that is read back stands in the outbox as it was stored, where it is valid and may
/// go on; ended, where it may not; and not at all where it is of another relay or sender. A load
/// issue is noted exactly where a record had to be written again and could not be, with its event
/// and its channel. Its sources are fenced wherever it stands.
pub proof fn law_read_records_stand_in_the_outbox(
    m: OutboxModel,
    stem: Option<Seq<char>>,
    record: RecordModel,
    written: bool,
)
    ensures
        ({
            let n = m.loaded(stem, outbox::ContentModel::Record(record), written);
            let own = record.relay_url == m.scope.relay_url && record.sender_pubkey
                == m.scope.sender_pubkey;
            let fault = record::fault(record, m.scope);
            let over = record.state is Accepted || record.state is TerminalFailed;
            let valid = fault is None && (over || record.logical_attempts < 2);
            let kept = valid && !(over && record.event_bytes_b64 is Some);
            &&& !own ==> n == m
            &&& own ==> {
                &&& n.records.dom() == m.records.dom().insert(record.event_id)
                &&& forall|id: Seq<char>|
                    m.records.contains_key(id) && id != record.event_id
                        ==> #[trigger] n.records[id] == m.records[id]
                &&& n.fenced == m.fenced.union(record.source_event_ids.to_set())
                &&& n.salvaged == m.salvaged && n.scope == m.scope
            }
            &&& own && kept ==> n.records[record.event_id] == record && n.issues == m.issues
            &&& own && valid && !kept ==> n.records[record.event_id] == RecordModel {
                event_bytes_b64: None,
                next_attempt_unix_ms: None,
                ..record
            }
            &&& own && !valid ==> ends_as_failed(
                record,
                n.records[record.event_id],
                "record_validation_or_retry_budget_failed"@,
            )
            &&& own && !kept && written ==> n.issues == m.issues
            &&& own && !kept && !written ==> n.issues == m.issues.push(
                IssueModel {
                    event_id: Some(record.event_id),
                    channel_id: outside::uuid_value(record.channel_id),
                    reason: if valid {
                        "persist_terminal_compaction_failed"@
                    } else {
                        "persist_terminal_failed"@
                    },
                },
            )
        }),
{
    law_read_records_are_kept_or_ended(record, m.scope);
    law_valid_records(record, m.scope);
    let n = m.loaded(stem, outbox::ContentModel::Record(record), written);
    if record.relay_url == m.scope.relay_url && record.sender_pubkey == m.scope.sender_pubkey {
        assert(n.records.dom() =~= m.records.dom().insert(record.event_id));
    }
}

/// A recovery takes up the pending deliveries one after the other, each as a resumed delivery of
/// its event from the start, announced where its record is there; it hands on what the delivery
/// under way asks for, submissions with their event, and is done once all were taken up and none
/// is under way.
pub proof fn law_recoveries_go_one_by_one(
    recovery: RecoveryModel,
    outbox: OutboxModel,
    input: DeliveryInput,
    now: u128,
)
    requires
        0 <= recovery.taken_up <= recovery.pending.len(),
    ensures
        ({
            let next = recovery.step(outbox, input, now);
            &&& next.recovery.pending == recovery.pending
            &&& recovery.current is None && recovery.taken_up == recovery.pending.len() ==> {
                &&& next.action is Done
                &&& next.outbox == outbox
                &&& next.recovery == recovery
            }
            &&& recovery.current is None && recovery.taken_up < recovery.pending.len() ==> {
                let p = recovery.pending[recovery.taken_up];
                &&& next.outbox == outbox
                &&& next.recovery.taken_up == recovery.taken_up + 1
                &&& next.recovery.current == Some(
                    RunModel {
                        event_id: p.event_id,
                        resumed: true,
                        transitions: Seq::empty(),
                        phase: PhaseModel::Start,
                    },
                )
                &&& next.action is Announce
                &&& outbox.records.contains_key(p.stored_id) ==> next.action->Announce_frames
                    == seq![observe::recovery_frame(outbox.records[p.stored_id])]
                &&& !outbox.records.contains_key(p.stored_id) ==> next.action->Announce_frames.len()
                    == 0
            }
            &&& recovery.current matches Some(run) ==> {
                let own = run.step(outbox, input, now);
                &&& next.outbox == own.outbox
                &&& next.recovery.taken_up == recovery.taken_up
                &&& own.action is Finish <==> next.recovery.current is None
                &&& !(own.action is Finish) ==> next.recovery.current == Some(own.run)
                &&& own.action matches ActionModel::Wait { millis } ==> next.action == (
                RecoveryActionModel::Wait { millis })
                &&& own.action matches ActionModel::Write { record } ==> next.action == (
                RecoveryActionModel::Write { record })
                &&& own.action matches ActionModel::Submit { bytes } ==> next.action == (
                RecoveryActionModel::Submit { event_id: run.event_id, bytes })
                &&& own.action matches ActionModel::Finish { outcome } ==> next.action == (
                RecoveryActionModel::Report { outcome })
            }
        }),
{
}

/// In every outbox each record stands under its own id, is of the outbox's relay and sender, keeps
/// neither body nor retry time once it has ended, and has all its sources fenced.
pub proof fn law_outboxes_hold_their_own_records(m: OutboxModel, id: Seq<char>, i: int)
    requires
        m.sound(),
        m.records.contains_key(id),
    ensures
        m.records[id].event_id == id,
        m.records[id].relay_url == m.scope.relay_url,
        m.records[id].sender_pubkey == m.scope.sender_pubkey,
        m.records[id].state is Accepted || m.records[id].state is TerminalFailed
            ==> m.records[id].event_bytes_b64 is None && m.records[id].next_attempt_unix_ms is None,
        0 <= i < m.records[id].source_event_ids.len() ==> m.fenced.contains(
            m.records[id].source_event_ids[i],
        ),
{
    let ids = m.records[id].source_event_ids;
    if 0 <= i < ids.len() {
        assert(ids.contains(ids[i]));
        assert(ids.to_set().contains(ids[i]));
    }
}

} // verus!
