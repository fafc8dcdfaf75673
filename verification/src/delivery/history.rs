//! Whole deliveries: any number of calls on one record, with the outbox reopened between them or
//! in the middle of one.
use vstd::prelude::*;

use crate::delivery::fence;
use crate::delivery::fence::FileModel;
use crate::delivery::laws;
use crate::delivery::outbox;
use crate::delivery::outbox::{ContentModel, FinalReplyTarget, OutboxModel};
use crate::delivery::record;
use crate::delivery::record::{RecordModel, ScopeModel};
use crate::delivery::run::{
    ActionModel, DeliveryInput, HostFinalDeliveryDisposition, OutcomeModel, PhaseModel, RunModel,
};
use crate::text;

verus! {

/// One thing that happens to a record that was kept.
pub enum Happening {
    /// A delivery of the record is started.
    Call { resumed: bool },
    /// The delivery under way is handed this, at this time.
    Input { input: DeliveryInput, now: u128 },
    /// Other deliveries, and other records that are kept, leave the outbox like this.
    Others { outbox: OutboxModel },
    /// The host starts again, whatever was under way: the outbox is opened anew from these files,
    /// of which the one at `at` holds the record, as `stored`.
    Reopen { files: Seq<FileModel>, at: int, stored: RecordModel },
}

/// How far a record has come: the outbox, the delivery under way or last made, all that was
/// handed to the relay, whether the relay confirmed any of it, whether a confirmation was lost
/// because the host stopped before it was stored, and the outcomes so far.
#[verifier::ext_equal]
pub struct Course {
    pub outbox: OutboxModel,
    pub run: RunModel,
    pub submitted: Seq<Seq<u8>>,
    pub confirmed: bool,
    pub lost: bool,
    pub outcomes: Seq<OutcomeModel>,
}

impl Course {
    /// The course of a record that has just been kept in `outbox`.
    pub open spec fn kept(outbox: OutboxModel, record: RecordModel) -> Course {
        Course {
            outbox: outbox.indexed(record),
            run: RunModel {
                event_id: record.event_id,
                resumed: false,
                transitions: Seq::empty(),
                phase: PhaseModel::Done,
            },
            submitted: Seq::empty(),
            confirmed: false,
            lost: false,
            outcomes: Seq::empty(),
        }
    }

    /// The record that the outbox holds.
    pub open spec fn record(self) -> RecordModel {
        self.outbox.records[self.run.event_id]
    }

    /// The record that the delivery under way has asked to be stored, and of which it does not
    /// know yet whether it was.
    pub open spec fn being_stored(self) -> Option<RecordModel> {
        match self.run.phase {
            PhaseModel::Closing { terminal, .. } => Some(terminal),
            PhaseModel::Sending { sending, .. } => Some(sending),
            PhaseModel::Accepting { accepted } => Some(accepted),
            PhaseModel::Retrying { retry, .. } => Some(retry),
            _ => None,
        }
    }

    /// Whether `h` can happen here, where everything that is to be stored is stored as long as
    /// the host runs: a call comes where no delivery is under way, an input answers what the
    /// delivery waits for, others leave the record alone, and whenever the host starts again
    /// exactly one file holds the record, as it was stored last or as it was just being stored.
    pub open spec fn admits(self, h: Happening) -> bool {
        match h {
            Happening::Call { .. } => self.run.phase is Done,
            Happening::Input { input, .. } => {
                &&& self.run.expects(input)
                &&& input matches DeliveryInput::Written { ok } ==> ok
            },
            Happening::Others { outbox } => {
                &&& outbox.sound()
                &&& outbox.scope == self.outbox.scope
                &&& outbox.records.contains_key(self.run.event_id)
                &&& outbox.records[self.run.event_id] == self.record()
            },
            Happening::Reopen { files, at, stored } => {
                &&& stored == self.record() || self.being_stored() == Some(stored)
                &&& holds_once(files, at, stored)
            },
        }
    }

    /// The course after `h`.
    pub open spec fn after(self, h: Happening) -> Course {
        match h {
            Happening::Call { resumed } => Course {
                run: RunModel {
                    event_id: self.run.event_id,
                    resumed,
                    transitions: Seq::empty(),
                    phase: PhaseModel::Start,
                },
                ..self
            },
            Happening::Input { input, now } => {
                let next = self.run.step(self.outbox, input, now);
                Course {
                    outbox: next.outbox,
                    run: next.run,
                    submitted: match next.action {
                        ActionModel::Submit { bytes } => self.submitted.push(bytes),
                        _ => self.submitted,
                    },
                    confirmed: self.confirmed || input == (DeliveryInput::Submitted {
                        accepted: true,
                    }),
                    lost: self.lost,
                    outcomes: match next.action {
                        ActionModel::Finish { outcome } => self.outcomes.push(outcome),
                        _ => self.outcomes,
                    },
                }
            },
            Happening::Others { outbox } => Course { outbox, ..self },
            Happening::Reopen { files, stored, .. } => Course {
                outbox: fence::reopened(self.outbox.scope, files),
                run: self.run.spent(),
                lost: self.lost || (self.run.phase is Accepting && !(stored.state is Accepted)),
                ..self
            },
        }
    }

    /// The course after all of `hs`, one after the other.
    pub open spec fn through(self, hs: Seq<Happening>) -> Course
        decreases hs.len(),
    {
        if hs.len() == 0 {
            self
        } else {
            self.through(hs.drop_last()).after(hs.last())
        }
    }

    /// Whether each of `hs` can happen where it comes.
    pub open spec fn allows(self, hs: Seq<Happening>) -> bool
        decreases hs.len(),
    {
        hs.len() > 0 ==> self.allows(hs.drop_last()) && self.through(hs.drop_last()).admits(
            hs.last(),
        )
    }
}

/// Whether the file at `at` holds `record`, and no other file a record of its event id.
pub open spec fn holds_once(files: Seq<FileModel>, at: int, record: RecordModel) -> bool {
    &&& 0 <= at < files.len()
    &&& files[at].content == ContentModel::Record(record)
    &&& forall|k: int|
        0 <= k < files.len() && k != at ==> ((#[trigger] files[k]).content matches
            ContentModel::Record(r) ==> r.event_id != record.event_id)
}

/// Whether `record` is valid, has not ended, and holds these bytes.
spec fn ready(record: RecordModel, scope: ScopeModel, bytes: Seq<u8>) -> bool {
    &&& record::fault(record, scope) is None
    &&& !record.state.terminal()
    &&& record::record_bytes(record) == Ok::<Seq<u8>, Seq<char>>(bytes)
}

/// Whether `record` is ready, every submission made was counted in it, and no confirmation is
/// known of.
spec fn going(c: Course, record: RecordModel, bytes: Seq<u8>) -> bool {
    &&& ready(record, c.outbox.scope, bytes)
    &&& c.submitted.len() <= record.logical_attempts <= record::MAX_LOGICAL_RECEIPT_SUBMISSIONS
    &&& c.confirmed ==> c.lost
}

/// Whether the record has ended: it is valid and keeps no body, it was accepted only where the
/// relay confirmed a submission, and it was accepted there unless the confirmation was lost.
spec fn ended(c: Course) -> bool {
    &&& record::fault(c.record(), c.outbox.scope) is None
    &&& c.record().state.terminal()
    &&& c.record().event_bytes_b64 is None
    &&& c.record().state is Accepted ==> c.confirmed
    &&& c.confirmed && !c.lost ==> c.record().state is Accepted
}

/// Whether the record can be taken up, with attempts left, or has ended.
spec fn resting(c: Course, bytes: Seq<u8>) -> bool {
    ||| going(c, c.record(), bytes) && c.record().logical_attempts
        < record::MAX_LOGICAL_RECEIPT_SUBMISSIONS
    ||| ended(c)
}

/// What the phase of the delivery under way says of the record and of the submissions.
spec fn phase_holds(c: Course, bytes: Seq<u8>) -> bool {
    match c.run.phase {
        PhaseModel::Start => c.run.transitions.len() == 0 && resting(c, bytes),
        PhaseModel::Done => resting(c, bytes),
        PhaseModel::Waiting { record } => record == c.record() && going(c, record, bytes),
        PhaseModel::Sending { record, .. } => record == c.record() && going(c, record, bytes),
        PhaseModel::Submitting { sending, .. } => sending == c.record() && going(
            c,
            sending,
            bytes,
        ),
        PhaseModel::Retrying { retry, .. } => going(c, c.record(), bytes) && going(
            c,
            retry,
            bytes,
        ),
        PhaseModel::Accepting { accepted } => {
            &&& ready(c.record(), c.outbox.scope, bytes)
            &&& c.submitted.len() <= c.record().logical_attempts
                <= record::MAX_LOGICAL_RECEIPT_SUBMISSIONS
            &&& record::fault(accepted, c.outbox.scope) is None
            &&& c.confirmed
        },
        PhaseModel::Closing { terminal, .. } => {
            &&& going(c, c.record(), bytes)
            &&& record::fault(terminal, c.outbox.scope) is None
        },
    }
}

/// The disposition that every outcome has.
spec fn disposition(c: Course) -> HostFinalDeliveryDisposition {
    if c.record().state is Accepted {
        HostFinalDeliveryDisposition::Accepted
    } else {
        HostFinalDeliveryDisposition::TerminalFailed
    }
}

/// What holds of a course throughout.
spec fn regular(c: Course, bytes: Seq<u8>) -> bool {
    &&& c.outbox.sound()
    &&& c.outbox.records.contains_key(c.run.event_id)
    &&& c.run.fits(c.outbox)
    &&& phase_holds(c, bytes)
    &&& c.submitted.len() <= record::MAX_LOGICAL_RECEIPT_SUBMISSIONS
    &&& forall|i: int| 0 <= i < c.submitted.len() ==> #[trigger] c.submitted[i] == bytes
    &&& c.outcomes.len() > 0 ==> ended(c) && (c.run.phase is Start || c.run.phase is Done)
    &&& forall|i: int|
        0 <= i < c.outcomes.len() ==> (#[trigger] c.outcomes[i]).disposition == disposition(c)
    &&& forall|i: int| 0 < i < c.outcomes.len() ==> (#[trigger] c.outcomes[i]).transitions.len() == 0
}

/// What a valid record is closed as is valid, and keeps no body.
proof fn closing_keeps_valid(record: RecordModel, scope: ScopeModel, reason: Seq<char>)
    requires
        record::fault(record, scope) is None,
    ensures
        record::fault(record.accepted(), scope) is None,
        record::fault(record.terminalized(reason), scope) is None,
{
}

/// What a valid record is read back as: itself, unless it is pending and has used up its
/// attempts.
spec fn read_back(record: RecordModel) -> RecordModel {
    if !record.state.terminal() && record.logical_attempts
        == record::MAX_LOGICAL_RECEIPT_SUBMISSIONS {
        record.terminalized("record_validation_or_retry_budget_failed"@)
    } else {
        record
    }
}

/// A valid record is read back as it was stored, unless it has used up its attempts, and no other
/// file touches it.
proof fn reopening_keeps_record(
    scope: ScopeModel,
    files: Seq<FileModel>,
    at: int,
    record: RecordModel,
)
    requires
        holds_once(files, at, record),
        record::fault(record, scope) is None,
        record.state.terminal() ==> record.event_bytes_b64 is None,
    ensures
        fence::reopened(scope, files).records.contains_key(record.event_id),
        fence::reopened(scope, files).records[record.event_id] == read_back(record),
    decreases files.len(),
{
    let rest = files.drop_last();
    let last = files.last();
    fence::law_reopening_is_sound(scope, rest);
    if at == files.len() - 1 {
        assert(files[at] == last);
        assert(record.logical_attempts <= record::MAX_LOGICAL_RECEIPT_SUBMISSIONS);
    } else {
        assert(files[at] == rest[at]);
        assert forall|k: int| 0 <= k < rest.len() && k != at implies ((#[trigger] rest[k]).content
            matches ContentModel::Record(r) ==> r.event_id != record.event_id) by {
            assert(files[k] == rest[k]);
        }
        reopening_keeps_record(scope, rest, at, record);
        assert(files[files.len() - 1] == last);
    }
}

/// Whatever the file holds of the record, it is valid and of the record's event.
proof fn stored_is_valid(c: Course, stored: RecordModel, bytes: Seq<u8>)
    requires
        regular(c, bytes),
        stored == c.record() || c.being_stored() == Some(stored),
    ensures
        record::fault(stored, c.outbox.scope) is None,
        stored.event_id == c.run.event_id,
        stored.state.terminal() ==> stored.event_bytes_b64 is None,
{
    if let PhaseModel::Sending { record, .. } = c.run.phase {
        laws::law_attempts_keep_a_record_valid(record, c.outbox.scope, 0);
    }
}

/// What holds of a course throughout holds after the host has started again.
proof fn reopening_keeps_regular(
    c: Course,
    files: Seq<FileModel>,
    at: int,
    stored: RecordModel,
    bytes: Seq<u8>,
)
    requires
        regular(c, bytes),
        c.admits(Happening::Reopen { files, at, stored }),
    ensures
        regular(c.after(Happening::Reopen { files, at, stored }), bytes),
        c.after(Happening::Reopen { files, at, stored }).record() == read_back(stored),
{
    let scope = c.outbox.scope;
    let n = c.after(Happening::Reopen { files, at, stored });
    stored_is_valid(c, stored, bytes);
    reopening_keeps_record(scope, files, at, stored);
    fence::law_reopening_is_sound(scope, files);
    closing_keeps_valid(stored, scope, "record_validation_or_retry_budget_failed"@);
    if let PhaseModel::Sending { record, .. } = c.run.phase {
        laws::law_attempts_keep_a_record_valid(record, scope, 0);
    }
    assert(n.record() == read_back(stored));
    assert(resting(n, bytes));
}

/// What holds of a course throughout holds after an input.
proof fn input_keeps_regular(c: Course, input: DeliveryInput, now: u128, bytes: Seq<u8>)
    requires
        regular(c, bytes),
        c.admits(Happening::Input { input, now }),
    ensures
        regular(c.after(Happening::Input { input, now }), bytes),
        c.outcomes.len() > 0 ==> {
            &&& c.after(Happening::Input { input, now }).submitted == c.submitted
            &&& c.after(Happening::Input { input, now }).confirmed == c.confirmed
            &&& c.after(Happening::Input { input, now }).record() == c.record()
        },
{
    let next = c.run.step(c.outbox, input, now);
    let n = c.after(Happening::Input { input, now });
    let scope = c.outbox.scope;
    laws::law_step_keeps_outbox_sound(c.run, c.outbox, input, now);
    laws::law_step_keeps_fence_and_other_records(c.run, c.outbox, input, now, c.run.event_id);
    match c.run.phase {
        PhaseModel::Sending { record, .. } => {
            laws::law_attempts_keep_a_record_valid(record, scope, now);
        },
        PhaseModel::Submitting { record, sending } => {
            closing_keeps_valid(sending, scope, "relay_rejected_or_unconfirmed"@);
            assert(record::signed_body_fault(
                sending.retrying(now),
                text::hex_decode(sending.event_id),
            ) == record::signed_body_fault(sending, text::hex_decode(sending.event_id)));
            assert(record::record_bytes(sending.retrying(now)) == record::record_bytes(sending));
        },
        _ => {},
    }
    assert(phase_holds(n, bytes));
}

/// What holds of a course throughout holds after whatever can happen.
proof fn happening_keeps_regular(c: Course, h: Happening, bytes: Seq<u8>)
    requires
        regular(c, bytes),
        c.admits(h),
    ensures
        regular(c.after(h), bytes),
        c.after(h).run.event_id == c.run.event_id,
        c.outcomes.len() > 0 ==> {
            &&& c.after(h).outcomes.len() > 0
            &&& c.after(h).submitted == c.submitted
            &&& c.after(h).confirmed == c.confirmed
            &&& c.after(h).record() == c.record()
        },
{
    match h {
        Happening::Input { input, now } => input_keeps_regular(c, input, now, bytes),
        Happening::Reopen { files, at, stored } => {
            reopening_keeps_regular(c, files, at, stored, bytes);
        },
        _ => {},
    }
}

/// What holds of a course throughout holds after all that happens.
proof fn course_stays_regular(c: Course, hs: Seq<Happening>, bytes: Seq<u8>)
    requires
        regular(c, bytes),
        c.allows(hs),
    ensures
        regular(c.through(hs), bytes),
        c.through(hs).run.event_id == c.run.event_id,
        c.outcomes.len() > 0 ==> {
            &&& c.through(hs).outcomes.len() > 0
            &&& c.through(hs).submitted == c.submitted
            &&& c.through(hs).confirmed == c.confirmed
            &&& c.through(hs).record() == c.record()
        },
    decreases hs.len(),
{
    if hs.len() > 0 {
        course_stays_regular(c, hs.drop_last(), bytes);
        happening_keeps_regular(c.through(hs.drop_last()), hs.last(), bytes);
    }
}

/// What a signed event is first kept as, where nothing refuses it.
pub open spec fn kept_course(
    m: OutboxModel,
    event_id: Seq<u8>,
    event_bytes: Seq<u8>,
    target: FinalReplyTarget,
    source_event_ids: Seq<[u8; 32]>,
) -> Course {
    Course::kept(
        m,
        outbox::signed_record(m.scope, event_id, event_bytes, target, source_event_ids),
    )
}

/// Whether a signed event is kept, and its bytes can be had back from its record.
pub open spec fn keeps(
    m: OutboxModel,
    event_id: Seq<u8>,
    event_bytes: Seq<u8>,
    target: FinalReplyTarget,
    source_event_ids: Seq<[u8; 32]>,
) -> bool {
    let record = outbox::signed_record(m.scope, event_id, event_bytes, target, source_event_ids);
    &&& m.sound()
    &&& outbox::persist_refusal(m, record, record::fault(record, m.scope)) is None
    &&& record::record_bytes(record) == Ok::<Seq<u8>, Seq<char>>(event_bytes)
}

/// A record that has just been kept is at the beginning of its course.
proof fn kept_course_is_regular(
    m: OutboxModel,
    event_id: Seq<u8>,
    event_bytes: Seq<u8>,
    target: FinalReplyTarget,
    source_event_ids: Seq<[u8; 32]>,
)
    requires
        keeps(m, event_id, event_bytes, target, source_event_ids),
    ensures
        regular(kept_course(m, event_id, event_bytes, target, source_event_ids), event_bytes),
{
    let record = outbox::signed_record(m.scope, event_id, event_bytes, target, source_event_ids);
    outbox::law_indexing_keeps_sound(m, record);
}

/// Once a signed event is kept, over all the deliveries of it together, whenever the host stops
/// and starts again, between deliveries or in the middle of one, whatever the relay answers and
/// whatever else the outbox is used for, and where every record that is to be stored is stored as
/// long as the host runs: at most two submissions are made, each of the bytes that were kept. A
/// delivery reports acceptance only where the relay confirmed a submission, and it reports it
/// there unless the host stopped between the confirmation and its record; otherwise it reports
/// failure. Once a delivery has reported, the record has ended and keeps no body.
pub proof fn law_whole_deliveries(
    m: OutboxModel,
    event_id: Seq<u8>,
    event_bytes: Seq<u8>,
    target: FinalReplyTarget,
    source_event_ids: Seq<[u8; 32]>,
    hs: Seq<Happening>,
)
    requires
        keeps(m, event_id, event_bytes, target, source_event_ids),
        kept_course(m, event_id, event_bytes, target, source_event_ids).allows(hs),
    ensures
        ({
            let c = kept_course(m, event_id, event_bytes, target, source_event_ids).through(hs);
            &&& c.submitted.len() <= record::MAX_LOGICAL_RECEIPT_SUBMISSIONS
            &&& forall|i: int| 0 <= i < c.submitted.len() ==> #[trigger] c.submitted[i]
                == event_bytes
            &&& forall|i: int|
                0 <= i < c.outcomes.len() ==> {
                    &&& (#[trigger] c.outcomes[i]).disposition is Accepted ==> c.confirmed
                    &&& c.confirmed && !c.lost ==> c.outcomes[i].disposition is Accepted
                    &&& c.outcomes[i].disposition is TerminalFailed <==> !(
                    c.outcomes[i].disposition is Accepted)
                }
            &&& c.outcomes.len() > 0 ==> {
                &&& c.outbox.records.contains_key(text::hex_encode(event_id))
                &&& c.outbox.records[text::hex_encode(event_id)].state.terminal()
                &&& c.outbox.records[text::hex_encode(event_id)].state is Accepted
                    <==> c.outcomes[0].disposition is Accepted
                &&& c.outbox.records[text::hex_encode(event_id)].event_bytes_b64 is None
            }
        }),
{
    kept_course_is_regular(m, event_id, event_bytes, target, source_event_ids);
    course_stays_regular(
        kept_course(m, event_id, event_bytes, target, source_event_ids),
        hs,
        event_bytes,
    );
}

/// Whether the host stops nowhere between a confirmation and its record.
pub open spec fn keeps_confirmations(c: Course, hs: Seq<Happening>) -> bool {
    forall|k: int|
        0 <= k < hs.len() && (#[trigger] hs[k]) is Reopen ==> !(c.through(
            hs.take(k),
        ).run.phase is Accepting)
}

/// No confirmation is lost where the host stops nowhere between a confirmation and its record.
proof fn confirmations_are_kept(c: Course, hs: Seq<Happening>)
    requires
        !c.lost,
        keeps_confirmations(c, hs),
    ensures
        !c.through(hs).lost,
    decreases hs.len(),
{
    if hs.len() > 0 {
        let rest = hs.drop_last();
        let n = hs.len() - 1;
        assert forall|k: int| 0 <= k < rest.len() && (#[trigger] rest[k]) is Reopen implies !(
        c.through(rest.take(k)).run.phase is Accepting) by {
            assert(hs[k] == rest[k]);
            assert(rest.take(k) =~= hs.take(k));
        }
        confirmations_are_kept(c, rest);
        assert(hs[n] == hs.last());
        assert(hs.take(n) =~= rest);
    }
}

/// Where the host stops nowhere between a confirmation and its record, and so where the outbox is
/// reopened between deliveries only, every delivery of a kept event reports acceptance exactly
/// where the relay confirmed a submission of it.
pub proof fn law_confirmed_deliveries_are_accepted(
    m: OutboxModel,
    event_id: Seq<u8>,
    event_bytes: Seq<u8>,
    target: FinalReplyTarget,
    source_event_ids: Seq<[u8; 32]>,
    hs: Seq<Happening>,
)
    requires
        keeps(m, event_id, event_bytes, target, source_event_ids),
        kept_course(m, event_id, event_bytes, target, source_event_ids).allows(hs),
        keeps_confirmations(
            kept_course(m, event_id, event_bytes, target, source_event_ids),
            hs,
        ),
    ensures
        ({
            let c = kept_course(m, event_id, event_bytes, target, source_event_ids).through(hs);
            forall|i: int|
                0 <= i < c.outcomes.len() ==> {
                    &&& (#[trigger] c.outcomes[i]).disposition is Accepted <==> c.confirmed
                    &&& c.outcomes[i].disposition is TerminalFailed <==> !c.confirmed
                }
        }),
{
    law_whole_deliveries(m, event_id, event_bytes, target, source_event_ids, hs);
    confirmations_are_kept(kept_course(m, event_id, event_bytes, target, source_event_ids), hs);
}

/// Once a delivery of a kept event has reported, further deliveries of it submit nothing, leave
/// the record as it is, and report the same disposition without any transition.
pub proof fn law_ended_deliveries_only_report(
    m: OutboxModel,
    event_id: Seq<u8>,
    event_bytes: Seq<u8>,
    target: FinalReplyTarget,
    source_event_ids: Seq<[u8; 32]>,
    hs: Seq<Happening>,
    more: Seq<Happening>,
)
    requires
        keeps(m, event_id, event_bytes, target, source_event_ids),
        kept_course(m, event_id, event_bytes, target, source_event_ids).allows(hs),
        kept_course(m, event_id, event_bytes, target, source_event_ids).through(hs).outcomes.len()
            > 0,
        kept_course(m, event_id, event_bytes, target, source_event_ids).through(hs).allows(more),
    ensures
        ({
            let before = kept_course(m, event_id, event_bytes, target, source_event_ids).through(
                hs,
            );
            let c = before.through(more);
            &&& c.submitted == before.submitted
            &&& c.confirmed == before.confirmed
            &&& c.outbox.records[text::hex_encode(event_id)]
                == before.outbox.records[text::hex_encode(event_id)]
            &&& forall|i: int|
                0 <= i < c.outcomes.len() ==> (#[trigger] c.outcomes[i]).disposition
                    == c.outcomes[0].disposition
            &&& forall|i: int|
                1 <= i < c.outcomes.len() ==> (#[trigger] c.outcomes[i]).transitions.len() == 0
        }),
{
    let start = kept_course(m, event_id, event_bytes, target, source_event_ids);
    kept_course_is_regular(m, event_id, event_bytes, target, source_event_ids);
    course_stays_regular(start, hs, event_bytes);
    course_stays_regular(start.through(hs), more, event_bytes);
    assert(start.through(hs).through(more).outcomes.len() > 0);
}

/// Whether the record has these sources, and the delivery under way goes by it.
spec fn sourced(c: Course, sources: Seq<Seq<char>>) -> bool {
    c.record().source_event_ids == sources && fence::in_step(c.run, c.outbox)
}

/// The record keeps its sources whatever happens.
proof fn course_keeps_sources(
    c: Course,
    hs: Seq<Happening>,
    bytes: Seq<u8>,
    sources: Seq<Seq<char>>,
)
    requires
        regular(c, bytes),
        sourced(c, sources),
        c.allows(hs),
    ensures
        sourced(c.through(hs), sources),
    decreases hs.len(),
{
    if hs.len() > 0 {
        course_keeps_sources(c, hs.drop_last(), bytes, sources);
        course_stays_regular(c, hs.drop_last(), bytes);
        let before = c.through(hs.drop_last());
        match hs.last() {
            Happening::Input { input, now } => {
                fence::law_steps_keep_the_sources(before.run, before.outbox, input, now);
                laws::law_step_keeps_outbox_sound(before.run, before.outbox, input, now);
            },
            Happening::Reopen { files, at, stored } => {
                reopening_keeps_regular(before, files, at, stored, bytes);
            },
            _ => {},
        }
    }
}

/// Once a signed event is kept, every event that its prompt consumed stays fenced, through all
/// deliveries and reopenings, whatever becomes of its delivery.
pub proof fn law_consumed_events_stay_fenced(
    m: OutboxModel,
    event_id: Seq<u8>,
    event_bytes: Seq<u8>,
    target: FinalReplyTarget,
    source_event_ids: Seq<[u8; 32]>,
    hs: Seq<Happening>,
    consumed: int,
)
    requires
        keeps(m, event_id, event_bytes, target, source_event_ids),
        kept_course(m, event_id, event_bytes, target, source_event_ids).allows(hs),
        0 <= consumed < source_event_ids.len(),
    ensures
        kept_course(m, event_id, event_bytes, target, source_event_ids).through(
            hs,
        ).outbox.fenced.contains(text::hex_encode(source_event_ids[consumed]@)),
{
    let start = kept_course(m, event_id, event_bytes, target, source_event_ids);
    let sources = outbox::hex_ids(source_event_ids);
    kept_course_is_regular(m, event_id, event_bytes, target, source_event_ids);
    course_stays_regular(start, hs, event_bytes);
    course_keeps_sources(start, hs, event_bytes, sources);
    assert(sources[consumed] == text::hex_encode(source_event_ids[consumed]@));
    assert(sources.to_set().contains(sources[consumed]));
}

/// Whether every attempt that the record counts was made, and no record is being ended as failed
/// before both were.
spec fn all_made(c: Course) -> bool {
    &&& c.submitted.len() == c.record().logical_attempts
    &&& c.record().state is TerminalFailed ==> c.record().logical_attempts == 2
    &&& match c.run.phase {
        PhaseModel::Sending { sending, .. } => sending.logical_attempts
            == c.record().logical_attempts + 1,
        PhaseModel::Accepting { accepted } => accepted.logical_attempts
            == c.record().logical_attempts && accepted.state is Accepted,
        PhaseModel::Retrying { retry, .. } => retry.logical_attempts
            == c.record().logical_attempts && retry.state is AwaitingRetry,
        PhaseModel::Closing { terminal, .. } => terminal.logical_attempts
            == c.record().logical_attempts && terminal.logical_attempts == 2,
        _ => true,
    }
}

/// Whether the host stops nowhere between the storing of a counted attempt and the attempt.
pub open spec fn makes_counted_attempts(c: Course, hs: Seq<Happening>) -> bool {
    forall|k: int|
        0 <= k < hs.len() && (#[trigger] hs[k]) is Reopen ==> !(c.through(
            hs.take(k),
        ).run.phase is Sending)
}

/// Every attempt that is counted is made where the host does not stop in between.
proof fn attempts_are_made(c: Course, hs: Seq<Happening>, bytes: Seq<u8>)
    requires
        regular(c, bytes),
        all_made(c),
        c.allows(hs),
        makes_counted_attempts(c, hs),
    ensures
        all_made(c.through(hs)),
    decreases hs.len(),
{
    if hs.len() > 0 {
        let rest = hs.drop_last();
        let n = hs.len() - 1;
        assert forall|k: int| 0 <= k < rest.len() && (#[trigger] rest[k]) is Reopen implies !(
        c.through(rest.take(k)).run.phase is Sending) by {
            assert(hs[k] == rest[k]);
            assert(rest.take(k) =~= hs.take(k));
        }
        attempts_are_made(c, rest, bytes);
        course_stays_regular(c, rest, bytes);
        assert(hs[n] == hs.last());
        assert(hs.take(n) =~= rest);
        let before = c.through(rest);
        match hs.last() {
            Happening::Reopen { files, at, stored } => {
                reopening_keeps_regular(before, files, at, stored, bytes);
            },
            Happening::Input { input, now } => {
                input_keeps_regular(before, input, now, bytes);
            },
            _ => {},
        }
    }
}

/// A delivery of a kept event reports failure only after two submissions of it were made and none
/// was known to be confirmed: where every record that is to be stored is stored, and the host
/// stops nowhere between the storing of a counted attempt and the attempt, no delivery gives up
/// with an attempt left, whoever started it and however often the outbox was reopened.
pub proof fn law_failed_deliveries_were_tried_twice(
    m: OutboxModel,
    event_id: Seq<u8>,
    event_bytes: Seq<u8>,
    target: FinalReplyTarget,
    source_event_ids: Seq<[u8; 32]>,
    hs: Seq<Happening>,
    i: int,
)
    requires
        keeps(m, event_id, event_bytes, target, source_event_ids),
        kept_course(m, event_id, event_bytes, target, source_event_ids).allows(hs),
        makes_counted_attempts(
            kept_course(m, event_id, event_bytes, target, source_event_ids),
            hs,
        ),
        0 <= i < kept_course(m, event_id, event_bytes, target, source_event_ids).through(
            hs,
        ).outcomes.len(),
    ensures
        ({
            let c = kept_course(m, event_id, event_bytes, target, source_event_ids).through(hs);
            &&& c.outcomes[i].disposition is TerminalFailed ==> c.submitted.len() == 2 && (c.lost
                || !c.confirmed)
            &&& c.outcomes[i].disposition is Accepted ==> 1 <= c.submitted.len() <= 2
        }),
{
    let start = kept_course(m, event_id, event_bytes, target, source_event_ids);
    kept_course_is_regular(m, event_id, event_bytes, target, source_event_ids);
    course_stays_regular(start, hs, event_bytes);
    attempts_are_made(start, hs, event_bytes);
    confirmed_after_submitting(start, hs);
    assert(start.through(hs).outcomes[i].disposition == disposition(start.through(hs)));
}

/// The relay confirms only what was handed to it.
proof fn confirmed_after_submitting(c: Course, hs: Seq<Happening>)
    requires
        c.confirmed ==> c.submitted.len() > 0,
        c.run.phase is Submitting ==> c.submitted.len() > 0,
        c.allows(hs),
    ensures
        c.through(hs).confirmed ==> c.through(hs).submitted.len() > 0,
        c.through(hs).run.phase is Submitting ==> c.through(hs).submitted.len() > 0,
    decreases hs.len(),
{
    if hs.len() > 0 {
        confirmed_after_submitting(c, hs.drop_last());
    }
}

} // verus!
