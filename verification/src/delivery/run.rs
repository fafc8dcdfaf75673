//! One delivery, from a kept record to its end, as a machine of steps.
//!
//! The machine asks for one thing at a time: to wait, to store a record, to hand the
//! body to the relay. Whoever drives it does that and hands back how it went.
use vstd::prelude::*;

use crate::delivery::outbox::{FinalReplyTarget, HostFinalDeliveryOutbox, OutboxModel};
use crate::delivery::record;
use crate::delivery::record::{HostFinalDeliveryRecord, HostFinalDeliveryState, RecordModel};
use crate::outside;
use crate::text;

verus! {

/// How long an unconfirmed submission waits for its retry, in milliseconds.
pub const DELIVERY_RETRY_DELAY_MS: u128 = 1000;

/// What the delivery of a final reply means for the prompt it answers.
#[derive(Debug, Clone, Copy, PartialEq, Eq, Structural)]
pub enum HostFinalDeliveryDisposition {
    NotApplicable,
    Accepted,
    TerminalFailed,
}

/// One thing that happened in a delivery.
#[derive(Debug, Clone, Copy)]
pub enum DeliveryTransition {
    Attempt { attempt: u8 },
    RetryScheduled { attempt: u8 },
    Accepted { attempt: u8 },
    Terminal { reason: &'static str },
}

/// What a transition holds.
#[verifier::ext_equal]
pub enum TransitionModel {
    Attempt { attempt: u8 },
    RetryScheduled { attempt: u8 },
    Accepted { attempt: u8 },
    Terminal { reason: Seq<char> },
}

impl View for DeliveryTransition {
    type V = TransitionModel;

    open spec fn view(&self) -> TransitionModel {
        match *self {
            DeliveryTransition::Attempt { attempt } => TransitionModel::Attempt { attempt },
            DeliveryTransition::RetryScheduled { attempt } => TransitionModel::RetryScheduled {
                attempt,
            },
            DeliveryTransition::Accepted { attempt } => TransitionModel::Accepted { attempt },
            DeliveryTransition::Terminal { reason } => TransitionModel::Terminal {
                reason: reason@,
            },
        }
    }
}

/// What a list of transitions holds.
pub open spec fn steps(v: Seq<DeliveryTransition>) -> Seq<TransitionModel> {
    v.map_values(|t: DeliveryTransition| t@)
}

/// How a delivery ended.
#[derive(Debug)]
pub struct HostFinalDeliveryOutcome {
    pub disposition: HostFinalDeliveryDisposition,
    pub event_id: Option<String>,
    pub channel_id: Option<u128>,
    pub trigger_event_id: Option<String>,
    pub resumed: bool,
    pub transitions: Vec<DeliveryTransition>,
}

/// What an outcome holds.
#[verifier::ext_equal]
pub struct OutcomeModel {
    pub disposition: HostFinalDeliveryDisposition,
    pub event_id: Option<Seq<char>>,
    pub channel_id: Option<u128>,
    pub trigger_event_id: Option<Seq<char>>,
    pub resumed: bool,
    pub transitions: Seq<TransitionModel>,
}

impl View for HostFinalDeliveryOutcome {
    type V = OutcomeModel;

    open spec fn view(&self) -> OutcomeModel {
        OutcomeModel {
            disposition: self.disposition,
            event_id: text::opt_text(self.event_id),
            channel_id: self.channel_id,
            trigger_event_id: text::opt_text(self.trigger_event_id),
            resumed: self.resumed,
            transitions: steps(self.transitions@),
        }
    }
}

/// The outcome of a delivery that ended before a record was kept.
pub open spec fn recordless_outcome(
    target: Option<FinalReplyTarget>,
    reason: Seq<char>,
) -> OutcomeModel {
    OutcomeModel {
        disposition: HostFinalDeliveryDisposition::TerminalFailed,
        event_id: None,
        channel_id: match target {
            Some(t) => Some(t.channel_id),
            None => None,
        },
        trigger_event_id: match target {
            Some(t) => Some(text::hex_encode(t.trigger_event_id@)),
            None => None,
        },
        resumed: false,
        transitions: seq![TransitionModel::Terminal { reason }],
    }
}

/// The outcome of a delivery of `record`, whose channel id parses to `channel`.
pub open spec fn record_outcome(
    record: RecordModel,
    channel: Option<u128>,
    disposition: HostFinalDeliveryDisposition,
    resumed: bool,
    transitions: Seq<TransitionModel>,
) -> OutcomeModel {
    OutcomeModel {
        disposition,
        event_id: Some(record.event_id),
        channel_id: channel,
        trigger_event_id: Some(record.trigger_event_id),
        resumed,
        transitions,
    }
}

/// The target behind an optional reference.
pub open spec fn opt_target(target: Option<&FinalReplyTarget>) -> Option<FinalReplyTarget> {
    match target {
        Some(t) => Some(*t),
        None => None,
    }
}

impl HostFinalDeliveryOutcome {
    /// The outcome of a delivery that ended before a record was kept.
    pub fn terminal_without_record(
        target: Option<&FinalReplyTarget>,
        reason: &'static str,
    ) -> (r: HostFinalDeliveryOutcome)
        ensures
            r@ == recordless_outcome(opt_target(target), reason@),
    {
        let mut transitions: Vec<DeliveryTransition> = Vec::new();
        transitions.push(DeliveryTransition::Terminal { reason });
        let (channel_id, trigger_event_id) = match target {
            Some(t) => (Some(t.channel_id), Some(outside::event_id_to_hex(&t.trigger_event_id))),
            None => (None, None),
        };
        let r = HostFinalDeliveryOutcome {
            disposition: HostFinalDeliveryDisposition::TerminalFailed,
            event_id: None,
            channel_id,
            trigger_event_id,
            resumed: false,
            transitions,
        };
        assert(r@ =~= recordless_outcome(opt_target(target), reason@));
        r
    }

    /// The outcome of a delivery of `record`, whose channel id parses to `channel`.
    pub fn of_record(
        record: &HostFinalDeliveryRecord,
        channel: Option<u128>,
        disposition: HostFinalDeliveryDisposition,
        resumed: bool,
        transitions: Vec<DeliveryTransition>,
    ) -> (r: HostFinalDeliveryOutcome)
        ensures
            r@ == record_outcome(record@, channel, disposition, resumed, steps(transitions@)),
    {
        HostFinalDeliveryOutcome {
            disposition,
            event_id: Some(record.event_id.clone()),
            channel_id: channel,
            trigger_event_id: Some(record.trigger_event_id.clone()),
            resumed,
            transitions,
        }
    }

    /// The outcome of a delivery of `record`.
    pub fn from_record(
        record: &HostFinalDeliveryRecord,
        disposition: HostFinalDeliveryDisposition,
        resumed: bool,
        transitions: Vec<DeliveryTransition>,
    ) -> (r: HostFinalDeliveryOutcome)
        ensures
            r@ == record_outcome(
                record@,
                outside::uuid_value(record@.channel_id),
                disposition,
                resumed,
                steps(transitions@),
            ),
    {
        let channel = outside::uuid_parse(record.channel_id.as_str());
        HostFinalDeliveryOutcome::of_record(record, channel, disposition, resumed, transitions)
    }
}

/// What a delivery does next with its record.
#[derive(Debug, Clone, Copy)]
pub enum NextMove {
    /// Its delivery has already ended, accepted or failed.
    Report { accepted: bool },
    /// It belongs to another relay or sender and is left alone.
    Foreign,
    /// It ends, for this reason.
    Close { reason: &'static str },
    /// Its retry time has not come.
    Wait { millis: u64 },
    /// It is sent.
    Send,
}

/// What a move holds.
#[verifier::ext_equal]
pub enum MoveModel {
    Report { accepted: bool },
    Foreign,
    Close { reason: Seq<char> },
    Wait { millis: u64 },
    Send,
}

impl View for NextMove {
    type V = MoveModel;

    open spec fn view(&self) -> MoveModel {
        match *self {
            NextMove::Report { accepted } => MoveModel::Report { accepted },
            NextMove::Foreign => MoveModel::Foreign,
            NextMove::Close { reason } => MoveModel::Close { reason: reason@ },
            NextMove::Wait { millis } => MoveModel::Wait { millis },
            NextMove::Send => MoveModel::Send,
        }
    }
}

/// What a delivery does next with `record`, given what is wrong with it.
pub open spec fn next_move(record: RecordModel, fault: Option<Seq<char>>, now: u128) -> MoveModel {
    if record.state.terminal() {
        MoveModel::Report { accepted: record.state is Accepted }
    } else if fault == Some("record_scope_mismatch"@) {
        MoveModel::Foreign
    } else if fault is Some {
        MoveModel::Close { reason: "record_validation_failed"@ }
    } else if record.logical_attempts >= record::MAX_LOGICAL_RECEIPT_SUBMISSIONS {
        MoveModel::Close { reason: "retry_budget_exhausted"@ }
    } else {
        match record.next_attempt_unix_ms {
            Some(at) if at > now => MoveModel::Wait {
                millis: if at - now <= u64::MAX {
                    (at - now) as u64
                } else {
                    u64::MAX
                },
            },
            _ => MoveModel::Send,
        }
    }
}

/// What a delivery does next with `record`, given how its check came out.
pub fn choose_move(
    record: &HostFinalDeliveryRecord,
    validation: Result<(), &'static str>,
    now: u128,
) -> (r: NextMove)
    ensures
        r@ == next_move(record@, record::fault_of(validation), now),
{
    match record.state {
        HostFinalDeliveryState::Accepted => return NextMove::Report { accepted: true },
        HostFinalDeliveryState::TerminalFailed => return NextMove::Report { accepted: false },
        HostFinalDeliveryState::Pending => {},
        HostFinalDeliveryState::AwaitingRetry => {},
    }
    match validation {
        Err(reason) => {
            return if text::same(reason, "record_scope_mismatch") {
                NextMove::Foreign
            } else {
                NextMove::Close { reason: "record_validation_failed" }
            };
        },
        Ok(_) => {},
    }
    if record.logical_attempts >= record::MAX_LOGICAL_RECEIPT_SUBMISSIONS {
        return NextMove::Close { reason: "retry_budget_exhausted" };
    }
    match record.next_attempt_unix_ms {
        Some(at) => {
            if at > now {
                let wait: u128 = at - now;
                if wait <= u64::MAX as u128 {
                    NextMove::Wait { millis: wait as u64 }
                } else {
                    NextMove::Wait { millis: u64::MAX }
                }
            } else {
                NextMove::Send
            }
        },
        None => NextMove::Send,
    }
}

/// What a delivery waits for.
pub enum DeliveryPhase {
    /// Nothing: its record is to be looked up.
    Start,
    /// The retry time of `record`.
    Waiting { record: HostFinalDeliveryRecord },
    /// `terminal` to be stored, for this reason.
    Closing { terminal: HostFinalDeliveryRecord, reason: &'static str },
    /// `sending`, which counts the attempt, to be stored in place of `record`.
    Sending { record: HostFinalDeliveryRecord, sending: HostFinalDeliveryRecord },
    /// The relay's answer on the body of `sending`.
    Submitting { record: HostFinalDeliveryRecord, sending: HostFinalDeliveryRecord },
    /// `accepted` to be stored.
    Accepting { accepted: HostFinalDeliveryRecord },
    /// `retry` to be stored in place of `record`.
    Retrying { record: HostFinalDeliveryRecord, retry: HostFinalDeliveryRecord },
    /// Nothing more.
    Done,
}

/// What a phase holds.
#[verifier::ext_equal]
pub enum PhaseModel {
    Start,
    Waiting { record: RecordModel },
    Closing { terminal: RecordModel, reason: Seq<char> },
    Sending { record: RecordModel, sending: RecordModel },
    Submitting { record: RecordModel, sending: RecordModel },
    Accepting { accepted: RecordModel },
    Retrying { record: RecordModel, retry: RecordModel },
    Done,
}

impl View for DeliveryPhase {
    type V = PhaseModel;

    open spec fn view(&self) -> PhaseModel {
        match *self {
            DeliveryPhase::Start => PhaseModel::Start,
            DeliveryPhase::Waiting { record } => PhaseModel::Waiting { record: record@ },
            DeliveryPhase::Closing { terminal, reason } => PhaseModel::Closing {
                terminal: terminal@,
                reason: reason@,
            },
            DeliveryPhase::Sending { record, sending } => PhaseModel::Sending {
                record: record@,
                sending: sending@,
            },
            DeliveryPhase::Submitting { record, sending } => PhaseModel::Submitting {
                record: record@,
                sending: sending@,
            },
            DeliveryPhase::Accepting { accepted } => PhaseModel::Accepting {
                accepted: accepted@,
            },
            DeliveryPhase::Retrying { record, retry } => PhaseModel::Retrying {
                record: record@,
                retry: retry@,
            },
            DeliveryPhase::Done => PhaseModel::Done,
        }
    }
}

/// What a delivery asks for.
pub enum DeliveryAction {
    /// To be stepped again once so many milliseconds have passed.
    Wait { millis: u64 },
    /// That this record is stored durably.
    Write { record: HostFinalDeliveryRecord },
    /// That these bytes are handed to the relay.
    Submit { bytes: Vec<u8> },
    /// Nothing: this is how it ended.
    Finish { outcome: HostFinalDeliveryOutcome },
}

/// What an action holds.
#[verifier::ext_equal]
pub enum ActionModel {
    Wait { millis: u64 },
    Write { record: RecordModel },
    Submit { bytes: Seq<u8> },
    Finish { outcome: OutcomeModel },
}

impl View for DeliveryAction {
    type V = ActionModel;

    open spec fn view(&self) -> ActionModel {
        match *self {
            DeliveryAction::Wait { millis } => ActionModel::Wait { millis },
            DeliveryAction::Write { record } => ActionModel::Write { record: record@ },
            DeliveryAction::Submit { bytes } => ActionModel::Submit { bytes: bytes@ },
            DeliveryAction::Finish { outcome } => ActionModel::Finish { outcome: outcome@ },
        }
    }
}

/// What is handed back to a delivery.
#[derive(Debug, Clone, Copy, PartialEq, Eq, Structural)]
pub enum DeliveryInput {
    /// It begins, or the wait is over.
    Proceed,
    /// Whether the record was stored.
    Written { ok: bool },
    /// Whether the relay confirmed that it accepted the body.
    Submitted { accepted: bool },
}

/// One delivery under way.
pub struct DeliveryRun {
    event_id: String,
    resumed: bool,
    transitions: Vec<DeliveryTransition>,
    phase: DeliveryPhase,
}

/// What a delivery under way holds.
#[verifier::ext_equal]
pub struct RunModel {
    pub event_id: Seq<char>,
    pub resumed: bool,
    pub transitions: Seq<TransitionModel>,
    pub phase: PhaseModel,
}

impl View for DeliveryRun {
    type V = RunModel;

    closed spec fn view(&self) -> RunModel {
        RunModel {
            event_id: self.event_id@,
            resumed: self.resumed,
            transitions: steps(self.transitions@),
            phase: self.phase@,
        }
    }
}

/// Where a step leads: the outbox, the delivery, and what it asks for.
#[verifier::ext_equal]
pub struct StepModel {
    pub outbox: OutboxModel,
    pub run: RunModel,
    pub action: ActionModel,
}

impl RecordModel {
    /// The record as it is stored before its body is sent: one more attempt is counted.
    pub open spec fn sending(self) -> RecordModel {
        RecordModel {
            logical_attempts: (self.logical_attempts + 1) as u8,
            state: HostFinalDeliveryState::Pending,
            next_attempt_unix_ms: None,
            diagnostic: None,
            ..self
        }
    }

    /// The record as it is stored to be sent again later.
    pub open spec fn retrying(self, now: u128) -> RecordModel {
        RecordModel {
            state: HostFinalDeliveryState::AwaitingRetry,
            next_attempt_unix_ms: Some((now + DELIVERY_RETRY_DELAY_MS) as u128),
            diagnostic: Some("relay_rejected_or_unconfirmed"@),
            ..self
        }
    }
}

impl RunModel {
    /// The delivery with one more transition.
    pub open spec fn noting(self, t: TransitionModel) -> RunModel {
        RunModel { transitions: self.transitions.push(t), ..self }
    }

    /// Whether `input` answers what the delivery waits for.
    pub open spec fn expects(self, input: DeliveryInput) -> bool {
        match self.phase {
            PhaseModel::Start => input is Proceed,
            PhaseModel::Waiting { .. } => input is Proceed,
            PhaseModel::Closing { .. } => input is Written,
            PhaseModel::Sending { .. } => input is Written,
            PhaseModel::Submitting { .. } => input is Submitted,
            PhaseModel::Accepting { .. } => input is Written,
            PhaseModel::Retrying { .. } => input is Written,
            PhaseModel::Done => false,
        }
    }

    /// The delivery once its outcome has been handed out.
    pub open spec fn spent(self) -> RunModel {
        RunModel { phase: PhaseModel::Done, transitions: Seq::empty(), ..self }
    }

    /// The end of the delivery, as told of `record`.
    pub open spec fn finished(
        self,
        outbox: OutboxModel,
        record: RecordModel,
        disposition: HostFinalDeliveryDisposition,
    ) -> StepModel {
        StepModel {
            outbox,
            run: self.spent(),
            action: ActionModel::Finish {
                outcome: record_outcome(
                    record,
                    outside::uuid_value(record.channel_id),
                    disposition,
                    self.resumed,
                    self.transitions,
                ),
            },
        }
    }

    /// The step that asks for `record` to be stored.
    pub open spec fn writing(
        self,
        outbox: OutboxModel,
        phase: PhaseModel,
        record: RecordModel,
    ) -> StepModel {
        StepModel {
            outbox,
            run: RunModel { phase, ..self },
            action: ActionModel::Write { record },
        }
    }

    /// The step that ends `record` for `reason`.
    pub open spec fn closing(
        self,
        outbox: OutboxModel,
        record: RecordModel,
        reason: Seq<char>,
    ) -> StepModel {
        let terminal = record.terminalized(reason);
        self.writing(outbox, PhaseModel::Closing { terminal, reason }, terminal)
    }

    /// The step that counts an attempt on `record`.
    pub open spec fn counting(self, outbox: OutboxModel, record: RecordModel) -> StepModel {
        self.writing(
            outbox,
            PhaseModel::Sending { record, sending: record.sending() },
            record.sending(),
        )
    }

    /// The step from a look at the outbox.
    pub open spec fn started(self, outbox: OutboxModel, now: u128) -> StepModel {
        if !outbox.records.contains_key(self.event_id) {
            let run = self.noting(TransitionModel::Terminal { reason: "outbox_record_missing"@ });
            StepModel {
                outbox,
                run: run.spent(),
                action: ActionModel::Finish {
                    outcome: OutcomeModel {
                        disposition: HostFinalDeliveryDisposition::TerminalFailed,
                        event_id: Some(self.event_id),
                        channel_id: None,
                        trigger_event_id: None,
                        resumed: self.resumed,
                        transitions: run.transitions,
                    },
                },
            }
        } else {
            let record = outbox.records[self.event_id];
            match next_move(record, record::fault(record, outbox.scope), now) {
                MoveModel::Report { accepted } => self.finished(
                    outbox,
                    record,
                    if accepted {
                        HostFinalDeliveryDisposition::Accepted
                    } else {
                        HostFinalDeliveryDisposition::TerminalFailed
                    },
                ),
                MoveModel::Foreign => self.noting(
                    TransitionModel::Terminal { reason: "record_scope_mismatch_skipped"@ },
                ).finished(outbox, record, HostFinalDeliveryDisposition::TerminalFailed),
                MoveModel::Close { reason } => self.closing(outbox, record, reason),
                MoveModel::Wait { millis } => StepModel {
                    outbox,
                    run: RunModel { phase: PhaseModel::Waiting { record }, ..self },
                    action: ActionModel::Wait { millis },
                },
                MoveModel::Send => self.counting(outbox, record),
            }
        }
    }

    /// The step once the write of a closing record is answered.
    pub open spec fn closed(
        self,
        outbox: OutboxModel,
        terminal: RecordModel,
        reason: Seq<char>,
        ok: bool,
    ) -> StepModel {
        self.noting(
            TransitionModel::Terminal {
                reason: if ok {
                    reason
                } else {
                    "persist_terminal_failed"@
                },
            },
        ).finished(
            if ok {
                outbox.indexed(terminal)
            } else {
                outbox
            },
            terminal,
            HostFinalDeliveryDisposition::TerminalFailed,
        )
    }

    /// The step once the write that counts an attempt is answered.
    pub open spec fn counted(
        self,
        outbox: OutboxModel,
        record: RecordModel,
        sending: RecordModel,
        ok: bool,
    ) -> StepModel {
        if !ok {
            self.noting(
                TransitionModel::Terminal { reason: "persist_before_send_failed"@ },
            ).finished(outbox, record, HostFinalDeliveryDisposition::TerminalFailed)
        } else {
            let run = self.noting(TransitionModel::Attempt { attempt: sending.logical_attempts });
            match record::record_bytes(sending) {
                Ok(bytes) => StepModel {
                    outbox: outbox.indexed(sending),
                    run: RunModel { phase: PhaseModel::Submitting { record, sending }, ..run },
                    action: ActionModel::Submit { bytes },
                },
                Err(_) => run.closing(
                    outbox.indexed(sending),
                    sending,
                    "record_validation_failed"@,
                ),
            }
        }
    }

    /// The step once the relay has answered.
    pub open spec fn submitted(
        self,
        outbox: OutboxModel,
        record: RecordModel,
        sending: RecordModel,
        accepted: bool,
        now: u128,
    ) -> StepModel {
        if accepted {
            self.writing(
                outbox,
                PhaseModel::Accepting { accepted: sending.accepted() },
                sending.accepted(),
            )
        } else if sending.logical_attempts < record::MAX_LOGICAL_RECEIPT_SUBMISSIONS {
            self.writing(
                outbox,
                PhaseModel::Retrying { record, retry: sending.retrying(now) },
                sending.retrying(now),
            )
        } else {
            self.closing(outbox, sending, "relay_rejected_or_unconfirmed"@)
        }
    }

    /// The step once the write of an accepted record is answered.
    pub open spec fn accepted(
        self,
        outbox: OutboxModel,
        accepted: RecordModel,
        ok: bool,
    ) -> StepModel {
        if ok {
            self.noting(
                TransitionModel::Accepted { attempt: accepted.logical_attempts },
            ).finished(
                outbox.indexed(accepted),
                accepted,
                HostFinalDeliveryDisposition::Accepted,
            )
        } else {
            self.noting(
                TransitionModel::Terminal { reason: "persist_accepted_failed"@ },
            ).finished(outbox, accepted, HostFinalDeliveryDisposition::TerminalFailed)
        }
    }

    /// The step once the write that schedules a retry is answered.
    pub open spec fn rescheduled(
        self,
        outbox: OutboxModel,
        record: RecordModel,
        retry: RecordModel,
        ok: bool,
        now: u128,
    ) -> StepModel {
        if ok {
            self.noting(
                TransitionModel::RetryScheduled { attempt: retry.logical_attempts },
            ).started(outbox.indexed(retry), now)
        } else {
            self.noting(
                TransitionModel::Terminal { reason: "persist_retry_failed"@ },
            ).finished(outbox, record, HostFinalDeliveryDisposition::TerminalFailed)
        }
    }

    /// Where the delivery goes from here on `input`.
    pub open spec fn step(
        self,
        outbox: OutboxModel,
        input: DeliveryInput,
        now: u128,
    ) -> StepModel {
        match (self.phase, input) {
            (PhaseModel::Start, _) => self.started(outbox, now),
            (PhaseModel::Waiting { record }, _) => self.counting(outbox, record),
            (
                PhaseModel::Closing { terminal, reason },
                DeliveryInput::Written { ok },
            ) => self.closed(outbox, terminal, reason, ok),
            (
                PhaseModel::Sending { record, sending },
                DeliveryInput::Written { ok },
            ) => self.counted(outbox, record, sending, ok),
            (
                PhaseModel::Submitting { record, sending },
                DeliveryInput::Submitted { accepted },
            ) => self.submitted(outbox, record, sending, accepted, now),
            (
                PhaseModel::Accepting { accepted },
                DeliveryInput::Written { ok },
            ) => self.accepted(outbox, accepted, ok),
            (
                PhaseModel::Retrying { record, retry },
                DeliveryInput::Written { ok },
            ) => self.rescheduled(outbox, record, retry, ok, now),
            _ => arbitrary(),
        }
    }
}

impl RunModel {
    /// Whether the records that the delivery holds may stand in `outbox`: all are in
    /// scope and under the delivery's event id, one to be sent has attempts left, and
    /// one that has ended holds no body.
    pub open spec fn fits(self, outbox: OutboxModel) -> bool {
        match self.phase {
            PhaseModel::Start => true,
            PhaseModel::Waiting { record } => self.sendable(outbox, record),
            PhaseModel::Closing { terminal, .. } => {
                &&& outbox.admits(terminal)
                &&& terminal.event_id == self.event_id
                &&& terminal.state is TerminalFailed
            },
            PhaseModel::Sending { record, sending } => {
                &&& self.sendable(outbox, record)
                &&& sending == record.sending()
            },
            PhaseModel::Submitting { record, sending } => {
                &&& self.sendable(outbox, record)
                &&& sending == record.sending()
            },
            PhaseModel::Accepting { accepted } => {
                &&& outbox.admits(accepted)
                &&& accepted.event_id == self.event_id
                &&& accepted.state is Accepted
            },
            PhaseModel::Retrying { record, retry } => {
                &&& self.sendable(outbox, record)
                &&& retry.state is AwaitingRetry
                &&& exists|now: u128| retry == #[trigger] record.sending().retrying(now)
                &&& retry.logical_attempts < record::MAX_LOGICAL_RECEIPT_SUBMISSIONS
            },
            PhaseModel::Done => true,
        }
    }

    /// Whether `record` may be sent by this delivery.
    pub open spec fn sendable(self, outbox: OutboxModel, record: RecordModel) -> bool {
        &&& outbox.admits(record)
        &&& record.event_id == self.event_id
        &&& !record.state.terminal()
        &&& record.logical_attempts < record::MAX_LOGICAL_RECEIPT_SUBMISSIONS
    }
}

impl DeliveryRun {
    /// A delivery of the record with this event id.
    pub fn start(event_id: String, resumed: bool) -> (r: DeliveryRun)
        ensures
            r@ == (RunModel {
                event_id: event_id@,
                resumed,
                transitions: Seq::empty(),
                phase: PhaseModel::Start,
            }),
    {
        let r = DeliveryRun {
            event_id,
            resumed,
            transitions: Vec::new(),
            phase: DeliveryPhase::Start,
        };
        assert(r@.transitions =~= Seq::empty());
        r
    }

    /// The event id of the record that is delivered.
    pub fn event_id(&self) -> (r: &str)
        ensures
            r@ == self@.event_id,
    {
        self.event_id.as_str()
    }

    /// Notes a transition.
    fn note(&mut self, t: DeliveryTransition)
        ensures
            final(self)@ == old(self)@.noting(t@),
    {
        self.transitions.push(t);
        assert(self@.transitions =~= old(self)@.transitions.push(t@));
    }

    /// Hands out the transitions and closes the delivery.
    fn take_transitions(&mut self) -> (r: Vec<DeliveryTransition>)
        ensures
            steps(r@) == old(self)@.transitions,
            final(self)@ == old(self)@.spent(),
    {
        let mut taken: Vec<DeliveryTransition> = Vec::new();
        core::mem::swap(&mut taken, &mut self.transitions);
        self.phase = DeliveryPhase::Done;
        assert(self@.transitions =~= Seq::empty());
        taken
    }

    /// Ends the delivery, as told of `record`.
    fn finish(
        &mut self,
        record: &HostFinalDeliveryRecord,
        disposition: HostFinalDeliveryDisposition,
    ) -> (r: DeliveryAction)
        ensures
            final(self)@ == old(self)@.spent(),
            r@ == (ActionModel::Finish {
                outcome: record_outcome(
                    record@,
                    outside::uuid_value(record@.channel_id),
                    disposition,
                    old(self)@.resumed,
                    old(self)@.transitions,
                ),
            }),
    {
        let resumed = self.resumed;
        let transitions = self.take_transitions();
        DeliveryAction::Finish {
            outcome: HostFinalDeliveryOutcome::from_record(
                record,
                disposition,
                resumed,
                transitions,
            ),
        }
    }

    /// Asks for `record` to be stored as ended for `reason`.
    fn close(&mut self, record: &HostFinalDeliveryRecord, reason: &'static str) -> (r:
        DeliveryAction)
        ensures
            final(self)@ == (RunModel {
                phase: PhaseModel::Closing {
                    terminal: record@.terminalized(reason@),
                    reason: reason@,
                },
                ..old(self)@
            }),
            r@ == (ActionModel::Write { record: record@.terminalized(reason@) }),
    {
        let mut terminal = record.copy();
        terminal.terminalize(reason);
        let stored = terminal.copy();
        self.phase = DeliveryPhase::Closing { terminal, reason };
        DeliveryAction::Write { record: stored }
    }

    /// Asks for `record` to be stored with one more attempt counted.
    fn count(&mut self, record: HostFinalDeliveryRecord) -> (r: DeliveryAction)
        requires
            record@.logical_attempts < record::MAX_LOGICAL_RECEIPT_SUBMISSIONS,
        ensures
            final(self)@ == (RunModel {
                phase: PhaseModel::Sending { record: record@, sending: record@.sending() },
                ..old(self)@
            }),
            r@ == (ActionModel::Write { record: record@.sending() }),
    {
        let mut sending = record.copy();
        sending.logical_attempts = sending.logical_attempts + 1;
        sending.state = HostFinalDeliveryState::Pending;
        sending.next_attempt_unix_ms = None;
        sending.diagnostic = None;
        let stored = sending.copy();
        self.phase = DeliveryPhase::Sending { record, sending };
        DeliveryAction::Write { record: stored }
    }

    /// Looks at the outbox and goes on from there.
    fn begin(&mut self, outbox: &HostFinalDeliveryOutbox, now: u128) -> (r: DeliveryAction)
        requires
            outbox.wf(),
        ensures
            (StepModel { outbox: outbox@, run: final(self)@, action: r@ })
                == old(self)@.started(outbox@, now),
            final(self)@.fits(outbox@),
    {
        let record = match outbox.record(self.event_id.as_str()) {
            Some(record) => record,
            None => {
                self.note(DeliveryTransition::Terminal { reason: "outbox_record_missing" });
                let resumed = self.resumed;
                let event_id: String = self.event_id.clone();
                let transitions = self.take_transitions();
                return DeliveryAction::Finish {
                    outcome: HostFinalDeliveryOutcome {
                        disposition: HostFinalDeliveryDisposition::TerminalFailed,
                        event_id: Some(event_id),
                        channel_id: None,
                        trigger_event_id: None,
                        resumed,
                        transitions,
                    },
                };
            },
        };
        proof {
            outbox.lemma_sound();
        }
        let validation = outbox.validate(&record);
        match choose_move(&record, validation, now) {
            NextMove::Report { accepted } => {
                let disposition = if accepted {
                    HostFinalDeliveryDisposition::Accepted
                } else {
                    HostFinalDeliveryDisposition::TerminalFailed
                };
                self.finish(&record, disposition)
            },
            NextMove::Foreign => {
                self.note(DeliveryTransition::Terminal { reason: "record_scope_mismatch_skipped" });
                self.finish(&record, HostFinalDeliveryDisposition::TerminalFailed)
            },
            NextMove::Close { reason } => self.close(&record, reason),
            NextMove::Wait { millis } => {
                self.phase = DeliveryPhase::Waiting { record };
                DeliveryAction::Wait { millis }
            },
            NextMove::Send => self.count(record),
        }
    }

    /// Takes one step of the delivery.
    pub fn step(
        &mut self,
        outbox: &mut HostFinalDeliveryOutbox,
        input: DeliveryInput,
        now: u128,
    ) -> (r: DeliveryAction)
        requires
            old(outbox).wf(),
            old(self)@.fits(old(outbox)@),
            old(self)@.expects(input),
            now + DELIVERY_RETRY_DELAY_MS <= u128::MAX,
        ensures
            final(outbox).wf(),
            final(self)@.fits(final(outbox)@),
            (StepModel { outbox: final(outbox)@, run: final(self)@, action: r@ })
                == old(self)@.step(old(outbox)@, input, now),
    {
        let mut phase = DeliveryPhase::Done;
        core::mem::swap(&mut phase, &mut self.phase);
        match (phase, input) {
            (DeliveryPhase::Start, _) => {
                let action = self.begin(outbox, now);
                action
            },
            (DeliveryPhase::Waiting { record }, _) => self.count(record),
            (DeliveryPhase::Closing { terminal, reason }, DeliveryInput::Written { ok }) => {
                let reached = if ok {
                    outbox.index_record(terminal.copy());
                    reason
                } else {
                    "persist_terminal_failed"
                };
                self.note(DeliveryTransition::Terminal { reason: reached });
                self.finish(&terminal, HostFinalDeliveryDisposition::TerminalFailed)
            },
            (DeliveryPhase::Sending { record, sending }, DeliveryInput::Written { ok }) => {
                if !ok {
                    self.note(
                        DeliveryTransition::Terminal { reason: "persist_before_send_failed" },
                    );
                    return self.finish(&record, HostFinalDeliveryDisposition::TerminalFailed);
                }
                outbox.index_record(sending.copy());
                self.note(DeliveryTransition::Attempt { attempt: sending.logical_attempts });
                match record::decode_event_bytes(&sending) {
                    Ok(bytes) => {
                        self.phase = DeliveryPhase::Submitting { record, sending };
                        DeliveryAction::Submit { bytes }
                    },
                    Err(_) => self.close(&sending, "record_validation_failed"),
                }
            },
            (
                DeliveryPhase::Submitting { record, sending },
                DeliveryInput::Submitted { accepted },
            ) => {
                if accepted {
                    let mut done = sending;
                    done.accept();
                    let stored = done.copy();
                    self.phase = DeliveryPhase::Accepting { accepted: done };
                    DeliveryAction::Write { record: stored }
                } else if sending.logical_attempts < record::MAX_LOGICAL_RECEIPT_SUBMISSIONS {
                    let mut retry = sending;
                    retry.state = HostFinalDeliveryState::AwaitingRetry;
                    retry.next_attempt_unix_ms = Some(now + DELIVERY_RETRY_DELAY_MS);
                    retry.diagnostic = Some("relay_rejected_or_unconfirmed".to_owned());
                    let stored = retry.copy();
                    assert(retry@ == record@.sending().retrying(now));
                    self.phase = DeliveryPhase::Retrying { record, retry };
                    DeliveryAction::Write { record: stored }
                } else {
                    self.close(&sending, "relay_rejected_or_unconfirmed")
                }
            },
            (DeliveryPhase::Accepting { accepted }, DeliveryInput::Written { ok }) => {
                if ok {
                    outbox.index_record(accepted.copy());
                    self.note(
                        DeliveryTransition::Accepted { attempt: accepted.logical_attempts },
                    );
                    self.finish(&accepted, HostFinalDeliveryDisposition::Accepted)
                } else {
                    self.note(DeliveryTransition::Terminal { reason: "persist_accepted_failed" });
                    self.finish(&accepted, HostFinalDeliveryDisposition::TerminalFailed)
                }
            },
            (DeliveryPhase::Retrying { record, retry }, DeliveryInput::Written { ok }) => {
                if ok {
                    let attempt = retry.logical_attempts;
                    outbox.index_record(retry);
                    self.note(DeliveryTransition::RetryScheduled { attempt });
                    let action = self.begin(outbox, now);
                    action
                } else {
                    self.note(DeliveryTransition::Terminal { reason: "persist_retry_failed" });
                    self.finish(&record, HostFinalDeliveryDisposition::TerminalFailed)
                }
            },
            _ => {
                assert(false);
                DeliveryAction::Wait { millis: 0 }
            },
        }
    }
}

} // verus!
