//! The deliveries that a restart interrupted, taken up one after the other.
use vstd::prelude::*;

use crate::delivery::fence;
use crate::delivery::laws;
use crate::delivery::observe;
use crate::delivery::observe::{DeliveryFrame, FrameModel, PendingDelivery};
use crate::delivery::outbox::{HostFinalDeliveryOutbox, OutboxModel};
use crate::delivery::record::{HostFinalDeliveryRecord, RecordModel};
use crate::delivery::run;
use crate::delivery::run::{
    ActionModel, DeliveryAction, DeliveryInput, DeliveryRun, HostFinalDeliveryOutcome, OutcomeModel,
    PhaseModel, RunModel,
};

verus! {

/// What a pending delivery holds.
#[verifier::ext_equal]
pub struct PendingModel {
    pub stored_id: Seq<char>,
    pub event_id: Seq<char>,
}

impl View for PendingDelivery {
    type V = PendingModel;

    open spec fn view(&self) -> PendingModel {
        PendingModel { stored_id: self.stored_id@, event_id: self.event_id@ }
    }
}

/// What a list of pending deliveries holds.
pub open spec fn pending_models(v: Seq<PendingDelivery>) -> Seq<PendingModel> {
    v.map_values(|p: PendingDelivery| p@)
}

/// What a recovery asks for.
pub enum RecoveryAction {
    /// That an observer is told that a delivery is taken up, by these frames.
    Announce { frames: Vec<DeliveryFrame> },
    /// To be stepped again once so many milliseconds have passed.
    Wait { millis: u64 },
    /// That this record is stored durably.
    Write { record: HostFinalDeliveryRecord },
    /// That these bytes of the event with this id are handed to the relay.
    Submit { event_id: String, bytes: Vec<u8> },
    /// That an observer is told how the delivery under way ended.
    Report { outcome: HostFinalDeliveryOutcome },
    /// Nothing: all deliveries were taken up.
    Done,
}

/// What such an action holds.
#[verifier::ext_equal]
pub enum RecoveryActionModel {
    Announce { frames: Seq<FrameModel> },
    Wait { millis: u64 },
    Write { record: RecordModel },
    Submit { event_id: Seq<char>, bytes: Seq<u8> },
    Report { outcome: OutcomeModel },
    Done,
}

impl View for RecoveryAction {
    type V = RecoveryActionModel;

    open spec fn view(&self) -> RecoveryActionModel {
        match *self {
            RecoveryAction::Announce { frames } => RecoveryActionModel::Announce {
                frames: observe::frame_models(frames@),
            },
            RecoveryAction::Wait { millis } => RecoveryActionModel::Wait { millis },
            RecoveryAction::Write { record } => RecoveryActionModel::Write { record: record@ },
            RecoveryAction::Submit { event_id, bytes } => RecoveryActionModel::Submit {
                event_id: event_id@,
                bytes: bytes@,
            },
            RecoveryAction::Report { outcome } => RecoveryActionModel::Report {
                outcome: outcome@,
            },
            RecoveryAction::Done => RecoveryActionModel::Done,
        }
    }
}

/// A recovery under way.
pub struct RecoveryRun {
    pending: Vec<PendingDelivery>,
    taken_up: usize,
    current: Option<DeliveryRun>,
}

/// What a recovery under way holds: the deliveries that are to be taken up, how many were, and
/// the one under way.
#[verifier::ext_equal]
pub struct RecoveryModel {
    pub pending: Seq<PendingModel>,
    pub taken_up: int,
    pub current: Option<RunModel>,
}

impl View for RecoveryRun {
    type V = RecoveryModel;

    closed spec fn view(&self) -> RecoveryModel {
        RecoveryModel {
            pending: pending_models(self.pending@),
            taken_up: self.taken_up as int,
            current: match self.current {
                Some(run) => Some(run@),
                None => None,
            },
        }
    }
}

/// Where a step of a recovery leads.
#[verifier::ext_equal]
pub struct RecoveryStep {
    pub outbox: OutboxModel,
    pub recovery: RecoveryModel,
    pub action: RecoveryActionModel,
}

/// The frames that tell that a delivery is taken up: one where its record is there.
pub open spec fn announcement(outbox: OutboxModel, stored_id: Seq<char>) -> Seq<FrameModel> {
    if outbox.records.contains_key(stored_id) {
        seq![observe::recovery_frame(outbox.records[stored_id])]
    } else {
        Seq::empty()
    }
}

impl RecoveryModel {
    /// Whether the recovery may go on with `outbox`.
    pub open spec fn fits(self, outbox: OutboxModel) -> bool {
        &&& 0 <= self.taken_up <= self.pending.len()
        &&& self.current matches Some(run) ==> run.fits(outbox)
    }

    /// Whether `input` answers what the recovery waits for.
    pub open spec fn expects(self, input: DeliveryInput) -> bool {
        match self.current {
            Some(run) => run.expects(input),
            None => input is Proceed,
        }
    }

    /// Where the recovery goes from here on `input`.
    pub open spec fn step(
        self,
        outbox: OutboxModel,
        input: DeliveryInput,
        now: u128,
    ) -> RecoveryStep {
        match self.current {
            Some(run) => {
                let next = run.step(outbox, input, now);
                RecoveryStep {
                    outbox: next.outbox,
                    recovery: RecoveryModel {
                        current: if next.action is Finish {
                            None
                        } else {
                            Some(next.run)
                        },
                        ..self
                    },
                    action: match next.action {
                        ActionModel::Wait { millis } => RecoveryActionModel::Wait { millis },
                        ActionModel::Write { record } => RecoveryActionModel::Write { record },
                        ActionModel::Submit { bytes } => RecoveryActionModel::Submit {
                            event_id: run.event_id,
                            bytes,
                        },
                        ActionModel::Finish { outcome } => RecoveryActionModel::Report { outcome },
                    },
                }
            },
            None => if self.taken_up >= self.pending.len() {
                RecoveryStep { outbox, recovery: self, action: RecoveryActionModel::Done }
            } else {
                let p = self.pending[self.taken_up];
                RecoveryStep {
                    outbox,
                    recovery: RecoveryModel {
                        taken_up: self.taken_up + 1,
                        current: Some(
                            RunModel {
                                event_id: p.event_id,
                                resumed: true,
                                transitions: Seq::empty(),
                                phase: PhaseModel::Start,
                            },
                        ),
                        ..self
                    },
                    action: RecoveryActionModel::Announce {
                        frames: announcement(outbox, p.stored_id),
                    },
                }
            },
        }
    }
}

impl RecoveryRun {
    /// A recovery of these deliveries.
    pub fn start(pending: Vec<PendingDelivery>) -> (r: RecoveryRun)
        ensures
            r@ == (RecoveryModel {
                pending: pending_models(pending@),
                taken_up: 0,
                current: None,
            }),
    {
        RecoveryRun { pending, taken_up: 0, current: None }
    }

    /// Takes one step of the recovery.
    pub fn step(
        &mut self,
        outbox: &mut HostFinalDeliveryOutbox,
        input: DeliveryInput,
        now: u128,
    ) -> (r: RecoveryAction)
        requires
            old(outbox).wf(),
            old(self)@.fits(old(outbox)@),
            old(self)@.expects(input),
            now + run::DELIVERY_RETRY_DELAY_MS <= u128::MAX,
        ensures
            final(outbox).wf(),
            final(self)@.fits(final(outbox)@),
            (RecoveryStep { outbox: final(outbox)@, recovery: final(self)@, action: r@ })
                == old(self)@.step(old(outbox)@, input, now),
    {
        let mut current: Option<DeliveryRun> = None;
        core::mem::swap(&mut current, &mut self.current);
        match current {
            Some(mut run) => {
                let event_id: String = run.event_id().to_owned();
                match run.step(outbox, input, now) {
                    DeliveryAction::Wait { millis } => {
                        self.current = Some(run);
                        RecoveryAction::Wait { millis }
                    },
                    DeliveryAction::Write { record } => {
                        self.current = Some(run);
                        RecoveryAction::Write { record }
                    },
                    DeliveryAction::Submit { bytes } => {
                        self.current = Some(run);
                        RecoveryAction::Submit { event_id, bytes }
                    },
                    DeliveryAction::Finish { outcome } => RecoveryAction::Report { outcome },
                }
            },
            None => {
                if self.taken_up >= self.pending.len() {
                    return RecoveryAction::Done;
                }
                let at: usize = self.taken_up;
                let ghost p = self.pending@[at as int]@;
                assert(pending_models(self.pending@)[at as int] == p);
                let mut frames: Vec<DeliveryFrame> = Vec::new();
                if let Some(record) = outbox.record(self.pending[at].stored_id.as_str()) {
                    frames.push(observe::recovery_started(&record));
                }
                assert(observe::frame_models(frames@) =~= announcement(outbox@, p.stored_id));
                let event_id: String = self.pending[at].event_id.clone();
                self.current = Some(DeliveryRun::start(event_id, true));
                self.taken_up = at + 1;
                RecoveryAction::Announce { frames }
            },
        }
    }
}

/// One thing that a recovery told.
pub enum Told {
    /// That the delivery of the record with this id is taken up.
    TakenUp { stored_id: Seq<char>, frames: Seq<FrameModel> },
    /// How a delivery ended.
    Ended { outcome: OutcomeModel },
}

/// How far a recovery has come: the outbox, the recovery, what it told, and the event ids of the
/// records whose bodies it handed to the relay.
pub struct RecoveryCourse {
    pub outbox: OutboxModel,
    pub recovery: RecoveryModel,
    pub told: Seq<Told>,
    pub submitted: Seq<Seq<char>>,
}

/// A recovery of these deliveries, at its start.
pub open spec fn begun(outbox: OutboxModel, pending: Seq<PendingModel>) -> RecoveryCourse {
    RecoveryCourse {
        outbox,
        recovery: RecoveryModel { pending, taken_up: 0, current: None },
        told: Seq::empty(),
        submitted: Seq::empty(),
    }
}

impl RecoveryCourse {
    /// The course after one step.
    pub open spec fn after(self, input: DeliveryInput, now: u128) -> RecoveryCourse {
        let next = self.recovery.step(self.outbox, input, now);
        RecoveryCourse {
            outbox: next.outbox,
            recovery: next.recovery,
            told: match next.action {
                RecoveryActionModel::Announce { frames } => self.told.push(
                    Told::TakenUp {
                        stored_id: self.recovery.pending[self.recovery.taken_up].stored_id,
                        frames,
                    },
                ),
                RecoveryActionModel::Report { outcome } => self.told.push(
                    Told::Ended { outcome },
                ),
                _ => self.told,
            },
            submitted: match next.action {
                RecoveryActionModel::Submit { event_id, .. } => self.submitted.push(event_id),
                _ => self.submitted,
            },
        }
    }

    /// The course after a step for each of `inputs`.
    pub open spec fn through(self, inputs: Seq<(DeliveryInput, u128)>) -> RecoveryCourse
        decreases inputs.len(),
    {
        if inputs.len() == 0 {
            self
        } else {
            self.through(inputs.drop_last()).after(inputs.last().0, inputs.last().1)
        }
    }

    /// Whether each of `inputs` answers what the recovery waits for when it comes.
    pub open spec fn allows(self, inputs: Seq<(DeliveryInput, u128)>) -> bool
        decreases inputs.len(),
    {
        inputs.len() > 0 ==> self.allows(inputs.drop_last()) && self.through(
            inputs.drop_last(),
        ).recovery.expects(inputs.last().0)
    }

    /// Whether every delivery was taken up and has ended.
    pub open spec fn done(self) -> bool {
        self.recovery.current is None && self.recovery.taken_up == self.recovery.pending.len()
    }
}

/// What a recovery that went right tells of the delivery of `p`, at each of two places: that it
/// is taken up, by one frame of its record, and how it ended, as one taken up again.
pub open spec fn tells(p: PendingModel, taken_up: Told, ended: Told) -> bool {
    &&& taken_up matches Told::TakenUp { stored_id, frames } && stored_id == p.stored_id
        && frames.len() == 1 && frames[0].event_id == Some(p.stored_id) && frames[0].resumed
        && frames[0].kind == "reply_delivery_recovery_resumed"@
    &&& ended matches Told::Ended { outcome } && outcome.event_id == Some(p.event_id)
        && outcome.resumed
}

/// What holds of a recovery throughout.
spec fn orderly(c: RecoveryCourse, m: OutboxModel, pending: Seq<PendingModel>) -> bool {
    let told = c.told;
    &&& c.outbox.sound()
    &&& c.outbox.issues == m.issues
    &&& c.recovery.pending == pending
    &&& c.recovery.fits(c.outbox)
    &&& c.recovery.current matches Some(run) ==> {
        &&& c.recovery.taken_up > 0
        &&& run.resumed
        &&& run.event_id == pending[c.recovery.taken_up - 1].event_id
        &&& fence::in_step(run, c.outbox)
        &&& run.phase !is Done
    }
    &&& forall|id: Seq<char>| #[trigger]
        m.records.contains_key(id) ==> c.outbox.records.contains_key(id)
    &&& forall|id: Seq<char>| #[trigger]
        m.records.contains_key(id) && m.records[id].state.terminal() ==> c.outbox.records[id]
            == m.records[id] && !c.submitted.contains(id)
    &&& told.len() == 2 * c.recovery.taken_up - (if c.recovery.current is Some {
        1int
    } else {
        0
    })
    &&& forall|k: int|
        0 <= k < c.recovery.taken_up && m.records.contains_key(pending[k].stored_id) ==> {
            let t = #[trigger] told[2 * k];
            t matches Told::TakenUp { stored_id, frames } && stored_id == pending[k].stored_id
                && frames.len() == 1 && frames[0].event_id == Some(pending[k].stored_id)
                && frames[0].resumed && frames[0].kind == "reply_delivery_recovery_resumed"@
        }
    &&& forall|k: int|
        0 <= k && 2 * k + 1 < told.len() ==> {
            let t = #[trigger] told[2 * k + 1];
            t matches Told::Ended { outcome } && outcome.event_id == Some(pending[k].event_id)
                && outcome.resumed
        }
}

/// What holds of a recovery throughout holds after a step.
proof fn step_keeps_orderly(
    c: RecoveryCourse,
    input: DeliveryInput,
    now: u128,
    m: OutboxModel,
    pending: Seq<PendingModel>,
)
    requires
        orderly(c, m, pending),
        c.recovery.expects(input),
    ensures
        orderly(c.after(input, now), m, pending),
{
    let n = c.after(input, now);
    match c.recovery.current {
        Some(run) => {
            let next = run.step(c.outbox, input, now);
            laws::law_step_keeps_outbox_sound(run, c.outbox, input, now);
            laws::law_delivery_ends(run, c.outbox, input, now);
            fence::law_steps_keep_the_sources(run, c.outbox, input, now);
            if next.action is Finish {
                laws::law_outcome_is_truthful(run, c.outbox, input, now);
            }
            assert forall|id: Seq<char>| #[trigger]
                m.records.contains_key(id) implies n.outbox.records.contains_key(id) by {
                laws::law_step_keeps_fence_and_other_records(run, c.outbox, input, now, id);
            }
            assert forall|id: Seq<char>| #[trigger]
                m.records.contains_key(id) && m.records[id].state.terminal() implies n.outbox.records[id]
                == m.records[id] && !n.submitted.contains(id) by {
                laws::law_step_keeps_fence_and_other_records(run, c.outbox, input, now, id);
                if n.submitted.contains(id) {
                    let k = n.submitted.index_of(id);
                    if k < c.submitted.len() {
                        assert(c.submitted[k] == id);
                    }
                }
            }
        },
        None => {},
    }
}

/// What holds of a recovery throughout holds after all its steps.
proof fn course_stays_orderly(
    m: OutboxModel,
    pending: Seq<PendingModel>,
    inputs: Seq<(DeliveryInput, u128)>,
)
    requires
        m.sound(),
        begun(m, pending).allows(inputs),
    ensures
        orderly(begun(m, pending).through(inputs), m, pending),
    decreases inputs.len(),
{
    if inputs.len() > 0 {
        course_stays_orderly(m, pending, inputs.drop_last());
        step_keeps_orderly(
            begun(m, pending).through(inputs.drop_last()),
            inputs.last().0,
            inputs.last().1,
            m,
            pending,
        );
    }
}

/// A recovery takes up its deliveries one after the other, each once and in the order of the
/// list: each is told by one frame of its record before it begins, and by its outcome, as taken
/// up again, before the next one; when the recovery is done, every one was.
pub proof fn law_recovery_takes_up_every_delivery(
    m: OutboxModel,
    pending: Seq<PendingModel>,
    inputs: Seq<(DeliveryInput, u128)>,
)
    requires
        m.sound(),
        forall|k: int|
            0 <= k < pending.len() ==> m.records.contains_key((#[trigger] pending[k]).stored_id),
        begun(m, pending).allows(inputs),
    ensures
        ({
            let c = begun(m, pending).through(inputs);
            &&& forall|k: int|
                0 <= k && 2 * k + 1 < c.told.len() ==> tells(
                    #[trigger] pending[k],
                    c.told[2 * k],
                    c.told[2 * k + 1],
                )
            &&& c.told.len() <= 2 * pending.len()
            &&& c.done() <==> c.told.len() == 2 * pending.len()
        }),
{
    course_stays_orderly(m, pending, inputs);
    let c = begun(m, pending).through(inputs);
    assert forall|k: int| 0 <= k && 2 * k + 1 < c.told.len() implies tells(
        #[trigger] pending[k],
        c.told[2 * k],
        c.told[2 * k + 1],
    ) by {
        assert(m.records.contains_key(pending[k].stored_id));
        let t = c.told[2 * k];
        let e = c.told[2 * k + 1];
    }
}

/// A recovery neither changes a record whose delivery had ended nor hands its body to the relay,
/// forgets no record, and notes no new load issue: what was told once is not told again.
pub proof fn law_recovery_leaves_ended_records_alone(
    m: OutboxModel,
    pending: Seq<PendingModel>,
    inputs: Seq<(DeliveryInput, u128)>,
    id: Seq<char>,
)
    requires
        m.sound(),
        begun(m, pending).allows(inputs),
        m.records.contains_key(id),
    ensures
        ({
            let c = begun(m, pending).through(inputs);
            &&& c.outbox.records.contains_key(id)
            &&& m.records[id].state.terminal() ==> c.outbox.records[id] == m.records[id]
                && !c.submitted.contains(id)
            &&& c.outbox.issues == m.issues
        }),
{
    course_stays_orderly(m, pending, inputs);
}

/// How far a recovery is from its end.
pub open spec fn recovery_distance(recovery: RecoveryModel, outbox: OutboxModel) -> int {
    32 * (recovery.pending.len() - recovery.taken_up) + match recovery.current {
        Some(run) => 1 + laws::distance(run, outbox),
        None => 0,
    }
}

/// Every step brings a recovery closer to its end, until it is done.
pub proof fn law_recovery_ends(
    recovery: RecoveryModel,
    outbox: OutboxModel,
    input: DeliveryInput,
    now: u128,
)
    requires
        outbox.sound(),
        recovery.fits(outbox),
        recovery.expects(input),
    ensures
        ({
            let next = recovery.step(outbox, input, now);
            ||| next.action is Done && next.recovery == recovery && next.outbox == outbox
            ||| 0 <= recovery_distance(next.recovery, next.outbox) < recovery_distance(
                recovery,
                outbox,
            )
        }),
{
    match recovery.current {
        Some(run) => {
            laws::law_delivery_ends(run, outbox, input, now);
        },
        None => {},
    }
}

} // verus!
