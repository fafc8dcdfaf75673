//! The owner's answers to permission requests of a running agent.
//!
//! A request is pending from its registration until the first decision, its
//! cancellation, its deadline, or the end of the bridge. It is bound to the agent, the
//! relay, the session and a fresh id, and only that exact binding reaches it. The broker
//! decides; waking the one who waits is left to the caller, who is told whom to wake and
//! with what. Times are in nanoseconds of one clock.
use vstd::prelude::*;

use crate::draws::Draws;
use crate::keyed;
use crate::outside;
use crate::text;

verus! {

/// How long an owner may take to decide, in nanoseconds.
pub const PERMISSION_DECISION_TIMEOUT_NANOS: u128 = 120000000000;

/// The nanoseconds in a second.
pub const NANOS_PER_SECOND: u128 = 1000000000;

/// The agent and the relay that the bridge works for.
#[derive(Debug, Clone, PartialEq, Eq)]
pub struct PermissionScope {
    pub agent_pubkey: String,
    pub relay_url: String,
}

/// What a scope holds.
#[verifier::ext_equal]
pub struct PermissionScopeModel {
    pub agent_pubkey: Seq<char>,
    pub relay_url: Seq<char>,
}

impl View for PermissionScope {
    type V = PermissionScopeModel;

    open spec fn view(&self) -> PermissionScopeModel {
        PermissionScopeModel { agent_pubkey: self.agent_pubkey@, relay_url: self.relay_url@ }
    }
}

/// Whether `c` is a decimal digit or a lower-case letter of hexadecimal.
pub open spec fn lower_hex_digit(c: char) -> bool {
    '0' <= c <= '9' || 'a' <= c <= 'f'
}

/// Whether `s` is a public key as the bridge writes it: 64 lower-case hexadecimal digits.
pub open spec fn lower_hex_key(s: Seq<char>) -> bool {
    s.len() == 64 && forall|i: int| 0 <= i < s.len() ==> lower_hex_digit(#[trigger] s[i])
}

/// Whether `s` is a public key as the bridge writes it.
fn is_lower_hex_key(s: &str) -> (r: bool)
    ensures
        r == lower_hex_key(s@),
{
    let chars: Vec<char> = text::chars_of(s);
    if chars.len() != 64 {
        return false;
    }
    let mut i: usize = 0;
    while i < chars.len()
        invariant
            i <= chars.len(),
            chars@ == s@,
            forall|j: int| 0 <= j < i ==> lower_hex_digit(#[trigger] s@[j]),
        decreases chars.len() - i,
    {
        let c: char = chars[i];
        if !(('0' <= c && c <= '9') || ('a' <= c && c <= 'f')) {
            assert(!lower_hex_digit(s@[i as int]));
            return false;
        }
        i += 1;
    }
    true
}

impl PermissionScope {
    /// A scope for an agent and a relay.
    pub fn new(agent_pubkey: &str, relay_url: &str) -> (r: Result<PermissionScope, &'static str>)
        ensures
            match r {
                Ok(scope) => {
                    &&& lower_hex_key(agent_pubkey@)
                    &&& relay_url@.len() > 0
                    &&& scope@ == (PermissionScopeModel {
                        agent_pubkey: agent_pubkey@,
                        relay_url: relay_url@,
                    })
                },
                Err(reason) => {
                    ||| !lower_hex_key(agent_pubkey@) && reason@
                        == "agent pubkey must be exactly 64 lowercase hex characters"@
                    ||| lower_hex_key(agent_pubkey@) && relay_url@.len() == 0 && reason@
                        == "relay URL must not be empty"@
                },
            },
    {
        if !is_lower_hex_key(agent_pubkey) {
            return Err("agent pubkey must be exactly 64 lowercase hex characters");
        }
        if relay_url.is_empty() {
            return Err("relay URL must not be empty");
        }
        Ok(
            PermissionScope {
                agent_pubkey: agent_pubkey.to_owned(),
                relay_url: relay_url.to_owned(),
            },
        )
    }

    /// Whether two scopes are the same.
    fn same(&self, other: &PermissionScope) -> (r: bool)
        ensures
            r == (self@ == other@),
    {
        text::same(self.agent_pubkey.as_str(), other.agent_pubkey.as_str()) && text::same(
            self.relay_url.as_str(),
            other.relay_url.as_str(),
        )
    }
}

/// What a pending request is bound to.
#[derive(Debug, Clone, PartialEq, Eq, Hash)]
pub struct PermissionBinding {
    pub agent_pubkey: String,
    pub relay_url: String,
    pub session_id: String,
    pub request_id: u128,
}

/// What a binding holds.
#[verifier::ext_equal]
pub struct BindingModel {
    pub agent_pubkey: Seq<char>,
    pub relay_url: Seq<char>,
    pub session_id: Seq<char>,
    pub request_id: u128,
}

impl View for PermissionBinding {
    type V = BindingModel;

    open spec fn view(&self) -> BindingModel {
        BindingModel {
            agent_pubkey: self.agent_pubkey@,
            relay_url: self.relay_url@,
            session_id: self.session_id@,
            request_id: self.request_id,
        }
    }
}

impl PermissionBinding {
    /// A copy of the binding.
    pub fn copy(&self) -> (r: PermissionBinding)
        ensures
            r@ == self@,
    {
        PermissionBinding {
            agent_pubkey: self.agent_pubkey.clone(),
            relay_url: self.relay_url.clone(),
            session_id: self.session_id.clone(),
            request_id: self.request_id,
        }
    }

    /// Whether two bindings are the same in every part.
    pub fn same(&self, other: &PermissionBinding) -> (r: bool)
        ensures
            r == (self@ == other@),
    {
        self.request_id == other.request_id && text::same(
            self.agent_pubkey.as_str(),
            other.agent_pubkey.as_str(),
        ) && text::same(self.relay_url.as_str(), other.relay_url.as_str()) && text::same(
            self.session_id.as_str(),
            other.session_id.as_str(),
        )
    }
}

/// What the owner may decide.
#[derive(Debug, Clone, Copy, PartialEq, Eq, Structural)]
pub enum OwnerPermissionDecision {
    ApproveOnce,
    Reject,
}

/// What is told to the one who dispatched a decision.
#[derive(Debug, Clone, Copy, PartialEq, Eq, Structural)]
pub enum PermissionDispatchStatus {
    Delivered,
    NotPending,
}

/// What is told to the one who waits for a decision.
#[derive(Debug, Clone, Copy, PartialEq, Eq, Structural)]
pub enum PermissionWaitOutcome {
    Decision(OwnerPermissionDecision),
    Expired,
    Cancelled,
    Unavailable,
}

/// Where in a conversation a request was made.
#[derive(Debug, Clone, PartialEq, Eq)]
pub struct ObserverContext {
    pub channel_id: Option<String>,
    pub session_id: Option<String>,
    pub turn_id: Option<String>,
    pub started_at: Option<String>,
}

/// What a context holds.
#[verifier::ext_equal]
pub struct ContextModel {
    pub channel_id: Option<Seq<char>>,
    pub session_id: Option<Seq<char>>,
    pub turn_id: Option<Seq<char>>,
    pub started_at: Option<Seq<char>>,
}

impl View for ObserverContext {
    type V = ContextModel;

    open spec fn view(&self) -> ContextModel {
        ContextModel {
            channel_id: text::opt_text(self.channel_id),
            session_id: text::opt_text(self.session_id),
            turn_id: text::opt_text(self.turn_id),
            started_at: text::opt_text(self.started_at),
        }
    }
}

/// A request that waits for its decision.
struct PendingPermission {
    binding: PermissionBinding,
    deadline: u128,
    context: ObserverContext,
}

/// What a pending request holds beside its binding.
#[verifier::ext_equal]
pub struct PendingModel {
    pub deadline: u128,
    pub context: ContextModel,
}

impl View for PendingPermission {
    type V = PendingModel;

    closed spec fn view(&self) -> PendingModel {
        PendingModel { deadline: self.deadline, context: self.context@ }
    }
}

/// What a broker holds.
#[verifier::ext_equal]
pub struct BrokerModel {
    pub scope: Option<PermissionScopeModel>,
    pub pending: Map<BindingModel, PendingModel>,
}

impl BrokerModel {
    /// What every broker keeps: each pending request is bound to the scope that the bridge
    /// is enabled for and to the session of its own context.
    pub open spec fn sound(self) -> bool {
        forall|b: BindingModel| #[trigger]
            self.pending.contains_key(b) ==> {
                &&& self.scope == Some(
                    PermissionScopeModel { agent_pubkey: b.agent_pubkey, relay_url: b.relay_url },
                )
                &&& self.pending[b].context.session_id == Some(b.session_id)
                &&& b.session_id.len() > 0
            }
    }

    /// The broker enabled for a scope.
    pub open spec fn enabled(self, scope: PermissionScopeModel) -> BrokerModel {
        if self.scope == Some(scope) {
            self
        } else {
            BrokerModel { scope: Some(scope), pending: Map::empty() }
        }
    }

    /// The broker without this request.
    pub open spec fn without(self, binding: BindingModel) -> BrokerModel {
        BrokerModel { pending: self.pending.remove(binding), ..self }
    }

    /// Whether a request of this session and context can be registered.
    pub open spec fn accepts(self, session_id: Seq<char>, context: ContextModel) -> bool {
        session_id.len() > 0 && context.session_id == Some(session_id) && self.scope is Some
    }

    /// The first of these ids under which no request is pending in the session.
    pub open spec fn first_free(self, session_id: Seq<char>, ids: Seq<u128>) -> Option<u128>
        decreases ids.len(),
    {
        if ids.len() == 0 {
            None
        } else if self.pending.contains_key(self.bound(session_id, ids[0])) {
            self.first_free(session_id, ids.drop_first())
        } else {
            Some(ids[0])
        }
    }

    /// The binding of a request of this session with this id.
    pub open spec fn bound(self, session_id: Seq<char>, request_id: u128) -> BindingModel {
        BindingModel {
            agent_pubkey: self.scope->0.agent_pubkey,
            relay_url: self.scope->0.relay_url,
            session_id,
            request_id,
        }
    }

    /// The broker with one more request.
    pub open spec fn registered(self, binding: BindingModel, request: PendingModel) -> BrokerModel {
        BrokerModel { pending: self.pending.insert(binding, request), ..self }
    }

    /// Whether a request is pending and was made in this channel.
    pub open spec fn in_channel(self, binding: BindingModel, channel_id: Seq<char>) -> bool {
        self.pending.contains_key(binding) && self.pending[binding].context.channel_id == Some(
            channel_id,
        )
    }

    /// What is told to the one who waits on this binding when the owner decides.
    pub open spec fn decided(
        self,
        binding: BindingModel,
        decision: OwnerPermissionDecision,
        now: u128,
    ) -> Option<PermissionWaitOutcome> {
        if !self.pending.contains_key(binding) {
            None
        } else if now >= self.pending[binding].deadline {
            Some(PermissionWaitOutcome::Expired)
        } else {
            Some(PermissionWaitOutcome::Decision(decision))
        }
    }
}

/// The pending requests of one bridge.
pub struct PermissionBroker {
    scope: Option<PermissionScope>,
    pending: Vec<PendingPermission>,
    drawn: Draws,
}

/// The pending requests of a list, each with its binding.
spec fn entries(s: Seq<PendingPermission>) -> Seq<(BindingModel, PendingModel)> {
    s.map_values(|p: PendingPermission| (p.binding@, p@))
}

impl View for PermissionBroker {
    type V = BrokerModel;

    closed spec fn view(&self) -> BrokerModel {
        BrokerModel {
            scope: match self.scope {
                Some(s) => Some(s@),
                None => None,
            },
            pending: keyed::to_map(entries(self.pending@)),
        }
    }
}

/// The bindings of a list.
pub open spec fn bindings(v: Seq<PermissionBinding>) -> Seq<BindingModel> {
    v.map_values(|b: PermissionBinding| b@)
}

/// What became of a registration.
#[derive(Debug)]
pub enum RegisterOutcome {
    /// The bridge is not enabled, or the session is not that of the context.
    Refused,
    /// A request with this id is pending in the session already.
    Taken,
    /// The request is pending under this binding.
    Registered(PermissionBinding),
}

impl PermissionBroker {
    /// Whether the broker is well formed.
    pub closed spec fn wf(self) -> bool {
        keyed::distinct(entries(self.pending@)) && self@.sound()
    }

    /// The ids that were drawn for the last registration under a fresh id.
    pub closed spec fn drawn(self) -> Seq<u128> {
        self.drawn.ids()
    }

    /// A broker that is not enabled.
    pub fn new() -> (r: PermissionBroker)
        ensures
            r.wf(),
            r@ == (BrokerModel { scope: None, pending: Map::empty() }),
    {
        let r = PermissionBroker { scope: None, pending: Vec::new(), drawn: Draws::new() };
        assert(r@.pending =~= Map::empty());
        r
    }

    /// Takes out all pending requests.
    fn drain(&mut self) -> (r: Vec<PermissionBinding>)
        requires
            keyed::distinct(entries(old(self).pending@)),
        ensures
            keyed::distinct(entries(final(self).pending@)),
            final(self)@ == (BrokerModel { pending: Map::empty(), ..old(self)@ }),
            bindings(r@).no_duplicates(),
            forall|b: BindingModel| #[trigger]
                bindings(r@).contains(b) <==> old(self)@.pending.contains_key(b),
    {
        let mut taken: Vec<PendingPermission> = Vec::new();
        core::mem::swap(&mut taken, &mut self.pending);
        assert(self@.pending =~= Map::empty());
        let mut out: Vec<PermissionBinding> = Vec::new();
        let ghost all = entries(taken@);
        let mut i: usize = 0;
        while i < taken.len()
            invariant
                i <= taken.len(),
                all == entries(taken@),
                out@.len() == i,
                forall|k: int| 0 <= k < i ==> (#[trigger] out@[k])@ == taken@[k].binding@,
            decreases taken.len() - i,
        {
            out.push(taken[i].binding.copy());
            i += 1;
        }
        proof {
            let listed = bindings(out@);
            assert forall|i: int, j: int| 0 <= i < listed.len() && 0 <= j < listed.len() && i
                != j implies listed[i] != listed[j] by {
                assert(listed[i] == all[i].0);
                assert(listed[j] == all[j].0);
            }
            assert forall|b: BindingModel| #[trigger]
                listed.contains(b) <==> keyed::to_map(all).contains_key(b) by {
                if listed.contains(b) {
                    let k = listed.index_of(b);
                    assert(all[k].0 == b);
                }
                if keyed::to_map(all).contains_key(b) {
                    let k = keyed::map_position(all, b);
                    assert(listed[k] == b);
                }
            }
        }
        out
    }

    /// Enables the bridge for a scope. Another scope than before ends all requests that
    /// are pending: those listed are to be woken as unavailable. The same scope again
    /// changes nothing.
    pub fn enable(&mut self, scope: PermissionScope) -> (r: Vec<PermissionBinding>)
        requires
            old(self).wf(),
        ensures
            final(self).wf(),
            final(self)@ == old(self)@.enabled(scope@),
            bindings(r@).no_duplicates(),
            old(self)@.scope == Some(scope@) ==> r@.len() == 0,
            old(self)@.scope != Some(scope@) ==> forall|b: BindingModel| #[trigger]
                bindings(r@).contains(b) <==> old(self)@.pending.contains_key(b),
    {
        let same = match &self.scope {
            Some(current) => current.same(&scope),
            None => false,
        };
        if same {
            return Vec::new();
        }
        let drained = self.drain();
        self.scope = Some(scope);
        drained
    }

    /// Disables the bridge. The requests listed are to be woken as unavailable.
    pub fn disable(&mut self) -> (r: Vec<PermissionBinding>)
        requires
            old(self).wf(),
        ensures
            final(self).wf(),
            final(self)@ == (BrokerModel { scope: None, pending: Map::empty() }),
            bindings(r@).no_duplicates(),
            forall|b: BindingModel| #[trigger]
                bindings(r@).contains(b) <==> old(self)@.pending.contains_key(b),
    {
        self.scope = None;
        self.drain()
    }

    /// The position of the pending request with this binding.
    fn position(&self, binding: &PermissionBinding) -> (r: Option<usize>)
        requires
            self.wf(),
        ensures
            r is Some <==> self@.pending.contains_key(binding@),
            r matches Some(i) ==> i < self.pending@.len() && self.pending@[i as int].binding@
                == binding@ && self@.pending[binding@] == self.pending@[i as int]@,
    {
        let mut i: usize = 0;
        while i < self.pending.len()
            invariant
                self.wf(),
                i <= self.pending.len(),
                forall|j: int| 0 <= j < i ==> (#[trigger] self.pending@[j]).binding@ != binding@,
            decreases self.pending.len() - i,
        {
            if self.pending[i].binding.same(binding) {
                proof {
                    keyed::map_at(entries(self.pending@), i as int);
                }
                return Some(i);
            }
            i += 1;
        }
        proof {
            if self@.pending.contains_key(binding@) {
                let k = keyed::map_position(entries(self.pending@), binding@);
                assert(self.pending@[k].binding@ == binding@);
            }
        }
        None
    }

    /// Registers a request under this id.
    pub fn register_as(
        &mut self,
        session_id: &str,
        context: &ObserverContext,
        deadline: u128,
        request_id: u128,
    ) -> (r: RegisterOutcome)
        requires
            old(self).wf(),
        ensures
            final(self).wf(),
            final(self).drawn() == old(self).drawn(),
            match r {
                RegisterOutcome::Refused => {
                    &&& !old(self)@.accepts(session_id@, context@)
                    &&& final(self)@ == old(self)@
                },
                RegisterOutcome::Taken => {
                    &&& old(self)@.accepts(session_id@, context@)
                    &&& old(self)@.pending.contains_key(
                        old(self)@.bound(session_id@, request_id),
                    )
                    &&& final(self)@ == old(self)@
                },
                RegisterOutcome::Registered(binding) => {
                    &&& old(self)@.accepts(session_id@, context@)
                    &&& binding@ == old(self)@.bound(session_id@, request_id)
                    &&& !old(self)@.pending.contains_key(binding@)
                    &&& final(self)@ == old(self)@.registered(
                        binding@,
                        (PendingModel { deadline, context: context@ }),
                    )
                },
            },
    {
        let own_session = match &context.session_id {
            Some(s) => text::same(s.as_str(), session_id),
            None => false,
        };
        if session_id.is_empty() || !own_session {
            return RegisterOutcome::Refused;
        }
        let binding = match &self.scope {
            None => return RegisterOutcome::Refused,
            Some(scope) => PermissionBinding {
                agent_pubkey: scope.agent_pubkey.clone(),
                relay_url: scope.relay_url.clone(),
                session_id: session_id.to_owned(),
                request_id,
            },
        };
        if self.position(&binding).is_some() {
            return RegisterOutcome::Taken;
        }
        let request = PendingPermission {
            binding: binding.copy(),
            deadline,
            context: ObserverContext {
                channel_id: text::copy_opt(&context.channel_id),
                session_id: text::copy_opt(&context.session_id),
                turn_id: text::copy_opt(&context.turn_id),
                started_at: text::copy_opt(&context.started_at),
            },
        };
        proof {
            keyed::map_push(entries(self.pending@), binding@, request@);
            assert(entries(self.pending@.push(request)) =~= entries(self.pending@).push(
                (binding@, request@),
            ));
        }
        self.pending.push(request);
        assert(self@ =~= old(self)@.registered(binding@, request@));
        assert(self@.sound()) by {
            assert forall|b: BindingModel| #[trigger] self@.pending.contains_key(b) implies {
                &&& self@.scope == Some(
                    PermissionScopeModel { agent_pubkey: b.agent_pubkey, relay_url: b.relay_url },
                )
                &&& self@.pending[b].context.session_id == Some(b.session_id)
                &&& b.session_id.len() > 0
            } by {
                if b != binding@ {
                    assert(old(self)@.pending.contains_key(b));
                }
            }
        }
        RegisterOutcome::Registered(binding)
    }

    /// Registers a request under the first of these ids that is not pending in the session.
    /// `Taken` says that all of them are.
    pub fn register_among(
        &mut self,
        session_id: &str,
        context: &ObserverContext,
        deadline: u128,
        ids: &Vec<u128>,
    ) -> (r: RegisterOutcome)
        requires
            old(self).wf(),
        ensures
            final(self).wf(),
            match r {
                RegisterOutcome::Refused => {
                    &&& !old(self)@.accepts(session_id@, context@)
                    &&& final(self)@ == old(self)@
                },
                RegisterOutcome::Taken => {
                    &&& old(self)@.accepts(session_id@, context@)
                    &&& old(self)@.first_free(session_id@, ids@) is None
                    &&& final(self)@ == old(self)@
                },
                RegisterOutcome::Registered(binding) => {
                    &&& old(self)@.accepts(session_id@, context@)
                    &&& old(self)@.first_free(session_id@, ids@) == Some(binding@.request_id)
                    &&& binding@ == old(self)@.bound(session_id@, binding@.request_id)
                    &&& final(self)@ == old(self)@.registered(
                        binding@,
                        (PendingModel { deadline, context: context@ }),
                    )
                },
            },
    {
        let own_session = match &context.session_id {
            Some(s) => text::same(s.as_str(), session_id),
            None => false,
        };
        if session_id.is_empty() || !own_session || self.scope.is_none() {
            return RegisterOutcome::Refused;
        }
        let mut i: usize = 0;
        assert(ids@.skip(0) =~= ids@);
        while i < ids.len()
            invariant
                self.wf(),
                self@ == old(self)@,
                old(self)@.accepts(session_id@, context@),
                i <= ids.len(),
                old(self)@.first_free(session_id@, ids@) == old(self)@.first_free(
                    session_id@,
                    ids@.skip(i as int),
                ),
            decreases ids.len() - i,
        {
            assert(ids@.skip(i as int)[0] == ids@[i as int]);
            assert(ids@.skip(i as int).drop_first() =~= ids@.skip(i + 1));
            match self.register_as(session_id, context, deadline, ids[i]) {
                RegisterOutcome::Taken => {},
                other => return other,
            }
            i += 1;
        }
        RegisterOutcome::Taken
    }

    /// Registers a request under a fresh id. There is no result where the bridge is not
    /// enabled, or where the session is not that of the context. An id that is pending
    /// already is drawn anew, as long as draws are left; so there is none, too, where every id
    /// of so many draws is pending in the session already, and in no other case.
    pub fn register(
        &mut self,
        session_id: &str,
        context: &ObserverContext,
        deadline: u128,
        draws: u64,
    ) -> (r: Option<PermissionBinding>)
        requires
            old(self).wf(),
        ensures
            final(self).wf(),
            r is None ==> final(self)@ == old(self)@,
            !old(self)@.accepts(session_id@, context@) ==> r is None,
            old(self)@.accepts(session_id@, context@) && draws > 0 && (forall|b: BindingModel|
                #[trigger] old(self)@.pending.contains_key(b) ==> b.session_id != session_id@)
                ==> r is Some,
            r matches Some(binding) ==> {
                &&& binding@ == old(self)@.bound(session_id@, binding@.request_id)
                &&& !old(self)@.pending.contains_key(binding@)
                &&& final(self)@ == old(self)@.registered(
                    binding@,
                    (PendingModel { deadline, context: context@ }),
                )
            },
            final(self).drawn().len() <= draws,
            old(self)@.accepts(session_id@, context@) ==> match r {
                Some(binding) => {
                    let n = final(self).drawn().len();
                    &&& n > 0
                    &&& binding@.request_id == final(self).drawn()[n - 1]
                    &&& forall|k: int|
                        0 <= k < n - 1 ==> old(self)@.pending.contains_key(
                            old(self)@.bound(session_id@, #[trigger] final(self).drawn()[k]),
                        )
                },
                None => {
                    &&& final(self).drawn().len() == draws
                    &&& forall|k: int|
                        0 <= k < draws ==> old(self)@.pending.contains_key(
                            old(self)@.bound(session_id@, #[trigger] final(self).drawn()[k]),
                        )
                },
            },
    {
        self.drawn = Draws::new();
        assert(self@ =~= old(self)@);
        let mut left: u64 = draws;
        while left > 0
            invariant
                self.wf(),
                self@ == old(self)@,
                left <= draws,
                self.drawn().len() == draws - left,
                left < draws ==> {
                    &&& old(self)@.accepts(session_id@, context@)
                    &&& !(forall|b: BindingModel| #[trigger]
                        old(self)@.pending.contains_key(b) ==> b.session_id != session_id@)
                },
                forall|k: int|
                    0 <= k < self.drawn().len() ==> old(self)@.pending.contains_key(
                        old(self)@.bound(session_id@, #[trigger] self.drawn()[k]),
                    ),
            decreases left,
        {
            let ghost earlier = self.drawn();
            let request_id: u128 = self.drawn.draw();
            assert(self.drawn() =~= earlier.push(request_id));
            assert(self@ =~= old(self)@);
            match self.register_as(session_id, context, deadline, request_id) {
                RegisterOutcome::Refused => return None,
                RegisterOutcome::Registered(binding) => return Some(binding),
                RegisterOutcome::Taken => {
                    assert(old(self)@.pending.contains_key(
                        old(self)@.bound(session_id@, request_id),
                    ));
                },
            }
            left -= 1;
        }
        None
    }

    /// Takes out a request; whether it was pending.
    fn take(&mut self, binding: &PermissionBinding) -> (r: Option<u128>)
        requires
            old(self).wf(),
        ensures
            final(self).wf(),
            final(self)@ == old(self)@.without(binding@),
            r is Some <==> old(self)@.pending.contains_key(binding@),
            r matches Some(deadline) ==> deadline == old(self)@.pending[binding@].deadline,
    {
        match self.position(binding) {
            None => {
                assert(self@ =~= old(self)@.without(binding@));
                None
            },
            Some(i) => {
                proof {
                    keyed::map_remove(entries(self.pending@), i as int);
                    assert(entries(self.pending@.remove(i as int)) =~= entries(
                        self.pending@,
                    ).remove(i as int));
                }
                let taken = self.pending.remove(i);
                assert(self@ =~= old(self)@.without(binding@));
                assert(self@.sound()) by {
                    assert forall|b: BindingModel| #[trigger]
                        self@.pending.contains_key(b) implies {
                        &&& self@.scope == Some(
                            PermissionScopeModel {
                                agent_pubkey: b.agent_pubkey,
                                relay_url: b.relay_url,
                            },
                        )
                        &&& self@.pending[b].context.session_id == Some(b.session_id)
                        &&& b.session_id.len() > 0
                    } by {
                        assert(old(self)@.pending.contains_key(b));
                    }
                }
                Some(taken.deadline)
            },
        }
    }

    /// Ends a pending request by the owner's decision. The result is what the one who
    /// waits is to be woken with; there is none where nothing is pending under this exact
    /// binding.
    pub fn resolve(
        &mut self,
        binding: &PermissionBinding,
        decision: OwnerPermissionDecision,
        now: u128,
    ) -> (r: Option<PermissionWaitOutcome>)
        requires
            old(self).wf(),
        ensures
            final(self).wf(),
            final(self)@ == old(self)@.without(binding@),
            r == old(self)@.decided(binding@, decision, now),
    {
        match self.take(binding) {
            None => None,
            Some(deadline) => {
                if now >= deadline {
                    Some(PermissionWaitOutcome::Expired)
                } else {
                    Some(PermissionWaitOutcome::Decision(decision))
                }
            },
        }
    }

    /// Cancels a pending request. The result is what the one who waits is to be woken with.
    pub fn cancel(&mut self, binding: &PermissionBinding) -> (r: Option<PermissionWaitOutcome>)
        requires
            old(self).wf(),
        ensures
            final(self).wf(),
            final(self)@ == old(self)@.without(binding@),
            r == (if old(self)@.pending.contains_key(binding@) {
                Some(PermissionWaitOutcome::Cancelled)
            } else {
                None
            }),
    {
        match self.take(binding) {
            None => None,
            Some(_) => Some(PermissionWaitOutcome::Cancelled),
        }
    }

    /// Forgets a request whose waiter is gone.
    pub fn remove(&mut self, binding: &PermissionBinding)
        requires
            old(self).wf(),
        ensures
            final(self).wf(),
            final(self)@ == old(self)@.without(binding@),
    {
        let _ = self.take(binding);
    }

    /// Cancels all requests that were made in a channel. Those listed are to be woken as
    /// cancelled.
    pub fn cancel_channel(&mut self, channel_id: &str) -> (r: Vec<PermissionBinding>)
        requires
            old(self).wf(),
        ensures
            final(self).wf(),
            final(self)@.scope == old(self)@.scope,
            bindings(r@).no_duplicates(),
            forall|b: BindingModel| #[trigger]
                bindings(r@).contains(b) <==> old(self)@.in_channel(b, channel_id@),
            forall|b: BindingModel| #[trigger]
                final(self)@.pending.contains_key(b) <==> old(self)@.pending.contains_key(b)
                    && !old(self)@.in_channel(b, channel_id@),
            forall|b: BindingModel| #[trigger]
                final(self)@.pending.contains_key(b) ==> final(self)@.pending[b]
                    == old(self)@.pending[b],
    {
        let mut out: Vec<PermissionBinding> = Vec::new();
        let mut i: usize = 0;
        let ghost before = old(self)@;
        while i < self.pending.len()
            invariant
                self.wf(),
                i <= self.pending.len(),
                before.scope == self@.scope,
                bindings(out@).no_duplicates(),
                forall|j: int|
                    0 <= j < i ==> (#[trigger] self.pending@[j])@.context.channel_id != Some(
                        channel_id@,
                    ),
                forall|b: BindingModel| #[trigger]
                    bindings(out@).contains(b) ==> before.in_channel(b, channel_id@)
                        && !self@.pending.contains_key(b),
                forall|b: BindingModel| #[trigger]
                    before.pending.contains_key(b) ==> self@.pending.contains_key(b) || bindings(
                        out@,
                    ).contains(b),
                forall|b: BindingModel| #[trigger]
                    self@.pending.contains_key(b) ==> before.pending.contains_key(b)
                        && before.pending[b] == self@.pending[b],
            decreases self.pending.len() - i,
        {
            let here = match &self.pending[i].context.channel_id {
                Some(c) => text::same(c.as_str(), channel_id),
                None => false,
            };
            if here {
                let binding: PermissionBinding = self.pending[i].binding.copy();
                let ghost now = self@;
                let ghost listed = bindings(out@);
                let ghost old_list = self.pending@;
                proof {
                    keyed::map_at(entries(self.pending@), i as int);
                    keyed::map_remove(entries(self.pending@), i as int);
                    assert(entries(self.pending@.remove(i as int)) =~= entries(
                        self.pending@,
                    ).remove(i as int));
                }
                let _ = self.pending.remove(i);
                proof {
                    assert(self@ =~= now.without(binding@));
                    assert(self@.sound()) by {
                        assert forall|b: BindingModel| #[trigger]
                            self@.pending.contains_key(b) implies {
                            &&& self@.scope == Some(
                                PermissionScopeModel {
                                    agent_pubkey: b.agent_pubkey,
                                    relay_url: b.relay_url,
                                },
                            )
                            &&& self@.pending[b].context.session_id == Some(b.session_id)
                            &&& b.session_id.len() > 0
                        } by {
                            assert(now.pending.contains_key(b));
                        }
                    }
                    assert forall|j: int| 0 <= j < i implies (
                    #[trigger] self.pending@[j])@.context.channel_id != Some(channel_id@) by {
                        assert(self.pending@[j] == old_list[j]);
                    }
                }
                out.push(binding);
                proof {
                    let grown = bindings(out@);
                    assert(grown =~= listed.push(binding@));
                    assert(!listed.contains(binding@));
                    assert forall|b: BindingModel| #[trigger]
                        grown.contains(b) <==> listed.contains(b) || b == binding@ by {
                        if listed.contains(b) {
                            assert(grown[listed.index_of(b)] == b);
                        }
                        assert(grown[listed.len() as int] == binding@);
                        if grown.contains(b) && b != binding@ {
                            assert(listed[grown.index_of(b)] == b);
                        }
                    }
                }
            } else {
                i += 1;
            }
        }
        proof {
            assert forall|b: BindingModel| #[trigger]
                self@.pending.contains_key(b) implies !before.in_channel(b, channel_id@) by {
                let k = keyed::map_position(entries(self.pending@), b);
                assert(self.pending@[k]@.context.channel_id != Some(channel_id@));
            }
            assert forall|b: BindingModel| #[trigger]
                bindings(out@).contains(b) <==> before.in_channel(b, channel_id@) by {
                if before.in_channel(b, channel_id@) {
                    assert(before.pending.contains_key(b));
                }
            }
        }
        out
    }

    /// How many requests are pending.
    pub fn pending_count(&self) -> (r: usize)
        requires
            self.wf(),
        ensures
            r == self@.pending.len(),
    {
        proof {
            entries_len(entries(self.pending@));
        }
        self.pending.len()
    }
}

proof fn entries_len(s: Seq<(BindingModel, PendingModel)>)
    requires
        keyed::distinct(s),
    ensures
        keyed::to_map(s).dom().finite(),
        keyed::to_map(s).len() == s.len(),
    decreases s.len(),
{
    if s.len() == 0 {
        assert(keyed::to_map(s).dom() =~= Set::empty());
    } else {
        let last = s.len() - 1;
        let rest = s.remove(last);
        keyed::map_remove(s, last);
        keyed::map_at(s, last);
        entries_len(rest);
        assert(keyed::to_map(s).dom().remove(s[last].0) =~= keyed::to_map(rest).dom());
        assert(keyed::to_map(s).dom() =~= keyed::to_map(rest).dom().insert(s[last].0));
    }
}

/// What is told to the one who dispatched, given what was to be sent to the one who waits
/// and whether that was received.
pub fn dispatch_status(sent: Option<PermissionWaitOutcome>, received: bool) -> (r:
    PermissionDispatchStatus)
    ensures
        r is Delivered <==> received && (sent matches Some(outcome) && (outcome is Decision
            || outcome is Cancelled)),
{
    match sent {
        Some(PermissionWaitOutcome::Decision(_)) if received => PermissionDispatchStatus::Delivered,
        Some(PermissionWaitOutcome::Cancelled) if received => PermissionDispatchStatus::Delivered,
        _ => PermissionDispatchStatus::NotPending,
    }
}

/// What ends a wait.
#[derive(Debug, Clone, Copy, PartialEq, Eq, Structural)]
pub enum WaitEvent {
    /// The broker woke the waiter with this.
    Woken(PermissionWaitOutcome),
    /// The broker is gone, or let go of the request without a word.
    Dropped,
    /// The deadline came first.
    DeadlineReached,
}

/// The wait for one decision.
#[derive(Debug)]
pub struct PermissionWaiter {
    pub binding: PermissionBinding,
    pub deadline: u128,
    pub expires_at: String,
}

impl PermissionWaiter {
    /// What the request is bound to.
    pub fn binding(&self) -> (r: &PermissionBinding)
        ensures
            *r == self.binding,
    {
        &self.binding
    }

    /// When the request expires, as a text for the owner.
    pub fn expires_at(&self) -> (r: &str)
        ensures
            r@ == self.expires_at@,
    {
        self.expires_at.as_str()
    }

    /// How the wait ends. At the deadline the request is forgotten.
    pub fn settle(&self, event: WaitEvent, broker: &mut PermissionBroker) -> (r:
        PermissionWaitOutcome)
        requires
            old(broker).wf(),
        ensures
            final(broker).wf(),
            r == match event {
                WaitEvent::Woken(outcome) => outcome,
                WaitEvent::Dropped => PermissionWaitOutcome::Unavailable,
                WaitEvent::DeadlineReached => PermissionWaitOutcome::Expired,
            },
            final(broker)@ == if event is DeadlineReached {
                old(broker)@.without(self.binding@)
            } else {
                old(broker)@
            },
    {
        match event {
            WaitEvent::Woken(outcome) => outcome,
            WaitEvent::Dropped => PermissionWaitOutcome::Unavailable,
            WaitEvent::DeadlineReached => {
                broker.remove(&self.binding);
                PermissionWaitOutcome::Expired
            },
        }
    }
}

/// The instant that is `remaining` nanoseconds behind another, in seconds and nanoseconds,
/// where its seconds can be counted.
pub open spec fn later_instant(secs: i64, nanos: u32, remaining: u128) -> Option<(i64, u32)> {
    let total = nanos as int + remaining as int;
    let whole = secs + total / (NANOS_PER_SECOND as int);
    if whole <= i64::MAX {
        Some((whole as i64, (total % (NANOS_PER_SECOND as int)) as u32))
    } else {
        None
    }
}

/// The instant that is `remaining` nanoseconds behind another.
pub fn expiry_instant(secs: i64, nanos: u32, remaining: u128) -> (r: Option<(i64, u32)>)
    requires
        nanos < NANOS_PER_SECOND,
    ensures
        r == later_instant(secs, nanos, remaining),
{
    let whole: u128 = remaining / NANOS_PER_SECOND;
    let part: u128 = remaining % NANOS_PER_SECOND + nanos as u128;
    let (whole, part) = if part >= NANOS_PER_SECOND {
        (whole + 1, part - NANOS_PER_SECOND)
    } else {
        (whole, part)
    };
    proof {
        let total = nanos as int + remaining as int;
        let d = NANOS_PER_SECOND as int;
        assert(total == whole * d + part);
        vstd::arithmetic::div_mod::lemma_fundamental_div_mod_converse(
            total,
            d,
            whole as int,
            part as int,
        );
    }
    let room: u128 = (i64::MAX as i128 - secs as i128) as u128;
    if whole <= room {
        let at: i128 = secs as i128 + whole as i128;
        Some((at as i64, part as u32))
    } else {
        None
    }
}

/// The text, for the owner, of the time at which a request with this deadline expires. The
/// wall clock shows `secs` and `nanos` since the Unix epoch when the request's own clock
/// shows `now`. There is none where the time is out of the range of dates.
pub fn expiry_text(secs: i64, nanos: u32, now: u128, deadline: u128) -> (r: Option<String>)
    requires
        nanos < NANOS_PER_SECOND,
    ensures
        text::opt_text(r) == match later_instant(
            secs,
            nanos,
            if deadline >= now {
                (deadline - now) as u128
            } else {
                0
            },
        ) {
            Some((s, n)) => outside::rfc3339_text(s, n),
            None => None,
        },
{
    let remaining: u128 = deadline.saturating_sub(now);
    match expiry_instant(secs, nanos, remaining) {
        Some((s, n)) => outside::rfc3339(s, n),
        None => None,
    }
}

/// The first decision ends a request: whatever comes later under its binding finds nothing
/// pending.
pub proof fn law_first_decision_wins(
    m: BrokerModel,
    binding: BindingModel,
    later: OwnerPermissionDecision,
    now: u128,
)
    ensures
        m.without(binding).decided(binding, later, now) is None,
        m.without(binding).without(binding) == m.without(binding),
{
    assert(m.without(binding).without(binding) =~= m.without(binding));
}

/// A decision reaches the request of its exact binding and no other: one that differs in
/// any part stays pending as it was, and a binding that nothing is pending under changes
/// nothing.
pub proof fn law_only_the_exact_binding_is_reached(
    m: BrokerModel,
    binding: BindingModel,
    other: BindingModel,
    decision: OwnerPermissionDecision,
    now: u128,
)
    requires
        binding.agent_pubkey != other.agent_pubkey || binding.relay_url != other.relay_url
            || binding.session_id != other.session_id || binding.request_id != other.request_id,
    ensures
        m.without(binding).pending.contains_key(other) == m.pending.contains_key(other),
        m.without(binding).decided(other, decision, now) == m.decided(other, decision, now),
        !m.pending.contains_key(binding) ==> m.without(binding) == m,
{
    if !m.pending.contains_key(binding) {
        assert(m.without(binding) =~= m);
    }
}

/// A decision that comes at the deadline or later is never delivered as a decision.
pub proof fn law_late_decisions_expire(
    m: BrokerModel,
    binding: BindingModel,
    decision: OwnerPermissionDecision,
    now: u128,
)
    requires
        m.pending.contains_key(binding),
    ensures
        now >= m.pending[binding].deadline ==> m.decided(binding, decision, now) == Some(
            PermissionWaitOutcome::Expired,
        ),
        now < m.pending[binding].deadline ==> m.decided(binding, decision, now) == Some(
            PermissionWaitOutcome::Decision(decision),
        ),
{
}

/// Enabling the same scope again changes nothing. Enabling another leaves nothing pending,
/// and no binding of the old scope can be reached again while the new one stands.
pub proof fn law_scope_change_ends_old_requests(
    m: BrokerModel,
    scope: PermissionScopeModel,
    binding: BindingModel,
    decision: OwnerPermissionDecision,
    now: u128,
)
    requires
        m.sound(),
    ensures
        m.enabled(scope).enabled(scope) == m.enabled(scope),
        m.enabled(scope).sound(),
        m.scope != Some(scope) ==> m.enabled(scope).decided(binding, decision, now) is None,
        m.enabled(scope).pending.contains_key(binding) ==> binding.agent_pubkey
            == scope.agent_pubkey && binding.relay_url == scope.relay_url,
{
}

/// While the bridge is not enabled nothing is pending and nothing can be registered.
pub proof fn law_disabled_bridge_is_empty(
    m: BrokerModel,
    session_id: Seq<char>,
    context: ContextModel,
    binding: BindingModel,
)
    requires
        m.sound(),
        m.scope is None,
    ensures
        !m.accepts(session_id, context),
        !m.pending.contains_key(binding),
{
}

/// A request that has just been registered is the only thing that changed, and a decision
/// in time reaches it.
pub proof fn law_registered_request_is_reachable(
    m: BrokerModel,
    session_id: Seq<char>,
    request_id: u128,
    request: PendingModel,
    decision: OwnerPermissionDecision,
    now: u128,
)
    requires
        m.sound(),
        m.accepts(session_id, request.context),
        !m.pending.contains_key(m.bound(session_id, request_id)),
        now < request.deadline,
    ensures
        ({
            let binding = m.bound(session_id, request_id);
            let next = m.registered(binding, request);
            &&& next.sound()
            &&& next.decided(binding, decision, now) == Some(
                PermissionWaitOutcome::Decision(decision),
            )
            &&& next.without(binding) == m
        }),
{
    let binding = m.bound(session_id, request_id);
    let next = m.registered(binding, request);
    assert(next.without(binding) =~= m);
    assert forall|b: BindingModel| #[trigger] next.pending.contains_key(b) implies {
        &&& next.scope == Some(
            PermissionScopeModel { agent_pubkey: b.agent_pubkey, relay_url: b.relay_url },
        )
        &&& next.pending[b].context.session_id == Some(b.session_id)
        &&& b.session_id.len() > 0
    } by {
        if b != binding {
            assert(m.pending.contains_key(b));
        }
    }
}

/// A request is taken up exactly where the bridge is enabled, its session has a name, and the
/// context is of that session; nothing else counts, neither what is pending nor any deadline.
pub proof fn law_every_session_may_ask_again(
    m: BrokerModel,
    session_id: Seq<char>,
    context: ContextModel,
    other: BindingModel,
    request: PendingModel,
)
    ensures
        m.accepts(session_id, context) <==> m.scope is Some && session_id.len() > 0
            && context.session_id == Some(session_id),
        m.registered(other, request).accepts(session_id, context) == m.accepts(session_id, context),
        m.without(other).accepts(session_id, context) == m.accepts(session_id, context),
{
}

/// Of some ids the first that is not pending in the session is taken, and there is none only
/// where all of them are pending; so there is one wherever more different ids are drawn than
/// requests are pending, whatever is pending.
pub proof fn law_enough_draws_find_a_free_id(m: BrokerModel, session_id: Seq<char>, ids: Seq<u128>)
    ensures
        m.first_free(session_id, ids) is None <==> forall|k: int|
            0 <= k < ids.len() ==> m.pending.contains_key(
                m.bound(session_id, #[trigger] ids[k]),
            ),
        m.first_free(session_id, ids) matches Some(id) ==> exists|k: int|
            {
                &&& 0 <= k < ids.len()
                &&& #[trigger] ids[k] == id
                &&& !m.pending.contains_key(m.bound(session_id, id))
                &&& forall|j: int|
                    0 <= j < k ==> m.pending.contains_key(m.bound(session_id, #[trigger] ids[j]))
            },
        m.pending.dom().finite() && ids.no_duplicates() && ids.len() > m.pending.len()
            ==> m.first_free(session_id, ids) is Some,
    decreases ids.len(),
{
    if ids.len() > 0 {
        let rest = ids.drop_first();
        law_enough_draws_find_a_free_id(m, session_id, rest);
        assert forall|k: int| 0 <= k < rest.len() implies rest[k] == #[trigger] ids[k + 1] by {}
        if m.pending.contains_key(m.bound(session_id, ids[0])) {
            if m.first_free(session_id, rest) is None {
                assert forall|k: int| 0 <= k < ids.len() implies m.pending.contains_key(
                    m.bound(session_id, #[trigger] ids[k]),
                ) by {
                    if k > 0 {
                        assert(rest[k - 1] == ids[k]);
                    }
                }
            } else {
                let id = m.first_free(session_id, rest)->0;
                let k = choose|k: int|
                    {
                        &&& 0 <= k < rest.len()
                        &&& #[trigger] rest[k] == id
                        &&& !m.pending.contains_key(m.bound(session_id, id))
                        &&& forall|j: int|
                            0 <= j < k ==> m.pending.contains_key(
                                m.bound(session_id, #[trigger] rest[j]),
                            )
                    };
                assert(ids[k + 1] == id);
                assert forall|j: int| 0 <= j < k + 1 implies m.pending.contains_key(
                    m.bound(session_id, #[trigger] ids[j]),
                ) by {
                    if j > 0 {
                        assert(rest[j - 1] == ids[j]);
                    }
                }
            }
        }
    }
    if m.pending.dom().finite() && ids.no_duplicates() && ids.len() > m.pending.len()
        && m.first_free(session_id, ids) is None {
        let bound = Seq::new(ids.len(), |i: int| m.bound(session_id, ids[i]));
        assert forall|i: int, j: int| 0 <= i < bound.len() && 0 <= j < bound.len() && i
            != j implies bound[i] != bound[j] by {
            assert(ids[i] != ids[j]);
        }
        bound.unique_seq_to_set();
        assert(bound.to_set().subset_of(m.pending.dom())) by {
            assert forall|b: BindingModel| bound.to_set().contains(b) implies m.pending.dom().contains(
                b,
            ) by {
                let i = bound.index_of(b);
                assert(m.pending.contains_key(m.bound(session_id, ids[i])));
            }
        }
        vstd::set_lib::lemma_len_subset(bound.to_set(), m.pending.dom());
    }
}

/// A request is bound to the agent and the relay of the bridge, to its session and to its id, and
/// registering it makes it pending with its own deadline and context beside all that was pending.
pub proof fn law_registering_adds_one_request(
    m: BrokerModel,
    session_id: Seq<char>,
    request_id: u128,
    request: PendingModel,
    other: BindingModel,
)
    requires
        m.scope is Some,
    ensures
        ({
            let b = m.bound(session_id, request_id);
            let n = m.registered(b, request);
            &&& b.agent_pubkey == m.scope->0.agent_pubkey
            &&& b.relay_url == m.scope->0.relay_url
            &&& b.session_id == session_id
            &&& b.request_id == request_id
            &&& n.scope == m.scope
            &&& n.pending.contains_key(b) && n.pending[b] == request
            &&& other != b ==> n.pending.contains_key(other) == m.pending.contains_key(other)
            &&& other != b && m.pending.contains_key(other) ==> n.pending[other]
                == m.pending[other]
        }),
{
}

/// Ending a request takes out that one and nothing else, and leaves the bridge enabled as it was;
/// a scope that is enabled is the one that is in force, and leaves what was pending only where it
/// was in force before.
pub proof fn law_ending_a_request_leaves_the_rest(
    m: BrokerModel,
    binding: BindingModel,
    other: BindingModel,
    scope: PermissionScopeModel,
)
    ensures
        !m.without(binding).pending.contains_key(binding),
        m.without(binding).scope == m.scope,
        other != binding ==> m.without(binding).pending.contains_key(other)
            == m.pending.contains_key(other),
        other != binding && m.pending.contains_key(other) ==> m.without(binding).pending[other]
            == m.pending[other],
        m.enabled(scope).scope == Some(scope),
        m.scope == Some(scope) ==> m.enabled(scope).pending == m.pending,
        m.scope != Some(scope) ==> m.enabled(scope).pending.len() == 0
            && !m.enabled(scope).pending.contains_key(other),
{
}

/// A request is one of a channel exactly where it is pending and its context names the channel.
pub proof fn law_requests_belong_to_their_channel(
    m: BrokerModel,
    binding: BindingModel,
    channel_id: Seq<char>,
)
    ensures
        m.in_channel(binding, channel_id) <==> m.pending.contains_key(binding) && (
        m.pending[binding].context.channel_id matches Some(c) && c == channel_id),
        m.pending.contains_key(binding) && m.pending[binding].context.channel_id is None
            ==> !m.in_channel(binding, channel_id),
{
}

/// A public key is written in 64 decimal digits and letters `a` to `f`, never in capitals.
pub proof fn law_keys_are_lower_case_hexadecimal(s: Seq<char>)
    ensures
        lower_hex_key(s) <==> s.len() == 64 && forall|i: int|
            0 <= i < s.len() ==> '0' <= #[trigger] s[i] <= '9' || 'a' <= s[i] <= 'f',
        lower_hex_key(s) <==> text::hex_event_id(s) && text::ascii_lower(s) == s,
{
    if text::hex_event_id(s) && text::ascii_lower(s) == s {
        assert forall|i: int| 0 <= i < s.len() implies lower_hex_digit(#[trigger] s[i]) by {
            assert(text::hex_digit(s[i]));
            assert(text::ascii_lower(s)[i] == s[i]);
        }
    }
    if lower_hex_key(s) {
        assert forall|i: int| 0 <= i < s.len() implies text::hex_digit(#[trigger] s[i]) by {
            assert(lower_hex_digit(s[i]));
        }
        assert(text::ascii_lower(s) =~= s) by {
            assert forall|i: int| 0 <= i < s.len() implies text::ascii_lower(s)[i]
                == #[trigger] s[i] by {
                assert(lower_hex_digit(s[i]));
            }
        }
    }
}

/// The instant of expiry is exactly so many nanoseconds behind the present one, and there is none
/// only where its seconds cannot be counted. The owner has two minutes to decide.
pub proof fn law_expiry_is_the_remaining_time_away(secs: i64, nanos: u32, remaining: u128)
    requires
        nanos < 1000000000,
    ensures
        later_instant(secs, nanos, remaining) matches Some((s, n)) ==> n < 1000000000 && s
            * 1000000000 + n == secs * 1000000000 + nanos + remaining,
        later_instant(secs, nanos, remaining) is None ==> secs * 1000000000 + nanos + remaining
            >= (i64::MAX + 1) * 1000000000,
        PERMISSION_DECISION_TIMEOUT_NANOS == 120 * 1000000000,
{
    let total = nanos as int + remaining as int;
    vstd::arithmetic::div_mod::lemma_fundamental_div_mod(total, 1000000000);
}

} // verus!
