use buzz_core::permission::{
    dispatch_status, expiry_instant, expiry_text, ObserverContext, OwnerPermissionDecision,
    PermissionBinding, PermissionBroker, PermissionDispatchStatus, PermissionScope,
    PermissionWaitOutcome, PermissionWaiter, RegisterOutcome, WaitEvent,
    PERMISSION_DECISION_TIMEOUT_NANOS,
};

const NOW: u128 = 5_000_000_000;

fn scope() -> PermissionScope {
    PermissionScope::new(&"a".repeat(64), "wss://relay.example").unwrap()
}

fn context(session_id: &str, channel_id: Option<&str>) -> ObserverContext {
    ObserverContext {
        channel_id: channel_id.map(str::to_owned),
        session_id: Some(session_id.to_owned()),
        turn_id: Some("turn-1".into()),
        started_at: Some("2026-08-06T00:00:00Z".into()),
    }
}

fn waiter(binding: PermissionBinding) -> PermissionWaiter {
    PermissionWaiter {
        binding,
        deadline: NOW + PERMISSION_DECISION_TIMEOUT_NANOS,
        expires_at: "2026-08-06T00:02:00+00:00".to_string(),
    }
}

fn register_in(
    broker: &mut PermissionBroker,
    session_id: &str,
    channel_id: Option<&str>,
) -> Option<PermissionWaiter> {
    broker
        .register(
            session_id,
            &context(session_id, channel_id),
            NOW + PERMISSION_DECISION_TIMEOUT_NANOS,
            64,
        )
        .map(waiter)
}

fn register(broker: &mut PermissionBroker, session_id: &str) -> PermissionWaiter {
    register_in(broker, session_id, Some("channel-a")).expect("enabled broker")
}

/// Hands a decision to the broker, as one does whose waiter is still there: the status that
/// the owner is told, and what the waiter is woken with.
fn resolve_at(
    broker: &mut PermissionBroker,
    binding: &PermissionBinding,
    decision: OwnerPermissionDecision,
    now: u128,
) -> (PermissionDispatchStatus, Option<PermissionWaitOutcome>) {
    let sent = broker.resolve(binding, decision, now);
    (dispatch_status(sent, true), sent)
}

#[test]
fn decision_requires_exact_agent_relay_session_and_request() {
    let mut broker = PermissionBroker::new();
    broker.enable(scope());
    let waiter = register(&mut broker, "session-a");
    let binding = waiter.binding().copy();

    let mut mutations = Vec::new();
    let mut wrong_agent = binding.copy();
    wrong_agent.agent_pubkey = "b".repeat(64);
    mutations.push(wrong_agent);
    let mut wrong_relay = binding.copy();
    wrong_relay.relay_url.push_str("/other");
    mutations.push(wrong_relay);
    let mut wrong_session = binding.copy();
    wrong_session.session_id = "session-b".into();
    mutations.push(wrong_session);
    let mut wrong_request = binding.copy();
    wrong_request.request_id = uuid::Uuid::new_v4().as_u128();
    mutations.push(wrong_request);

    for candidate in mutations {
        assert_eq!(
            resolve_at(
                &mut broker,
                &candidate,
                OwnerPermissionDecision::ApproveOnce,
                NOW
            )
            .0,
            PermissionDispatchStatus::NotPending
        );
    }
    assert_eq!(broker.pending_count(), 1);
    let (status, sent) = resolve_at(
        &mut broker,
        &binding,
        OwnerPermissionDecision::ApproveOnce,
        NOW,
    );
    assert_eq!(status, PermissionDispatchStatus::Delivered);
    assert_eq!(
        waiter.settle(WaitEvent::Woken(sent.unwrap()), &mut broker),
        PermissionWaitOutcome::Decision(OwnerPermissionDecision::ApproveOnce)
    );
}

#[test]
fn first_valid_decision_wins_and_replay_is_not_pending() {
    let mut broker = PermissionBroker::new();
    broker.enable(scope());
    let waiter = register(&mut broker, "session-a");
    let binding = waiter.binding().copy();

    let (status, sent) =
        resolve_at(&mut broker, &binding, OwnerPermissionDecision::Reject, NOW);
    assert_eq!(status, PermissionDispatchStatus::Delivered);
    assert_eq!(
        resolve_at(
            &mut broker,
            &binding,
            OwnerPermissionDecision::ApproveOnce,
            NOW
        )
        .0,
        PermissionDispatchStatus::NotPending
    );
    assert_eq!(
        waiter.settle(WaitEvent::Woken(sent.unwrap()), &mut broker),
        PermissionWaitOutcome::Decision(OwnerPermissionDecision::Reject)
    );
}

#[test]
fn waiter_timeout_and_drop_remove_registration() {
    let mut broker = PermissionBroker::new();
    broker.enable(scope());
    let waiter = register(&mut broker, "session-a");
    let binding = waiter.binding().copy();
    assert_eq!(
        waiter.settle(WaitEvent::DeadlineReached, &mut broker),
        PermissionWaitOutcome::Expired
    );
    assert_eq!(broker.pending_count(), 0);
    assert_eq!(
        resolve_at(
            &mut broker,
            &binding,
            OwnerPermissionDecision::ApproveOnce,
            NOW
        )
        .0,
        PermissionDispatchStatus::NotPending
    );

    let dropped = register(&mut broker, "session-a");
    let dropped_binding = dropped.binding().copy();
    broker.remove(dropped.binding());
    assert_eq!(broker.pending_count(), 0);
    assert_eq!(
        resolve_at(
            &mut broker,
            &dropped_binding,
            OwnerPermissionDecision::Reject,
            NOW
        )
        .0,
        PermissionDispatchStatus::NotPending
    );
}

#[test]
fn disable_drains_all_pending_as_denials() {
    let mut broker = PermissionBroker::new();
    broker.enable(scope());
    let first = register(&mut broker, "session-a");
    let second = register(&mut broker, "session-b");
    let drained = broker.disable();
    assert_eq!(drained.len(), 2);
    assert!(drained.iter().any(|b| b.same(first.binding())));
    assert!(drained.iter().any(|b| b.same(second.binding())));
    assert_eq!(
        first.settle(
            WaitEvent::Woken(PermissionWaitOutcome::Unavailable),
            &mut broker
        ),
        PermissionWaitOutcome::Unavailable
    );
    assert_eq!(
        second.settle(WaitEvent::Dropped, &mut broker),
        PermissionWaitOutcome::Unavailable
    );
    assert_eq!(broker.pending_count(), 0);
    assert!(register_in(&mut broker, "session-c", Some("channel-c")).is_none());
}

#[test]
fn request_ids_are_fresh_across_rpc_id_and_session_reuse() {
    let mut broker = PermissionBroker::new();
    broker.enable(scope());
    let first = register(&mut broker, "session-a");
    let second = register(&mut broker, "session-a");
    assert_ne!(first.binding().request_id, second.binding().request_id);
}

#[test]
fn channel_cancel_is_scoped_and_preserves_heartbeat_requests() {
    let mut broker = PermissionBroker::new();
    broker.enable(scope());
    let first = register(&mut broker, "session-a");
    let other = register_in(&mut broker, "session-b", Some("channel-b")).unwrap();
    let heartbeat = register_in(&mut broker, "session-heartbeat", None).unwrap();

    let cancelled = broker.cancel_channel("channel-a");
    assert_eq!(cancelled.len(), 1);
    assert!(cancelled[0].same(first.binding()));
    assert_eq!(
        first.settle(
            WaitEvent::Woken(PermissionWaitOutcome::Cancelled),
            &mut broker
        ),
        PermissionWaitOutcome::Cancelled
    );
    assert_eq!(broker.pending_count(), 2);

    let other_binding = other.binding().copy();
    let (status, sent) =
        resolve_at(&mut broker, &other_binding, OwnerPermissionDecision::Reject, NOW);
    assert_eq!(status, PermissionDispatchStatus::Delivered);
    assert_eq!(
        other.settle(WaitEvent::Woken(sent.unwrap()), &mut broker),
        PermissionWaitOutcome::Decision(OwnerPermissionDecision::Reject)
    );
    broker.remove(heartbeat.binding());
    assert_eq!(broker.pending_count(), 0);
}

#[test]
fn scope_validation_is_exact_and_case_sensitive() {
    assert!(PermissionScope::new(&"a".repeat(64), "wss://relay.example").is_ok());
    assert!(PermissionScope::new(&"A".repeat(64), "wss://relay.example").is_err());
    assert!(PermissionScope::new(&"a".repeat(63), "wss://relay.example").is_err());
    assert!(PermissionScope::new(&"g".repeat(64), "wss://relay.example").is_err());
    assert!(PermissionScope::new(&"a".repeat(64), "").is_err());
}

#[test]
fn scope_refusals_name_their_reason() {
    assert_eq!(
        PermissionScope::new("a", "wss://relay.example").unwrap_err(),
        "agent pubkey must be exactly 64 lowercase hex characters"
    );
    assert_eq!(
        PermissionScope::new(&"a".repeat(64), "").unwrap_err(),
        "relay URL must not be empty"
    );
}

#[test]
fn a_late_decision_expires_the_request() {
    let mut broker = PermissionBroker::new();
    broker.enable(scope());
    let waiter = register(&mut broker, "session-a");
    let late = NOW + PERMISSION_DECISION_TIMEOUT_NANOS;
    let sent = broker.resolve(
        waiter.binding(),
        OwnerPermissionDecision::ApproveOnce,
        late,
    );
    assert_eq!(sent, Some(PermissionWaitOutcome::Expired));
    assert_eq!(
        dispatch_status(sent, true),
        PermissionDispatchStatus::NotPending
    );
    assert_eq!(broker.pending_count(), 0);
}

#[test]
fn a_decision_that_nobody_receives_is_not_delivered() {
    let mut broker = PermissionBroker::new();
    broker.enable(scope());
    let waiter = register(&mut broker, "session-a");
    let sent = broker.resolve(waiter.binding(), OwnerPermissionDecision::Reject, NOW);
    assert_eq!(
        dispatch_status(sent, false),
        PermissionDispatchStatus::NotPending
    );
}

#[test]
fn a_scope_change_ends_the_requests_of_the_old_scope() {
    let mut broker = PermissionBroker::new();
    broker.enable(scope());
    register(&mut broker, "session-a");
    assert!(broker.enable(scope()).is_empty());
    assert_eq!(broker.pending_count(), 1);
    let other = PermissionScope::new(&"a".repeat(64), "wss://other.example").unwrap();
    assert_eq!(broker.enable(other).len(), 1);
    assert_eq!(broker.pending_count(), 0);
}

#[test]
fn a_request_of_another_session_or_of_none_is_refused() {
    let mut broker = PermissionBroker::new();
    broker.enable(scope());
    assert!(matches!(
        broker.register_as("session-a", &context("session-b", None), NOW, 7),
        RegisterOutcome::Refused
    ));
    assert!(matches!(
        broker.register_as("", &context("", None), NOW, 7),
        RegisterOutcome::Refused
    ));
    assert!(matches!(
        broker.register_as("session-a", &context("session-a", None), NOW, 7),
        RegisterOutcome::Registered(_)
    ));
    assert!(matches!(
        broker.register_as("session-a", &context("session-a", None), NOW, 7),
        RegisterOutcome::Taken
    ));
}

#[test]
fn a_request_is_registered_under_the_first_free_id() {
    let mut broker = PermissionBroker::new();
    let own = context("session-a", None);
    let registered = |outcome: RegisterOutcome| match outcome {
        RegisterOutcome::Registered(binding) => Some(binding.request_id),
        _ => None,
    };
    assert!(matches!(
        broker.register_among("session-a", &own, NOW, &vec![7]),
        RegisterOutcome::Refused
    ));
    broker.enable(scope());
    assert!(matches!(
        broker.register_among("session-a", &context("session-b", None), NOW, &vec![7]),
        RegisterOutcome::Refused
    ));
    assert_eq!(
        registered(broker.register_among("session-a", &own, NOW, &vec![7, 8])),
        Some(7)
    );
    assert_eq!(
        registered(broker.register_among("session-a", &own, NOW, &vec![7, 7, 9, 8])),
        Some(9)
    );
    assert!(matches!(
        broker.register_among("session-a", &own, NOW, &vec![9, 7]),
        RegisterOutcome::Taken
    ));
    assert!(matches!(
        broker.register_among("session-a", &own, NOW, &Vec::new()),
        RegisterOutcome::Taken
    ));
    assert_eq!(
        registered(broker.register_among("session-c", &context("session-c", None), NOW, &vec![7])),
        Some(7)
    );
}

#[test]
fn cancelling_a_request_tells_its_waiter() {
    let mut broker = PermissionBroker::new();
    broker.enable(scope());
    let waiter = register(&mut broker, "session-a");
    assert_eq!(
        broker.cancel(waiter.binding()),
        Some(PermissionWaitOutcome::Cancelled)
    );
    assert_eq!(broker.cancel(waiter.binding()), None);
}

#[test]
fn the_expiry_is_written_as_the_instant_of_the_deadline() {
    assert_eq!(expiry_instant(10, 900_000_000, 200_000_000), Some((11, 100_000_000)));
    assert_eq!(expiry_instant(i64::MAX, 0, 1_000_000_000), None);
    assert_eq!(
        expiry_text(1_785_974_400, 0, NOW, NOW + PERMISSION_DECISION_TIMEOUT_NANOS).as_deref(),
        Some("2026-08-06T00:02:00+00:00")
    );
    assert_eq!(
        expiry_text(1_785_974_400, 0, NOW, 0).as_deref(),
        Some("2026-08-06T00:00:00+00:00")
    );
    let waiter = waiter(PermissionBinding {
        agent_pubkey: "a".repeat(64),
        relay_url: "wss://relay.example".into(),
        session_id: "session-a".into(),
        request_id: 1,
    });
    assert_eq!(waiter.expires_at(), "2026-08-06T00:02:00+00:00");
}
