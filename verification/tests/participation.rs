use buzz_core::participation::{
    referenced_event_ids, EngagementGuard, ParticipationTracker, SuppressReason, TwoGenSet,
    CHAIN_MAP_LIMIT,
};
use buzz_core::room_event::RoomEvent;
use nostr::{EventBuilder, Keys, Kind, Tag};
use std::time::Duration;
use uuid::Uuid;

fn room_event(event: &nostr::Event) -> RoomEvent {
    RoomEvent {
        id: event.id.to_bytes(),
        kind: event.kind.as_u16(),
        tags: event
            .tags
            .iter()
            .map(|tag| tag.as_slice().to_vec())
            .collect(),
    }
}

fn event_with_tags(kind: u16, tags: Vec<Tag>) -> nostr::Event {
    let keys = Keys::generate();
    EventBuilder::new(Kind::Custom(kind), "hi")
        .tags(tags)
        .sign_with_keys(&keys)
        .expect("sign test event")
}

fn e_tag(id: &str, marker: &str) -> Tag {
    Tag::parse(["e", id, "", marker]).expect("parse e tag")
}

fn guard(max_agent_chain: u32, cooldown: Duration) -> EngagementGuard {
    EngagementGuard::new(max_agent_chain, cooldown.as_nanos())
}

fn channel() -> u128 {
    Uuid::new_v4().as_u128()
}

#[test]
fn reply_to_own_root_engages() {
    let mut tracker = ParticipationTracker::new();
    let channel = channel();

    // Agent posts a root message (no e tags).
    let own_root = event_with_tags(9, vec![]);
    tracker.record_self_event(channel, &room_event(&own_root));

    // Human replies to it.
    let reply = event_with_tags(9, vec![e_tag(&own_root.id.to_hex(), "reply")]);
    assert_eq!(
        tracker.thread_engagement_root(channel, &room_event(&reply)),
        Some(own_root.id.to_hex())
    );
}

#[test]
fn reply_into_participated_thread_engages() {
    let mut tracker = ParticipationTracker::new();
    let channel = channel();
    let root_hex = "a".repeat(64);

    // Agent replied inside someone else's thread.
    let own_reply = event_with_tags(9, vec![e_tag(&root_hex, "root")]);
    tracker.record_self_event(channel, &room_event(&own_reply));

    // A different participant replies to a third message in that thread.
    let reply = event_with_tags(9, vec![e_tag(&root_hex, "root")]);
    assert_eq!(
        tracker.thread_engagement_root(channel, &room_event(&reply)),
        Some(root_hex)
    );
}

#[test]
fn unrelated_thread_does_not_engage() {
    let mut tracker = ParticipationTracker::new();
    let channel = channel();

    let own = event_with_tags(9, vec![]);
    tracker.record_self_event(channel, &room_event(&own));

    let unrelated = event_with_tags(9, vec![e_tag(&"b".repeat(64), "root")]);
    assert_eq!(
        tracker.thread_engagement_root(channel, &room_event(&unrelated)),
        None
    );
}

#[test]
fn participation_is_channel_scoped() {
    let mut tracker = ParticipationTracker::new();
    let channel_a = channel();
    let channel_b = channel();
    let root_hex = "c".repeat(64);

    let own_reply = event_with_tags(9, vec![e_tag(&root_hex, "root")]);
    tracker.record_self_event(channel_a, &room_event(&own_reply));

    // The same root in another channel: the thread counts only where it was taken part in.
    let reply_other_channel = event_with_tags(9, vec![e_tag(&root_hex, "root")]);
    assert_eq!(
        tracker.thread_engagement_root(channel_b, &room_event(&reply_other_channel)),
        None
    );
}

#[test]
fn reactions_and_deletions_are_not_recorded() {
    let mut tracker = ParticipationTracker::new();
    let channel = channel();
    let root_hex = "d".repeat(64);

    let reaction = event_with_tags(7, vec![e_tag(&root_hex, "root")]);
    let deletion = event_with_tags(5, vec![e_tag(&root_hex, "root")]);
    tracker.record_self_event(channel, &room_event(&reaction));
    tracker.record_self_event(channel, &room_event(&deletion));

    let reply = event_with_tags(9, vec![e_tag(&root_hex, "root")]);
    assert_eq!(
        tracker.thread_engagement_root(channel, &room_event(&reply)),
        None
    );
}

#[test]
fn ephemeral_events_are_not_recorded() {
    let mut tracker = ParticipationTracker::new();
    let channel = channel();
    let root_hex = "d".repeat(64);
    for kind in [20000, 24000, 29999] {
        let own = event_with_tags(kind, vec![e_tag(&root_hex, "root")]);
        tracker.record_self_event(channel, &room_event(&own));
    }
    let reply = event_with_tags(9, vec![e_tag(&root_hex, "root")]);
    assert_eq!(
        tracker.thread_engagement_root(channel, &room_event(&reply)),
        None
    );
    let own = event_with_tags(30000, vec![e_tag(&root_hex, "root")]);
    tracker.record_self_event(channel, &room_event(&own));
    assert_eq!(
        tracker.thread_engagement_root(channel, &room_event(&reply)),
        Some(root_hex)
    );
}

#[test]
fn own_messages_engage_in_every_channel() {
    let mut tracker = ParticipationTracker::default();
    let own_root = event_with_tags(9, vec![]);
    tracker.record_self_event(channel(), &room_event(&own_root));
    let reply = event_with_tags(9, vec![e_tag(&own_root.id.to_hex(), "reply")]);
    assert_eq!(
        tracker.thread_engagement_root(channel(), &room_event(&reply)),
        Some(own_root.id.to_hex())
    );
}

#[test]
fn only_e_tags_with_a_value_are_references() {
    let event = RoomEvent {
        id: [0; 32],
        kind: 9,
        tags: vec![
            vec!["p".to_string(), "1".to_string()],
            vec!["e".to_string(), "2".to_string(), "extra".to_string()],
            vec!["e".to_string()],
            vec![],
            vec!["e".to_string(), "3".to_string()],
        ],
    };
    assert_eq!(
        referenced_event_ids(&event),
        vec!["2".to_string(), "3".to_string()]
    );
}

#[test]
fn two_gen_set_bounds_memory_and_keeps_recent() {
    let mut set = TwoGenSet::new(8); // half = 4
    for i in 0..20 {
        set.insert(format!("id-{i}"));
    }
    // Most recent entries always retained.
    assert!(set.contains("id-19"));
    assert!(set.contains("id-16"));
    // Oldest rotated away.
    assert!(!set.contains("id-0"));
    // Bounded: at most `limit` entries live.
    assert!(set.current.len() + set.previous.len() <= 8);
}

#[test]
fn a_set_of_the_smallest_limit_keeps_the_last_texts() {
    let mut set = TwoGenSet::new(0);
    assert!(set.insert("a".to_string()));
    assert!(set.contains("a"));
    assert!(!set.insert("a".to_string()));
    assert!(set.insert("b".to_string()));
    assert!(set.contains("b"));
    assert!(set.contains("a"));
    assert!(set.insert("c".to_string()));
    assert!(!set.contains("a"));
}

#[test]
fn a_set_remembers_no_more_than_its_limit() {
    let mut set = TwoGenSet::new(1);
    assert!(set.insert("a".to_string()));
    assert!(set.insert("b".to_string()));
    assert!(set.contains("b"));
    assert!(!set.contains("a"));
    for limit in 1..9 {
        let mut set = TwoGenSet::new(limit);
        for i in 0..30 {
            set.insert(format!("id-{i}"));
            assert!(set.contains(&format!("id-{i}")));
            assert!(set.current.len() + set.previous.len() <= limit);
        }
    }
}

#[test]
fn repeats_push_nothing_out() {
    let mut set = TwoGenSet::new(8);
    set.insert("kept".to_string());
    for _ in 0..3 {
        for i in 0..3 {
            set.insert(format!("id-{i}"));
        }
    }
    assert!(set.contains("kept"));
}

#[test]
fn chain_cap_suppresses_after_limit() {
    let mut guard = guard(2, Duration::ZERO);
    let channel = channel();
    let root = "e".repeat(64);
    let now = 1_000;

    assert_eq!(guard.admit_thread_turn(channel, &root, now), Ok(1));
    assert_eq!(guard.admit_thread_turn(channel, &root, now), Ok(2));
    assert_eq!(
        guard.admit_thread_turn(channel, &root, now),
        Err(SuppressReason::ChainCap)
    );

    // Owner speaking resets the chain.
    guard.reset_chain(channel, &root);
    assert_eq!(guard.admit_thread_turn(channel, &root, now), Ok(1));
}

#[test]
fn cooldown_suppresses_within_window() {
    let mut guard = guard(10, Duration::from_secs(15));
    let channel = channel();
    let root = "f".repeat(64);
    let t0 = 7_000_000_000;

    assert_eq!(guard.admit_thread_turn(channel, &root, t0), Ok(1));
    assert_eq!(
        guard.admit_thread_turn(channel, &root, t0 + Duration::from_secs(5).as_nanos()),
        Err(SuppressReason::Cooldown)
    );
    assert_eq!(
        guard.admit_thread_turn(channel, &root, t0 + Duration::from_secs(16).as_nanos()),
        Ok(2)
    );
}

#[test]
fn the_owner_speaking_lifts_both_brakes() {
    let mut guard = guard(10, Duration::from_secs(15));
    let channel = channel();
    let root = "f".repeat(64);
    let t0 = 7_000_000_000;
    assert_eq!(guard.admit_thread_turn(channel, &root, t0), Ok(1));
    guard.reset_chain(channel, &root);
    assert_eq!(
        guard.admit_thread_turn(channel, &root, t0 + Duration::from_secs(1).as_nanos()),
        Ok(1)
    );
}

#[test]
fn cooldown_is_per_channel() {
    let mut guard = guard(10, Duration::from_secs(15));
    let root = "1".repeat(64);
    let t0 = 7_000_000_000;

    assert_eq!(guard.admit_thread_turn(channel(), &root, t0), Ok(1));
    // Different channel: independent cooldown clock.
    assert_eq!(guard.admit_thread_turn(channel(), &root, t0), Ok(1));
}

#[test]
fn chains_are_per_thread() {
    let mut guard = guard(1, Duration::ZERO);
    let channel = channel();
    let now = 1_000;

    assert_eq!(
        guard.admit_thread_turn(channel, &"2".repeat(64), now),
        Ok(1)
    );
    assert_eq!(
        guard.admit_thread_turn(channel, &"3".repeat(64), now),
        Ok(1)
    );
    assert_eq!(
        guard.admit_thread_turn(channel, &"2".repeat(64), now),
        Err(SuppressReason::ChainCap)
    );
}

#[test]
fn a_turn_at_the_end_of_the_cooldown_is_admitted() {
    let mut guard = guard(10, Duration::from_secs(15));
    let root = "4".repeat(64);
    assert_eq!(guard.admit_thread_turn(7, &root, 0), Ok(1));
    assert_eq!(
        guard.admit_thread_turn(7, &root, Duration::from_secs(15).as_nanos() - 1),
        Err(SuppressReason::Cooldown)
    );
    assert_eq!(
        guard.admit_thread_turn(7, &root, Duration::from_secs(15).as_nanos()),
        Ok(2)
    );
}

#[test]
fn full_chain_records_start_afresh() {
    let mut guard = guard(1, Duration::ZERO);
    for i in 0..CHAIN_MAP_LIMIT {
        assert_eq!(guard.admit_thread_turn(7, &format!("{i}"), 0), Ok(1));
    }
    assert_eq!(
        guard.admit_thread_turn(7, "0", 0),
        Err(SuppressReason::ChainCap)
    );
    assert_eq!(guard.admit_thread_turn(7, "one more", 0), Ok(1));
    assert_eq!(guard.admit_thread_turn(7, "0", 0), Ok(1));
}

#[test]
fn suppress_reasons_are_written_as_words() {
    assert_eq!(SuppressReason::ChainCap.as_str(), "chain_cap");
    assert_eq!(SuppressReason::Cooldown.as_str(), "cooldown");
}
