use buzz_core::delivery::finalize::{
    admit_final_reply, publish_failure, FinalReplyStep, PromptCompletion, PublishStage,
    ReplyOrigin, StopReason, MAX_HOST_FINAL_REPLY_BYTES,
};
use buzz_core::delivery::observe::{begin_recovery, outcome_frames, recovery_started};
use buzz_core::delivery::outbox::{
    filename_event_id, record_file_name, salvage_source_ids, EntryContent, FinalReplyTarget,
    HostFinalDeliveryOutbox,
};
use buzz_core::delivery::record::{
    check_record, check_signed_body, decode_event_bytes, encode_event_bytes, validate_record,
    HostFinalDeliveryRecord, HostFinalDeliveryState, OutboxScope,
};
use buzz_core::delivery::recovery::{RecoveryAction, RecoveryRun};
use buzz_core::delivery::run::{
    DeliveryAction, DeliveryInput, DeliveryRun, DeliveryTransition, HostFinalDeliveryDisposition,
    HostFinalDeliveryOutcome, DELIVERY_RETRY_DELAY_MS,
};
use buzz_core::json::Json;
use nostr::{EventBuilder, EventId, Keys, Kind, Tag};
use std::cell::RefCell;
use std::collections::BTreeMap;
use uuid::Uuid;

const RELAY: &str = "ws://127.0.0.1:3000";

/// A directory of record files, by file name.
struct Disk {
    files: RefCell<BTreeMap<String, HostFinalDeliveryRecord>>,
    failing: RefCell<bool>,
}

impl Disk {
    fn new() -> Disk {
        Disk {
            files: RefCell::new(BTreeMap::new()),
            failing: RefCell::new(false),
        }
    }

    fn write(&self, record: &HostFinalDeliveryRecord) -> Result<(), String> {
        if *self.failing.borrow() {
            return Err("failed_to_write_host_final_record".to_string());
        }
        let name = record_file_name(&record.event_id)?;
        self.files.borrow_mut().insert(name, record.copy());
        Ok(())
    }

    fn open(&self, relay_url: &str, keys: &Keys) -> HostFinalDeliveryOutbox {
        let mut outbox = HostFinalDeliveryOutbox::new(OutboxScope {
            relay_url: relay_url.to_string(),
            sender_pubkey: keys.public_key().to_hex(),
        });
        let names: Vec<String> = self.files.borrow().keys().cloned().collect();
        for name in names {
            let stem = name.strip_suffix(".json");
            outbox.load_entry(
                stem.map(|_| "json"),
                true,
                stem,
                || EntryContent::Record(self.files.borrow()[&name].copy()),
                |record: &HostFinalDeliveryRecord| self.write(record),
            );
        }
        outbox
    }

    fn contents(&self) -> String {
        format!("{:?}", self.files.borrow())
    }
}

struct Fixture {
    keys: Keys,
    target: FinalReplyTarget,
    source_event_id: [u8; 32],
    event_id: EventId,
    event_bytes: Vec<u8>,
}

fn signed_pending_fixture(final_content: &str) -> Fixture {
    signed_fixture(Keys::generate(), final_content)
}

fn signed_fixture(keys: Keys, final_content: &str) -> Fixture {
    let channel_id = Uuid::new_v4();
    let source_event_id = EventId::from_hex(&"a".repeat(64)).expect("valid test source id");
    let trigger = EventBuilder::new(Kind::Custom(9), "trigger")
        .tags([Tag::parse(["h", &channel_id.to_string()]).expect("channel tag")])
        .sign_with_keys(&keys)
        .expect("signed trigger");
    let event = EventBuilder::new(Kind::Custom(9), final_content)
        .tags([Tag::parse(["h", &channel_id.to_string()]).expect("channel tag")])
        .sign_with_keys(&keys)
        .expect("signed final event");
    Fixture {
        target: FinalReplyTarget {
            channel_id: channel_id.as_u128(),
            trigger_event_id: trigger.id.to_bytes(),
            trigger_author: keys.public_key().to_hex(),
        },
        source_event_id: source_event_id.to_bytes(),
        event_id: event.id,
        event_bytes: serde_json::to_vec(&event).expect("event JSON"),
        keys,
    }
}

fn persist(fixture: &Fixture, outbox: &mut HostFinalDeliveryOutbox, disk: &Disk) {
    outbox
        .persist_signed(
            &fixture.event_id.to_bytes(),
            fixture.event_bytes.clone(),
            &fixture.target,
            &vec![fixture.source_event_id, fixture.target.trigger_event_id],
            |record: &HostFinalDeliveryRecord| disk.write(record),
        )
        .expect("record persists");
}

/// Drives a delivery with the receipts of a relay, in order. The result also holds the
/// bodies that the relay was handed and how long the delivery waited.
fn deliver(
    outbox: &mut HostFinalDeliveryOutbox,
    disk: &Disk,
    event_id: &str,
    resumed: bool,
    mut receipts: Vec<bool>,
) -> (HostFinalDeliveryOutcome, Vec<Vec<u8>>, u64) {
    let mut run = DeliveryRun::start(event_id.to_string(), resumed);
    let mut input = DeliveryInput::Proceed;
    let mut now: u128 = 1_000;
    let mut bodies = Vec::new();
    let mut waited = 0;
    loop {
        match run.step(outbox, input, now) {
            DeliveryAction::Wait { millis } => {
                waited += millis;
                now += u128::from(millis);
                input = DeliveryInput::Proceed;
            }
            DeliveryAction::Write { record } => {
                input = DeliveryInput::Written {
                    ok: disk.write(&record).is_ok(),
                };
            }
            DeliveryAction::Submit { bytes } => {
                bodies.push(bytes);
                input = DeliveryInput::Submitted {
                    accepted: receipts.remove(0),
                };
            }
            DeliveryAction::Finish { outcome } => return (outcome, bodies, waited),
        }
    }
}

fn reasons(outcome: &HostFinalDeliveryOutcome) -> Vec<String> {
    outcome
        .transitions
        .iter()
        .map(|transition| match transition {
            DeliveryTransition::Attempt { attempt } => format!("attempt {attempt}"),
            DeliveryTransition::RetryScheduled { attempt } => format!("retry {attempt}"),
            DeliveryTransition::Accepted { attempt } => format!("accepted {attempt}"),
            DeliveryTransition::Terminal { reason } => reason.to_string(),
        })
        .collect()
}

#[test]
fn pending_signed_record_survives_reopen_with_exact_bytes_and_fences_sources() {
    let fixture = signed_pending_fixture("pending-final-message");
    let disk = Disk::new();

    let mut outbox = disk.open(RELAY, &fixture.keys);
    persist(&fixture, &mut outbox, &disk);
    assert!(outbox.contains_source_event(&fixture.source_event_id));
    assert!(outbox.contains_source_event(&fixture.target.trigger_event_id));

    let reopened = disk.open(RELAY, &fixture.keys);
    assert!(reopened.contains_source_event(&fixture.source_event_id));
    assert!(reopened.contains_source_event(&fixture.target.trigger_event_id));
    let stored = reopened
        .record(&fixture.event_id.to_hex())
        .expect("record indexed");
    assert!(matches!(stored.state, HostFinalDeliveryState::Pending));
    assert_eq!(
        decode_event_bytes(&stored).expect("stored bytes"),
        fixture.event_bytes,
        "pending recovery must use the one originally signed serialization"
    );
}

#[test]
fn accepted_record_compacts_body_and_fences_sources_after_reopen() {
    let final_content = "accepted-final-message-must-not-persist";
    let fixture = signed_pending_fixture(final_content);
    let disk = Disk::new();
    let mut outbox = disk.open(RELAY, &fixture.keys);
    persist(&fixture, &mut outbox, &disk);
    let id = fixture.event_id.to_hex();

    let (outcome, bodies, waited) = deliver(&mut outbox, &disk, &id, false, vec![false, true]);
    assert_eq!(outcome.disposition, HostFinalDeliveryDisposition::Accepted);
    assert_eq!(
        bodies,
        vec![fixture.event_bytes.clone(), fixture.event_bytes.clone()]
    );
    assert_eq!(u128::from(waited), DELIVERY_RETRY_DELAY_MS);
    assert_eq!(
        reasons(&outcome),
        vec!["attempt 1", "retry 1", "attempt 2", "accepted 2"]
    );
    assert!(matches!(
        outbox.record(&id).expect("persisted record").state,
        HostFinalDeliveryState::Accepted
    ));
    assert!(
        outbox
            .record(&id)
            .expect("persisted record")
            .event_bytes_b64
            .is_none(),
        "accepted in-memory tombstone retained the body"
    );
    assert!(disk.files.borrow()[&format!("{id}.json")]
        .event_bytes_b64
        .is_none());
    assert!(!disk.contents().contains(final_content));

    let reopened = disk.open(RELAY, &fixture.keys);
    assert!(reopened.contains_source_event(&fixture.source_event_id));
    assert!(reopened.contains_source_event(&fixture.target.trigger_event_id));
    let stored = reopened.record(&id).expect("record indexed");
    assert!(matches!(stored.state, HostFinalDeliveryState::Accepted));
    assert!(stored.event_bytes_b64.is_none());
}

#[test]
fn terminal_record_compacts_body_and_fences_sources_after_reopen() {
    let final_content = "terminal-final-message-must-not-persist";
    let fixture = signed_pending_fixture(final_content);
    let disk = Disk::new();
    let mut outbox = disk.open(RELAY, &fixture.keys);
    persist(&fixture, &mut outbox, &disk);
    let id = fixture.event_id.to_hex();

    let (outcome, bodies, _) = deliver(&mut outbox, &disk, &id, false, vec![false, false]);
    assert_eq!(
        outcome.disposition,
        HostFinalDeliveryDisposition::TerminalFailed
    );
    assert_eq!(
        bodies,
        vec![fixture.event_bytes.clone(), fixture.event_bytes.clone()]
    );
    assert!(matches!(
        outbox.record(&id).expect("persisted record").state,
        HostFinalDeliveryState::TerminalFailed
    ));
    assert!(
        outbox
            .record(&id)
            .expect("persisted record")
            .event_bytes_b64
            .is_none(),
        "terminal in-memory tombstone retained the body"
    );
    assert!(disk.files.borrow()[&format!("{id}.json")]
        .event_bytes_b64
        .is_none());
    assert!(!disk.contents().contains(final_content));

    let reopened = disk.open(RELAY, &fixture.keys);
    assert!(reopened.contains_source_event(&fixture.source_event_id));
    assert!(reopened.contains_source_event(&fixture.target.trigger_event_id));
    let stored = reopened.record(&id).expect("record indexed");
    assert!(matches!(
        stored.state,
        HostFinalDeliveryState::TerminalFailed
    ));
    assert!(stored.event_bytes_b64.is_none());
}

#[test]
fn reopen_compacts_legacy_terminal_body_and_retains_replay_fence() {
    let final_content = "legacy-terminal-message-must-not-persist";
    let fixture = signed_pending_fixture(final_content);
    let disk = Disk::new();
    let mut outbox = disk.open(RELAY, &fixture.keys);
    persist(&fixture, &mut outbox, &disk);
    drop(outbox);

    let name = format!("{}.json", fixture.event_id.to_hex());
    disk.files.borrow_mut().get_mut(&name).unwrap().state = HostFinalDeliveryState::Accepted;

    let reopened = disk.open(RELAY, &fixture.keys);
    assert!(reopened.contains_source_event(&fixture.source_event_id));
    assert!(reopened.contains_source_event(&fixture.target.trigger_event_id));
    let stored = reopened
        .record(&fixture.event_id.to_hex())
        .expect("record indexed");
    assert!(matches!(stored.state, HostFinalDeliveryState::Accepted));
    assert!(stored.event_bytes_b64.is_none());
    assert!(disk.files.borrow()[&name].event_bytes_b64.is_none());
}

#[test]
fn foreign_identity_pending_record_in_shared_dir_is_left_untouched() {
    let fixture = signed_pending_fixture("identity-a-pending-final");
    let keys_b = Keys::generate();
    let relay_b = "ws://127.0.0.1:3001";
    let disk = Disk::new();

    let mut outbox_a = disk.open(RELAY, &fixture.keys);
    persist(&fixture, &mut outbox_a, &disk);
    let original = disk.contents();

    let mut outbox_b = disk.open(relay_b, &keys_b);
    assert_eq!(
        outbox_b.contains_source_event(&fixture.source_event_id),
        false,
        "foreign source event should not be indexed by identity B"
    );
    assert_eq!(
        outbox_b.contains_source_event(&fixture.target.trigger_event_id),
        false,
        "foreign trigger event should not be indexed by identity B"
    );
    assert!(outbox_b.take_load_issues().is_empty());
    assert_eq!(
        disk.contents(),
        original,
        "foreign open must not rewrite another identity's pending record"
    );

    let reopened_a = disk.open(RELAY, &fixture.keys);
    assert!(
        reopened_a.contains_source_event(&fixture.source_event_id),
        "identity A pending record must remain present/deliverable after foreign open"
    );
    assert!(
        reopened_a.contains_source_event(&fixture.target.trigger_event_id),
        "identity A trigger fence must remain present after foreign open"
    );
    assert_eq!(
        disk.contents(),
        original,
        "identity A pending bytes must still be unchanged"
    );
}

#[test]
fn a_signed_event_is_kept_once_and_with_its_sources() {
    let fixture = signed_pending_fixture("once");
    let disk = Disk::new();
    let mut outbox = disk.open(RELAY, &fixture.keys);
    let mut keep = |id: [u8; 32], sources: Vec<[u8; 32]>| {
        outbox.persist_signed(
            &id,
            fixture.event_bytes.clone(),
            &fixture.target,
            &sources,
            |record: &HostFinalDeliveryRecord| disk.write(record),
        )
    };
    let id = fixture.event_id.to_bytes();
    let trigger = fixture.target.trigger_event_id;
    assert_eq!(
        keep(id, vec![]),
        Err("host_final_missing_source_events".to_string())
    );
    assert_eq!(
        keep(id, vec![fixture.source_event_id]),
        Err("record_trigger_not_claimed".to_string())
    );
    assert_eq!(
        keep([7; 32], vec![trigger]),
        Err("record_signature_invalid".to_string())
    );
    assert_eq!(keep(id, vec![trigger]), Ok(()));
    assert_eq!(
        keep(id, vec![trigger]),
        Err("host_final_duplicate_event_id".to_string())
    );
}

#[test]
fn a_failed_write_keeps_nothing() {
    let fixture = signed_pending_fixture("unwritten");
    let disk = Disk::new();
    let mut outbox = disk.open(RELAY, &fixture.keys);
    *disk.failing.borrow_mut() = true;
    let kept = outbox.persist_signed(
        &fixture.event_id.to_bytes(),
        fixture.event_bytes.clone(),
        &fixture.target,
        &vec![fixture.target.trigger_event_id],
        |record: &HostFinalDeliveryRecord| disk.write(record),
    );
    assert_eq!(
        kept,
        Err("failed_to_write_host_final_record".to_string())
    );
    assert!(outbox.record(&fixture.event_id.to_hex()).is_none());
    assert!(!outbox.contains_source_event(&fixture.target.trigger_event_id));
}

fn stored(fixture: &Fixture) -> HostFinalDeliveryRecord {
    let disk = Disk::new();
    let mut outbox = disk.open(RELAY, &fixture.keys);
    persist(fixture, &mut outbox, &disk);
    outbox.record(&fixture.event_id.to_hex()).unwrap()
}

fn scope(fixture: &Fixture) -> OutboxScope {
    OutboxScope {
        relay_url: RELAY.to_string(),
        sender_pubkey: fixture.keys.public_key().to_hex(),
    }
}

#[test]
fn every_fault_of_a_record_has_its_reason() {
    let fixture = signed_pending_fixture("faults");
    let scope = scope(&fixture);
    let fault = |change: &dyn Fn(&mut HostFinalDeliveryRecord)| {
        let mut record = stored(&fixture);
        change(&mut record);
        validate_record(&record, &scope)
    };
    assert_eq!(fault(&|_| {}), Ok(()));
    assert_eq!(
        fault(&|r| r.relay_url.push('/')),
        Err("record_scope_mismatch")
    );
    assert_eq!(
        fault(&|r| r.sender_pubkey = "b".repeat(64)),
        Err("record_scope_mismatch")
    );
    assert_eq!(fault(&|r| r.version = 2), Err("record_metadata_invalid"));
    assert_eq!(
        fault(&|r| r.event_id = "x".to_string()),
        Err("record_metadata_invalid")
    );
    assert_eq!(
        fault(&|r| r.logical_attempts = 3),
        Err("record_metadata_invalid")
    );
    assert_eq!(
        fault(&|r| r.source_event_ids.clear()),
        Err("record_metadata_invalid")
    );
    assert_eq!(
        fault(&|r| r.trigger_event_id = "x".to_string()),
        Err("record_trigger_id_invalid")
    );
    assert_eq!(
        fault(&|r| r.channel_id = "x".to_string()),
        Err("record_channel_id_invalid")
    );
    assert_eq!(
        fault(&|r| r.source_event_ids.push("x".to_string())),
        Err("record_source_id_invalid")
    );
    assert_eq!(
        fault(&|r| r.source_event_ids = vec!["c".repeat(64)]),
        Err("record_trigger_not_claimed")
    );
    assert_eq!(
        fault(&|r| {
            r.state = HostFinalDeliveryState::Accepted;
            r.next_attempt_unix_ms = Some(1);
        }),
        Err("record_terminal_retry_scheduled")
    );
    assert_eq!(
        fault(&|r| r.event_bytes_b64 = None),
        Err("record_body_missing")
    );
    assert_eq!(
        fault(&|r| {
            r.event_bytes_b64 = None;
            r.state = HostFinalDeliveryState::TerminalFailed;
        }),
        Ok(())
    );
    assert_eq!(
        fault(&|r| r.event_bytes_b64 = Some("!".to_string())),
        Err("record_bytes_invalid")
    );
    assert_eq!(
        fault(&|r| r.event_bytes_b64 = Some(encode_event_bytes(b"{}".to_vec()))),
        Err("record_event_invalid")
    );
    assert_eq!(
        fault(&|r| r.event_id = "d".repeat(64)),
        Err("record_signature_invalid")
    );
    assert_eq!(
        fault(&|r| {
            let text = String::from_utf8(fixture.event_bytes.clone()).unwrap();
            r.event_bytes_b64 =
                Some(encode_event_bytes(text.replace("faults", "forged").into_bytes()));
        }),
        Err("record_signature_invalid")
    );
}

#[test]
fn checks_go_by_what_they_are_told_of_the_body() {
    let fixture = signed_pending_fixture("told");
    let scope = scope(&fixture);
    let record = stored(&fixture);
    assert_eq!(check_record(&record, &scope, Some(1), Ok(())), Ok(()));
    assert_eq!(
        check_record(&record, &scope, Some(1), Err("why")),
        Err("why")
    );
    assert_eq!(
        check_record(&record, &scope, None, Ok(())),
        Err("record_channel_id_invalid")
    );
    let id = [1; 32];
    let body = Ok(vec![1]);
    let fields = Some((id, "author".to_string()));
    assert_eq!(check_signed_body(&body, &fields, true, &id, "author"), Ok(()));
    assert_eq!(
        check_signed_body(&body, &fields, false, &id, "author"),
        Err("record_signature_invalid")
    );
    assert_eq!(
        check_signed_body(&body, &fields, true, &id, "other"),
        Err("record_signature_invalid")
    );
    assert_eq!(
        check_signed_body(&body, &fields, true, &[2; 32], "author"),
        Err("record_signature_invalid")
    );
    assert_eq!(
        check_signed_body(&body, &None, true, &id, "author"),
        Err("record_event_invalid")
    );
    assert_eq!(
        check_signed_body(&Err("gone"), &fields, true, &id, "author"),
        Err("gone")
    );
}

#[test]
fn bodies_are_kept_in_base64() {
    assert_eq!(encode_event_bytes(b"hello".to_vec()), "aGVsbG8=");
    let mut record = stored(&signed_pending_fixture("base64"));
    record.event_bytes_b64 = Some("aGVsbG8=".to_string());
    assert_eq!(decode_event_bytes(&record), Ok(b"hello".to_vec()));
    record.event_bytes_b64 = None;
    assert_eq!(decode_event_bytes(&record), Err("record_body_missing"));
}

#[test]
fn entries_that_are_no_records_are_noted() {
    let fixture = signed_pending_fixture("issues");
    let disk = Disk::new();
    let mut outbox = disk.open(RELAY, &fixture.keys);
    let stem = "e".repeat(64);
    let write = |_: &HostFinalDeliveryRecord| -> Result<(), String> { panic!("written") };
    outbox.load_entry(Some("txt"), true, Some(&stem), || panic!("read"), write);
    outbox.load_entry(Some("json"), false, Some(&stem), || panic!("read"), write);
    outbox.load_entry(
        Some("json"),
        true,
        Some(&stem),
        || EntryContent::Unreadable,
        write,
    );
    outbox.load_entry(
        Some("json"),
        true,
        Some("notes"),
        || EntryContent::Corrupt(b"{".to_vec()),
        write,
    );
    let recovery = begin_recovery(&mut outbox);
    assert!(recovery.pending.is_empty());
    let told: Vec<(Option<String>, Vec<String>)> = recovery
        .issues
        .iter()
        .map(|issue| (issue.event_id.clone(), reasons(issue)))
        .collect();
    assert_eq!(
        told,
        vec![
            (None, vec!["outbox_record_not_regular_file".to_string()]),
            (Some(stem), vec!["outbox_record_unreadable".to_string()]),
            (None, vec!["outbox_record_corrupt".to_string()]),
        ]
    );
    assert!(recovery.issues.iter().all(|issue| issue.resumed));
    assert!(begin_recovery(&mut outbox).issues.is_empty());
}

fn id_of(digit: &str) -> String {
    digit.repeat(64)
}

fn bytes_of(digit: &str) -> [u8; 32] {
    EventId::from_hex(&id_of(digit)).unwrap().to_bytes()
}

fn load_corrupt(outbox: &mut HostFinalDeliveryOutbox, text: &str) {
    let stem = "e".repeat(64);
    outbox.load_entry(
        Some("json"),
        true,
        Some(&stem),
        || EntryContent::Corrupt(text.as_bytes().to_vec()),
        |_: &HostFinalDeliveryRecord| -> Result<(), String> { panic!("written") },
    );
}

#[test]
fn a_malformed_record_still_fences_the_sources_that_it_names() {
    let fixture = signed_pending_fixture("malformed");
    let disk = Disk::new();
    let mut outbox = disk.open(RELAY, &fixture.keys);
    let key = fixture.keys.public_key().to_hex();
    load_corrupt(
        &mut outbox,
        &format!(
            "{{\"relay_url\":\"{RELAY}\",\"sender_pubkey\":\"{key}\",\"source_event_ids\":[\"{}\",7,\"{}\"]}}",
            id_of("1"),
            id_of("2")
        ),
    );
    load_corrupt(
        &mut outbox,
        &format!("{{\"source_event_ids\":[\"{}\"]}}", id_of("3")),
    );
    load_corrupt(
        &mut outbox,
        &format!(
            "{{\"relay_url\":\"ws://elsewhere\",\"source_event_ids\":[\"{}\"]}}",
            id_of("4")
        ),
    );
    load_corrupt(
        &mut outbox,
        &format!(
            "{{\"sender_pubkey\":\"{}\",\"source_event_ids\":[\"{}\"]}}",
            id_of("9"),
            id_of("5")
        ),
    );
    load_corrupt(&mut outbox, &format!("{{\"source_event_ids\":[\"{}\"]", id_of("6")));
    for (digit, fenced) in [
        ("1", true),
        ("2", true),
        ("3", true),
        ("4", false),
        ("5", false),
        ("6", false),
        ("7", false),
    ] {
        assert_eq!(outbox.contains_source_event(&bytes_of(digit)), fenced, "{digit}");
    }
    let issues = outbox.take_load_issues();
    assert_eq!(issues.len(), 5);
    assert!(issues
        .iter()
        .all(|issue| issue.reason == "outbox_record_corrupt"));
}

#[test]
fn sources_are_salvaged_from_what_a_file_holds() {
    let scope = OutboxScope {
        relay_url: RELAY.to_string(),
        sender_pubkey: id_of("9"),
    };
    let text = |value: &str| Json::Text(value.to_string());
    let sources = Json::Array(vec![text("a"), Json::Null, text("b")]);
    let named = Json::Object(vec![("source_event_ids".to_string(), sources)]);
    assert_eq!(
        salvage_source_ids(&Some(named), &scope),
        vec!["a".to_string(), "b".to_string()]
    );
    assert!(salvage_source_ids(&Some(text("a")), &scope).is_empty());
    assert!(salvage_source_ids(&None, &scope).is_empty());
}

#[test]
fn only_what_was_consumed_is_fenced() {
    let fixture = signed_pending_fixture("exact fence");
    let disk = Disk::new();
    let mut outbox = disk.open(RELAY, &fixture.keys);
    persist(&fixture, &mut outbox, &disk);
    let id = fixture.event_id.to_hex();
    deliver(&mut outbox, &disk, &id, false, vec![false, true]);
    let reopened = disk.open(RELAY, &fixture.keys);
    for outbox in [&outbox, &reopened] {
        assert!(outbox.contains_source_event(&fixture.source_event_id));
        assert!(outbox.contains_source_event(&fixture.target.trigger_event_id));
        assert!(!outbox.contains_source_event(&fixture.event_id.to_bytes()));
        assert!(!outbox.contains_source_event(&bytes_of("b")));
    }
}

#[test]
fn all_deliveries_of_a_record_together_submit_it_twice_at_most() {
    for (receipts, disposition, state) in [
        (
            vec![false, false],
            HostFinalDeliveryDisposition::TerminalFailed,
            HostFinalDeliveryState::TerminalFailed,
        ),
        (
            vec![false, true],
            HostFinalDeliveryDisposition::Accepted,
            HostFinalDeliveryState::Accepted,
        ),
        (
            vec![true],
            HostFinalDeliveryDisposition::Accepted,
            HostFinalDeliveryState::Accepted,
        ),
    ] {
        let fixture = signed_pending_fixture("whole deliveries");
        let disk = Disk::new();
        let mut outbox = disk.open(RELAY, &fixture.keys);
        persist(&fixture, &mut outbox, &disk);
        let id = fixture.event_id.to_hex();
        let mut outbox = disk.open(RELAY, &fixture.keys);
        let submissions = receipts.len();
        let (first, bodies, _) = deliver(&mut outbox, &disk, &id, false, receipts);
        assert_eq!(first.disposition, disposition);
        assert_eq!(bodies.len(), submissions);
        assert!(bodies.iter().all(|body| *body == fixture.event_bytes));
        for _ in 0..2 {
            let (again, bodies, _) = deliver(&mut outbox, &disk, &id, true, Vec::new());
            assert_eq!(again.disposition, disposition);
            assert!(again.transitions.is_empty());
            assert!(bodies.is_empty());
            let record = outbox.record(&id).unwrap();
            assert_eq!(record.state, state);
            assert!(record.event_bytes_b64.is_none());
            outbox = disk.open(RELAY, &fixture.keys);
        }
    }
}

/// Drives a delivery until the host stops, after so many steps; whether it ended before.
fn deliver_until_stopped(
    outbox: &mut HostFinalDeliveryOutbox,
    disk: &Disk,
    event_id: &str,
    accepted: bool,
    steps: usize,
    bodies: &mut Vec<Vec<u8>>,
) -> bool {
    let mut run = DeliveryRun::start(event_id.to_string(), true);
    let mut input = DeliveryInput::Proceed;
    let mut now: u128 = 1_000;
    for _ in 0..steps {
        input = match run.step(outbox, input, now) {
            DeliveryAction::Wait { millis } => {
                now += u128::from(millis);
                DeliveryInput::Proceed
            }
            DeliveryAction::Write { record } => DeliveryInput::Written {
                ok: disk.write(&record).is_ok(),
            },
            DeliveryAction::Submit { bytes } => {
                bodies.push(bytes);
                DeliveryInput::Submitted { accepted }
            }
            DeliveryAction::Finish { .. } => return true,
        };
    }
    false
}

#[test]
fn a_host_that_stops_in_the_middle_of_a_delivery_still_submits_twice_at_most() {
    for accepted in [false, true] {
        for first in 0..10 {
            for second in 0..10 {
                let fixture = signed_pending_fixture("interrupted");
                let disk = Disk::new();
                let mut outbox = disk.open(RELAY, &fixture.keys);
                persist(&fixture, &mut outbox, &disk);
                let id = fixture.event_id.to_hex();
                let mut bodies = Vec::new();
                for steps in [first, second, 100] {
                    let mut outbox = disk.open(RELAY, &fixture.keys);
                    let ended = deliver_until_stopped(
                        &mut outbox,
                        &disk,
                        &id,
                        accepted,
                        steps,
                        &mut bodies,
                    );
                    assert!(outbox.contains_source_event(&fixture.source_event_id));
                    assert!(ended || steps < 100);
                }
                assert!(bodies.len() <= 2);
                assert!(bodies.iter().all(|body| *body == fixture.event_bytes));
                let record = disk.open(RELAY, &fixture.keys).record(&id).unwrap();
                assert!(record.event_bytes_b64.is_none());
                if !accepted {
                    assert_eq!(record.state, HostFinalDeliveryState::TerminalFailed);
                }
            }
        }
    }
}

#[test]
fn stop_reasons_are_read_in_any_letter_case() {
    for (word, reason) in [
        ("end_turn", Some(StopReason::EndTurn)),
        ("END_TURN", Some(StopReason::EndTurn)),
        ("Cancelled", Some(StopReason::Cancelled)),
        ("max_tokens", Some(StopReason::MaxTokens)),
        ("max_turn_requests", Some(StopReason::MaxTurnRequests)),
        ("refusal", Some(StopReason::Refusal)),
        ("end turn", None),
        ("", None),
    ] {
        assert_eq!(StopReason::from_str(word), reason, "{word}");
    }
}

#[test]
fn a_recovery_takes_up_pending_deliveries_and_leaves_ended_ones() {
    let keys = Keys::generate();
    let disk = Disk::new();
    let mut outbox = disk.open(RELAY, &keys);
    let fixtures: Vec<Fixture> = ["first", "second", "ended"]
        .iter()
        .map(|content| signed_fixture(keys.clone(), content))
        .collect();
    for fixture in &fixtures {
        persist(fixture, &mut outbox, &disk);
    }
    let ended = fixtures[2].event_id.to_hex();
    deliver(&mut outbox, &disk, &ended, false, vec![true]);
    let mut outbox = disk.open(RELAY, &keys);
    let before = format!("{:?}", outbox.record(&ended).unwrap());
    load_corrupt(&mut outbox, "");

    let recovery = begin_recovery(&mut outbox);
    assert_eq!(recovery.issues.len(), 1);
    let expected: Vec<String> = recovery
        .pending
        .iter()
        .map(|pending| pending.stored_id.clone())
        .collect();
    assert_eq!(expected.len(), 2);
    assert!(!expected.contains(&ended));

    let mut run = RecoveryRun::start(recovery.pending);
    let mut input = DeliveryInput::Proceed;
    let mut now: u128 = 1_000;
    let mut log = Vec::new();
    loop {
        input = match run.step(&mut outbox, input, now) {
            RecoveryAction::Announce { frames } => {
                assert_eq!(frames.len(), 1);
                assert_eq!(frames[0].kind, "reply_delivery_recovery_resumed");
                assert!(frames[0].resumed);
                log.push(format!("taken up {}", frames[0].event_id.as_deref().unwrap()));
                DeliveryInput::Proceed
            }
            RecoveryAction::Wait { millis } => {
                now += u128::from(millis);
                DeliveryInput::Proceed
            }
            RecoveryAction::Write { record } => DeliveryInput::Written {
                ok: disk.write(&record).is_ok(),
            },
            RecoveryAction::Submit { event_id, bytes } => {
                assert!(fixtures
                    .iter()
                    .any(|f| f.event_id.to_hex() == event_id && f.event_bytes == bytes));
                log.push(format!("submitted {event_id}"));
                DeliveryInput::Submitted { accepted: true }
            }
            RecoveryAction::Report { outcome } => {
                assert!(outcome.resumed);
                assert_eq!(outcome.disposition, HostFinalDeliveryDisposition::Accepted);
                log.push(format!("ended {}", outcome.event_id.unwrap()));
                DeliveryInput::Proceed
            }
            RecoveryAction::Done => break,
        };
    }
    let told: Vec<String> = expected
        .iter()
        .flat_map(|id| {
            [
                format!("taken up {id}"),
                format!("submitted {id}"),
                format!("ended {id}"),
            ]
        })
        .collect();
    assert_eq!(log, told);
    assert_eq!(format!("{:?}", outbox.record(&ended).unwrap()), before);
    let again = begin_recovery(&mut outbox);
    assert!(again.issues.is_empty());
    assert!(again.pending.is_empty());
}

#[test]
fn a_record_that_used_up_its_attempts_ends_when_it_is_read() {
    let fixture = signed_pending_fixture("spent");
    let disk = Disk::new();
    let mut outbox = disk.open(RELAY, &fixture.keys);
    persist(&fixture, &mut outbox, &disk);
    let id = fixture.event_id.to_hex();
    let name = format!("{id}.json");
    disk.files.borrow_mut().get_mut(&name).unwrap().logical_attempts = 2;

    let reopened = disk.open(RELAY, &fixture.keys);
    let stored = reopened.record(&id).unwrap();
    assert_eq!(stored.state, HostFinalDeliveryState::TerminalFailed);
    assert_eq!(
        stored.diagnostic.as_deref(),
        Some("record_validation_or_retry_budget_failed")
    );
    assert!(stored.event_bytes_b64.is_none());
    assert!(disk.files.borrow()[&name].event_bytes_b64.is_none());

    disk.files.borrow_mut().get_mut(&name).unwrap().state = HostFinalDeliveryState::Pending;
    *disk.failing.borrow_mut() = true;
    let mut unwritten = disk.open(RELAY, &fixture.keys);
    let issues = unwritten.take_load_issues();
    assert_eq!(issues.len(), 1);
    assert_eq!(issues[0].event_id.as_deref(), Some(id.as_str()));
    assert_eq!(issues[0].channel_id, Some(fixture.target.channel_id));
    assert_eq!(issues[0].reason, "persist_terminal_failed");
}

#[test]
fn a_restart_takes_up_what_was_pending() {
    let fixture = signed_pending_fixture("restart");
    let disk = Disk::new();
    let mut outbox = disk.open(RELAY, &fixture.keys);
    persist(&fixture, &mut outbox, &disk);
    let id = fixture.event_id.to_hex();

    let mut reopened = disk.open(RELAY, &fixture.keys);
    let recovery = begin_recovery(&mut reopened);
    assert!(recovery.issues.is_empty());
    assert_eq!(recovery.pending.len(), 1);
    assert_eq!(recovery.pending[0].stored_id, id);
    assert_eq!(recovery.pending[0].event_id, id);
    let record = reopened.record(&id).unwrap();
    let frame = recovery_started(&record);
    assert_eq!(frame.kind, "reply_delivery_recovery_resumed");
    assert_eq!(frame.channel_id.as_deref(), Some(record.channel_id.as_str()));
    assert!(frame.resumed);

    let (outcome, bodies, _) = deliver(&mut reopened, &disk, &id, true, vec![true]);
    assert!(outcome.resumed);
    assert_eq!(outcome.disposition, HostFinalDeliveryDisposition::Accepted);
    assert_eq!(bodies, vec![fixture.event_bytes.clone()]);
    assert!(begin_recovery(&mut reopened).pending.is_empty());
}

#[test]
fn deliveries_end_where_their_record_cannot_be_used() {
    let fixture = signed_pending_fixture("unusable");
    let disk = Disk::new();
    let mut outbox = disk.open(RELAY, &fixture.keys);
    let id = fixture.event_id.to_hex();
    let (missing, _, _) = deliver(&mut outbox, &disk, &id, false, vec![]);
    assert_eq!(reasons(&missing), vec!["outbox_record_missing"]);
    assert_eq!(missing.event_id.as_deref(), Some(id.as_str()));
    assert_eq!(missing.channel_id, None);

    persist(&fixture, &mut outbox, &disk);
    *disk.failing.borrow_mut() = true;
    let (unwritten, bodies, _) = deliver(&mut outbox, &disk, &id, false, vec![]);
    assert_eq!(reasons(&unwritten), vec!["persist_before_send_failed"]);
    assert!(bodies.is_empty());
    assert_eq!(outbox.record(&id).unwrap().logical_attempts, 0);

    *disk.failing.borrow_mut() = false;
    let (accepted, _, _) = deliver(&mut outbox, &disk, &id, false, vec![true]);
    assert_eq!(reasons(&accepted), vec!["attempt 1", "accepted 1"]);
    let (again, bodies, _) = deliver(&mut outbox, &disk, &id, false, vec![]);
    assert_eq!(again.disposition, HostFinalDeliveryDisposition::Accepted);
    assert!(again.transitions.is_empty());
    assert!(bodies.is_empty());
}

#[test]
fn an_unstored_acceptance_is_told_as_failed() {
    let fixture = signed_pending_fixture("unstored");
    let disk = Disk::new();
    let mut outbox = disk.open(RELAY, &fixture.keys);
    persist(&fixture, &mut outbox, &disk);
    for (accepted, reason) in [
        (true, "persist_accepted_failed"),
        (false, "persist_retry_failed"),
    ] {
        let mut outbox = disk.open(RELAY, &fixture.keys);
        let mut run = DeliveryRun::start(fixture.event_id.to_hex(), false);
        assert!(matches!(
            run.step(&mut outbox, DeliveryInput::Proceed, 0),
            DeliveryAction::Write { .. }
        ));
        assert!(matches!(
            run.step(&mut outbox, DeliveryInput::Written { ok: true }, 0),
            DeliveryAction::Submit { .. }
        ));
        assert!(matches!(
            run.step(&mut outbox, DeliveryInput::Submitted { accepted }, 0),
            DeliveryAction::Write { .. }
        ));
        match run.step(&mut outbox, DeliveryInput::Written { ok: false }, 0) {
            DeliveryAction::Finish { outcome } => {
                assert_eq!(
                    outcome.disposition,
                    HostFinalDeliveryDisposition::TerminalFailed
                );
                assert_eq!(reasons(&outcome), vec!["attempt 1", reason]);
            }
            _ => panic!("the delivery goes on"),
        }
    }
}

#[test]
fn a_scheduled_retry_is_told_twice() {
    let fixture = signed_pending_fixture("frames");
    let disk = Disk::new();
    let mut outbox = disk.open(RELAY, &fixture.keys);
    persist(&fixture, &mut outbox, &disk);
    let id = fixture.event_id.to_hex();
    let (outcome, _, _) = deliver(&mut outbox, &disk, &id, false, vec![false, true]);
    let frames = outcome_frames(&outcome);
    let kinds: Vec<&str> = frames.iter().map(|frame| frame.kind).collect();
    assert_eq!(
        kinds,
        vec![
            "reply_delivery_attempt",
            "reply_delivery_failed",
            "reply_delivery_retry_scheduled",
            "reply_delivery_attempt",
            "reply_delivery_accepted",
        ]
    );
    assert_eq!(frames[1].reason, Some("relay_rejected_or_unconfirmed"));
    assert_eq!(frames[1].will_retry, Some(true));
    assert_eq!(frames[2].delay_ms, Some(1000));
    let channel = Uuid::from_u128(fixture.target.channel_id).to_string();
    for frame in &frames {
        assert_eq!(frame.event_id.as_deref(), Some(id.as_str()));
        assert_eq!(frame.channel_id.as_deref(), Some(channel.as_str()));
        assert!(!frame.resumed);
    }
}

#[test]
fn records_are_kept_in_files_named_by_their_event() {
    let id = "0".repeat(64);
    assert_eq!(record_file_name(&id), Ok(format!("{id}.json")));
    assert_eq!(
        record_file_name("../x"),
        Err("invalid_host_final_record_id".to_string())
    );
    assert_eq!(filename_event_id(Some(&id)), Some(id));
    assert_eq!(filename_event_id(Some("notes")), None);
    assert_eq!(filename_event_id(None), None);
}

fn completion(stop_reason: StopReason, final_reply: Option<&str>) -> PromptCompletion {
    PromptCompletion {
        stop_reason,
        final_reply: final_reply.map(str::to_string),
    }
}

fn refusal(step: FinalReplyStep) -> String {
    match step {
        FinalReplyStep::NotApplicable => "not applicable".to_string(),
        FinalReplyStep::Publish { .. } => "published".to_string(),
        FinalReplyStep::Terminal(outcome) => reasons(&outcome).concat(),
    }
}

#[test]
fn only_a_whole_reply_to_a_conversation_is_published() {
    let target = FinalReplyTarget {
        channel_id: 1,
        trigger_event_id: [2; 32],
        trigger_author: "author".to_string(),
    };
    let at = ReplyOrigin::Target(&target);
    let done = completion(StopReason::EndTurn, Some("hello"));
    assert_eq!(
        refusal(admit_final_reply(false, at, &done, "me")),
        "not applicable"
    );
    assert_eq!(
        refusal(admit_final_reply(true, ReplyOrigin::Absent, &done, "me")),
        "not applicable"
    );
    for stopped in [
        StopReason::Cancelled,
        StopReason::MaxTokens,
        StopReason::MaxTurnRequests,
    ] {
        assert_eq!(
            refusal(admit_final_reply(
                true,
                at,
                &completion(stopped, Some("hello")),
                "me"
            )),
            "not applicable"
        );
    }
    assert_eq!(
        refusal(admit_final_reply(true, ReplyOrigin::Invalid, &done, "me")),
        "invalid_origin"
    );
    for blank in [None, Some(""), Some(" \n\u{a0}")] {
        assert_eq!(
            refusal(admit_final_reply(
                true,
                at,
                &completion(StopReason::Refusal, blank),
                "me"
            )),
            "missing_or_blank_final_reply"
        );
    }
    let largest = "a".repeat(MAX_HOST_FINAL_REPLY_BYTES);
    assert_eq!(
        refusal(admit_final_reply(
            true,
            at,
            &completion(StopReason::EndTurn, Some(&largest)),
            "me"
        )),
        "published"
    );
    let larger = format!("{largest}a");
    assert_eq!(
        refusal(admit_final_reply(
            true,
            at,
            &completion(StopReason::EndTurn, Some(&larger)),
            "me"
        )),
        "final_reply_too_large"
    );
    match admit_final_reply(true, at, &done, "me") {
        FinalReplyStep::Publish { content, mention } => {
            assert_eq!(content, "hello");
            assert_eq!(mention.as_deref(), Some("author"));
        }
        _ => panic!("not published"),
    }
    match admit_final_reply(true, at, &done, "author") {
        FinalReplyStep::Publish { mention, .. } => assert_eq!(mention, None),
        _ => panic!("not published"),
    }
}

#[test]
fn failures_before_the_first_attempt_name_their_stage() {
    let target = FinalReplyTarget {
        channel_id: 1,
        trigger_event_id: [2; 32],
        trigger_author: "author".to_string(),
    };
    for (stage, reason) in [
        (PublishStage::Build, "build_failed"),
        (PublishStage::Sign, "sign_failed"),
        (PublishStage::Serialize, "serialize_failed"),
        (PublishStage::Persist, "outbox_persist_failed"),
    ] {
        let outcome = publish_failure(&target, stage);
        assert_eq!(reasons(&outcome), vec![reason]);
        assert_eq!(outcome.channel_id, Some(1));
        assert_eq!(outcome.trigger_event_id, Some("02".repeat(32)));
        assert_eq!(outcome.event_id, None);
    }
}
