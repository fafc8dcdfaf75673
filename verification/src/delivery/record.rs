//! The outbox record: its states, what ends it, and what makes it valid.
use vstd::prelude::*;

use crate::outside;
use crate::text;

verus! {

/// How many times a record's body may be handed to the relay.
pub const MAX_LOGICAL_RECEIPT_SUBMISSIONS: u8 = 2;

/// Where a record stands in its delivery.
#[derive(Debug, Clone, Copy, PartialEq, Eq, Structural)]
pub enum HostFinalDeliveryState {
    Pending,
    AwaitingRetry,
    Accepted,
    TerminalFailed,
}

impl HostFinalDeliveryState {
    /// Whether delivery has ended.
    pub open spec fn terminal(self) -> bool {
        self is Accepted || self is TerminalFailed
    }
}

/// One signed reply in the outbox.
#[derive(Debug)]
pub struct HostFinalDeliveryRecord {
    pub version: u8,
    pub event_id: String,
    /// Base64 of the signed event's serialization, held only while the record might be
    /// sent again.
    pub event_bytes_b64: Option<String>,
    pub relay_url: String,
    pub sender_pubkey: String,
    pub channel_id: String,
    pub trigger_event_id: String,
    /// Every event that the prompt consumed.
    pub source_event_ids: Vec<String>,
    pub logical_attempts: u8,
    pub state: HostFinalDeliveryState,
    /// The wall-clock instant before which the next attempt is not made.
    pub next_attempt_unix_ms: Option<u128>,
    /// A stable reason code, never a text of the prompt or of the event.
    pub diagnostic: Option<String>,
}

/// What a record holds.
#[verifier::ext_equal]
pub struct RecordModel {
    pub version: u8,
    pub event_id: Seq<char>,
    pub event_bytes_b64: Option<Seq<char>>,
    pub relay_url: Seq<char>,
    pub sender_pubkey: Seq<char>,
    pub channel_id: Seq<char>,
    pub trigger_event_id: Seq<char>,
    pub source_event_ids: Seq<Seq<char>>,
    pub logical_attempts: u8,
    pub state: HostFinalDeliveryState,
    pub next_attempt_unix_ms: Option<u128>,
    pub diagnostic: Option<Seq<char>>,
}

impl View for HostFinalDeliveryRecord {
    type V = RecordModel;

    open spec fn view(&self) -> RecordModel {
        RecordModel {
            version: self.version,
            event_id: self.event_id@,
            event_bytes_b64: text::opt_text(self.event_bytes_b64),
            relay_url: self.relay_url@,
            sender_pubkey: self.sender_pubkey@,
            channel_id: self.channel_id@,
            trigger_event_id: self.trigger_event_id@,
            source_event_ids: text::texts(self.source_event_ids@),
            logical_attempts: self.logical_attempts,
            state: self.state,
            next_attempt_unix_ms: self.next_attempt_unix_ms,
            diagnostic: text::opt_text(self.diagnostic),
        }
    }
}

impl RecordModel {
    /// The record without its body and retry time.
    pub open spec fn compacted(self) -> RecordModel {
        RecordModel { event_bytes_b64: None, next_attempt_unix_ms: None, ..self }
    }

    /// The record once a relay has accepted its body.
    pub open spec fn accepted(self) -> RecordModel {
        RecordModel {
            state: HostFinalDeliveryState::Accepted,
            diagnostic: None,
            ..self.compacted()
        }
    }

    /// The record once delivery has failed for good.
    pub open spec fn terminalized(self, diagnostic: Seq<char>) -> RecordModel {
        RecordModel {
            state: HostFinalDeliveryState::TerminalFailed,
            diagnostic: Some(diagnostic),
            ..self.compacted()
        }
    }
}

impl HostFinalDeliveryRecord {
    /// A copy of the record.
    pub fn copy(&self) -> (r: HostFinalDeliveryRecord)
        ensures
            r@ == self@,
    {
        HostFinalDeliveryRecord {
            version: self.version,
            event_id: self.event_id.clone(),
            event_bytes_b64: text::copy_opt(&self.event_bytes_b64),
            relay_url: self.relay_url.clone(),
            sender_pubkey: self.sender_pubkey.clone(),
            channel_id: self.channel_id.clone(),
            trigger_event_id: self.trigger_event_id.clone(),
            source_event_ids: text::copy_list(&self.source_event_ids),
            logical_attempts: self.logical_attempts,
            state: self.state,
            next_attempt_unix_ms: self.next_attempt_unix_ms,
            diagnostic: text::copy_opt(&self.diagnostic),
        }
    }

    /// Marks the body as accepted by the relay and drops it.
    pub fn accept(&mut self)
        ensures
            final(self)@ == old(self)@.accepted(),
    {
        self.state = HostFinalDeliveryState::Accepted;
        self.compact_terminal_body();
        self.diagnostic = None;
    }

    /// Ends delivery with a reason code and drops the body.
    pub fn terminalize(&mut self, diagnostic: &str)
        ensures
            final(self)@ == old(self)@.terminalized(diagnostic@),
    {
        self.state = HostFinalDeliveryState::TerminalFailed;
        self.compact_terminal_body();
        self.diagnostic = Some(diagnostic.to_owned());
    }

    /// Whether delivery has ended.
    pub fn is_terminal(&self) -> (r: bool)
        ensures
            r == self@.state.terminal(),
    {
        match self.state {
            HostFinalDeliveryState::Accepted => true,
            HostFinalDeliveryState::TerminalFailed => true,
            HostFinalDeliveryState::Pending => false,
            HostFinalDeliveryState::AwaitingRetry => false,
        }
    }

    /// Drops the signed body and the retry time. To be called once the state is
    /// terminal, so that no record that might be sent again is left without its bytes.
    pub fn compact_terminal_body(&mut self)
        ensures
            final(self)@ == old(self)@.compacted(),
    {
        self.event_bytes_b64 = None;
        self.next_attempt_unix_ms = None;
    }
}

/// The relay and the sender that an outbox works for.
#[derive(Debug)]
pub struct OutboxScope {
    pub relay_url: String,
    pub sender_pubkey: String,
}

/// What a scope holds.
#[verifier::ext_equal]
pub struct ScopeModel {
    pub relay_url: Seq<char>,
    pub sender_pubkey: Seq<char>,
}

impl View for OutboxScope {
    type V = ScopeModel;

    open spec fn view(&self) -> ScopeModel {
        ScopeModel { relay_url: self.relay_url@, sender_pubkey: self.sender_pubkey@ }
    }
}

/// The base64 text that a record keeps of an event's serialization.
pub fn encode_event_bytes(event_bytes: Vec<u8>) -> (r: String)
    requires
        (event_bytes@.len() + 2) / 3 * 4 <= isize::MAX,
    ensures
        r@ == outside::base64_text(event_bytes@),
        outside::base64_bytes(r@) == Some(event_bytes@),
{
    outside::base64_encode(event_bytes.as_slice())
}

/// What decoding a record's body gives, from what decoding its text gave.
pub open spec fn body_bytes(
    encoded: Option<Seq<char>>,
    decoded: Option<Seq<u8>>,
) -> Result<Seq<u8>, Seq<char>> {
    match (encoded, decoded) {
        (None, _) => Err("record_body_missing"@),
        (Some(_), None) => Err("record_bytes_invalid"@),
        (Some(_), Some(bytes)) => Ok(bytes),
    }
}

/// What decoding the body of `record` gives.
pub open spec fn record_bytes(record: RecordModel) -> Result<Seq<u8>, Seq<char>> {
    body_bytes(
        record.event_bytes_b64,
        match record.event_bytes_b64 {
            Some(encoded) => outside::base64_bytes(encoded),
            None => None,
        },
    )
}

/// The bytes and the reason code of a decoding result.
pub open spec fn bytes_view(r: Result<Vec<u8>, &'static str>) -> Result<Seq<u8>, Seq<char>> {
    match r {
        Ok(bytes) => Ok(bytes@),
        Err(reason) => Err(reason@),
    }
}

/// The exact serialization that the record was made with.
pub fn decode_event_bytes(record: &HostFinalDeliveryRecord) -> (r: Result<Vec<u8>, &'static str>)
    ensures
        bytes_view(r) == record_bytes(record@),
{
    match &record.event_bytes_b64 {
        None => Err("record_body_missing"),
        Some(encoded) => {
            match outside::base64_decode(encoded.as_str()) {
                Some(bytes) => Ok(bytes),
                None => Err("record_bytes_invalid"),
            }
        },
    }
}

/// The reason code of a failed check; `None` where it passed.
pub open spec fn fault_of(r: Result<(), &'static str>) -> Option<Seq<char>> {
    match r {
        Ok(_) => None,
        Err(reason) => Some(reason@),
    }
}

/// What is wrong with a signed body, given what it decodes to, the id and author key it
/// parses to, and whether its id and signature verify.
pub open spec fn body_fault(
    bytes: Result<Seq<u8>, Seq<char>>,
    fields: Option<(Seq<u8>, Seq<char>)>,
    verifies: bool,
    event_id: Seq<u8>,
    sender_pubkey: Seq<char>,
) -> Option<Seq<char>> {
    match bytes {
        Err(reason) => Some(reason),
        Ok(_) => match fields {
            None => Some("record_event_invalid"@),
            Some((id, author)) => if id == event_id && author == sender_pubkey && verifies {
                None
            } else {
                Some("record_signature_invalid"@)
            },
        },
    }
}

/// What is wrong with the signed body of `record`, which is to be that of this event.
pub open spec fn signed_body_fault(record: RecordModel, event_id: Seq<u8>) -> Option<Seq<char>> {
    let bytes = record_bytes(record);
    body_fault(
        bytes,
        match bytes {
            Ok(json) => outside::event_fields(json),
            Err(_) => None,
        },
        match bytes {
            Ok(json) => outside::event_verifies(json),
            Err(_) => false,
        },
        event_id,
        record.sender_pubkey,
    )
}

/// Whether every listed id is written in 64 hexadecimal digits.
pub open spec fn ids_well_formed(ids: Seq<Seq<char>>) -> bool {
    forall|i: int| 0 <= i < ids.len() ==> text::hex_event_id(#[trigger] ids[i])
}

/// Whether one of the listed ids stands for the same event as `trigger`.
pub open spec fn claims(ids: Seq<Seq<char>>, trigger: Seq<char>) -> bool {
    exists|i: int|
        0 <= i < ids.len() && text::hex_decode(#[trigger] ids[i]) == text::hex_decode(trigger)
}

/// What is wrong with `record` in `scope`, given the channel that its channel id parses
/// to and what is wrong with its signed body.
pub open spec fn record_fault(
    record: RecordModel,
    scope: ScopeModel,
    channel: Option<u128>,
    body: Option<Seq<char>>,
) -> Option<Seq<char>> {
    if record.relay_url != scope.relay_url || record.sender_pubkey != scope.sender_pubkey {
        Some("record_scope_mismatch"@)
    } else if record.version != 1 || !text::hex_event_id(record.event_id)
        || record.logical_attempts > MAX_LOGICAL_RECEIPT_SUBMISSIONS
        || record.source_event_ids.len() == 0 {
        Some("record_metadata_invalid"@)
    } else if !text::hex_event_id(record.trigger_event_id) {
        Some("record_trigger_id_invalid"@)
    } else if channel is None {
        Some("record_channel_id_invalid"@)
    } else if !ids_well_formed(record.source_event_ids) {
        Some("record_source_id_invalid"@)
    } else if !claims(record.source_event_ids, record.trigger_event_id) {
        Some("record_trigger_not_claimed"@)
    } else if record.state.terminal() && record.next_attempt_unix_ms is Some {
        Some("record_terminal_retry_scheduled"@)
    } else if record.event_bytes_b64 is Some {
        body
    } else if record.state.terminal() {
        None
    } else {
        Some("record_body_missing"@)
    }
}

/// What is wrong with `record` in `scope`.
pub open spec fn fault(record: RecordModel, scope: ScopeModel) -> Option<Seq<char>> {
    record_fault(
        record,
        scope,
        outside::uuid_value(record.channel_id),
        signed_body_fault(record, text::hex_decode(record.event_id)),
    )
}

/// Whether two ids have the same bytes.
fn same_id(a: &[u8; 32], b: &[u8; 32]) -> (r: bool)
    ensures
        r == (a@ == b@),
{
    let mut i: usize = 0;
    while i < 32
        invariant
            i <= 32,
            forall|j: int| 0 <= j < i ==> a@[j] == b@[j],
        decreases 32 - i,
    {
        if a[i] != b[i] {
            assert(a@[i as int] != b@[i as int]);
            return false;
        }
        i += 1;
    }
    assert(a@ =~= b@);
    true
}

/// Holds a signed body against the record it belongs to, given what the body decodes
/// to, the id and author key it parses to, and whether its id and signature verify.
pub fn check_signed_body(
    bytes: &Result<Vec<u8>, &'static str>,
    fields: &Option<([u8; 32], String)>,
    verifies: bool,
    event_id: &[u8; 32],
    sender_pubkey: &str,
) -> (r: Result<(), &'static str>)
    ensures
        fault_of(r) == body_fault(
            bytes_view(*bytes),
            outside::fields_view(*fields),
            verifies,
            event_id@,
            sender_pubkey@,
        ),
{
    match bytes {
        Err(reason) => Err(*reason),
        Ok(_) => match fields {
            None => Err("record_event_invalid"),
            Some((id, author)) => {
                if same_id(id, event_id) && text::same(author.as_str(), sender_pubkey)
                    && verifies {
                    Ok(())
                } else {
                    Err("record_signature_invalid")
                }
            },
        },
    }
}

/// Holds the signed body of `record` against the record and the event that it is to be of.
pub fn validate_signed_event_body(
    record: &HostFinalDeliveryRecord,
    expected_event_id: &[u8; 32],
) -> (r: Result<(), &'static str>)
    ensures
        fault_of(r) == signed_body_fault(record@, expected_event_id@),
{
    let decoded = decode_event_bytes(record);
    match &decoded {
        Err(reason) => Err(*reason),
        Ok(json) => {
            let fields = outside::signed_event_fields(json.as_slice());
            let verifies = outside::signed_event_verifies(json.as_slice());
            check_signed_body(
                &decoded,
                &fields,
                verifies,
                expected_event_id,
                record.sender_pubkey.as_str(),
            )
        },
    }
}

/// Whether one of the listed ids stands for the event `trigger`; `None` where one of
/// them is not written in 64 hexadecimal digits.
fn scan_ids(ids: &Vec<String>, trigger: &[u8; 32], trigger_text: &str) -> (r: Option<bool>)
    requires
        trigger@ == text::hex_decode(trigger_text@),
    ensures
        r is Some <==> ids_well_formed(text::texts(ids@)),
        r matches Some(found) ==> found == claims(text::texts(ids@), trigger_text@),
{
    let mut contains_trigger = false;
    let mut i: usize = 0;
    let ghost listed = text::texts(ids@);
    while i < ids.len()
        invariant
            i <= ids.len(),
            listed == text::texts(ids@),
            forall|j: int| 0 <= j < i ==> text::hex_event_id(#[trigger] listed[j]),
            contains_trigger == exists|j: int|
                0 <= j < i && text::hex_decode(#[trigger] listed[j]) == trigger@,
        decreases ids.len() - i,
    {
        assert(listed[i as int] == ids@[i as int]@);
        match outside::event_id_from_hex(ids[i].as_str()) {
            Some(id) => {
                if same_id(&id, trigger) {
                    contains_trigger = true;
                    assert(text::hex_decode(listed[i as int]) == trigger@);
                }
            },
            None => {
                assert(!ids_well_formed(listed));
                return None;
            },
        }
        i += 1;
    }
    Some(contains_trigger)
}

/// Checks a record, given the channel that its channel id parses to and what was found
/// of its signed body.
pub fn check_record(
    record: &HostFinalDeliveryRecord,
    scope: &OutboxScope,
    channel: Option<u128>,
    body: Result<(), &'static str>,
) -> (r: Result<(), &'static str>)
    ensures
        fault_of(r) == record_fault(record@, scope@, channel, fault_of(body)),
{
    if !text::same(record.relay_url.as_str(), scope.relay_url.as_str()) || !text::same(
        record.sender_pubkey.as_str(),
        scope.sender_pubkey.as_str(),
    ) {
        return Err("record_scope_mismatch");
    }
    if record.version != 1 || !text::is_hex_event_id(record.event_id.as_str())
        || record.logical_attempts > MAX_LOGICAL_RECEIPT_SUBMISSIONS
        || record.source_event_ids.len() == 0 {
        return Err("record_metadata_invalid");
    }
    let trigger: [u8; 32] = match outside::event_id_from_hex(record.trigger_event_id.as_str()) {
        Some(id) => id,
        None => return Err("record_trigger_id_invalid"),
    };
    if channel.is_none() {
        return Err("record_channel_id_invalid");
    }
    match scan_ids(&record.source_event_ids, &trigger, record.trigger_event_id.as_str()) {
        None => return Err("record_source_id_invalid"),
        Some(false) => return Err("record_trigger_not_claimed"),
        Some(true) => {},
    }
    if record.is_terminal() && record.next_attempt_unix_ms.is_some() {
        return Err("record_terminal_retry_scheduled");
    }
    if record.event_bytes_b64.is_some() {
        body
    } else if record.is_terminal() {
        Ok(())
    } else {
        Err("record_body_missing")
    }
}

/// Checks the metadata of a record and, where it holds one, its signed body. A record
/// that might be sent again must hold its body. One that has ended need not: its source
/// ids are the fence that remains.
pub fn validate_record(record: &HostFinalDeliveryRecord, scope: &OutboxScope) -> (r: Result<
    (),
    &'static str,
>)
    ensures
        fault_of(r) == fault(record@, scope@),
{
    let channel = outside::uuid_parse(record.channel_id.as_str());
    let body = match outside::event_id_from_hex(record.event_id.as_str()) {
        Some(id) => validate_signed_event_body(record, &id),
        None => Err("record_event_id_invalid"),
    };
    check_record(record, scope, channel, body)
}

/// A record is told to be out of scope exactly when its relay or its sender is another.
pub proof fn law_scope_mismatch_is_exact(record: RecordModel, scope: ScopeModel)
    ensures
        fault(record, scope) == Some("record_scope_mismatch"@) <==> (record.relay_url
            != scope.relay_url || record.sender_pubkey != scope.sender_pubkey),
{
    reveal_strlit("record_scope_mismatch");
    assert("record_scope_mismatch"@.len() == 21);
    reveal_strlit("record_metadata_invalid");
    assert("record_metadata_invalid"@.len() == 23);
    reveal_strlit("record_trigger_id_invalid");
    assert("record_trigger_id_invalid"@.len() == 25);
    reveal_strlit("record_channel_id_invalid");
    assert("record_channel_id_invalid"@.len() == 25);
    reveal_strlit("record_source_id_invalid");
    assert("record_source_id_invalid"@.len() == 24);
    reveal_strlit("record_trigger_not_claimed");
    assert("record_trigger_not_claimed"@.len() == 26);
    reveal_strlit("record_terminal_retry_scheduled");
    assert("record_terminal_retry_scheduled"@.len() == 31);
    reveal_strlit("record_body_missing");
    assert("record_body_missing"@.len() == 19);
    reveal_strlit("record_bytes_invalid");
    assert("record_bytes_invalid"@.len() == 20);
    reveal_strlit("record_event_invalid");
    assert("record_event_invalid"@.len() == 20);
    reveal_strlit("record_signature_invalid");
    assert("record_signature_invalid"@.len() == 24);
}

} // verus!
