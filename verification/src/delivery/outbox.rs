//! The outbox: the records of one relay and sender, and the fence of consumed events.
use vstd::hash_set::StringHashSet;
use vstd::prelude::*;

use crate::delivery::record;
use crate::delivery::record::{
    HostFinalDeliveryRecord, HostFinalDeliveryState, OutboxScope, RecordModel, ScopeModel,
};
use crate::json;
use crate::json::{Json, JsonTree};
use crate::keyed;
use crate::outside;
use crate::text;

verus! {

/// Something that went wrong while an outbox directory was read.
#[derive(Debug)]
pub struct LoadIssue {
    pub event_id: Option<String>,
    pub channel_id: Option<u128>,
    pub reason: &'static str,
}

/// What a load issue holds.
#[verifier::ext_equal]
pub struct IssueModel {
    pub event_id: Option<Seq<char>>,
    pub channel_id: Option<u128>,
    pub reason: Seq<char>,
}

impl View for LoadIssue {
    type V = IssueModel;

    open spec fn view(&self) -> IssueModel {
        IssueModel {
            event_id: text::opt_text(self.event_id),
            channel_id: self.channel_id,
            reason: self.reason@,
        }
    }
}

/// Where a final reply is published.
#[derive(Debug)]
pub struct FinalReplyTarget {
    pub channel_id: u128,
    pub trigger_event_id: [u8; 32],
    /// The public key of the trigger's author, in hexadecimal.
    pub trigger_author: String,
}

/// What an outbox holds.
#[verifier::ext_equal]
pub struct OutboxModel {
    pub scope: ScopeModel,
    /// The records, by event id.
    pub records: Map<Seq<char>, RecordModel>,
    /// The ids of the events that must not be prompted again.
    pub fenced: Set<Seq<char>>,
    /// Those of them that were read from files that hold no record.
    pub salvaged: Set<Seq<char>>,
    pub issues: Seq<IssueModel>,
}

impl OutboxModel {
    /// The outbox with `record` put under its event id and its source ids fenced.
    pub open spec fn indexed(self, record: RecordModel) -> OutboxModel {
        OutboxModel {
            records: self.records.insert(record.event_id, record),
            fenced: self.fenced.union(record.source_event_ids.to_set()),
            ..self
        }
    }

    /// The outbox with ids fenced that were read from a file that holds no record.
    pub open spec fn salvaging(self, ids: Seq<Seq<char>>) -> OutboxModel {
        OutboxModel {
            fenced: self.fenced.union(ids.to_set()),
            salvaged: self.salvaged.union(ids.to_set()),
            ..self
        }
    }

    /// The outbox with one more load issue.
    pub open spec fn with_issue(
        self,
        event_id: Option<Seq<char>>,
        channel_id: Option<u128>,
        reason: Seq<char>,
    ) -> OutboxModel {
        OutboxModel {
            issues: self.issues.push(IssueModel { event_id, channel_id, reason }),
            ..self
        }
    }

    /// Whether `record` may stand in this outbox: it is in scope, and where its delivery
    /// has ended it keeps neither body nor retry time.
    pub open spec fn admits(self, record: RecordModel) -> bool {
        &&& record.relay_url == self.scope.relay_url
        &&& record.sender_pubkey == self.scope.sender_pubkey
        &&& record.state.terminal() ==> record.event_bytes_b64 is None
            && record.next_attempt_unix_ms is None
    }

    /// What every outbox keeps: each record stands under its own event id, is admitted,
    /// and has all its source ids fenced, and so is all that was salvaged.
    pub open spec fn sound(self) -> bool {
        &&& self.salvaged.subset_of(self.fenced)
        &&& forall|id: Seq<char>| #[trigger]
            self.records.contains_key(id) ==> {
                &&& self.records[id].event_id == id
                &&& self.admits(self.records[id])
                &&& self.records[id].source_event_ids.to_set().subset_of(self.fenced)
            }
    }

    /// Whether an event is a source of one of the records.
    pub open spec fn is_source(self, source: Seq<char>) -> bool {
        exists|id: Seq<char>| #[trigger]
            self.records.contains_key(id) && self.records[id].source_event_ids.contains(source)
    }

    /// Whether nothing is fenced without cause: every fenced id is a source of some record,
    /// or was salvaged.
    pub open spec fn tight(self) -> bool {
        forall|source: Seq<char>| #[trigger]
            self.fenced.contains(source) ==> self.is_source(source) || self.salvaged.contains(
                source,
            )
    }
}

/// The records of a list, each with its event id.
spec fn entries(s: Seq<HostFinalDeliveryRecord>) -> Seq<(Seq<char>, RecordModel)> {
    s.map_values(|r: HostFinalDeliveryRecord| (r@.event_id, r@))
}

/// The records of a list, by event id.
spec fn record_map(s: Seq<HostFinalDeliveryRecord>) -> Map<Seq<char>, RecordModel> {
    keyed::to_map(entries(s))
}

proof fn push_to_set(s: Seq<Seq<char>>, x: Seq<char>)
    ensures
        s.push(x).to_set() == s.to_set().insert(x),
{
    let t = s.push(x);
    assert forall|y: Seq<char>| t.to_set().contains(y) == s.to_set().insert(x).contains(y) by {
        if s.contains(y) {
            let k = s.index_of(y);
            assert(t[k] == y);
        }
        assert(t[s.len() as int] == x);
        if t.contains(y) && y != x {
            let k = t.index_of(y);
            assert(s[k] == y);
        }
    }
    assert(t.to_set() =~= s.to_set().insert(x));
}

/// The records of one relay and sender, by event id, with the ids of all events that
/// they consumed.
pub struct HostFinalDeliveryOutbox {
    scope: OutboxScope,
    records: Vec<HostFinalDeliveryRecord>,
    source_event_ids: StringHashSet,
    salvaged: Ghost<Set<Seq<char>>>,
    load_issues: Vec<LoadIssue>,
}

impl View for HostFinalDeliveryOutbox {
    type V = OutboxModel;

    closed spec fn view(&self) -> OutboxModel {
        OutboxModel {
            scope: self.scope@,
            records: record_map(self.records@),
            fenced: self.source_event_ids@,
            salvaged: self.salvaged@,
            issues: self.load_issues@.map_values(|i: LoadIssue| i@),
        }
    }
}

/// The written forms of event ids.
pub open spec fn hex_ids(ids: Seq<[u8; 32]>) -> Seq<Seq<char>> {
    Seq::new(ids.len(), |i: int| text::hex_encode(ids[i]@))
}

/// The written forms of event ids.
fn hex_list(ids: &Vec<[u8; 32]>) -> (r: Vec<String>)
    ensures
        text::texts(r@) == hex_ids(ids@),
{
    let mut out: Vec<String> = Vec::new();
    let mut i: usize = 0;
    while i < ids.len()
        invariant
            i <= ids.len(),
            out@.len() == i,
            forall|k: int| 0 <= k < i ==> (#[trigger] out@[k])@ == text::hex_encode(ids@[k]@),
        decreases ids.len() - i,
    {
        out.push(outside::event_id_to_hex(&ids[i]));
        i += 1;
    }
    assert(text::texts(out@) =~= hex_ids(ids@));
    out
}

/// The record that a signed event is first kept as.
pub open spec fn signed_record(
    scope: ScopeModel,
    event_id: Seq<u8>,
    event_bytes: Seq<u8>,
    target: FinalReplyTarget,
    source_event_ids: Seq<[u8; 32]>,
) -> RecordModel {
    RecordModel {
        version: 1,
        event_id: text::hex_encode(event_id),
        event_bytes_b64: Some(outside::base64_text(event_bytes)),
        relay_url: scope.relay_url,
        sender_pubkey: scope.sender_pubkey,
        channel_id: outside::uuid_text(target.channel_id),
        trigger_event_id: text::hex_encode(target.trigger_event_id@),
        source_event_ids: hex_ids(source_event_ids),
        logical_attempts: 0,
        state: HostFinalDeliveryState::Pending,
        next_attempt_unix_ms: None,
        diagnostic: None,
    }
}

/// Why a signed event is not kept: it names no source event, its record is not valid,
/// or its id is already taken.
pub open spec fn persist_refusal(
    m: OutboxModel,
    record: RecordModel,
    fault: Option<Seq<char>>,
) -> Option<Seq<char>> {
    if record.source_event_ids.len() == 0 {
        Some("host_final_missing_source_events"@)
    } else if fault is Some {
        fault
    } else if m.records.contains_key(record.event_id) {
        Some("host_final_duplicate_event_id"@)
    } else {
        None
    }
}

impl HostFinalDeliveryOutbox {
    /// Whether the outbox is well formed.
    pub closed spec fn wf(self) -> bool {
        keyed::distinct(entries(self.records@)) && self@.sound()
    }

    /// An empty outbox for one relay and sender.
    pub fn new(scope: OutboxScope) -> (r: HostFinalDeliveryOutbox)
        ensures
            r.wf(),
            r@ == (OutboxModel {
                scope: scope@,
                records: Map::empty(),
                fenced: Set::empty(),
                salvaged: Set::empty(),
                issues: Seq::empty(),
            }),
            r@.tight(),
    {
        let r = HostFinalDeliveryOutbox {
            scope,
            records: Vec::new(),
            source_event_ids: StringHashSet::new(),
            salvaged: Ghost(Set::empty()),
            load_issues: Vec::new(),
        };
        assert(record_map(r.records@) =~= Map::empty());
        assert(r@.issues =~= Seq::empty());
        r
    }

    /// Whether an event was already consumed by a reply in this outbox, whatever became
    /// of its delivery.
    pub fn contains_source_event(&self, event_id: &[u8; 32]) -> (r: bool)
        ensures
            r == self@.fenced.contains(text::hex_encode(event_id@)),
    {
        let id: String = outside::event_id_to_hex(event_id);
        self.source_event_ids.contains(id.as_str())
    }

    /// The position of the record with this event id.
    fn position(&self, event_id: &str) -> (r: Option<usize>)
        requires
            self.wf(),
        ensures
            r is Some <==> self@.records.contains_key(event_id@),
            r matches Some(i) ==> i < self.records@.len() && self.records@[i as int]@.event_id
                == event_id@ && self@.records[event_id@] == self.records@[i as int]@,
    {
        let mut i: usize = 0;
        while i < self.records.len()
            invariant
                self.wf(),
                i <= self.records.len(),
                forall|j: int| 0 <= j < i ==> (#[trigger] self.records@[j])@.event_id != event_id@,
            decreases self.records.len() - i,
        {
            if text::same(self.records[i].event_id.as_str(), event_id) {
                proof {
                    keyed::map_at(entries(self.records@), i as int);
                }
                return Some(i);
            }
            i += 1;
        }
        proof {
            if self@.records.contains_key(event_id@) {
                let k = keyed::map_position(entries(self.records@), event_id@);
                assert(self.records@[k]@.event_id == event_id@);
            }
        }
        None
    }

    /// The record with this event id.
    pub fn record(&self, event_id: &str) -> (r: Option<HostFinalDeliveryRecord>)
        requires
            self.wf(),
        ensures
            r is Some <==> self@.records.contains_key(event_id@),
            r matches Some(record) ==> record@ == self@.records[event_id@],
    {
        match self.position(event_id) {
            Some(i) => Some(self.records[i].copy()),
            None => None,
        }
    }

    /// Checks a record against the outbox's scope.
    pub fn validate(&self, record: &HostFinalDeliveryRecord) -> (r: Result<(), &'static str>)
        ensures
            record::fault_of(r) == record::fault(record@, self@.scope),
    {
        record::validate_record(record, &self.scope)
    }

    /// A well formed outbox is sound.
    pub proof fn lemma_sound(&self)
        requires
            self.wf(),
        ensures
            self@.sound(),
    {
    }

    /// Puts a record under its event id and fences its source ids.
    pub fn index_record(&mut self, record: HostFinalDeliveryRecord)
        requires
            old(self).wf(),
            old(self)@.admits(record@),
        ensures
            final(self).wf(),
            final(self)@ == old(self)@.indexed(record@),
    {
        let mut i: usize = 0;
        let ghost before = self.source_event_ids@;
        let ghost ids = record@.source_event_ids;
        while i < record.source_event_ids.len()
            invariant
                i <= record.source_event_ids.len(),
                ids == record@.source_event_ids,
                old(self).wf(),
                self.records == old(self).records,
                self.scope == old(self).scope,
                self.load_issues == old(self).load_issues,
                self.salvaged == old(self).salvaged,
                self.source_event_ids@ == before.union(ids.take(i as int).to_set()),
            decreases record.source_event_ids.len() - i,
        {
            assert(ids.take(i + 1) =~= ids.take(i as int).push(ids[i as int]));
            proof {
                push_to_set(ids.take(i as int), ids[i as int]);
            }
            let _ = self.source_event_ids.insert(record.source_event_ids[i].clone());
            assert(self.source_event_ids@ =~= before.union(ids.take(i + 1).to_set()));
            i += 1;
        }
        assert(ids.take(ids.len() as int) =~= ids);
        let ghost model = record@;
        let mut at: Option<usize> = None;
        let mut k: usize = 0;
        while k < self.records.len()
            invariant
                k <= self.records.len(),
                at matches Some(p) ==> p < self.records@.len() && self.records@[p as int]@.event_id
                    == record@.event_id,
                at is None ==> forall|j: int|
                    0 <= j < k ==> (#[trigger] self.records@[j])@.event_id != record@.event_id,
            decreases self.records.len() - k,
        {
            if text::same(self.records[k].event_id.as_str(), record.event_id.as_str()) {
                at = Some(k);
            }
            k += 1;
        }
        match at {
            Some(p) => {
                proof {
                    keyed::map_update(entries(self.records@), p as int, model);
                    assert(entries(self.records@.update(p as int, record)) =~= entries(
                        self.records@,
                    ).update(p as int, (model.event_id, model)));
                }
                self.records.set(p, record);
            },
            None => {
                proof {
                    if record_map(self.records@).contains_key(model.event_id) {
                        let k = keyed::map_position(entries(self.records@), model.event_id);
                        assert(self.records@[k]@.event_id == model.event_id);
                    }
                    keyed::map_push(entries(self.records@), model.event_id, model);
                    assert(entries(self.records@.push(record)) =~= entries(self.records@).push(
                        (model.event_id, model),
                    ));
                }
                self.records.push(record);
            },
        }
        assert(self@ =~= old(self)@.indexed(model));
        proof {
            law_indexing_keeps_sound(old(self)@, model);
        }
    }
}

/// The name of the file that a record is kept in, where its event id is well formed.
pub open spec fn file_name(event_id: Seq<char>) -> Option<Seq<char>> {
    if text::hex_event_id(event_id) {
        Some(event_id + ".json"@)
    } else {
        None
    }
}

/// The name of the file that a record is kept in.
pub fn record_file_name(event_id: &str) -> (r: Result<String, String>)
    ensures
        match r {
            Ok(name) => file_name(event_id@) == Some(name@),
            Err(reason) => file_name(event_id@) is None && reason@
                == "invalid_host_final_record_id"@,
        },
{
    if !text::is_hex_event_id(event_id) {
        return Err("invalid_host_final_record_id".to_owned());
    }
    let mut name: String = event_id.to_owned();
    name.append(".json");
    Ok(name)
}

/// The event id that a file's stem gives, where it is one.
pub open spec fn stem_event_id(stem: Option<Seq<char>>) -> Option<Seq<char>> {
    match stem {
        Some(s) => if text::hex_event_id(s) {
            Some(s)
        } else {
            None
        },
        None => None,
    }
}

/// The text of an optional slice.
pub open spec fn opt_str(s: Option<&str>) -> Option<Seq<char>> {
    match s {
        Some(t) => Some(t@),
        None => None,
    }
}

/// The event id that a file's stem gives, where it is one.
pub fn filename_event_id(stem: Option<&str>) -> (r: Option<String>)
    ensures
        text::opt_text(r) == stem_event_id(opt_str(stem)),
{
    match stem {
        Some(s) => if text::is_hex_event_id(s) {
            Some(s.to_owned())
        } else {
            None
        },
        None => None,
    }
}

/// What reading one file of the outbox directory gave.
pub enum EntryContent {
    Unreadable,
    /// The file holds no record, but these bytes.
    Corrupt(Vec<u8>),
    Record(HostFinalDeliveryRecord),
}

/// What an entry's content holds.
pub enum ContentModel {
    Unreadable,
    Corrupt(Seq<u8>),
    Record(RecordModel),
}

impl View for EntryContent {
    type V = ContentModel;

    open spec fn view(&self) -> ContentModel {
        match *self {
            EntryContent::Unreadable => ContentModel::Unreadable,
            EntryContent::Corrupt(bytes) => ContentModel::Corrupt(bytes@),
            EntryContent::Record(r) => ContentModel::Record(r@),
        }
    }
}

/// The texts among JSON values, in their order.
pub open spec fn texts_among(values: Seq<JsonTree>) -> Seq<Seq<char>>
    decreases values.len(),
{
    if values.len() == 0 {
        Seq::empty()
    } else {
        match values.last().text() {
            Some(s) => texts_among(values.drop_last()).push(s),
            None => texts_among(values.drop_last()),
        }
    }
}

/// Whether a JSON value names another relay or sender than these.
pub open spec fn names_other_scope(tree: JsonTree, scope: ScopeModel) -> bool {
    ||| tree.member("relay_url"@).text() matches Some(url) && url != scope.relay_url
    ||| tree.member("sender_pubkey"@).text() matches Some(key) && key != scope.sender_pubkey
}

/// The source ids that can still be read of a file that holds no record, given the JSON value
/// that it holds: none of a file that names another relay or sender.
pub open spec fn salvaged_ids(tree: Option<JsonTree>, scope: ScopeModel) -> Seq<Seq<char>> {
    match tree {
        Some(t) => if names_other_scope(t, scope) {
            Seq::empty()
        } else {
            texts_among(t.member("source_event_ids"@).items())
        },
        None => Seq::empty(),
    }
}

/// Whether a member of a JSON value is a text other than this one.
fn names_other(value: &Json, name: &str, own: &str) -> (r: bool)
    ensures
        r == (value.tree().member(name@).text() matches Some(s) && s != own@),
{
    match value.member_text(name) {
        Some(s) => !text::same(s.as_str(), own),
        None => false,
    }
}

/// The texts among JSON values.
fn list_texts(values: &Vec<Json>) -> (r: Vec<String>)
    ensures
        text::texts(r@) == texts_among(Json::Array(*values).tree().items()),
{
    let ghost seen = Json::Array(*values).tree().items();
    let mut out: Vec<String> = Vec::new();
    let mut i: usize = 0;
    assert(text::texts(out@) =~= texts_among(seen.take(0)));
    while i < values.len()
        invariant
            i <= values.len(),
            seen == Json::Array(*values).tree().items(),
            seen.len() == values@.len(),
            text::texts(out@) == texts_among(seen.take(i as int)),
        decreases values.len() - i,
    {
        let ghost before = text::texts(out@);
        assert(seen.take(i + 1).drop_last() =~= seen.take(i as int));
        assert(seen.take(i + 1).last() == values@[i as int].tree());
        if let Some(s) = values[i].as_text() {
            out.push(s.clone());
            assert(text::texts(out@) =~= before.push(s@));
        }
        i += 1;
    }
    assert(seen.take(seen.len() as int) =~= seen);
    out
}

/// The source ids that can still be read of a file that holds no record, given the JSON value
/// that it holds.
pub fn salvage_source_ids(value: &Option<Json>, scope: &OutboxScope) -> (r: Vec<String>)
    ensures
        text::texts(r@) == salvaged_ids(json::opt_tree(*value), scope@),
{
    let found: Vec<String> = match value {
        Some(v) => {
            if names_other(v, "relay_url", scope.relay_url.as_str()) || names_other(
                v,
                "sender_pubkey",
                scope.sender_pubkey.as_str(),
            ) {
                Vec::new()
            } else {
                match v.member("source_event_ids") {
                    Some(listed) => match listed.as_array() {
                        Some(items) => list_texts(items),
                        None => Vec::new(),
                    },
                    None => Vec::new(),
                }
            }
        },
        None => Vec::new(),
    };
    assert(text::texts(found@) =~= salvaged_ids(json::opt_tree(*value), scope@));
    found
}

/// What is done with a record that was read back.
pub enum LoadPlan {
    /// It belongs to another relay or sender: it is left alone.
    Foreign,
    /// It is written again as this record, and the reason stands for a failed write.
    Rewrite(RecordModel, Seq<char>),
    /// It is indexed as it is.
    Keep,
}

/// What is done with a record that was read back, given what is wrong with it.
pub open spec fn load_plan(record: RecordModel, fault: Option<Seq<char>>) -> LoadPlan {
    if fault == Some("record_scope_mismatch"@) {
        LoadPlan::Foreign
    } else if fault is Some || record.logical_attempts > record::MAX_LOGICAL_RECEIPT_SUBMISSIONS
        || (record.logical_attempts == record::MAX_LOGICAL_RECEIPT_SUBMISSIONS
        && !record.state.terminal()) {
        LoadPlan::Rewrite(
            record.terminalized("record_validation_or_retry_budget_failed"@),
            "persist_terminal_failed"@,
        )
    } else if record.state.terminal() && record.event_bytes_b64 is Some {
        LoadPlan::Rewrite(record.compacted(), "persist_terminal_compaction_failed"@)
    } else {
        LoadPlan::Keep
    }
}

impl OutboxModel {
    /// The outbox after a record was read back, given what is wrong with the record,
    /// the channel of its channel id, and whether a rewrite reached the disk.
    pub open spec fn loaded_record(
        self,
        record: RecordModel,
        fault: Option<Seq<char>>,
        channel: Option<u128>,
        written: bool,
    ) -> OutboxModel {
        match load_plan(record, fault) {
            LoadPlan::Foreign => self,
            LoadPlan::Keep => self.indexed(record),
            LoadPlan::Rewrite(rewritten, reason) => {
                let m = if written {
                    self
                } else {
                    self.with_issue(Some(record.event_id), channel, reason)
                };
                m.indexed(rewritten)
            },
        }
    }

    /// The outbox after one file was read, given whether a rewrite reached the disk.
    pub open spec fn loaded(
        self,
        stem: Option<Seq<char>>,
        content: ContentModel,
        written: bool,
    ) -> OutboxModel {
        match content {
            ContentModel::Unreadable => self.with_issue(
                stem_event_id(stem),
                None,
                "outbox_record_unreadable"@,
            ),
            ContentModel::Corrupt(bytes) => self.with_issue(
                stem_event_id(stem),
                None,
                "outbox_record_corrupt"@,
            ).salvaging(salvaged_ids(outside::json_value(bytes), self.scope)),
            ContentModel::Record(record) => self.loaded_record(
                record,
                record::fault(record, self.scope),
                outside::uuid_value(record.channel_id),
                written,
            ),
        }
    }
}

/// Whether `write` was asked to store a record that holds `record`, and answered `done`.
pub open spec fn wrote<W: Fn(&HostFinalDeliveryRecord) -> Result<(), String>>(
    write: W,
    record: RecordModel,
    done: Result<(), String>,
) -> bool {
    exists|r: &HostFinalDeliveryRecord| r@ == record && #[trigger] call_ensures(write, (r,), done)
}

/// Whether `write` was asked to store a record that holds `record`, and `ok` says whether
/// it did.
pub open spec fn stored<W: Fn(&HostFinalDeliveryRecord) -> Result<(), String>>(
    write: W,
    record: RecordModel,
    ok: bool,
) -> bool {
    exists|done: Result<(), String>| (done is Ok) == ok && #[trigger] wrote(write, record, done)
}

/// Whether `write` can be asked to store a record that holds `record`.
pub open spec fn can_write<W: Fn(&HostFinalDeliveryRecord) -> Result<(), String>>(
    write: W,
    record: RecordModel,
) -> bool {
    forall|r: &HostFinalDeliveryRecord| r@ == record ==> #[trigger] call_requires(write, (r,))
}

/// Whether `write` can be asked to store what is written when `record` is read back: nothing,
/// unless the record is rewritten.
pub open spec fn can_rewrite<W: Fn(&HostFinalDeliveryRecord) -> Result<(), String>>(
    write: W,
    record: RecordModel,
    scope: ScopeModel,
) -> bool {
    load_plan(record, record::fault(record, scope)) matches LoadPlan::Rewrite(rewritten, _)
        ==> can_write(write, rewritten)
}

impl HostFinalDeliveryOutbox {
    /// Keeps one signed event before its first delivery attempt. `write` stores the
    /// record durably; it is called on no other record, and on none where the event is refused.
    pub fn persist_signed<W: Fn(&HostFinalDeliveryRecord) -> Result<(), String>>(
        &mut self,
        event_id: &[u8; 32],
        event_bytes: Vec<u8>,
        target: &FinalReplyTarget,
        source_event_ids: &Vec<[u8; 32]>,
        write: W,
    ) -> (r: Result<(), String>)
        requires
            old(self).wf(),
            (event_bytes@.len() + 2) / 3 * 4 <= isize::MAX,
            ({
                let record = signed_record(
                    old(self)@.scope,
                    event_id@,
                    event_bytes@,
                    *target,
                    source_event_ids@,
                );
                persist_refusal(old(self)@, record, record::fault(record, old(self)@.scope)) is None
                    ==> can_write(write, record)
            }),
        ensures
            final(self).wf(),
            ({
                let record = signed_record(
                    old(self)@.scope,
                    event_id@,
                    event_bytes@,
                    *target,
                    source_event_ids@,
                );
                match persist_refusal(
                    old(self)@,
                    record,
                    record::fault(record, old(self)@.scope),
                ) {
                    Some(reason) => {
                        &&& r is Err
                        &&& r->Err_0@ == reason
                        &&& final(self)@ == old(self)@
                    },
                    None => {
                        &&& wrote(write, record, r)
                        &&& r is Err ==> final(self)@ == old(self)@
                        &&& r is Ok ==> {
                            &&& final(self)@ == old(self)@.indexed(record)
                            &&& record::record_bytes(record) == Ok::<Seq<u8>, Seq<char>>(
                                event_bytes@,
                            )
                        }
                    },
                }
            }),
    {
        if source_event_ids.len() == 0 {
            return Err("host_final_missing_source_events".to_owned());
        }
        let ids: Vec<String> = hex_list(source_event_ids);
        let ghost bytes = event_bytes@;
        let record = HostFinalDeliveryRecord {
            version: 1,
            event_id: outside::event_id_to_hex(event_id),
            event_bytes_b64: Some(record::encode_event_bytes(event_bytes)),
            relay_url: self.scope.relay_url.clone(),
            sender_pubkey: self.scope.sender_pubkey.clone(),
            channel_id: outside::uuid_to_string(target.channel_id),
            trigger_event_id: outside::event_id_to_hex(&target.trigger_event_id),
            source_event_ids: ids,
            logical_attempts: 0,
            state: HostFinalDeliveryState::Pending,
            next_attempt_unix_ms: None,
            diagnostic: None,
        };
        assert(record@ =~= signed_record(
            old(self)@.scope,
            event_id@,
            bytes,
            *target,
            source_event_ids@,
        ));
        match record::validate_record(&record, &self.scope) {
            Err(reason) => return Err(reason.to_owned()),
            Ok(_) => {},
        }
        if self.position(record.event_id.as_str()).is_some() {
            return Err("host_final_duplicate_event_id".to_owned());
        }
        let done = write(&record);
        assert(wrote(write, record@, done));
        if done.is_ok() {
            self.index_record(record);
        }
        done
    }

    /// Notes something that went wrong while the directory was read.
    pub fn record_load_issue(
        &mut self,
        event_id: Option<String>,
        channel_id: Option<u128>,
        reason: &'static str,
    )
        requires
            old(self).wf(),
        ensures
            final(self).wf(),
            final(self)@ == old(self)@.with_issue(text::opt_text(event_id), channel_id, reason@),
    {
        let issue = LoadIssue { event_id, channel_id, reason };
        self.load_issues.push(issue);
        assert(self@.issues =~= old(self)@.issues.push(issue@));
        assert(self@.records == old(self)@.records);
        assert(self@ =~= old(self)@.with_issue(text::opt_text(event_id), channel_id, reason@));
        assert(self@.sound()) by {
            assert forall|id: Seq<char>| #[trigger] self@.records.contains_key(id) implies {
                &&& self@.records[id].event_id == id
                &&& self@.admits(self@.records[id])
                &&& self@.records[id].source_event_ids.to_set().subset_of(self@.fenced)
            } by {
                assert(old(self)@.records.contains_key(id));
            }
        }
    }

    /// Fences the ids that were read from a file that holds no record.
    fn fence_salvaged(&mut self, ids: Vec<String>)
        requires
            old(self).wf(),
        ensures
            final(self).wf(),
            final(self)@ == old(self)@.salvaging(text::texts(ids@)),
    {
        let ghost listed = text::texts(ids@);
        let mut i: usize = 0;
        while i < ids.len()
            invariant
                i <= ids.len(),
                listed == text::texts(ids@),
                self.records == old(self).records,
                self.scope == old(self).scope,
                self.load_issues == old(self).load_issues,
                self.salvaged == old(self).salvaged,
                self.source_event_ids@ == old(self).source_event_ids@.union(
                    listed.take(i as int).to_set(),
                ),
            decreases ids.len() - i,
        {
            assert(listed.take(i + 1) =~= listed.take(i as int).push(listed[i as int]));
            proof {
                push_to_set(listed.take(i as int), listed[i as int]);
            }
            let _ = self.source_event_ids.insert(ids[i].clone());
            assert(self.source_event_ids@ =~= old(self).source_event_ids@.union(
                listed.take(i + 1).to_set(),
            ));
            i += 1;
        }
        assert(listed.take(listed.len() as int) =~= listed);
        proof {
            self.salvaged@ = self.salvaged@.union(listed.to_set());
        }
        assert(self@ =~= old(self)@.salvaging(listed));
        assert(self@.sound()) by {
            assert forall|id: Seq<char>| #[trigger] self@.records.contains_key(id) implies {
                &&& self@.records[id].event_id == id
                &&& self@.admits(self@.records[id])
                &&& self@.records[id].source_event_ids.to_set().subset_of(self@.fenced)
            } by {
                assert(old(self)@.records.contains_key(id));
            }
        }
    }

    /// Takes in a record that was read back. One of another relay or sender is left
    /// alone; one that is not valid, or has used up its attempts, ends; one that had
    /// ended loses its body. `write` stores what was changed, and is called on nothing else:
    /// the file of a record that is left alone, or indexed as it is, stays as it is.
    pub fn load_record<W: Fn(&HostFinalDeliveryRecord) -> Result<(), String>>(
        &mut self,
        record: HostFinalDeliveryRecord,
        write: W,
    )
        requires
            old(self).wf(),
            can_rewrite(write, record@, old(self)@.scope),
        ensures
            final(self).wf(),
            exists|written: bool|
                {
                    &&& final(self)@ == #[trigger] old(self)@.loaded_record(
                        record@,
                        record::fault(record@, old(self)@.scope),
                        outside::uuid_value(record@.channel_id),
                        written,
                    )
                    &&& load_plan(
                        record@,
                        record::fault(record@, old(self)@.scope),
                    ) matches LoadPlan::Rewrite(rewritten, _) ==> stored(write, rewritten, written)
                },
    {
        let ghost m = old(self)@;
        let ghost read = record@;
        let ghost fault = record::fault(read, m.scope);
        let ghost channel = outside::uuid_value(read.channel_id);
        let mut record = record;
        let validation = record::validate_record(&record, &self.scope);
        let foreign = match validation {
            Err(reason) => text::same(reason, "record_scope_mismatch"),
            Ok(_) => false,
        };
        if foreign {
            assert(m.loaded_record(read, fault, channel, true) == m);
            return;
        }
        assert(read.relay_url == m.scope.relay_url && read.sender_pubkey == m.scope.sender_pubkey);
        let spent = record.logical_attempts > record::MAX_LOGICAL_RECEIPT_SUBMISSIONS || (
        record.logical_attempts == record::MAX_LOGICAL_RECEIPT_SUBMISSIONS
            && !record.is_terminal());
        if validation.is_err() || spent {
            record.terminalize("record_validation_or_retry_budget_failed");
            let done = write(&record);
            let written = done.is_ok();
            if !written {
                let channel_id = outside::uuid_parse(record.channel_id.as_str());
                self.record_load_issue(
                    Some(record.event_id.clone()),
                    channel_id,
                    "persist_terminal_failed",
                );
            }
            assert(wrote(write, record@, done));
            assert(stored(write, record@, written));
            self.index_record(record);
            assert(self@ == m.loaded_record(read, fault, channel, written));
        } else if record.is_terminal() && record.event_bytes_b64.is_some() {
            record.compact_terminal_body();
            let done = write(&record);
            let written = done.is_ok();
            if !written {
                let channel_id = outside::uuid_parse(record.channel_id.as_str());
                self.record_load_issue(
                    Some(record.event_id.clone()),
                    channel_id,
                    "persist_terminal_compaction_failed",
                );
            }
            assert(wrote(write, record@, done));
            assert(stored(write, record@, written));
            self.index_record(record);
            assert(self@ == m.loaded_record(read, fault, channel, written));
        } else {
            self.index_record(record);
            assert(self@ == m.loaded_record(read, fault, channel, true));
        }
    }

    /// Takes in one entry of the outbox directory. Only a regular file with the
    /// extension `json` is read; of one that holds no record, what source ids it still names
    /// are fenced.
    pub fn load_entry<R: Fn() -> EntryContent, W: Fn(&HostFinalDeliveryRecord) -> Result<(), String>>(
        &mut self,
        extension: Option<&str>,
        regular_file: bool,
        stem: Option<&str>,
        read: R,
        write: W,
    )
        requires
            old(self).wf(),
            opt_str(extension) == Some("json"@) && regular_file ==> call_requires(read, ()),
            forall|content: EntryContent| #[trigger]
                call_ensures(read, (), content) ==> (content@ matches ContentModel::Record(record)
                    ==> can_rewrite(write, record, old(self)@.scope)),
        ensures
            final(self).wf(),
            opt_str(extension) != Some("json"@) ==> final(self)@ == old(self)@,
            opt_str(extension) == Some("json"@) && !regular_file ==> final(self)@
                == old(self)@.with_issue(None, None, "outbox_record_not_regular_file"@),
            opt_str(extension) == Some("json"@) && regular_file ==> exists|
                content: EntryContent,
                written: bool,
            |
                {
                    &&& #[trigger] call_ensures(read, (), content)
                    &&& final(self)@ == #[trigger] old(self)@.loaded(
                        opt_str(stem),
                        content@,
                        written,
                    )
                    &&& content@ matches ContentModel::Record(record) ==> (load_plan(
                        record,
                        record::fault(record, old(self)@.scope),
                    ) matches LoadPlan::Rewrite(rewritten, _) ==> stored(write, rewritten, written))
                },
    {
        let ghost m = old(self)@;
        let is_json = match extension {
            Some(e) => text::same(e, "json"),
            None => false,
        };
        if !is_json {
            return;
        }
        if !regular_file {
            self.record_load_issue(None, None, "outbox_record_not_regular_file");
            return;
        }
        let content = read();
        let ghost given = content;
        match content {
            EntryContent::Unreadable => {
                let id = filename_event_id(stem);
                self.record_load_issue(id, None, "outbox_record_unreadable");
                assert(self@ == m.loaded(opt_str(stem), given@, true));
            },
            EntryContent::Corrupt(bytes) => {
                let id = filename_event_id(stem);
                self.record_load_issue(id, None, "outbox_record_corrupt");
                let value = outside::json_parse(bytes.as_slice());
                let ids = salvage_source_ids(&value, &self.scope);
                assert(json::opt_tree(value) == outside::json_value(bytes@));
                self.fence_salvaged(ids);
                assert(self@ == m.loaded(opt_str(stem), given@, true));
            },
            EntryContent::Record(record) => {
                let ghost held = record@;
                assert(given@ == ContentModel::Record(held));
                self.load_record(record, write);
                proof {
                    let fault = record::fault(held, m.scope);
                    let channel = outside::uuid_value(held.channel_id);
                    let written = choose|written: bool|
                        {
                            &&& self@ == #[trigger] m.loaded_record(held, fault, channel, written)
                            &&& load_plan(held, fault) matches LoadPlan::Rewrite(rewritten, _)
                                ==> stored(write, rewritten, written)
                        };
                    assert(self@ == m.loaded(opt_str(stem), given@, written));
                }
            },
        }
    }

    /// Hands out the load issues noted so far.
    pub fn take_load_issues(&mut self) -> (r: Vec<LoadIssue>)
        requires
            old(self).wf(),
        ensures
            final(self).wf(),
            r@.map_values(|i: LoadIssue| i@) == old(self)@.issues,
            final(self)@ == (OutboxModel { issues: Seq::empty(), ..old(self)@ }),
    {
        let mut taken: Vec<LoadIssue> = Vec::new();
        core::mem::swap(&mut taken, &mut self.load_issues);
        assert(self@.issues =~= Seq::empty());
        assert(self@.sound()) by {
            assert forall|id: Seq<char>| #[trigger] self@.records.contains_key(id) implies {
                &&& self@.records[id].event_id == id
                &&& self@.admits(self@.records[id])
                &&& self@.records[id].source_event_ids.to_set().subset_of(self@.fenced)
            } by {
                assert(old(self)@.records.contains_key(id));
            }
        }
        taken
    }

    /// The event ids of the records whose delivery has not ended.
    pub fn pending_events(&self) -> (r: Vec<String>)
        requires
            self.wf(),
        ensures
            text::texts(r@).no_duplicates(),
            forall|id: Seq<char>| #[trigger]
                text::texts(r@).contains(id) <==> self@.records.contains_key(id)
                    && !self@.records[id].state.terminal(),
    {
        let mut out: Vec<String> = Vec::new();
        let mut i: usize = 0;
        while i < self.records.len()
            invariant
                self.wf(),
                i <= self.records.len(),
                text::texts(out@).no_duplicates(),
                forall|id: Seq<char>| #[trigger]
                    text::texts(out@).contains(id) <==> pending_before(self.records@, i as int, id),
            decreases self.records.len() - i,
        {
            let ghost was = text::texts(out@);
            if !self.records[i].is_terminal() {
                let id: String = self.records[i].event_id.clone();
                out.push(id);
                proof {
                    let now = text::texts(out@);
                    assert(now =~= was.push(id@));
                    assert(!pending_before(self.records@, i as int, id@)) by {
                        if pending_before(self.records@, i as int, id@) {
                            let j = choose|j: int|
                                0 <= j < i && (#[trigger] self.records@[j])@.event_id == id@
                                    && !self.records@[j]@.state.terminal();
                            assert(entries(self.records@)[j].0 == entries(self.records@)[i as int].0);
                        }
                    }
                    assert(!was.contains(id@));
                    assert forall|x: Seq<char>| #[trigger] now.contains(x) <==> pending_before(
                        self.records@,
                        i + 1,
                        x,
                    ) by {
                        assert(now[was.len() as int] == id@);
                        assert(self.records@[i as int]@.event_id == id@);
                        if was.contains(x) {
                            assert(now[was.index_of(x)] == x);
                        }
                        if now.contains(x) && x != id@ {
                            assert(was[now.index_of(x)] == x);
                        }
                    }
                }
            } else {
                assert forall|x: Seq<char>| #[trigger] was.contains(x) <==> pending_before(
                    self.records@,
                    i + 1,
                    x,
                ) by {
                    if pending_before(self.records@, i + 1, x) {
                        assert(pending_before(self.records@, i as int, x));
                    }
                }
            }
            i += 1;
        }
        assert forall|id: Seq<char>| #[trigger]
            text::texts(out@).contains(id) <==> self@.records.contains_key(id)
                && !self@.records[id].state.terminal() by {
            if text::texts(out@).contains(id) {
                let j = choose|j: int|
                    0 <= j < self.records@.len() && (#[trigger] self.records@[j])@.event_id == id
                        && !self.records@[j]@.state.terminal();
                keyed::map_at(entries(self.records@), j);
            }
            if self@.records.contains_key(id) && !self@.records[id].state.terminal() {
                let j = keyed::map_position(entries(self.records@), id);
                assert(self.records@[j]@.event_id == id);
                assert(pending_before(self.records@, self.records@.len() as int, id));
            }
        }
        out
    }
}

/// Whether one of the first `n` records has this id and has not ended.
spec fn pending_before(s: Seq<HostFinalDeliveryRecord>, n: int, id: Seq<char>) -> bool {
    exists|j: int|
        0 <= j < n && (#[trigger] s[j])@.event_id == id && !s[j]@.state.terminal()
}

/// Indexing an admitted record keeps an outbox sound.
pub proof fn law_indexing_keeps_sound(m: OutboxModel, record: RecordModel)
    requires
        m.sound(),
        m.admits(record),
    ensures
        m.indexed(record).sound(),
{
    let n = m.indexed(record);
    assert forall|id: Seq<char>| #[trigger] n.records.contains_key(id) implies {
        &&& n.records[id].event_id == id
        &&& n.admits(n.records[id])
        &&& n.records[id].source_event_ids.to_set().subset_of(n.fenced)
    } by {
        if id != record.event_id {
            assert(m.records.contains_key(id));
        }
    }
}

} // verus!
