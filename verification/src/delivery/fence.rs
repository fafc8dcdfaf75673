//! The fence of consumed events: what it holds, and what keeps it.
use vstd::prelude::*;

use crate::delivery::laws;
use crate::delivery::outbox;
use crate::delivery::outbox::{ContentModel, LoadPlan, OutboxModel};
use crate::delivery::record;
use crate::delivery::record::{RecordModel, ScopeModel};
use crate::delivery::run::{DeliveryInput, PhaseModel, RunModel};
use crate::outside;

verus! {

/// One file of an outbox directory, and whether a rewrite of it would reach the disk.
pub struct FileModel {
    pub stem: Option<Seq<char>>,
    pub content: ContentModel,
    pub written: bool,
}

/// An outbox without records.
pub open spec fn empty_outbox(scope: ScopeModel) -> OutboxModel {
    OutboxModel {
        scope,
        records: Map::empty(),
        fenced: Set::empty(),
        salvaged: Set::empty(),
        issues: Seq::empty(),
    }
}

/// The outbox that is read from these files, one after the other.
pub open spec fn reopened(scope: ScopeModel, files: Seq<FileModel>) -> OutboxModel
    decreases files.len(),
{
    if files.len() == 0 {
        empty_outbox(scope)
    } else {
        let last = files.last();
        reopened(scope, files.drop_last()).loaded(last.stem, last.content, last.written)
    }
}

/// Whether `before`, read back earlier, loses no source to `after`, read back under the same
/// event id.
pub open spec fn keeps_sources(before: ContentModel, after: ContentModel) -> bool {
    match (before, after) {
        (ContentModel::Record(a), ContentModel::Record(b)) => a.event_id == b.event_id
            ==> a.source_event_ids.to_set().subset_of(b.source_event_ids.to_set()),
        _ => true,
    }
}

/// Whether no file takes the place of a record that an earlier one gave, unless it names all
/// its sources.
pub open spec fn no_source_is_displaced(files: Seq<FileModel>) -> bool {
    forall|i: int, j: int|
        0 <= i < j < files.len() ==> keeps_sources(
            (#[trigger] files[i]).content,
            (#[trigger] files[j]).content,
        )
}

/// Whether a file that holds no record still names this event as a source.
pub open spec fn names_source(file: FileModel, scope: ScopeModel, source: Seq<char>) -> bool {
    file.content matches ContentModel::Corrupt(bytes) && outbox::salvaged_ids(
        outside::json_value(bytes),
        scope,
    ).contains(source)
}

/// In an outbox without needless fences an event is fenced exactly where it is a source of
/// some record, whatever became of its delivery, or was salvaged.
pub proof fn law_fence_is_exact(m: OutboxModel, source: Seq<char>)
    requires
        m.sound(),
        m.tight(),
    ensures
        m.fenced.contains(source) <==> m.is_source(source) || m.salvaged.contains(source),
{
    if m.is_source(source) {
        let id = choose|id: Seq<char>| #[trigger]
            m.records.contains_key(id) && m.records[id].source_event_ids.contains(source);
        assert(m.records[id].source_event_ids.to_set().contains(source));
    }
}

/// Indexing a record fences nothing but its sources; where it takes the place of a record it
/// must name all its sources.
proof fn indexing_keeps_tight(m: OutboxModel, record: RecordModel)
    requires
        m.tight(),
        m.records.contains_key(record.event_id) ==> m.records[record.event_id]
            .source_event_ids.to_set().subset_of(record.source_event_ids.to_set()),
    ensures
        m.indexed(record).tight(),
{
    let n = m.indexed(record);
    assert forall|source: Seq<char>| #[trigger] n.fenced.contains(source) implies n.is_source(
        source,
    ) || n.salvaged.contains(source) by {
        assert(n.records.contains_key(record.event_id));
        if record.source_event_ids.contains(source) {
            assert(n.records[record.event_id].source_event_ids.contains(source));
        } else {
            assert(!record.source_event_ids.to_set().contains(source));
            assert(m.fenced.contains(source));
            if m.is_source(source) {
                let id = choose|id: Seq<char>| #[trigger]
                    m.records.contains_key(id) && m.records[id].source_event_ids.contains(source);
                assert(m.records[id].source_event_ids.to_set().contains(source));
                assert(id != record.event_id);
                assert(n.records.contains_key(id) && n.records[id].source_event_ids.contains(
                    source,
                ));
            }
        }
    }
}

/// Noting an issue fences nothing.
proof fn noting_keeps_tight(
    m: OutboxModel,
    event_id: Option<Seq<char>>,
    channel_id: Option<u128>,
    reason: Seq<char>,
)
    requires
        m.tight(),
    ensures
        m.with_issue(event_id, channel_id, reason).tight(),
{
    let n = m.with_issue(event_id, channel_id, reason);
    assert forall|source: Seq<char>| #[trigger] n.fenced.contains(source) implies n.is_source(
        source,
    ) || n.salvaged.contains(source) by {
        assert(m.fenced.contains(source));
        if m.is_source(source) {
            let id = choose|id: Seq<char>| #[trigger]
                m.records.contains_key(id) && m.records[id].source_event_ids.contains(source);
            assert(n.records.contains_key(id) && n.records[id].source_event_ids.contains(source));
        }
    }
}

/// Salvaging fences nothing but what is salvaged.
proof fn salvaging_keeps_tight(m: OutboxModel, ids: Seq<Seq<char>>)
    requires
        m.tight(),
    ensures
        m.salvaging(ids).tight(),
{
    let n = m.salvaging(ids);
    assert forall|source: Seq<char>| #[trigger] n.fenced.contains(source) implies n.is_source(
        source,
    ) || n.salvaged.contains(source) by {
        if !ids.to_set().contains(source) {
            assert(m.fenced.contains(source));
            if m.is_source(source) {
                let id = choose|id: Seq<char>| #[trigger]
                    m.records.contains_key(id) && m.records[id].source_event_ids.contains(source);
                assert(n.records.contains_key(id) && n.records[id].source_event_ids.contains(
                    source,
                ));
            }
        }
    }
}

/// Keeping a record under a new event id fences its sources and nothing else.
pub proof fn law_keeping_a_record_keeps_the_fence_tight(m: OutboxModel, record: RecordModel)
    requires
        m.tight(),
        !m.records.contains_key(record.event_id),
    ensures
        m.indexed(record).tight(),
{
    indexing_keeps_tight(m, record);
}

/// Whether the records that a delivery holds have the sources of the record that the outbox
/// holds under its event id, whose delivery has not ended.
pub open spec fn in_step(run: RunModel, m: OutboxModel) -> bool {
    let open = m.records.contains_key(run.event_id)
        && !m.records[run.event_id].state.terminal();
    let sources = m.records[run.event_id].source_event_ids;
    match run.phase {
        PhaseModel::Start => true,
        PhaseModel::Waiting { record } => open && record.source_event_ids == sources,
        PhaseModel::Closing { terminal, .. } => open && terminal.source_event_ids == sources,
        PhaseModel::Sending { record, .. } => open && record.source_event_ids == sources,
        PhaseModel::Submitting { record, .. } => open && record.source_event_ids == sources,
        PhaseModel::Accepting { accepted } => open && accepted.source_event_ids == sources,
        PhaseModel::Retrying { record, .. } => open && record.source_event_ids == sources,
        PhaseModel::Done => true,
    }
}

/// The steps of a delivery keep the sources of its record, and fence nothing new.
pub proof fn law_steps_keep_the_sources(
    run: RunModel,
    m: OutboxModel,
    input: DeliveryInput,
    now: u128,
)
    requires
        m.sound(),
        run.fits(m),
        run.expects(input),
        in_step(run, m),
    ensures
        ({
            let next = run.step(m, input, now);
            &&& in_step(next.run, next.outbox)
            &&& next.outbox.fenced == m.fenced
            &&& next.outbox.salvaged == m.salvaged
            &&& m.records.contains_key(run.event_id) ==> next.outbox.records.contains_key(
                run.event_id,
            ) && next.outbox.records[run.event_id].source_event_ids
                == m.records[run.event_id].source_event_ids
        }),
{
    let next = run.step(m, input, now);
    assert(next.outbox.fenced =~= m.fenced);
}

/// The steps of a delivery keep a fence without needless ids as it is, from the start of the
/// delivery to its end.
pub proof fn law_steps_keep_the_fence_tight(
    run: RunModel,
    m: OutboxModel,
    input: DeliveryInput,
    now: u128,
)
    requires
        m.sound(),
        m.tight(),
        run.fits(m),
        run.expects(input),
        in_step(run, m),
    ensures
        run.step(m, input, now).outbox.tight(),
        in_step(run.step(m, input, now).run, run.step(m, input, now).outbox),
{
    law_steps_keep_the_sources(run, m, input, now);
    match run.phase {
        PhaseModel::Closing { terminal, .. } => {
            indexing_keeps_tight(m, terminal);
        },
        PhaseModel::Sending { sending, .. } => {
            indexing_keeps_tight(m, sending);
        },
        PhaseModel::Accepting { accepted } => {
            indexing_keeps_tight(m, accepted);
        },
        PhaseModel::Retrying { retry, .. } => {
            indexing_keeps_tight(m, retry);
        },
        _ => {},
    }
}

/// Reading a file keeps an outbox sound, keeps its scope, and lifts no fence.
pub proof fn law_loading_keeps_sound(m: OutboxModel, file: FileModel)
    requires
        m.sound(),
    ensures
        ({
            let next = m.loaded(file.stem, file.content, file.written);
            &&& next.sound()
            &&& next.scope == m.scope
            &&& m.fenced.subset_of(next.fenced)
        }),
{
    let next = m.loaded(file.stem, file.content, file.written);
    match file.content {
        ContentModel::Record(r) => {
            if r.relay_url == m.scope.relay_url && r.sender_pubkey == m.scope.sender_pubkey {
                laws::law_loaded_records_are_fenced(
                    m,
                    r,
                    outside::uuid_value(r.channel_id),
                    file.written,
                    Seq::empty(),
                );
            } else {
                laws::law_foreign_records_are_left_alone(
                    m,
                    r,
                    outside::uuid_value(r.channel_id),
                    file.written,
                );
            }
        },
        _ => {
            assert forall|id: Seq<char>| #[trigger] next.records.contains_key(id) implies {
                &&& next.records[id].event_id == id
                &&& next.admits(next.records[id])
                &&& next.records[id].source_event_ids.to_set().subset_of(next.fenced)
            } by {
                assert(m.records.contains_key(id));
            }
        },
    }
}

/// Reading a file fences nothing without cause, unless it takes the place of a record whose
/// sources it does not all name.
pub proof fn law_loads_keep_the_fence_tight(m: OutboxModel, file: FileModel)
    requires
        m.sound(),
        m.tight(),
        file.content matches ContentModel::Record(r) ==> (m.records.contains_key(r.event_id)
            ==> m.records[r.event_id].source_event_ids.to_set().subset_of(
            r.source_event_ids.to_set(),
        )),
    ensures
        m.loaded(file.stem, file.content, file.written).tight(),
{
    match file.content {
        ContentModel::Unreadable => {
            noting_keeps_tight(
                m,
                outbox::stem_event_id(file.stem),
                None,
                "outbox_record_unreadable"@,
            );
        },
        ContentModel::Corrupt(bytes) => {
            let id = outbox::stem_event_id(file.stem);
            noting_keeps_tight(m, id, None, "outbox_record_corrupt"@);
            salvaging_keeps_tight(
                m.with_issue(id, None, "outbox_record_corrupt"@),
                outbox::salvaged_ids(outside::json_value(bytes), m.scope),
            );
        },
        ContentModel::Record(r) => {
            let channel = outside::uuid_value(r.channel_id);
            match outbox::load_plan(r, record::fault(r, m.scope)) {
                LoadPlan::Foreign => {},
                LoadPlan::Keep => indexing_keeps_tight(m, r),
                LoadPlan::Rewrite(rewritten, reason) => {
                    noting_keeps_tight(m, Some(r.event_id), channel, reason);
                    indexing_keeps_tight(m, rewritten);
                    indexing_keeps_tight(
                        m.with_issue(Some(r.event_id), channel, reason),
                        rewritten,
                    );
                },
            }
        },
    }
}

/// Every record of a reopened outbox has the event id and the sources of a record that one of
/// the files holds.
proof fn records_come_from_files(scope: ScopeModel, files: Seq<FileModel>, id: Seq<char>)
    requires
        reopened(scope, files).records.contains_key(id),
    ensures
        exists|k: int|
            0 <= k < files.len() && ((#[trigger] files[k]).content matches ContentModel::Record(r)
                && r.event_id == id && r.source_event_ids == reopened(scope, files).records[id]
                .source_event_ids),
    decreases files.len(),
{
    let rest = files.drop_last();
    let last = files.last();
    let m = reopened(scope, rest);
    let n = reopened(scope, files);
    if last.content matches ContentModel::Record(r) && r.event_id == id && n.records[id]
        .source_event_ids == r.source_event_ids {
        assert(files[files.len() - 1] == last);
    } else {
        match last.content {
            ContentModel::Record(r) => {
                assert(m.records.contains_key(id) && m.records[id] == n.records[id]);
            },
            _ => {},
        }
        assert(m.records.contains_key(id) && m.records[id] == n.records[id]);
        records_come_from_files(scope, rest, id);
        let k = choose|k: int|
            0 <= k < rest.len() && ((#[trigger] rest[k]).content matches ContentModel::Record(r)
                && r.event_id == id && r.source_event_ids == m.records[id].source_event_ids);
        assert(files[k] == rest[k]);
    }
}

/// A reopened outbox is sound and works for the relay and the sender it was opened for. It
/// fences the sources of every file that holds a record of theirs, and what a file that holds
/// no record still names.
pub proof fn law_reopening_keeps_the_fence(
    scope: ScopeModel,
    files: Seq<FileModel>,
    at: int,
    source: Seq<char>,
)
    requires
        0 <= at < files.len(),
    ensures
        reopened(scope, files).sound(),
        reopened(scope, files).scope == scope,
        files[at].content matches ContentModel::Record(r) ==> r.relay_url == scope.relay_url
            && r.sender_pubkey == scope.sender_pubkey && r.source_event_ids.contains(source)
            ==> reopened(scope, files).fenced.contains(source),
        names_source(files[at], scope, source) ==> reopened(scope, files).fenced.contains(source),
    decreases files.len(),
{
    let rest = files.drop_last();
    let last = files.last();
    let m = reopened(scope, rest);
    law_reopening_is_sound(scope, rest);
    law_loading_keeps_sound(m, last);
    if at < rest.len() {
        law_reopening_keeps_the_fence(scope, rest, at, source);
        assert(files[at] == rest[at]);
    } else {
        match last.content {
            ContentModel::Record(r) => {
                if r.relay_url == scope.relay_url && r.sender_pubkey == scope.sender_pubkey {
                    laws::law_loaded_records_are_fenced(
                        m,
                        r,
                        outside::uuid_value(r.channel_id),
                        last.written,
                        source,
                    );
                }
            },
            ContentModel::Corrupt(bytes) => {
                let ids = outbox::salvaged_ids(outside::json_value(bytes), scope);
                assert(ids.contains(source) == ids.to_set().contains(source));
            },
            _ => {},
        }
    }
}

/// A reopened outbox is sound.
pub proof fn law_reopening_is_sound(scope: ScopeModel, files: Seq<FileModel>)
    ensures
        reopened(scope, files).sound(),
        reopened(scope, files).scope == scope,
    decreases files.len(),
{
    if files.len() > 0 {
        law_reopening_is_sound(scope, files.drop_last());
        law_loading_keeps_sound(reopened(scope, files.drop_last()), files.last());
    }
}

/// A reopened outbox fences no event that is neither a source of one of its records nor named
/// by a file that holds no record, unless a file took the place of another's record without
/// naming all its sources.
pub proof fn law_reopening_fences_nothing_else(
    scope: ScopeModel,
    files: Seq<FileModel>,
    source: Seq<char>,
)
    requires
        no_source_is_displaced(files),
    ensures
        reopened(scope, files).tight(),
        reopened(scope, files).fenced.contains(source) ==> {
            ||| reopened(scope, files).is_source(source)
            ||| exists|k: int|
                0 <= k < files.len() && names_source(#[trigger] files[k], scope, source)
        },
    decreases files.len(),
{
    let n = reopened(scope, files);
    if files.len() > 0 {
        let rest = files.drop_last();
        let last = files.last();
        let m = reopened(scope, rest);
        assert(no_source_is_displaced(rest)) by {
            assert forall|i: int, j: int| 0 <= i < j < rest.len() implies keeps_sources(
                (#[trigger] rest[i]).content,
                (#[trigger] rest[j]).content,
            ) by {
                assert(keeps_sources(files[i].content, files[j].content));
            }
        }
        law_reopening_fences_nothing_else(scope, rest, source);
        law_reopening_is_sound(scope, rest);
        if let ContentModel::Record(r) = last.content {
            if m.records.contains_key(r.event_id) {
                records_come_from_files(scope, rest, r.event_id);
                let k = choose|k: int|
                    0 <= k < rest.len() && ((#[trigger] rest[k]).content matches
                        ContentModel::Record(a) && a.event_id == r.event_id && a.source_event_ids
                        == m.records[r.event_id].source_event_ids);
                assert(keeps_sources(files[k].content, files[files.len() - 1].content));
            }
        }
        law_loads_keep_the_fence_tight(m, last);
        if n.salvaged.contains(source) {
            salvaged_ids_are_named(scope, files, source);
        }
    }
}

/// What was salvaged is named by a file that holds no record.
proof fn salvaged_ids_are_named(scope: ScopeModel, files: Seq<FileModel>, source: Seq<char>)
    requires
        reopened(scope, files).salvaged.contains(source),
    ensures
        exists|k: int| 0 <= k < files.len() && names_source(#[trigger] files[k], scope, source),
    decreases files.len(),
{
    let rest = files.drop_last();
    let last = files.last();
    let m = reopened(scope, rest);
    law_reopening_is_sound(scope, rest);
    if m.salvaged.contains(source) {
        salvaged_ids_are_named(scope, rest, source);
        let k = choose|k: int|
            0 <= k < rest.len() && names_source(#[trigger] rest[k], scope, source);
        assert(files[k] == rest[k]);
    } else {
        assert(names_source(files[files.len() - 1], scope, source)) by {
            if let ContentModel::Corrupt(bytes) = last.content {
                let ids = outbox::salvaged_ids(outside::json_value(bytes), scope);
                assert(ids.contains(source) == ids.to_set().contains(source));
            }
        }
    }
}

} // verus!
