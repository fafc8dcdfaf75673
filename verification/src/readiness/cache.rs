//! What is known of the readiness of runtimes, for a short time after it was found out.
use vstd::prelude::*;

use crate::catalog::presets::RuntimeReadinessStatus;
use crate::env_map::EnvMap;
use crate::keyed;
use crate::readiness::digest;
use crate::readiness::models::{AgentModelsResponse, ModelsResponse};
use crate::text;

verus! {

/// For how long a finding counts, in nanoseconds.
pub const READINESS_CACHE_TTL_NANOS: u128 = 30_000_000_000;

/// What a finding is kept under: the command, its arguments, and a digest of the
/// environment in place of the environment.
#[derive(Debug, PartialEq, Eq)]
pub struct RuntimeReadinessCacheKey {
    pub command: String,
    pub args: Vec<String>,
    pub env_digest: [u8; 32],
}

/// What a key holds.
#[verifier::ext_equal]
pub struct CacheKeyModel {
    pub command: Seq<char>,
    pub args: Seq<Seq<char>>,
    pub env_digest: Seq<u8>,
}

impl View for RuntimeReadinessCacheKey {
    type V = CacheKeyModel;

    open spec fn view(&self) -> CacheKeyModel {
        CacheKeyModel {
            command: self.command@,
            args: text::texts(self.args@),
            env_digest: self.env_digest@,
        }
    }
}

impl RuntimeReadinessCacheKey {
    /// A copy of the key.
    pub fn copy(&self) -> (r: RuntimeReadinessCacheKey)
        ensures
            r@ == self@,
    {
        RuntimeReadinessCacheKey {
            command: self.command.clone(),
            args: text::copy_list(&self.args),
            env_digest: self.env_digest,
        }
    }

    /// Whether two keys hold the same.
    pub fn same(&self, other: &RuntimeReadinessCacheKey) -> (r: bool)
        ensures
            r == (self@ == other@),
    {
        let command = text::same(self.command.as_str(), other.command.as_str());
        let args = text::same_lists(&self.args, &other.args);
        let digest = same_digest(&self.env_digest, &other.env_digest);
        assert(command && args && digest ==> self@ =~= other@);
        command && args && digest
    }
}

/// Whether two digests are equal.
fn same_digest(a: &[u8; 32], b: &[u8; 32]) -> (r: bool)
    ensures
        r == (a@ == b@),
{
    let mut i: usize = 0;
    while i < 32
        invariant
            i <= 32,
            forall|j: int| 0 <= j < i ==> a@[j] == b@[j],
        decreases 32 - i,
    {
        if a[i] != b[i] {
            assert(a@[i as int] != b@[i as int]);
            return false;
        }
        i += 1;
    }
    assert(a@ =~= b@);
    true
}

/// A finding, and when it was made, in nanoseconds.
#[derive(Debug, Clone, Copy, PartialEq, Eq, Structural)]
pub struct CachedReadiness {
    pub status: RuntimeReadinessStatus,
    pub observed_at: u128,
}

/// Whether a finding still counts.
pub open spec fn fresh(finding: CachedReadiness, now: u128) -> bool {
    now - finding.observed_at <= READINESS_CACHE_TTL_NANOS
}

/// What is known under a key; of what is not kept, or does not count any longer, nothing.
pub open spec fn known(
    cache: Map<CacheKeyModel, CachedReadiness>,
    key: CacheKeyModel,
    now: u128,
) -> RuntimeReadinessStatus {
    if cache.contains_key(key) && fresh(cache[key], now) {
        cache[key].status
    } else {
        RuntimeReadinessStatus::Unknown
    }
}

/// What is kept once a key was looked up: a finding that does not count any longer is
/// dropped.
pub open spec fn looked_up(
    cache: Map<CacheKeyModel, CachedReadiness>,
    key: CacheKeyModel,
    now: u128,
) -> Map<CacheKeyModel, CachedReadiness> {
    if cache.contains_key(key) && !fresh(cache[key], now) {
        cache.remove(key)
    } else {
        cache
    }
}

/// The findings that are kept.
#[derive(Debug)]
pub struct ReadinessCache {
    entries: Vec<(RuntimeReadinessCacheKey, CachedReadiness)>,
}

/// What the entries of a list hold.
pub open spec fn entry_views(v: Seq<(RuntimeReadinessCacheKey, CachedReadiness)>) -> Seq<
    (CacheKeyModel, CachedReadiness),
> {
    v.map_values(|e: (RuntimeReadinessCacheKey, CachedReadiness)| (e.0@, e.1))
}

impl View for ReadinessCache {
    type V = Map<CacheKeyModel, CachedReadiness>;

    closed spec fn view(&self) -> Map<CacheKeyModel, CachedReadiness> {
        keyed::to_map(entry_views(self.entries@))
    }
}

impl ReadinessCache {
    /// Whether no key is kept twice.
    pub closed spec fn wf(self) -> bool {
        keyed::distinct(entry_views(self.entries@))
    }

    /// Keeps nothing.
    pub fn new() -> (r: ReadinessCache)
        ensures
            r.wf(),
            r@ == Map::<CacheKeyModel, CachedReadiness>::empty(),
    {
        let r = ReadinessCache { entries: Vec::new() };
        assert(r@ =~= Map::empty());
        r
    }

    /// The position of a key.
    fn position(&self, key: &RuntimeReadinessCacheKey) -> (r: Option<usize>)
        requires
            self.wf(),
        ensures
            match r {
                Some(i) => i < self.entries@.len() && self.entries@[i as int].0@ == key@
                    && self@.contains_key(key@) && self@[key@] == self.entries@[i as int].1,
                None => !self@.contains_key(key@),
            },
    {
        let ghost seen = entry_views(self.entries@);
        let mut i: usize = 0;
        while i < self.entries.len()
            invariant
                self.wf(),
                seen == entry_views(self.entries@),
                i <= self.entries.len(),
                forall|j: int| 0 <= j < i ==> (#[trigger] seen[j]).0 != key@,
            decreases self.entries.len() - i,
        {
            assert(seen[i as int].0 == self.entries@[i as int].0@);
            if self.entries[i].0.same(key) {
                proof {
                    keyed::map_at(seen, i as int);
                }
                return Some(i);
            }
            i += 1;
        }
        proof {
            if self@.contains_key(key@) {
                let k = keyed::map_position(seen, key@);
                assert(seen[k].0 == key@);
            }
        }
        None
    }

    /// Keeps a finding.
    pub fn put_cached(
        &mut self,
        key: RuntimeReadinessCacheKey,
        status: RuntimeReadinessStatus,
        now: u128,
    )
        requires
            old(self).wf(),
        ensures
            final(self).wf(),
            final(self)@ == old(self)@.insert(
                key@,
                (CachedReadiness { status, observed_at: now }),
            ),
    {
        let finding = CachedReadiness { status, observed_at: now };
        let ghost before = entry_views(self.entries@);
        let ghost k = key@;
        match self.position(&key) {
            Some(i) => {
                proof {
                    keyed::map_update(before, i as int, finding);
                }
                self.entries.set(i, (key, finding));
                assert(entry_views(self.entries@) =~= before.update(i as int, (k, finding)));
            },
            None => {
                proof {
                    keyed::map_push(before, k, finding);
                }
                self.entries.push((key, finding));
                assert(entry_views(self.entries@) =~= before.push((k, finding)));
            },
        }
    }

    /// Takes in the findings of another cache, over its own.
    pub fn absorb(&mut self, other: &ReadinessCache)
        requires
            old(self).wf(),
            other.wf(),
        ensures
            final(self).wf(),
            final(self)@ == old(self)@.union_prefer_right(other@),
    {
        let ghost list = entry_views(other.entries@);
        let mut i: usize = 0;
        assert(keyed::to_map(list.take(0)) =~= Map::empty());
        assert(old(self)@.union_prefer_right(keyed::to_map(list.take(0))) =~= old(self)@);
        while i < other.entries.len()
            invariant
                self.wf(),
                list == entry_views(other.entries@),
                keyed::distinct(list),
                i <= other.entries.len(),
                self@ == old(self)@.union_prefer_right(keyed::to_map(list.take(i as int))),
            decreases other.entries.len() - i,
        {
            proof {
                keyed::map_take(list, i as int);
            }
            let finding = other.entries[i].1;
            assert(list[i as int] == (other.entries@[i as int].0@, finding));
            self.put_cached(other.entries[i].0.copy(), finding.status, finding.observed_at);
            assert(self@ =~= old(self)@.union_prefer_right(keyed::to_map(list.take(i + 1))));
            i += 1;
        }
        assert(list.take(list.len() as int) =~= list);
    }

    /// Forgets everything.
    pub fn invalidate_runtime_readiness(&mut self)
        ensures
            final(self).wf(),
            final(self)@ == Map::<CacheKeyModel, CachedReadiness>::empty(),
    {
        self.entries = Vec::new();
        assert(self@ =~= Map::empty());
    }

    /// Looks a key up. Nothing is found out by this: what is not kept is unknown.
    pub fn lookup(&mut self, key: &RuntimeReadinessCacheKey, now: u128) -> (r:
        RuntimeReadinessStatus)
        requires
            old(self).wf(),
        ensures
            final(self).wf(),
            r == known(old(self)@, key@, now),
            final(self)@ == looked_up(old(self)@, key@, now),
    {
        match self.position(key) {
            Some(i) => {
                let finding = self.entries[i].1;
                if now < finding.observed_at || now - finding.observed_at
                    <= READINESS_CACHE_TTL_NANOS {
                    return finding.status;
                }
                let ghost before = entry_views(self.entries@);
                proof {
                    keyed::map_remove(before, i as int);
                }
                let gone = self.entries.remove(i);
                assert(entry_views(self.entries@) =~= before.remove(i as int));
                RuntimeReadinessStatus::Unknown
            },
            None => RuntimeReadinessStatus::Unknown,
        }
    }
}

/// Whether a command comes to `path`: where it is found on the host, to that, and else to
/// itself.
pub open spec fn canonical<F: Fn(&str) -> Option<String>>(
    resolve: F,
    command: Seq<char>,
    path: Seq<char>,
) -> bool {
    exists|c: &str, found: Option<String>|
        {
            &&& c@ == command
            &&& #[trigger] call_ensures(resolve, (c,), found)
            &&& path == match found {
                Some(p) => p@,
                None => command,
            }
        }
}

/// What a command comes to on the host.
pub fn canonical_command<F: Fn(&str) -> Option<String>>(command: &str, resolve: &F) -> (r: String)
    requires
        call_requires(*resolve, (command,)),
    ensures
        canonical(*resolve, command@, r@),
{
    let found = resolve(command);
    assert(call_ensures(*resolve, (command,), found));
    match found {
        Some(path) => path,
        None => command.to_owned(),
    }
}

/// Whether findings on this launch are kept under `key`.
pub open spec fn keyed_by<F: Fn(&str) -> Option<String>>(
    resolve: F,
    command: Seq<char>,
    args: Seq<Seq<char>>,
    env: Map<Seq<char>, Seq<char>>,
    key: CacheKeyModel,
) -> bool {
    &&& canonical(resolve, command, key.command)
    &&& key.args == args
    &&& key.env_digest == digest::digested(env)
}

/// The key that findings on a launch are kept under.
pub fn readiness_cache_key<F: Fn(&str) -> Option<String>>(
    command: &str,
    args: &Vec<String>,
    env: &EnvMap,
    resolve: &F,
) -> (r: RuntimeReadinessCacheKey)
    requires
        env.wf(),
        digest::digestible(env@),
        call_requires(*resolve, (command,)),
    ensures
        keyed_by(*resolve, command@, text::texts(args@), env@, r@),
{
    RuntimeReadinessCacheKey {
        command: canonical_command(command, resolve),
        args: text::copy_list(args),
        env_digest: digest::env_digest(env),
    }
}

/// What is known of a launch, without finding anything out.
pub fn cached_runtime_readiness<F: Fn(&str) -> Option<String>>(
    cache: &mut ReadinessCache,
    command: &str,
    args: &Vec<String>,
    env: &EnvMap,
    resolve: &F,
    now: u128,
) -> (r: RuntimeReadinessStatus)
    requires
        old(cache).wf(),
        env.wf(),
        digest::digestible(env@),
        call_requires(*resolve, (command,)),
    ensures
        final(cache).wf(),
        exists|key: CacheKeyModel|
            {
                &&& #[trigger] keyed_by(*resolve, command@, text::texts(args@), env@, key)
                &&& r == known(old(cache)@, key, now)
                &&& final(cache)@ == looked_up(old(cache)@, key, now)
            },
{
    let key = readiness_cache_key(command, args, env, resolve);
    let r = cache.lookup(&key, now);
    assert(keyed_by(*resolve, command@, text::texts(args@), env@, key@));
    r
}

/// What the models that an agent offers say of its readiness.
pub open spec fn models_status(response: ModelsResponse) -> RuntimeReadinessStatus {
    if response.models.len() == 0 {
        RuntimeReadinessStatus::ModelUnavailable
    } else {
        RuntimeReadinessStatus::Ready
    }
}

/// What the models that an agent offers say of its readiness.
pub fn status_of_models(response: &AgentModelsResponse) -> (r: RuntimeReadinessStatus)
    ensures
        r == models_status(response@),
{
    if response.models.len() == 0 {
        RuntimeReadinessStatus::ModelUnavailable
    } else {
        RuntimeReadinessStatus::Ready
    }
}

/// Keeps what the models that an agent offers say of its readiness.
pub fn cache_agent_models_result<F: Fn(&str) -> Option<String>>(
    cache: &mut ReadinessCache,
    command: &str,
    args: &Vec<String>,
    env: &EnvMap,
    response: &AgentModelsResponse,
    resolve: &F,
    now: u128,
)
    requires
        old(cache).wf(),
        env.wf(),
        digest::digestible(env@),
        call_requires(*resolve, (command,)),
    ensures
        final(cache).wf(),
        exists|key: CacheKeyModel|
            {
                &&& #[trigger] keyed_by(*resolve, command@, text::texts(args@), env@, key)
                &&& final(cache)@ == old(cache)@.insert(
                    key,
                    (CachedReadiness { status: models_status(response@), observed_at: now }),
                )
            },
{
    let key = readiness_cache_key(command, args, env, resolve);
    let ghost k = key@;
    cache.put_cached(key, status_of_models(response), now);
    assert(keyed_by(*resolve, command@, text::texts(args@), env@, k));
}

/// A finding is read back as it was put until it has outlived its time, and only under its
/// own key; after that its key is unknown.
pub proof fn law_findings_last_for_their_time(
    cache: Map<CacheKeyModel, CachedReadiness>,
    key: CacheKeyModel,
    other: CacheKeyModel,
    status: RuntimeReadinessStatus,
    put_at: u128,
    now: u128,
)
    ensures
        ({
            let after = cache.insert(key, (CachedReadiness { status, observed_at: put_at }));
            &&& now <= put_at + READINESS_CACHE_TTL_NANOS ==> known(after, key, now) == status
            &&& now > put_at + READINESS_CACHE_TTL_NANOS ==> known(after, key, now)
                == RuntimeReadinessStatus::Unknown
            &&& other != key ==> known(after, other, now) == known(cache, other, now)
        }),
{
}

/// Looking a key up changes nothing that a later look finds.
pub proof fn law_looking_up_changes_no_answer(
    cache: Map<CacheKeyModel, CachedReadiness>,
    key: CacheKeyModel,
    other: CacheKeyModel,
    now: u128,
    later: u128,
)
    requires
        now <= later,
    ensures
        known(looked_up(cache, key, now), other, later) == known(cache, other, later),
{
}

/// Once everything is forgotten, every key is unknown.
pub proof fn law_forgetting_leaves_nothing_known(key: CacheKeyModel, now: u128)
    ensures
        known(Map::<CacheKeyModel, CachedReadiness>::empty(), key, now)
            == RuntimeReadinessStatus::Unknown,
{
}

} // verus!
