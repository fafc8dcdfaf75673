//! Execution requests carried by signed room events: which working directory, if any, a
//! turn asks for, and whether it is granted.
//!
//! The library decides; looking at the file system is left to the caller, who hands over
//! what a path resolves to.
use vstd::prelude::*;

use crate::outside;
use crate::room_event;
use crate::room_event::{RoomEvent, RoomEventModel};
use crate::search;
use crate::text;

verus! {

/// The name of the tag that marks an execution request.
pub const EXECUTION_TAG: &'static str = "ompk-execution";

/// The name of the tag that asks for a working directory.
pub const CWD_TAG: &'static str = "ompk-cwd";

/// The one version of the contract, as the execution tag gives it.
pub const CONTRACT_VERSION: &'static str = "1";

/// A canonical path, as its components.
#[derive(Debug, PartialEq, Eq)]
pub struct CanonicalPath {
    pub components: Vec<Vec<u8>>,
}

/// The components of a path.
pub open spec fn component_bytes(v: Seq<Vec<u8>>) -> Seq<Seq<u8>> {
    v.map_values(|c: Vec<u8>| c@)
}

impl View for CanonicalPath {
    type V = Seq<Seq<u8>>;

    open spec fn view(&self) -> Seq<Seq<u8>> {
        component_bytes(self.components@)
    }
}

/// Whether two components have the same bytes.
fn same_component(a: &Vec<u8>, b: &Vec<u8>) -> (r: bool)
    ensures
        r == (a@ == b@),
{
    if a.len() != b.len() {
        return false;
    }
    let mut i: usize = 0;
    while i < a.len()
        invariant
            i <= a.len(),
            a@.len() == b@.len(),
            forall|j: int| 0 <= j < i ==> a@[j] == b@[j],
        decreases a.len() - i,
    {
        if a[i] != b[i] {
            assert(a@[i as int] != b@[i as int]);
            return false;
        }
        i += 1;
    }
    assert(a@ =~= b@);
    true
}

impl CanonicalPath {
    /// A copy of the path.
    pub fn copy(&self) -> (r: CanonicalPath)
        ensures
            r@ == self@,
    {
        let mut components: Vec<Vec<u8>> = Vec::new();
        let mut i: usize = 0;
        while i < self.components.len()
            invariant
                i <= self.components.len(),
                components@.len() == i,
                forall|k: int| 0 <= k < i ==> (#[trigger] components@[k])@ == self.components@[k]@,
            decreases self.components.len() - i,
        {
            components.push(copy_bytes(&self.components[i]));
            i += 1;
        }
        let r = CanonicalPath { components };
        assert(r@ =~= self@);
        r
    }

    /// Whether the path is `base` or lies below it: the components of `base` are its first.
    pub fn starts_with(&self, base: &CanonicalPath) -> (r: bool)
        ensures
            r == base@.is_prefix_of(self@),
    {
        if base.components.len() > self.components.len() {
            return false;
        }
        let mut i: usize = 0;
        while i < base.components.len()
            invariant
                i <= base.components.len() <= self.components.len(),
                forall|k: int| 0 <= k < i ==> #[trigger] base@[k] == self@[k],
            decreases base.components.len() - i,
        {
            if !same_component(&base.components[i], &self.components[i]) {
                assert(base@[i as int] != self@[i as int]);
                assert(self@.subrange(0, base@.len() as int)[i as int] == self@[i as int]);
                return false;
            }
            assert(base@[i as int] == self@[i as int]);
            i += 1;
        }
        assert(base@ =~= self@.subrange(0, base@.len() as int));
        true
    }

    /// Whether the two paths have the same components.
    pub fn same(&self, other: &CanonicalPath) -> (r: bool)
        ensures
            r == (self@ == other@),
    {
        let r = self.components.len() == other.components.len() && self.starts_with(other);
        assert(r ==> self@ =~= other@);
        assert(self@ == other@ ==> other@ =~= self@.subrange(0, other@.len() as int));
        r
    }
}

/// A copy of a list of bytes.
fn copy_bytes(v: &Vec<u8>) -> (r: Vec<u8>)
    ensures
        r@ == v@,
{
    let mut out: Vec<u8> = Vec::new();
    let mut i: usize = 0;
    while i < v.len()
        invariant
            i <= v.len(),
            out@ == v@.take(i as int),
        decreases v.len() - i,
    {
        out.push(v[i]);
        i += 1;
    }
    out
}

/// What the file system says of a path: whether it is absolute, what it resolves to where
/// it exists, and whether that is a directory.
#[derive(Debug)]
pub struct PathProbe {
    pub absolute: bool,
    pub canonical: Option<CanonicalPath>,
    pub directory: bool,
}

/// What a probe holds.
#[verifier::ext_equal]
pub struct ProbeModel {
    pub absolute: bool,
    pub canonical: Option<Seq<Seq<u8>>>,
    pub directory: bool,
}

impl View for PathProbe {
    type V = ProbeModel;

    open spec fn view(&self) -> ProbeModel {
        ProbeModel {
            absolute: self.absolute,
            canonical: match self.canonical {
                Some(p) => Some(p@),
                None => None,
            },
            directory: self.directory,
        }
    }
}

impl ProbeModel {
    /// Whether the path was absolute and names an existing directory.
    pub open spec fn usable(self) -> bool {
        self.absolute && self.canonical is Some && self.directory
    }
}

/// A granted execution request.
#[derive(Debug, PartialEq, Eq)]
pub struct OmpkExecutionRequest {
    /// The id of the signed event that carries the request.
    pub execution_id: String,
    /// The directory that the session starts in, where the request asks for one.
    pub cwd: Option<CanonicalPath>,
}

/// What a request holds.
#[verifier::ext_equal]
pub struct RequestModel {
    pub execution_id: Seq<char>,
    pub cwd: Option<Seq<Seq<u8>>>,
}

impl View for OmpkExecutionRequest {
    type V = RequestModel;

    open spec fn view(&self) -> RequestModel {
        RequestModel {
            execution_id: self.execution_id@,
            cwd: match self.cwd {
                Some(p) => Some(p@),
                None => None,
            },
        }
    }
}

/// Why a request, or a policy, is refused.
#[derive(Debug, Clone, Copy, PartialEq, Eq, Structural)]
pub enum OmpkExecutionError {
    Disabled,
    InvalidContract,
    UnsupportedRuntime,
    UnsupportedPlacement,
    InvalidCwd,
    CwdNotAllowed,
    InvalidAllowedWorkspace,
}

impl OmpkExecutionError {
    /// The text of the error, which names no path.
    pub open spec fn text(self) -> Seq<char> {
        match self {
            OmpkExecutionError::Disabled => "OMPK execution requests are disabled"@,
            OmpkExecutionError::InvalidContract => "invalid OMPK execution request"@,
            OmpkExecutionError::UnsupportedRuntime =>
                "OMPK cwd placement requires the OMPK runtime"@,
            OmpkExecutionError::UnsupportedPlacement =>
                "requested OMPK placement field is not supported by contract version 1"@,
            OmpkExecutionError::InvalidCwd => "requested OMPK cwd must be an absolute directory"@,
            OmpkExecutionError::CwdNotAllowed =>
                "requested OMPK cwd is outside the configured allowed workspaces"@,
            OmpkExecutionError::InvalidAllowedWorkspace =>
                "configured OMPK allowed workspace must be an existing absolute directory"@,
        }
    }

    /// The text of the error, which names no path.
    pub fn message(&self) -> (r: &'static str)
        ensures
            r@ == self.text(),
    {
        match self {
            OmpkExecutionError::Disabled => "OMPK execution requests are disabled",
            OmpkExecutionError::InvalidContract => "invalid OMPK execution request",
            OmpkExecutionError::UnsupportedRuntime =>
                "OMPK cwd placement requires the OMPK runtime",
            OmpkExecutionError::UnsupportedPlacement =>
                "requested OMPK placement field is not supported by contract version 1",
            OmpkExecutionError::InvalidCwd => "requested OMPK cwd must be an absolute directory",
            OmpkExecutionError::CwdNotAllowed =>
                "requested OMPK cwd is outside the configured allowed workspaces",
            OmpkExecutionError::InvalidAllowedWorkspace =>
                "configured OMPK allowed workspace must be an existing absolute directory",
        }
    }
}

/// Whether requests are granted, and the directories that they may start in.
#[derive(Debug)]
pub struct OmpkExecutionPolicy {
    pub enabled: bool,
    pub allowed_workspaces: Vec<CanonicalPath>,
}

/// The paths of a list.
pub open spec fn paths(v: Seq<CanonicalPath>) -> Seq<Seq<Seq<u8>>> {
    v.map_values(|p: CanonicalPath| p@)
}

/// What a policy holds.
#[verifier::ext_equal]
pub struct PolicyModel {
    pub enabled: bool,
    pub allowed_workspaces: Seq<Seq<Seq<u8>>>,
}

impl View for OmpkExecutionPolicy {
    type V = PolicyModel;

    open spec fn view(&self) -> PolicyModel {
        PolicyModel { enabled: self.enabled, allowed_workspaces: paths(self.allowed_workspaces@) }
    }
}

/// The distinct members of a sequence, each where it first stands.
pub open spec fn distinct(s: Seq<Seq<Seq<u8>>>) -> Seq<Seq<Seq<u8>>>
    decreases s.len(),
{
    if s.len() == 0 {
        Seq::empty()
    } else {
        let rest = distinct(s.drop_last());
        if rest.contains(s.last()) {
            rest
        } else {
            rest.push(s.last())
        }
    }
}

/// What the roots of a policy resolve to.
pub open spec fn root_paths(roots: Seq<PathProbe>) -> Seq<Seq<Seq<u8>>> {
    Seq::new(roots.len(), |i: int| roots[i]@.canonical->0)
}

/// The tag names that ask for a placement which the contract does not have.
pub open spec fn unsupported_placement(name: Seq<char>) -> bool {
    ||| name == "ompk-agent"@
    ||| name == "ompk-host"@
    ||| name == "ompk-machine"@
    ||| name == "ompk-mode"@
    ||| name == "ompk-project"@
    ||| name == "ompk-repo"@
    ||| name == "ompk-runner"@
    ||| name == "ompk-workspace"@
}

/// Whether a tag name asks for a placement which the contract does not have.
fn is_unsupported_placement(name: &str) -> (r: bool)
    ensures
        r == unsupported_placement(name@),
{
    text::same(name, "ompk-agent") || text::same(name, "ompk-host") || text::same(
        name,
        "ompk-machine",
    ) || text::same(name, "ompk-mode") || text::same(name, "ompk-project") || text::same(
        name,
        "ompk-repo",
    ) || text::same(name, "ompk-runner") || text::same(name, "ompk-workspace")
}

/// Whether some tag asks for a placement which the contract does not have.
pub open spec fn asks_unsupported(tags: Seq<Seq<Seq<char>>>) -> bool {
    exists|i: int|
        0 <= i < tags.len() && (#[trigger] tags[i]).len() > 0 && unsupported_placement(tags[i][0])
}

/// What the tags of an event ask for, before any path is looked at.
#[verifier::ext_equal]
pub enum Placement {
    /// Nothing: the event is an ordinary one.
    Ordinary,
    /// Something that is refused.
    Refused(OmpkExecutionError),
    /// The session's own directory.
    Default,
    /// This directory.
    Cwd(Seq<char>),
}

/// What the tags of an event ask for under a policy and a runtime.
pub open spec fn placement(
    enabled: bool,
    tags: Seq<Seq<Seq<char>>>,
    runtime_name: Seq<char>,
) -> Placement {
    let execution = room_event::tagged(tags, EXECUTION_TAG@);
    let cwd = room_event::tagged(tags, CWD_TAG@);
    let unsupported = asks_unsupported(tags);
    if execution.len() == 0 && cwd.len() == 0 && !unsupported {
        Placement::Ordinary
    } else if !enabled {
        Placement::Refused(OmpkExecutionError::Disabled)
    } else if unsupported {
        Placement::Refused(OmpkExecutionError::UnsupportedPlacement)
    } else if execution.len() != 1 || execution[0].len() != 2 || execution[0][1]
        != CONTRACT_VERSION@ || cwd.len() > 1 || (cwd.len() == 1 && cwd[0].len() != 2) {
        Placement::Refused(OmpkExecutionError::InvalidContract)
    } else if runtime_name != "ompk"@ && runtime_name != "oh-my-pk"@ {
        Placement::Refused(OmpkExecutionError::UnsupportedRuntime)
    } else if cwd.len() == 0 {
        Placement::Default
    } else {
        Placement::Cwd(cwd[0][1])
    }
}

/// Whether a path is one of the allowed workspaces or lies below one.
pub open spec fn allowed(workspaces: Seq<Seq<Seq<u8>>>, path: Seq<Seq<u8>>) -> bool {
    exists|i: int| 0 <= i < workspaces.len() && (#[trigger] workspaces[i]).is_prefix_of(path)
}

/// The directory that is granted for a probed path.
pub open spec fn granted_cwd(
    workspaces: Seq<Seq<Seq<u8>>>,
    probe: ProbeModel,
) -> Result<Seq<Seq<u8>>, OmpkExecutionError> {
    if !probe.usable() {
        Err(OmpkExecutionError::InvalidCwd)
    } else if !allowed(workspaces, probe.canonical->0) {
        Err(OmpkExecutionError::CwdNotAllowed)
    } else {
        Ok(probe.canonical->0)
    }
}

/// The answer to a request, in its model.
pub open spec fn answer_view(
    r: Result<Option<OmpkExecutionRequest>, OmpkExecutionError>,
) -> Result<Option<RequestModel>, OmpkExecutionError> {
    match r {
        Ok(Some(request)) => Ok(Some(request@)),
        Ok(None) => Ok(None),
        Err(e) => Err(e),
    }
}

impl PolicyModel {
    /// The answer to an event whose requested directory, where it asks for one, probes as
    /// `probe`.
    pub open spec fn answer(
        self,
        event: RoomEventModel,
        runtime_name: Seq<char>,
        probe: ProbeModel,
    ) -> Result<Option<RequestModel>, OmpkExecutionError> {
        let execution_id = text::hex_encode(event.id);
        match placement(self.enabled, event.tags, runtime_name) {
            Placement::Ordinary => Ok(None),
            Placement::Refused(e) => Err(e),
            Placement::Default => Ok(Some(RequestModel { execution_id, cwd: None })),
            Placement::Cwd(_) => match granted_cwd(self.allowed_workspaces, probe) {
                Ok(path) => Ok(Some(RequestModel { execution_id, cwd: Some(path) })),
                Err(e) => Err(e),
            },
        }
    }
}

/// Whether `probe` was asked about this path and answered `found`.
pub open spec fn probed<P: Fn(&str) -> PathProbe>(
    probe: P,
    path: Seq<char>,
    found: ProbeModel,
) -> bool {
    exists|p: &str, f: PathProbe|
        p@ == path && f@ == found && #[trigger] call_ensures(probe, (p,), f)
}

/// Whether `probe` may be asked about the path that an event asks for.
pub open spec fn can_probe<P: Fn(&str) -> PathProbe>(
    probe: P,
    enabled: bool,
    event: RoomEventModel,
    runtime_name: Seq<char>,
) -> bool {
    placement(enabled, event.tags, runtime_name) matches Placement::Cwd(path) ==> forall|p: &str|
        p@ == path ==> #[trigger] call_requires(probe, (p,))
}

/// Whether `r` answers an event, with the paths resolved by `probe`.
pub open spec fn answers<P: Fn(&str) -> PathProbe>(
    policy: PolicyModel,
    event: RoomEventModel,
    runtime_name: Seq<char>,
    probe: P,
    r: Result<Option<RequestModel>, OmpkExecutionError>,
) -> bool {
    exists|found: ProbeModel|
        {
            &&& r == #[trigger] policy.answer(event, runtime_name, found)
            &&& placement(policy.enabled, event.tags, runtime_name) matches Placement::Cwd(path)
                ==> probed(probe, path, found)
        }
}

/// The answer to a turn, from the answers to its events in order: the first refusal, the
/// refusal of a second request, or the one request there is.
pub open spec fn combined(
    answers: Seq<Result<Option<RequestModel>, OmpkExecutionError>>,
) -> Result<Option<RequestModel>, OmpkExecutionError>
    decreases answers.len(),
{
    if answers.len() == 0 {
        Ok(None)
    } else {
        match (combined(answers.drop_last()), answers.last()) {
            (Err(e), _) => Err(e),
            (Ok(_), Err(e)) => Err(e),
            (Ok(earlier), Ok(None)) => Ok(earlier),
            (Ok(None), Ok(Some(request))) => Ok(Some(request)),
            (Ok(Some(_)), Ok(Some(_))) => Err(OmpkExecutionError::InvalidContract),
        }
    }
}

/// What the tags of an event ask for, with the position of its cwd tag.
enum Asked {
    Ordinary,
    Refused(OmpkExecutionError),
    Default,
    Cwd(usize),
}

impl OmpkExecutionPolicy {
    /// Builds a policy from what the operator's workspace roots resolve to. One root that
    /// is not an existing absolute directory refuses them all.
    pub fn new(enabled: bool, allowed_workspaces: Vec<PathProbe>) -> (r: Result<
        OmpkExecutionPolicy,
        OmpkExecutionError,
    >)
        ensures
            r is Ok <==> forall|i: int|
                0 <= i < allowed_workspaces@.len() ==> (#[trigger] allowed_workspaces@[i])@.usable(),
            r matches Ok(policy) ==> policy@ == (PolicyModel {
                enabled,
                allowed_workspaces: distinct(root_paths(allowed_workspaces@)),
            }),
            r matches Err(e) ==> e == OmpkExecutionError::InvalidAllowedWorkspace,
            r is Ok <==> forall|i: int|
                0 <= i < allowed_workspaces@.len() ==> (#[trigger] allowed_workspaces@[i]).absolute
                    && allowed_workspaces@[i].directory && allowed_workspaces@[i].canonical is Some,
            r matches Ok(policy) ==> policy.enabled == enabled && forall|p: Seq<Seq<u8>>| #[trigger]
                policy@.allowed_workspaces.contains(p) <==> exists|i: int|
                    0 <= i < allowed_workspaces@.len() && (
                    #[trigger] allowed_workspaces@[i]).canonical->0@ == p,
    {
        let mut kept: Vec<CanonicalPath> = Vec::new();
        let mut i: usize = 0;
        let ghost all = root_paths(allowed_workspaces@);
        assert(paths(kept@) =~= distinct(all.take(0)));
        while i < allowed_workspaces.len()
            invariant
                i <= allowed_workspaces.len(),
                all == root_paths(allowed_workspaces@),
                forall|k: int| 0 <= k < i ==> (#[trigger] allowed_workspaces@[k])@.usable(),
                paths(kept@) == distinct(all.take(i as int)),
            decreases allowed_workspaces.len() - i,
        {
            assert(all.take(i + 1).drop_last() =~= all.take(i as int));
            let root = &allowed_workspaces[i];
            if !root.absolute {
                assert(!allowed_workspaces@[i as int]@.usable());
                return Err(OmpkExecutionError::InvalidAllowedWorkspace);
            }
            match &root.canonical {
                None => {
                    assert(!allowed_workspaces@[i as int]@.usable());
                    return Err(OmpkExecutionError::InvalidAllowedWorkspace);
                },
                Some(path) => {
                    if !root.directory {
                        assert(!allowed_workspaces@[i as int]@.usable());
                        return Err(OmpkExecutionError::InvalidAllowedWorkspace);
                    }
                    assert(all[i as int] == path@);
                    if !contains_path(&kept, path) {
                        let ghost before = paths(kept@);
                        kept.push(path.copy());
                        assert(paths(kept@) =~= before.push(path@));
                    }
                },
            }
            i += 1;
        }
        assert(all.take(all.len() as int) =~= all);
        proof {
            law_policy_roots_are_distinct(all);
            assert forall|p: Seq<Seq<u8>>| #[trigger] paths(kept@).contains(p) <==> exists|i: int|
                0 <= i < allowed_workspaces@.len() && (
                #[trigger] allowed_workspaces@[i]).canonical->0@ == p by {
                assert(all.contains(p) == paths(kept@).contains(p));
                if all.contains(p) {
                    let i = all.index_of(p);
                    assert(allowed_workspaces@[i]@.usable());
                    assert(allowed_workspaces@[i].canonical->0@ == p);
                }
                if exists|i: int|
                    0 <= i < allowed_workspaces@.len() && (
                    #[trigger] allowed_workspaces@[i]).canonical->0@ == p {
                    let i = choose|i: int|
                        0 <= i < allowed_workspaces@.len() && (
                        #[trigger] allowed_workspaces@[i]).canonical->0@ == p;
                    assert(allowed_workspaces@[i]@.usable());
                    assert(all[i] == p);
                }
            }
        }
        Ok(OmpkExecutionPolicy { enabled, allowed_workspaces: kept })
    }

    /// Reads the tags of an event.
    fn read_tags(&self, event: &RoomEvent, harness_name: &str) -> (r: Asked)
        ensures
            match placement(self.enabled, event@.tags, harness_name@) {
                Placement::Ordinary => r is Ordinary,
                Placement::Refused(e) => r == Asked::Refused(e),
                Placement::Default => r is Default,
                Placement::Cwd(path) => {
                    &&& r matches Asked::Cwd(k)
                    &&& k < event.tags@.len()
                    &&& event.tags@[k as int]@.len() == 2
                    &&& event.tags@[k as int]@[1]@ == path
                },
            },
    {
        let execution = room_event::positions(&event.tags, EXECUTION_TAG);
        let cwd = room_event::positions(&event.tags, CWD_TAG);
        let unsupported = has_unsupported(&event.tags);
        if execution.len() == 0 && cwd.len() == 0 && !unsupported {
            return Asked::Ordinary;
        }
        if !self.enabled {
            return Asked::Refused(OmpkExecutionError::Disabled);
        }
        if unsupported {
            return Asked::Refused(OmpkExecutionError::UnsupportedPlacement);
        }
        if execution.len() != 1 {
            return Asked::Refused(OmpkExecutionError::InvalidContract);
        }
        let marker = &event.tags[execution[0]];
        assert(text::texts(marker@) == room_event::tagged(event@.tags, EXECUTION_TAG@)[0]);
        if marker.len() != 2 || !text::same(marker[1].as_str(), CONTRACT_VERSION) || cwd.len()
            > 1 {
            return Asked::Refused(OmpkExecutionError::InvalidContract);
        }
        if cwd.len() == 1 && event.tags[cwd[0]].len() != 2 {
            assert(text::texts(event.tags@[cwd@[0] as int]@) == room_event::tagged(
                event@.tags,
                CWD_TAG@,
            )[0]);
            return Asked::Refused(OmpkExecutionError::InvalidContract);
        }
        if !text::same(harness_name, "ompk") && !text::same(harness_name, "oh-my-pk") {
            return Asked::Refused(OmpkExecutionError::UnsupportedRuntime);
        }
        if cwd.len() == 0 {
            Asked::Default
        } else {
            assert(text::texts(event.tags@[cwd@[0] as int]@) == room_event::tagged(
                event@.tags,
                CWD_TAG@,
            )[0]);
            Asked::Cwd(cwd[0])
        }
    }

    /// Answers one event. `probe` is asked only about the directory that the event asks
    /// for, and only once everything else about the request is in order.
    pub fn parse_event<P: Fn(&str) -> PathProbe>(
        &self,
        event: &RoomEvent,
        harness_name: &str,
        probe: &P,
    ) -> (r: Result<Option<OmpkExecutionRequest>, OmpkExecutionError>)
        requires
            can_probe(*probe, self.enabled, event@, harness_name@),
        ensures
            answers(self@, event@, harness_name@, *probe, answer_view(r)),
    {
        let ghost none = ProbeModel { absolute: false, canonical: None, directory: false };
        let cwd = match self.read_tags(event, harness_name) {
            Asked::Ordinary => {
                assert(answer_view(Ok(None)) == self@.answer(event@, harness_name@, none));
                return Ok(None);
            },
            Asked::Refused(e) => {
                assert(answer_view(Err(e)) == self@.answer(event@, harness_name@, none));
                return Err(e);
            },
            Asked::Default => None,
            Asked::Cwd(k) => {
                let path: &str = event.tags[k][1].as_str();
                let found = probe(path);
                assert(probed(*probe, path@, found@));
                let ghost seen = found@;
                match self.validate_cwd(found) {
                    Ok(granted) => {
                        let request = OmpkExecutionRequest {
                            execution_id: outside::event_id_to_hex(&event.id),
                            cwd: Some(granted),
                        };
                        assert(answer_view(Ok(Some(request))) == self@.answer(event@, harness_name@, seen));
                        return Ok(Some(request));
                    },
                    Err(e) => {
                        assert(answer_view(Err(e)) == self@.answer(event@, harness_name@, seen));
                        return Err(e);
                    },
                }
            },
        };
        let request = OmpkExecutionRequest {
            execution_id: outside::event_id_to_hex(&event.id),
            cwd,
        };
        assert(answer_view(Ok(Some(request))) == self@.answer(event@, harness_name@, none));
        Ok(Some(request))
    }

    /// Answers the events of one turn, which may hold one request at most.
    pub fn parse_events<P: Fn(&str) -> PathProbe>(
        &self,
        events: &Vec<RoomEvent>,
        runtime_name: &str,
        probe: &P,
    ) -> (r: Result<Option<OmpkExecutionRequest>, OmpkExecutionError>)
        requires
            forall|i: int|
                0 <= i < events@.len() ==> can_probe(
                    *probe,
                    self.enabled,
                    (#[trigger] events@[i])@,
                    runtime_name@,
                ),
        ensures
            exists|each: Seq<Result<Option<RequestModel>, OmpkExecutionError>>|
                {
                    &&& each.len() <= events@.len()
                    &&& each.len() == events@.len() || r is Err
                    &&& forall|i: int|
                        0 <= i < each.len() ==> answers(
                            self@,
                            events@[i]@,
                            runtime_name@,
                            *probe,
                            #[trigger] each[i],
                        )
                    &&& answer_view(r) == #[trigger] combined(each)
                },
    {
        let mut request: Option<OmpkExecutionRequest> = None;
        let mut i: usize = 0;
        let ghost mut each: Seq<Result<Option<RequestModel>, OmpkExecutionError>> = Seq::empty();
        while i < events.len()
            invariant
                i <= events.len(),
                each.len() == i,
                forall|k: int|
                    0 <= k < events@.len() ==> can_probe(
                        *probe,
                        self.enabled,
                        (#[trigger] events@[k])@,
                        runtime_name@,
                    ),
                forall|k: int|
                    0 <= k < each.len() ==> answers(
                        self@,
                        events@[k]@,
                        runtime_name@,
                        *probe,
                        #[trigger] each[k],
                    ),
                answer_view(Ok(request)) == combined(each),
            decreases events.len() - i,
        {
            let answer = self.parse_event(&events[i], runtime_name, probe);
            let ghost earlier = each;
            proof {
                each = earlier.push(answer_view(answer));
                assert(each.drop_last() =~= earlier);
            }
            match answer {
                Err(e) => {
                    assert(answer_view(Err(e)) == combined(each));
                    return Err(e);
                },
                Ok(Some(parsed)) => {
                    if request.is_some() {
                        return Err(OmpkExecutionError::InvalidContract);
                    }
                    request = Some(parsed);
                },
                Ok(None) => {},
            }
            i += 1;
        }
        Ok(request)
    }

    /// Grants a probed directory where it lies in an allowed workspace.
    pub fn validate_cwd(&self, requested: PathProbe) -> (r: Result<
        CanonicalPath,
        OmpkExecutionError,
    >)
        ensures
            match r {
                Ok(path) => granted_cwd(self@.allowed_workspaces, requested@) == Ok::<
                    Seq<Seq<u8>>,
                    OmpkExecutionError,
                >(path@),
                Err(e) => granted_cwd(self@.allowed_workspaces, requested@) == Err::<
                    Seq<Seq<u8>>,
                    OmpkExecutionError,
                >(e),
            },
    {
        if !requested.absolute {
            return Err(OmpkExecutionError::InvalidCwd);
        }
        let canonical = match requested.canonical {
            Some(path) => path,
            None => return Err(OmpkExecutionError::InvalidCwd),
        };
        if !requested.directory {
            return Err(OmpkExecutionError::InvalidCwd);
        }
        let mut i: usize = 0;
        while i < self.allowed_workspaces.len()
            invariant
                i <= self.allowed_workspaces.len(),
                requested@.usable(),
                requested@.canonical == Some(canonical@),
                forall|k: int|
                    0 <= k < i ==> !(#[trigger] self@.allowed_workspaces[k]).is_prefix_of(
                        canonical@,
                    ),
            decreases self.allowed_workspaces.len() - i,
        {
            if canonical.starts_with(&self.allowed_workspaces[i]) {
                assert(self@.allowed_workspaces[i as int].is_prefix_of(canonical@));
                return Ok(canonical);
            }
            assert(!self@.allowed_workspaces[i as int].is_prefix_of(canonical@));
            i += 1;
        }
        Err(OmpkExecutionError::CwdNotAllowed)
    }
}

/// Whether a path is one of a list.
fn contains_path(list: &Vec<CanonicalPath>, path: &CanonicalPath) -> (r: bool)
    ensures
        r == paths(list@).contains(path@),
{
    let mut i: usize = 0;
    while i < list.len()
        invariant
            i <= list.len(),
            forall|k: int| 0 <= k < i ==> (#[trigger] paths(list@)[k]) != path@,
        decreases list.len() - i,
    {
        if list[i].same(path) {
            assert(paths(list@)[i as int] == path@);
            return true;
        }
        i += 1;
    }
    false
}

/// Whether some tag asks for a placement which the contract does not have.
fn has_unsupported(tags: &Vec<Vec<String>>) -> (r: bool)
    ensures
        r == asks_unsupported(room_event::tag_texts(tags@)),
{
    let ghost all = room_event::tag_texts(tags@);
    let mut i: usize = 0;
    while i < tags.len()
        invariant
            i <= tags.len(),
            all == room_event::tag_texts(tags@),
            forall|k: int|
                0 <= k < i ==> !((#[trigger] all[k]).len() > 0 && unsupported_placement(all[k][0])),
        decreases tags.len() - i,
    {
        assert(all[i as int] == text::texts(tags@[i as int]@));
        if tags[i].len() > 0 && is_unsupported_placement(tags[i][0].as_str()) {
            assert(all[i as int][0] == tags@[i as int]@[0]@);
            return true;
        }
        i += 1;
    }
    false
}

/// A resolved path without the verbatim prefix that Windows puts before it; elsewhere the
/// path as it is.
pub open spec fn without_verbatim_prefix(rendered: Seq<char>, windows: bool) -> Seq<char> {
    if !windows {
        rendered
    } else if text::stripped(rendered, "\\\\?\\UNC\\"@) is Some {
        "\\\\"@ + text::stripped(rendered, "\\\\?\\UNC\\"@)->0
    } else if text::stripped(rendered, "\\\\?\\"@) is Some {
        text::stripped(rendered, "\\\\?\\"@)->0
    } else {
        rendered
    }
}

/// A resolved path without the verbatim prefix that Windows puts before it; elsewhere the
/// path as it is. What is left of a drive or UNC path is absolute still.
pub fn normalize_windows_verbatim_path(rendered: &str, windows: bool) -> (r: String)
    ensures
        r@ == without_verbatim_prefix(rendered@, windows),
{
    if windows {
        match text::strip_prefix(rendered, "\\\\?\\UNC\\") {
            Some(rest) => {
                let mut path: String = "\\\\".to_owned();
                path.append(rest);
                return path;
            },
            None => {},
        }
        match text::strip_prefix(rendered, "\\\\?\\") {
            Some(rest) => return rest.to_owned(),
            None => {},
        }
    }
    rendered.to_owned()
}

/// A directory that a request is granted is one of the policy's workspaces or lies below
/// one, by whole components.
pub proof fn law_granted_directory_is_contained(
    policy: PolicyModel,
    event: RoomEventModel,
    runtime_name: Seq<char>,
    probe: ProbeModel,
)
    ensures
        policy.answer(event, runtime_name, probe) matches Ok(Some(request)) ==> {
            &&& request.execution_id == text::hex_encode(event.id)
            &&& request.cwd matches Some(path) ==> {
                &&& probe.usable() && probe.canonical == Some(path)
                &&& exists|i: int|
                    0 <= i < policy.allowed_workspaces.len() && (
                    #[trigger] policy.allowed_workspaces[i]).is_prefix_of(path)
            }
        },
{
}

/// A policy that is not enabled refuses every request and looks at no path; ordinary
/// events are answered as under any policy.
pub proof fn law_disabled_policy_looks_at_no_path(
    policy: PolicyModel,
    event: RoomEventModel,
    runtime_name: Seq<char>,
    probe: ProbeModel,
)
    requires
        !policy.enabled,
    ensures
        placement(policy.enabled, event.tags, runtime_name) !is Cwd,
        policy.answer(event, runtime_name, probe) == Ok::<Option<RequestModel>, OmpkExecutionError>(
            None,
        ) || policy.answer(event, runtime_name, probe) == Err::<
            Option<RequestModel>,
            OmpkExecutionError,
        >(OmpkExecutionError::Disabled),
{
}

/// An answer depends on the file system only where the event asks for a directory and
/// nothing else about its request is out of order.
pub proof fn law_only_placed_requests_depend_on_paths(
    policy: PolicyModel,
    event: RoomEventModel,
    runtime_name: Seq<char>,
    probe: ProbeModel,
    other: ProbeModel,
)
    requires
        placement(policy.enabled, event.tags, runtime_name) !is Cwd,
    ensures
        policy.answer(event, runtime_name, probe) == policy.answer(event, runtime_name, other),
{
}

/// A turn with two requests is refused, whatever stands between them and in whatever
/// order they come.
pub proof fn law_two_requests_are_ambiguous(
    answers: Seq<Result<Option<RequestModel>, OmpkExecutionError>>,
    i: int,
    j: int,
)
    requires
        0 <= i < j < answers.len(),
        answers[i] matches Ok(Some(_)),
        answers[j] matches Ok(Some(_)),
    ensures
        combined(answers) is Err,
    decreases answers.len(),
{
    if j < answers.len() - 1 {
        law_two_requests_are_ambiguous(answers.drop_last(), i, j);
    } else {
        combined_keeps_request(answers.drop_last(), i);
    }
}

proof fn combined_keeps_request(
    answers: Seq<Result<Option<RequestModel>, OmpkExecutionError>>,
    i: int,
)
    requires
        0 <= i < answers.len(),
        answers[i] matches Ok(Some(_)),
    ensures
        combined(answers) matches Ok(found) ==> found is Some,
    decreases answers.len(),
{
    if i < answers.len() - 1 {
        combined_keeps_request(answers.drop_last(), i);
    }
}

/// A turn holds a request only where one of its events does, and ordinary events beside it
/// change nothing.
pub proof fn law_turn_request_is_an_event_request(
    answers: Seq<Result<Option<RequestModel>, OmpkExecutionError>>,
)
    ensures
        combined(answers) matches Ok(Some(request)) ==> exists|i: int|
            {
                &&& 0 <= i < answers.len()
                &&& #[trigger] answers[i] == Ok::<Option<RequestModel>, OmpkExecutionError>(
                    Some(request),
                )
                &&& forall|j: int|
                    0 <= j < answers.len() && j != i ==> #[trigger] answers[j] == Ok::<
                        Option<RequestModel>,
                        OmpkExecutionError,
                    >(None)
            },
        combined(answers) == Ok::<Option<RequestModel>, OmpkExecutionError>(None) ==> forall|
            j: int,
        |
            0 <= j < answers.len() ==> #[trigger] answers[j] == Ok::<
                Option<RequestModel>,
                OmpkExecutionError,
            >(None),
    decreases answers.len(),
{
    if answers.len() > 0 {
        let rest = answers.drop_last();
        law_turn_request_is_an_event_request(rest);
        let none = Ok::<Option<RequestModel>, OmpkExecutionError>(None);
        assert forall|j: int| 0 <= j < rest.len() implies rest[j] == #[trigger] answers[j] by {}
        match combined(answers) {
            Ok(Some(request)) => {
                let got = Ok::<Option<RequestModel>, OmpkExecutionError>(Some(request));
                if answers.last() == none {
                    let i = choose|i: int|
                        {
                            &&& 0 <= i < rest.len()
                            &&& #[trigger] rest[i] == got
                            &&& forall|j: int|
                                0 <= j < rest.len() && j != i ==> #[trigger] rest[j] == none
                        };
                    assert(answers[i] == got);
                    assert forall|j: int| 0 <= j < answers.len() && j != i implies #[trigger] answers[j]
                        == none by {
                        if j < rest.len() {
                            assert(rest[j] == none);
                        }
                    }
                } else {
                    assert(answers[answers.len() - 1] == got);
                    assert forall|j: int|
                        0 <= j < answers.len() && j != answers.len() - 1 implies #[trigger] answers[j]
                        == none by {
                        assert(rest[j] == none);
                    }
                }
            },
            Ok(None) => {
                assert forall|j: int| 0 <= j < answers.len() implies #[trigger] answers[j]
                    == none by {
                    if j < rest.len() {
                        assert(rest[j] == none);
                    }
                }
            },
            Err(_) => {},
        }
    }
}

/// The roots of a policy are distinct, and are exactly what its workspaces resolve to.
pub proof fn law_policy_roots_are_distinct(roots: Seq<Seq<Seq<u8>>>)
    ensures
        distinct(roots).no_duplicates(),
        forall|p: Seq<Seq<u8>>| distinct(roots).contains(p) <==> #[trigger] roots.contains(p),
    decreases roots.len(),
{
    if roots.len() > 0 {
        let rest = roots.drop_last();
        law_policy_roots_are_distinct(rest);
        let d = distinct(rest);
        assert forall|p: Seq<Seq<u8>>| distinct(roots).contains(p) <==> #[trigger] roots.contains(
            p,
        ) by {
            assert(roots[roots.len() - 1] == roots.last());
            if rest.contains(p) {
                assert(roots[rest.index_of(p)] == p);
            }
            if roots.contains(p) && p != roots.last() {
                assert(rest[roots.index_of(p)] == p);
            }
            if d.contains(p) && !d.contains(roots.last()) {
                assert(d.push(roots.last())[d.index_of(p)] == p);
            }
            if !d.contains(roots.last()) {
                assert(d.push(roots.last())[d.len() as int] == roots.last());
                if d.push(roots.last()).contains(p) && p != roots.last() {
                    assert(d[d.push(roots.last()).index_of(p)] == p);
                }
            }
        }
    }
}

/// Whether a tag has this name, as the first of its values.
pub open spec fn has_tag_name(tag: Seq<Seq<char>>, name: Seq<char>) -> bool {
    tag.len() > 0 && tag[0] == name
}

/// Whether a tag has one of the names that are reserved for placements to come.
pub open spec fn has_reserved_name(tag: Seq<Seq<char>>) -> bool {
    tag.len() > 0 && (tag[0] == "ompk-agent"@ || tag[0] == "ompk-host"@ || tag[0]
        == "ompk-machine"@ || tag[0] == "ompk-mode"@ || tag[0] == "ompk-project"@ || tag[0]
        == "ompk-repo"@ || tag[0] == "ompk-runner"@ || tag[0] == "ompk-workspace"@)
}

/// Whether a tag says anything of an execution request.
pub open spec fn speaks_of_execution(tag: Seq<Seq<char>>) -> bool {
    has_tag_name(tag, "ompk-execution"@) || has_tag_name(tag, "ompk-cwd"@) || has_reserved_name(tag)
}

/// Whether the tags hold one execution tag, at `e`, of the contract's version, at most one cwd
/// tag, at `c`, with one value beside its name, and no tag of a reserved name; whatever other
/// tags there are.
pub open spec fn asks_in_order(tags: Seq<Seq<Seq<char>>>, e: int, c: Option<int>) -> bool {
    &&& 0 <= e < tags.len()
    &&& tags[e].len() == 2 && tags[e][0] == "ompk-execution"@ && tags[e][1] == "1"@
    &&& forall|i: int|
        0 <= i < tags.len() && i != e && (#[trigger] tags[i]).len() > 0 ==> tags[i][0]
            != "ompk-execution"@
    &&& forall|i: int|
        0 <= i < tags.len() && (#[trigger] tags[i]).len() > 0 ==> {
            &&& tags[i][0] != "ompk-agent"@
            &&& tags[i][0] != "ompk-host"@
            &&& tags[i][0] != "ompk-machine"@
            &&& tags[i][0] != "ompk-mode"@
            &&& tags[i][0] != "ompk-project"@
            &&& tags[i][0] != "ompk-repo"@
            &&& tags[i][0] != "ompk-runner"@
            &&& tags[i][0] != "ompk-workspace"@
        }
    &&& match c {
        Some(k) => 0 <= k < tags.len() && tags[k].len() == 2 && tags[k][0] == "ompk-cwd"@
            && forall|i: int|
            0 <= i < tags.len() && i != k && (#[trigger] tags[i]).len() > 0 ==> tags[i][0]
                != "ompk-cwd"@,
        None => forall|i: int|
            0 <= i < tags.len() && (#[trigger] tags[i]).len() > 0 ==> tags[i][0] != "ompk-cwd"@,
    }
}

/// The tags of a name are none, one or more, as they stand among all.
proof fn tagged_count(tags: Seq<Seq<Seq<char>>>, name: Seq<char>, only: Option<int>)
    requires
        match only {
            Some(i) => 0 <= i < tags.len() && has_tag_name(tags[i], name) && forall|j: int|
                0 <= j < tags.len() && j != i ==> !has_tag_name(#[trigger] tags[j], name),
            None => forall|j: int| 0 <= j < tags.len() ==> !has_tag_name(#[trigger] tags[j], name),
        },
    ensures
        match only {
            Some(i) => room_event::tagged(tags, name) == seq![tags[i]],
            None => room_event::tagged(tags, name).len() == 0,
        },
{
    let p = |t: Seq<Seq<char>>| t.len() > 0 && t[0] == name;
    let at = room_event::law_tags_are_listed_by_name(tags, name);
    match only {
        Some(i) => {
            assert forall|j: int| 0 <= j < tags.len() && j != i implies !p(#[trigger] tags[j]) by {
                assert(!has_tag_name(tags[j], name));
            }
        },
        None => {
            assert forall|j: int| 0 <= j < tags.len() implies !p(#[trigger] tags[j]) by {
                assert(!has_tag_name(tags[j], name));
            }
        },
    }
    search::places_of_one(tags, p, at, only);
    if let Some(i) = only {
        assert(at[0] == i);
        assert(room_event::tagged(tags, name) =~= seq![tags[i]]);
    }
}

/// A tag of a name is among those that are listed under it, and two are two.
proof fn tagged_has(tags: Seq<Seq<Seq<char>>>, name: Seq<char>, i: int, j: int)
    requires
        0 <= i < tags.len(),
        0 <= j < tags.len(),
        has_tag_name(tags[i], name),
        has_tag_name(tags[j], name),
    ensures
        room_event::tagged(tags, name).len() >= 1,
        i != j ==> room_event::tagged(tags, name).len() >= 2,
        room_event::tagged(tags, name).len() == 1 ==> room_event::tagged(tags, name)[0] == tags[i],
{
    let p = |t: Seq<Seq<char>>| t.len() > 0 && t[0] == name;
    let at = room_event::law_tags_are_listed_by_name(tags, name);
    assert(p(tags[i]) && p(tags[j]));
    assert(at.contains(i) && at.contains(j));
    let a = at.index_of(i);
    let b = at.index_of(j);
    assert(at[a] == i && at[b] == j);
}

/// The names that a request is read from are ten different ones.
proof fn tag_names_differ()
    ensures
        "ompk-execution"@ != "ompk-cwd"@,
        EXECUTION_TAG@ == "ompk-execution"@,
        CWD_TAG@ == "ompk-cwd"@,
        CONTRACT_VERSION@ == "1"@,
{
    reveal_strlit("ompk-execution");
    reveal_strlit("ompk-cwd");
    assert("ompk-execution"@.len() != "ompk-cwd"@.len());
}

/// A request that is in order is granted, whatever other tags the event carries: under an
/// enabled policy, to one of the two names of the runtime, it is a request with the event's id.
/// It has no directory where it asks for none. Where it asks for one, that very path is looked
/// at, and it is granted as it resolves where it is an absolute path to a directory in a
/// workspace; else the error says which of the two it lacks.
pub proof fn law_requests_in_order_are_granted(
    policy: PolicyModel,
    event: RoomEventModel,
    runtime_name: Seq<char>,
    probe: ProbeModel,
    e: int,
    c: Option<int>,
)
    requires
        policy.enabled,
        runtime_name == "ompk"@ || runtime_name == "oh-my-pk"@,
        asks_in_order(event.tags, e, c),
    ensures
        ({
            let id = text::hex_encode(event.id);
            let r = policy.answer(event, runtime_name, probe);
            match c {
                None => r == Ok::<Option<RequestModel>, OmpkExecutionError>(
                    Some(RequestModel { execution_id: id, cwd: None }),
                ),
                Some(k) => {
                    &&& placement(policy.enabled, event.tags, runtime_name) == Placement::Cwd(
                        event.tags[k][1],
                    )
                    &&& probe.absolute && probe.directory ==> (probe.canonical matches Some(p) ==> {
                        &&& (exists|w: int|
                            0 <= w < policy.allowed_workspaces.len() && (
                            #[trigger] policy.allowed_workspaces[w]).is_prefix_of(p)) ==> r == Ok::<
                            Option<RequestModel>,
                            OmpkExecutionError,
                        >(Some(RequestModel { execution_id: id, cwd: Some(p) }))
                        &&& (forall|w: int|
                            0 <= w < policy.allowed_workspaces.len() ==> !(
                            #[trigger] policy.allowed_workspaces[w]).is_prefix_of(p)) ==> r == Err::<
                            Option<RequestModel>,
                            OmpkExecutionError,
                        >(OmpkExecutionError::CwdNotAllowed)
                    })
                    &&& !probe.absolute || !probe.directory || probe.canonical is None ==> r
                        == Err::<Option<RequestModel>, OmpkExecutionError>(
                        OmpkExecutionError::InvalidCwd,
                    )
                },
            }
        }),
{
    tag_names_differ();
    let tags = event.tags;
    assert forall|i: int| 0 <= i < tags.len() && i != e implies !has_tag_name(
        #[trigger] tags[i],
        "ompk-execution"@,
    ) by {}
    tagged_count(tags, "ompk-execution"@, Some(e));
    match c {
        Some(k) => {
            assert forall|i: int| 0 <= i < tags.len() && i != k implies !has_tag_name(
                #[trigger] tags[i],
                "ompk-cwd"@,
            ) by {}
        },
        None => {
            assert forall|i: int| 0 <= i < tags.len() implies !has_tag_name(
                #[trigger] tags[i],
                "ompk-cwd"@,
            ) by {}
        },
    }
    tagged_count(tags, "ompk-cwd"@, c);
    assert(!asks_unsupported(tags));
}

/// What is not in order is refused, each by its own error: a request where the policy is not
/// enabled; a tag of a reserved name; no execution tag, more than one, or one that is not of the
/// contract's version; more than one cwd tag, or one without exactly one value; and a request in
/// order to another runtime. An event that says nothing of execution is an ordinary one, and only
/// such an event is.
pub proof fn law_refusals_name_what_is_wrong(
    policy: PolicyModel,
    event: RoomEventModel,
    runtime_name: Seq<char>,
    probe: ProbeModel,
    i: int,
    j: int,
    c: Option<int>,
)
    requires
        0 <= i < event.tags.len(),
        0 <= j < event.tags.len(),
    ensures
        ({
            let tags = event.tags;
            let r = policy.answer(event, runtime_name, probe);
            let refused = |e: OmpkExecutionError|
                r == Err::<Option<RequestModel>, OmpkExecutionError>(e);
            let clean = forall|k: int|
                0 <= k < tags.len() ==> !has_reserved_name(#[trigger] tags[k]);
            &&& speaks_of_execution(tags[i]) ==> r != Ok::<
                Option<RequestModel>,
                OmpkExecutionError,
            >(None)
            &&& speaks_of_execution(tags[i]) && !policy.enabled ==> refused(
                OmpkExecutionError::Disabled,
            )
            &&& policy.enabled && has_reserved_name(tags[i]) ==> refused(
                OmpkExecutionError::UnsupportedPlacement,
            )
            &&& policy.enabled && clean && has_tag_name(tags[i], "ompk-cwd"@) && (forall|k: int|
                0 <= k < tags.len() ==> !has_tag_name(#[trigger] tags[k], "ompk-execution"@))
                ==> refused(OmpkExecutionError::InvalidContract)
            &&& policy.enabled && clean && i != j && has_tag_name(tags[i], "ompk-execution"@)
                && has_tag_name(tags[j], "ompk-execution"@) ==> refused(
                OmpkExecutionError::InvalidContract,
            )
            &&& policy.enabled && clean && has_tag_name(tags[i], "ompk-execution"@) && !(
            tags[i].len() == 2 && tags[i][1] == "1"@) ==> refused(
                OmpkExecutionError::InvalidContract,
            )
            &&& policy.enabled && clean && i != j && has_tag_name(tags[i], "ompk-cwd"@)
                && has_tag_name(tags[j], "ompk-cwd"@) ==> refused(
                OmpkExecutionError::InvalidContract,
            )
            &&& policy.enabled && clean && has_tag_name(tags[i], "ompk-cwd"@) && tags[i].len() != 2
                ==> refused(OmpkExecutionError::InvalidContract)
            &&& policy.enabled && asks_in_order(tags, i, c) && runtime_name != "ompk"@
                && runtime_name != "oh-my-pk"@ ==> refused(OmpkExecutionError::UnsupportedRuntime)
        }),
{
    tag_names_differ();
    let tags = event.tags;
    if has_tag_name(tags[i], "ompk-execution"@) {
        tagged_has(tags, "ompk-execution"@, i, i);
        if has_tag_name(tags[j], "ompk-execution"@) {
            tagged_has(tags, "ompk-execution"@, i, j);
        }
    }
    if has_tag_name(tags[i], "ompk-cwd"@) {
        tagged_has(tags, "ompk-cwd"@, i, i);
        if has_tag_name(tags[j], "ompk-cwd"@) {
            tagged_has(tags, "ompk-cwd"@, i, j);
        }
    }
    if has_reserved_name(tags[i]) {
        assert(unsupported_placement(tags[i][0]));
        assert(asks_unsupported(tags));
    }
    if forall|k: int| 0 <= k < tags.len() ==> !has_reserved_name(#[trigger] tags[k]) {
        if asks_unsupported(tags) {
            let k = choose|k: int|
                0 <= k < tags.len() && (#[trigger] tags[k]).len() > 0 && unsupported_placement(
                    tags[k][0],
                );
            assert(!has_reserved_name(tags[k]));
        }
    }
    if forall|k: int| 0 <= k < tags.len() ==> !has_tag_name(#[trigger] tags[k], "ompk-execution"@) {
        tagged_count(tags, "ompk-execution"@, None);
    }
    if asks_in_order(tags, i, c) {
        assert(!asks_unsupported(tags));
        assert forall|k: int| 0 <= k < tags.len() && k != i implies !has_tag_name(
            #[trigger] tags[k],
            "ompk-execution"@,
        ) by {}
        tagged_count(tags, "ompk-execution"@, Some(i));
        match c {
            Some(m) => {
                assert forall|k: int| 0 <= k < tags.len() && k != m implies !has_tag_name(
                    #[trigger] tags[k],
                    "ompk-cwd"@,
                ) by {}
            },
            None => {
                assert forall|k: int| 0 <= k < tags.len() implies !has_tag_name(
                    #[trigger] tags[k],
                    "ompk-cwd"@,
                ) by {}
            },
        }
        tagged_count(tags, "ompk-cwd"@, c);
    }
}

/// An event none of whose tags says anything of execution is an ordinary one, whatever the policy.
pub proof fn law_events_without_a_request_are_ordinary(
    policy: PolicyModel,
    event: RoomEventModel,
    runtime_name: Seq<char>,
    probe: ProbeModel,
)
    requires
        forall|k: int| 0 <= k < event.tags.len() ==> !speaks_of_execution(#[trigger] event.tags[k]),
    ensures
        policy.answer(event, runtime_name, probe) == Ok::<Option<RequestModel>, OmpkExecutionError>(
            None,
        ),
{
    tag_names_differ();
    let tags = event.tags;
    assert forall|k: int| 0 <= k < tags.len() implies !has_tag_name(
        #[trigger] tags[k],
        "ompk-execution"@,
    ) by {
        assert(!speaks_of_execution(tags[k]));
    }
    assert forall|k: int| 0 <= k < tags.len() implies !has_tag_name(
        #[trigger] tags[k],
        "ompk-cwd"@,
    ) by {
        assert(!speaks_of_execution(tags[k]));
    }
    tagged_count(tags, "ompk-execution"@, None);
    tagged_count(tags, "ompk-cwd"@, None);
    if asks_unsupported(tags) {
        let k = choose|k: int|
            0 <= k < tags.len() && (#[trigger] tags[k]).len() > 0 && unsupported_placement(
                tags[k][0],
            );
        assert(!speaks_of_execution(tags[k]));
    }
}

/// A tag that is not of the name does not change what is listed under it.
proof fn tagged_skips_others(tags: Seq<Seq<Seq<char>>>, at: int, tag: Seq<Seq<char>>, name: Seq<char>)
    requires
        0 <= at <= tags.len(),
        !has_tag_name(tag, name),
    ensures
        room_event::tagged(tags.insert(at, tag), name) == room_event::tagged(tags, name),
    decreases tags.len(),
{
    let longer = tags.insert(at, tag);
    if at == tags.len() {
        assert(longer.drop_last() =~= tags);
    } else {
        assert(longer.drop_last() =~= tags.drop_last().insert(at, tag));
        assert(longer.last() == tags.last());
        tagged_skips_others(tags.drop_last(), at, tag, name);
    }
}

/// A tag that says nothing of execution changes no answer, wherever it stands: a request is
/// granted or refused all the same in a room, in a reply, or beside a mention.
pub proof fn law_other_tags_change_no_answer(
    policy: PolicyModel,
    event: RoomEventModel,
    runtime_name: Seq<char>,
    probe: ProbeModel,
    at: int,
    tag: Seq<Seq<char>>,
)
    requires
        0 <= at <= event.tags.len(),
        tag.len() == 0 || {
            &&& tag[0] != "ompk-execution"@
            &&& tag[0] != "ompk-cwd"@
            &&& tag[0] != "ompk-agent"@
            &&& tag[0] != "ompk-host"@
            &&& tag[0] != "ompk-machine"@
            &&& tag[0] != "ompk-mode"@
            &&& tag[0] != "ompk-project"@
            &&& tag[0] != "ompk-repo"@
            &&& tag[0] != "ompk-runner"@
            &&& tag[0] != "ompk-workspace"@
        },
    ensures
        policy.answer(
            RoomEventModel { tags: event.tags.insert(at, tag), ..event },
            runtime_name,
            probe,
        ) == policy.answer(event, runtime_name, probe),
        placement(policy.enabled, event.tags.insert(at, tag), runtime_name) == placement(
            policy.enabled,
            event.tags,
            runtime_name,
        ),
{
    tag_names_differ();
    let tags = event.tags;
    let longer = tags.insert(at, tag);
    tagged_skips_others(tags, at, tag, "ompk-execution"@);
    tagged_skips_others(tags, at, tag, "ompk-cwd"@);
    if asks_unsupported(tags) {
        let k = choose|k: int|
            0 <= k < tags.len() && (#[trigger] tags[k]).len() > 0 && unsupported_placement(
                tags[k][0],
            );
        let n = if k < at {
            k
        } else {
            k + 1
        };
        assert(longer[n] == tags[k]);
    }
    if asks_unsupported(longer) {
        let k = choose|k: int|
            0 <= k < longer.len() && (#[trigger] longer[k]).len() > 0 && unsupported_placement(
                longer[k][0],
            );
        assert(k != at);
        let n = if k < at {
            k
        } else {
            k - 1
        };
        assert(longer[k] == tags[n]);
    }
}

/// A turn is answered by its events: the one request among ordinary events is its request,
/// ordinary events alone make an ordinary turn, and the first refusal refuses the turn, unless
/// two requests came before it; those are ambiguous whatever follows.
pub proof fn law_turns_are_answered_by_their_events(
    answers: Seq<Result<Option<RequestModel>, OmpkExecutionError>>,
    i: int,
    j: int,
)
    requires
        0 <= i < answers.len(),
    ensures
        (forall|k: int|
            0 <= k < answers.len() && k != i ==> #[trigger] answers[k] == Ok::<
                Option<RequestModel>,
                OmpkExecutionError,
            >(None)) && answers[i] is Ok ==> combined(answers) == answers[i],
        answers[i] is Err && (forall|k: int|
            0 <= k < i ==> #[trigger] answers[k] == Ok::<Option<RequestModel>, OmpkExecutionError>(
                None,
            ) || k == j && answers[k] is Ok) ==> combined(answers) == answers[i],
        0 <= j < i && (answers[i] matches Ok(Some(_))) && (answers[j] matches Ok(Some(_))) && (forall|
            k: int,
        |
            0 <= k < i ==> #[trigger] answers[k] == Ok::<Option<RequestModel>, OmpkExecutionError>(
                None,
            ) || k == j) ==> combined(answers) == Err::<Option<RequestModel>, OmpkExecutionError>(
            OmpkExecutionError::InvalidContract,
        ),
    decreases answers.len(),
{
    let none = Ok::<Option<RequestModel>, OmpkExecutionError>(None);
    let rest = answers.drop_last();
    assert forall|k: int| 0 <= k < rest.len() implies rest[k] == #[trigger] answers[k] by {}
    if i < rest.len() {
        law_turns_are_answered_by_their_events(rest, i, j);
        if (forall|k: int| 0 <= k < answers.len() && k != i ==> #[trigger] answers[k] == none) {
            assert(answers[answers.len() - 1] == none);
        }
    } else {
        quiet_turn(rest, j);
        if 0 <= j < rest.len() {
            assert(answers[j] == rest[j]);
        }
    }
}

/// Ordinary events, with one answer among them, make that answer.
proof fn quiet_turn(answers: Seq<Result<Option<RequestModel>, OmpkExecutionError>>, j: int)
    ensures
        (forall|k: int|
            0 <= k < answers.len() ==> #[trigger] answers[k] == Ok::<
                Option<RequestModel>,
                OmpkExecutionError,
            >(None)) ==> combined(answers) == Ok::<Option<RequestModel>, OmpkExecutionError>(None),
        0 <= j < answers.len() && answers[j] is Ok && (forall|k: int|
            0 <= k < answers.len() ==> #[trigger] answers[k] == Ok::<
                Option<RequestModel>,
                OmpkExecutionError,
            >(None) || k == j) ==> combined(answers) == answers[j],
    decreases answers.len(),
{
    if answers.len() > 0 {
        let rest = answers.drop_last();
        assert forall|k: int| 0 <= k < rest.len() implies rest[k] == #[trigger] answers[k] by {}
        assert(answers[answers.len() - 1] == answers.last());
        quiet_turn(rest, j);
    }
}

/// A verbatim path loses its prefix on Windows, a UNC one keeps its two backslashes, and every
/// other path, and every path elsewhere, stays as it is.
pub proof fn law_verbatim_prefixes_are_dropped(rest: Seq<char>, path: Seq<char>)
    ensures
        without_verbatim_prefix("\\\\?\\UNC\\"@ + rest, true) == "\\\\"@ + rest,
        !"UNC\\"@.is_prefix_of(rest) ==> without_verbatim_prefix("\\\\?\\"@ + rest, true) == rest,
        !"\\\\?\\"@.is_prefix_of(path) ==> without_verbatim_prefix(path, true) == path,
        without_verbatim_prefix(path, false) == path,
{
    reveal_strlit("\\\\?\\UNC\\");
    reveal_strlit("\\\\?\\");
    reveal_strlit("UNC\\");
    let unc = "\\\\?\\UNC\\"@;
    let short = "\\\\?\\"@;
    assert(unc =~= short + "UNC\\"@);
    text::law_stripping_undoes_joining(unc, rest, rest);
    text::law_stripping_undoes_joining(short, rest, rest);
    if unc.is_prefix_of(short + rest) {
        assert((short + rest).subrange(0, unc.len() as int) =~= unc);
        assert(rest.subrange(0, 4) =~= (short + rest).subrange(4, 8));
        assert("UNC\\"@ =~= unc.subrange(4, 8));
        assert(rest.subrange(0, 4) =~= "UNC\\"@);
    }
    if unc.is_prefix_of(path) {
        assert(path.subrange(0, 4) =~= unc.subrange(0, 4));
        assert(short =~= unc.subrange(0, 4));
    }
}

/// The roots of a policy stand in the order of its workspaces, each where it comes first.
pub proof fn law_roots_stand_where_they_come_first(roots: Seq<Seq<Seq<u8>>>, p: Seq<Seq<u8>>)
    ensures
        distinct(Seq::empty()).len() == 0,
        roots.contains(p) ==> distinct(roots.push(p)) == distinct(roots),
        !roots.contains(p) ==> distinct(roots.push(p)) == distinct(roots).push(p),
{
    law_policy_roots_are_distinct(roots);
    assert(roots.push(p).drop_last() =~= roots);
}

/// Where it is settled what paths resolve to, every event has one answer: that with what the path
/// it asks for resolves to, letter for letter.
pub proof fn law_settled_paths_give_one_answer<P: Fn(&str) -> PathProbe>(
    policy: PolicyModel,
    event: RoomEventModel,
    runtime_name: Seq<char>,
    probe: P,
    resolves: spec_fn(Seq<char>) -> ProbeModel,
    r: Result<Option<RequestModel>, OmpkExecutionError>,
    path: Seq<char>,
)
    requires
        forall|p: &str, f: PathProbe| #[trigger]
            call_ensures(probe, (p,), f) ==> f@ == resolves(p@),
        answers(policy, event, runtime_name, probe, r),
    ensures
        placement(policy.enabled, event.tags, runtime_name) == Placement::Cwd(path) ==> r
            == policy.answer(event, runtime_name, resolves(path)),
        placement(policy.enabled, event.tags, runtime_name) !is Cwd ==> r == policy.answer(
            event,
            runtime_name,
            resolves(path),
        ),
{
}

/// Each refusal is told in its own words.
pub proof fn law_refusals_are_told_in_their_own_words(e: OmpkExecutionError)
    ensures
        e is Disabled ==> e.text() == "OMPK execution requests are disabled"@,
        e is InvalidContract ==> e.text() == "invalid OMPK execution request"@,
        e is UnsupportedRuntime ==> e.text() == "OMPK cwd placement requires the OMPK runtime"@,
        e is UnsupportedPlacement ==> e.text()
            == "requested OMPK placement field is not supported by contract version 1"@,
        e is InvalidCwd ==> e.text() == "requested OMPK cwd must be an absolute directory"@,
        e is CwdNotAllowed ==> e.text()
            == "requested OMPK cwd is outside the configured allowed workspaces"@,
        e is InvalidAllowedWorkspace ==> e.text()
            == "configured OMPK allowed workspace must be an existing absolute directory"@,
{
}

} // verus!
