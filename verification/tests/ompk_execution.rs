use buzz_core::ompk_execution::{
    normalize_windows_verbatim_path, CanonicalPath, OmpkExecutionError, OmpkExecutionPolicy,
    PathProbe, CONTRACT_VERSION, CWD_TAG, EXECUTION_TAG,
};
use buzz_core::room_event::RoomEvent;
use nostr::{Event, EventBuilder, Keys, Kind, Tag};
use std::path::Path;

fn event(tags: Vec<Vec<&str>>) -> Event {
    let tags = tags
        .into_iter()
        .map(|parts| Tag::parse(parts).expect("valid test tag"))
        .collect::<Vec<_>>();
    EventBuilder::new(Kind::Custom(9), "work")
        .tags(tags)
        .sign_with_keys(&Keys::generate())
        .expect("sign test event")
}

fn room_event(event: &Event) -> RoomEvent {
    RoomEvent {
        id: event.id.to_bytes(),
        kind: event.kind.as_u16(),
        tags: event
            .tags
            .iter()
            .map(|tag| tag.as_slice().to_vec())
            .collect(),
    }
}

fn components(path: &Path) -> CanonicalPath {
    CanonicalPath {
        components: path
            .components()
            .map(|part| part.as_os_str().as_encoded_bytes().to_vec())
            .collect(),
    }
}

fn probe_path(path: &Path) -> PathProbe {
    let canonical = path.canonicalize().ok();
    PathProbe {
        absolute: path.is_absolute(),
        directory: canonical.as_deref().is_some_and(Path::is_dir),
        canonical: canonical.as_deref().map(components),
    }
}

fn probe(raw: &str) -> PathProbe {
    probe_path(Path::new(raw))
}

fn no_probe(raw: &str) -> PathProbe {
    panic!("looked at {raw}")
}

#[test]
fn ordinary_event_uses_existing_default_path() {
    let policy = OmpkExecutionPolicy::new(true, vec![]).expect("valid empty policy");
    assert_eq!(
        policy.parse_event(&room_event(&event(vec![])), "ompk", &no_probe),
        Ok(None)
    );
}

#[test]
fn explicit_allowed_cwd_is_canonicalized_and_correlated_to_event() {
    let root = tempfile::tempdir().expect("temp root");
    let repo = tempfile::Builder::new()
        .prefix("repo")
        .rand_bytes(0)
        .tempdir_in(root.path())
        .expect("create child");
    let child = root.path().join("repo");
    assert_eq!(repo.path(), child);
    let signed = event(vec![
        vec![EXECUTION_TAG, CONTRACT_VERSION],
        vec![CWD_TAG, child.to_str().expect("utf8 path")],
    ]);
    let policy =
        OmpkExecutionPolicy::new(true, vec![probe_path(root.path())]).expect("valid policy");
    let request = policy
        .parse_event(&room_event(&signed), "oh-my-pk", &probe)
        .expect("valid request")
        .expect("execution request");
    assert_eq!(request.execution_id, signed.id.to_hex());
    assert_eq!(
        request.cwd,
        Some(components(&child.canonicalize().expect("canonical")))
    );
}

#[test]
fn malformed_contract_is_rejected() {
    let root = tempfile::tempdir().expect("temp root");
    let raw = root.path().to_str().expect("utf8 path");
    let policy =
        OmpkExecutionPolicy::new(true, vec![probe_path(root.path())]).expect("valid policy");
    assert_eq!(
        policy.parse_event(
            &room_event(&event(vec![vec![CWD_TAG, raw]])),
            "ompk",
            &probe
        ),
        Err(OmpkExecutionError::InvalidContract)
    );
    assert_eq!(
        policy.parse_event(
            &room_event(&event(vec![
                vec![EXECUTION_TAG, CONTRACT_VERSION],
                vec![CWD_TAG, raw],
                vec![CWD_TAG, raw],
            ])),
            "ompk",
            &probe,
        ),
        Err(OmpkExecutionError::InvalidContract)
    );
}

#[test]
fn non_ompk_and_outside_allowlist_are_rejected_without_echoing_path() {
    let allowed = tempfile::tempdir().expect("allowed root");
    let outside = tempfile::tempdir().expect("outside root");
    let raw = outside.path().to_str().expect("utf8 path");
    let signed = event(vec![
        vec![EXECUTION_TAG, CONTRACT_VERSION],
        vec![CWD_TAG, raw],
    ]);
    let policy =
        OmpkExecutionPolicy::new(true, vec![probe_path(allowed.path())]).expect("valid policy");
    assert_eq!(
        policy.parse_event(&room_event(&signed), "goose", &probe),
        Err(OmpkExecutionError::UnsupportedRuntime)
    );
    let error = policy
        .parse_event(&room_event(&signed), "ompk", &probe)
        .unwrap_err();
    assert_eq!(error, OmpkExecutionError::CwdNotAllowed);
    assert!(!error.message().contains(raw));
}

#[test]
fn disabled_policy_rejects_before_filesystem_validation() {
    let signed = event(vec![
        vec![EXECUTION_TAG, CONTRACT_VERSION],
        vec![CWD_TAG, "C:\\secret\\missing"],
    ]);
    let policy = OmpkExecutionPolicy::new(false, vec![]).expect("valid empty policy");
    assert_eq!(
        policy.parse_event(&room_event(&signed), "ompk", &no_probe),
        Err(OmpkExecutionError::Disabled)
    );
}

#[test]
fn unsupported_machine_placement_is_rejected_explicitly() {
    let policy = OmpkExecutionPolicy::new(true, vec![]).expect("valid empty policy");
    let signed = event(vec![
        vec![EXECUTION_TAG, CONTRACT_VERSION],
        vec!["ompk-machine", "build-host"],
    ]);
    assert_eq!(
        policy.parse_event(&room_event(&signed), "ompk", &no_probe),
        Err(OmpkExecutionError::UnsupportedPlacement)
    );
}

#[test]
fn multiple_marked_events_in_one_turn_are_ambiguous() {
    let policy = OmpkExecutionPolicy::new(true, vec![]).expect("valid empty policy");
    let first = event(vec![vec![EXECUTION_TAG, CONTRACT_VERSION]]);
    let second = event(vec![vec![EXECUTION_TAG, CONTRACT_VERSION]]);
    assert_eq!(
        policy.parse_events(
            &vec![room_event(&first), room_event(&second)],
            "ompk",
            &no_probe
        ),
        Err(OmpkExecutionError::InvalidContract)
    );
}

#[test]
fn invalid_allowlist_root_fails_closed() {
    assert!(matches!(
        OmpkExecutionPolicy::new(true, vec![probe_path(Path::new("relative"))]),
        Err(OmpkExecutionError::InvalidAllowedWorkspace)
    ));
}

#[test]
fn one_marked_event_among_others_is_the_turns_request() {
    let policy = OmpkExecutionPolicy::new(true, vec![]).expect("valid empty policy");
    let plain = event(vec![]);
    let marked = event(vec![vec![EXECUTION_TAG, CONTRACT_VERSION]]);
    let request = policy
        .parse_events(
            &vec![room_event(&plain), room_event(&marked)],
            "ompk",
            &no_probe,
        )
        .expect("valid request")
        .expect("execution request");
    assert_eq!(request.execution_id, marked.id.to_hex());
    assert_eq!(request.cwd, None);
    assert_eq!(policy.parse_events(&vec![], "ompk", &no_probe), Ok(None));
}

#[test]
fn a_directory_that_is_none_is_invalid() {
    let root = tempfile::tempdir().expect("temp root");
    let policy =
        OmpkExecutionPolicy::new(true, vec![probe_path(root.path())]).expect("valid policy");
    assert_eq!(
        policy.validate_cwd(probe_path(Path::new("relative"))),
        Err(OmpkExecutionError::InvalidCwd)
    );
    assert_eq!(
        policy.validate_cwd(probe_path(&root.path().join("missing"))),
        Err(OmpkExecutionError::InvalidCwd)
    );
    assert_eq!(
        policy.validate_cwd(probe_path(root.path())),
        Ok(components(&root.path().canonicalize().expect("canonical")))
    );
}

#[test]
fn a_sibling_with_a_longer_name_is_not_contained() {
    let path = |parts: &[&str]| CanonicalPath {
        components: parts.iter().map(|p| p.as_bytes().to_vec()).collect(),
    };
    let at = |parts: &[&str]| PathProbe {
        absolute: true,
        canonical: Some(path(parts)),
        directory: true,
    };
    let policy = OmpkExecutionPolicy::new(
        true,
        vec![at(&["/", "work"]), at(&["/", "other"]), at(&["/", "work"])],
    )
    .expect("valid policy");
    assert_eq!(
        policy.allowed_workspaces,
        vec![path(&["/", "work"]), path(&["/", "other"])]
    );
    assert_eq!(
        policy.validate_cwd(at(&["/", "workshop"])),
        Err(OmpkExecutionError::CwdNotAllowed)
    );
    assert_eq!(
        policy.validate_cwd(at(&["/", "work", "a"])),
        Ok(path(&["/", "work", "a"]))
    );
}

#[test]
fn verbatim_prefixes_are_dropped_on_windows_only() {
    assert_eq!(
        normalize_windows_verbatim_path(r"\\?\C:\work", true),
        r"C:\work"
    );
    assert_eq!(
        normalize_windows_verbatim_path(r"\\?\UNC\server\share", true),
        r"\\server\share"
    );
    assert_eq!(
        normalize_windows_verbatim_path(r"\\?\C:\work", false),
        r"\\?\C:\work"
    );
    assert_eq!(normalize_windows_verbatim_path(r"C:\work", true), r"C:\work");
}

#[test]
fn refusals_have_their_messages() {
    for (error, message) in [
        (
            OmpkExecutionError::Disabled,
            "OMPK execution requests are disabled",
        ),
        (
            OmpkExecutionError::InvalidContract,
            "invalid OMPK execution request",
        ),
        (
            OmpkExecutionError::UnsupportedRuntime,
            "OMPK cwd placement requires the OMPK runtime",
        ),
        (
            OmpkExecutionError::UnsupportedPlacement,
            "requested OMPK placement field is not supported by contract version 1",
        ),
        (
            OmpkExecutionError::InvalidCwd,
            "requested OMPK cwd must be an absolute directory",
        ),
        (
            OmpkExecutionError::CwdNotAllowed,
            "requested OMPK cwd is outside the configured allowed workspaces",
        ),
        (
            OmpkExecutionError::InvalidAllowedWorkspace,
            "configured OMPK allowed workspace must be an existing absolute directory",
        ),
    ] {
        assert_eq!(error.message(), message);
    }
}
