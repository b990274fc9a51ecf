use local_polkadot::cli::WorkspaceMode;
use local_polkadot::error::ErrorKind;
use local_polkadot::resolver::{Resolver, ResolverAction, ResolverEvent, ResolverState};
use local_polkadot::workspace::{Durability, Workspace};

fn persistent(path: &str) -> Workspace {
    Workspace { path: path.to_string(), durability: Durability::Persistent }
}

fn ephemeral(path: &str) -> Workspace {
    Workspace { path: path.to_string(), durability: Durability::Ephemeral }
}

#[test]
fn resolver_starts_by_probing() {
    let r = Resolver::new(persistent("/home/a/.local-polkadot"), WorkspaceMode::Persistent, false);
    assert_eq!(r.state(), ResolverState::Probing);
    assert_eq!(r.pending(), ResolverAction::Probe);
    assert_eq!(r.workspace().path, "/home/a/.local-polkadot");
    assert!(r.failure().is_none());
}

#[test]
fn existing_persistent_workspace_is_ready_at_once() {
    let mut r = Resolver::new(persistent("/w"), WorkspaceMode::Persistent, true);
    assert_eq!(r.step(ResolverEvent::Exists(true)), ResolverAction::Finish);
    assert_eq!(r.state(), ResolverState::Ready);
}

#[test]
fn default_workspace_is_created_silently() {
    let mut r = Resolver::new(persistent("/home/a/.local-polkadot"), WorkspaceMode::Persistent, false);
    assert_eq!(r.step(ResolverEvent::Exists(false)), ResolverAction::Create { parents: false });
    assert_eq!(r.step(ResolverEvent::Done), ResolverAction::Finish);
}

#[test]
fn named_workspace_is_created_after_consent() {
    let mut r = Resolver::new(persistent("/data/x"), WorkspaceMode::Persistent, true);
    assert_eq!(r.step(ResolverEvent::Exists(false)), ResolverAction::AskCreate);
    assert_eq!(r.step(ResolverEvent::Answer(true)), ResolverAction::Create { parents: true });
    assert_eq!(r.step(ResolverEvent::Done), ResolverAction::Finish);
}

#[test]
fn declined_creation_is_fatal() {
    let mut r = Resolver::new(persistent("/data/x"), WorkspaceMode::Persistent, true);
    r.step(ResolverEvent::Exists(false));
    assert_eq!(r.step(ResolverEvent::Answer(false)), ResolverAction::Abort);
    let e = r.failure().unwrap();
    assert_eq!(e.kind, ErrorKind::ConfirmationDeclined);
    assert_eq!(e.resource, "/data/x");
    assert_eq!(e.cause, "the operator declined to create the directory");
    assert_eq!(r.step(ResolverEvent::Answer(true)), ResolverAction::Abort);
    assert_eq!(r.step(ResolverEvent::Done), ResolverAction::Abort);
}

#[test]
fn declined_reset_changes_nothing() {
    let mut r = Resolver::new(persistent("/w"), WorkspaceMode::PersistentReset, false);
    let mut asked = vec![r.pending()];
    asked.push(r.step(ResolverEvent::Exists(true)));
    asked.push(r.step(ResolverEvent::Answer(false)));
    assert_eq!(asked, vec![ResolverAction::Probe, ResolverAction::AskReset, ResolverAction::Finish]);
    assert_eq!(r.state(), ResolverState::Ready);
    assert!(r.failure().is_none());
}

#[test]
fn accepted_reset_removes_then_recreates() {
    let mut r = Resolver::new(persistent("/w"), WorkspaceMode::PersistentReset, false);
    assert_eq!(r.step(ResolverEvent::Exists(true)), ResolverAction::AskReset);
    assert_eq!(r.step(ResolverEvent::Answer(true)), ResolverAction::Remove);
    assert_eq!(r.step(ResolverEvent::Done), ResolverAction::Create { parents: false });
    assert_eq!(r.step(ResolverEvent::Done), ResolverAction::Finish);
}

#[test]
fn reset_of_a_missing_workspace_creates_it() {
    let mut r = Resolver::new(persistent("/home/a/.local-polkadot"), WorkspaceMode::PersistentReset, false);
    assert_eq!(r.step(ResolverEvent::Exists(false)), ResolverAction::Create { parents: false });
    let mut r = Resolver::new(persistent("/data/x"), WorkspaceMode::PersistentReset, true);
    assert_eq!(r.step(ResolverEvent::Exists(false)), ResolverAction::AskCreate);
}

#[test]
fn ephemeral_workspace_is_created_without_asking() {
    let mut r = Resolver::new(ephemeral("/tmp/.tmp-local-polkadot-aaaaaaaaaa"), WorkspaceMode::Ephemeral, false);
    assert_eq!(r.step(ResolverEvent::Exists(false)), ResolverAction::Create { parents: false });
    assert_eq!(r.step(ResolverEvent::Done), ResolverAction::Finish);
    let mut r = Resolver::new(ephemeral("/data/.tmp-local-polkadot-aaaaaaaaaa"), WorkspaceMode::Ephemeral, true);
    assert_eq!(r.step(ResolverEvent::Exists(false)), ResolverAction::Create { parents: true });
}

#[test]
fn ephemeral_workspace_is_never_reused() {
    let mut r = Resolver::new(ephemeral("/tmp/.tmp-local-polkadot-aaaaaaaaaa"), WorkspaceMode::Ephemeral, false);
    assert_eq!(r.step(ResolverEvent::Exists(true)), ResolverAction::Abort);
    let e = r.failure().unwrap();
    assert_eq!(e.kind, ErrorKind::Filesystem);
    assert_eq!(e.resource, "/tmp/.tmp-local-polkadot-aaaaaaaaaa");
    assert_eq!(e.cause, "a throwaway directory of this name already exists");
}

#[test]
fn failed_creation_is_a_filesystem_error() {
    let mut r = Resolver::new(persistent("/w"), WorkspaceMode::Persistent, false);
    r.step(ResolverEvent::Exists(false));
    assert_eq!(r.step(ResolverEvent::Failed("permission denied".to_string())), ResolverAction::Abort);
    let e = r.failure().unwrap();
    assert_eq!(e.kind, ErrorKind::Filesystem);
    assert_eq!(e.resource, "/w");
    assert_eq!(e.cause, "permission denied");
    assert_eq!(e.message(), "filesystem error: /w: permission denied");
}

#[test]
fn failed_removal_is_a_filesystem_error() {
    let mut r = Resolver::new(persistent("/w"), WorkspaceMode::PersistentReset, false);
    r.step(ResolverEvent::Exists(true));
    r.step(ResolverEvent::Answer(true));
    assert_eq!(r.step(ResolverEvent::Failed("busy".to_string())), ResolverAction::Abort);
    assert_eq!(r.failure().unwrap().kind, ErrorKind::Filesystem);
}

#[test]
fn failed_prompt_is_a_configuration_error() {
    let mut r = Resolver::new(persistent("/w"), WorkspaceMode::PersistentReset, false);
    r.step(ResolverEvent::Exists(true));
    assert_eq!(r.step(ResolverEvent::Failed("not a terminal".to_string())), ResolverAction::Abort);
    let e = r.failure().unwrap();
    assert_eq!(e.kind, ErrorKind::Configuration);
    assert_eq!(e.cause, "not a terminal");
}

#[test]
fn first_failure_is_kept() {
    let mut r = Resolver::new(persistent("/w"), WorkspaceMode::Persistent, false);
    r.step(ResolverEvent::Exists(false));
    r.step(ResolverEvent::Failed("first".to_string()));
    r.step(ResolverEvent::Failed("second".to_string()));
    assert_eq!(r.failure().unwrap().cause, "first");
}

#[test]
fn events_out_of_turn_are_ignored() {
    let mut r = Resolver::new(persistent("/w"), WorkspaceMode::PersistentReset, false);
    assert_eq!(r.step(ResolverEvent::Answer(true)), ResolverAction::Probe);
    assert_eq!(r.step(ResolverEvent::Done), ResolverAction::Probe);
    assert_eq!(r.step(ResolverEvent::Exists(true)), ResolverAction::AskReset);
    assert_eq!(r.step(ResolverEvent::Done), ResolverAction::AskReset);
    assert_eq!(r.step(ResolverEvent::Exists(false)), ResolverAction::AskReset);
    assert_eq!(r.step(ResolverEvent::Answer(true)), ResolverAction::Remove);
    assert_eq!(r.step(ResolverEvent::Answer(false)), ResolverAction::Remove);
    assert_eq!(r.step(ResolverEvent::Exists(false)), ResolverAction::Remove);
}

#[test]
fn ready_is_final() {
    let mut r = Resolver::new(persistent("/w"), WorkspaceMode::Persistent, false);
    r.step(ResolverEvent::Exists(true));
    for event in [
        ResolverEvent::Exists(false),
        ResolverEvent::Answer(true),
        ResolverEvent::Done,
        ResolverEvent::Failed("late".to_string()),
    ] {
        assert_eq!(r.step(event), ResolverAction::Finish);
    }
    assert!(r.failure().is_none());
}

#[test]
fn nothing_is_removed_without_a_yes() {
    let events = [
        ResolverEvent::Exists(true),
        ResolverEvent::Exists(false),
        ResolverEvent::Answer(false),
        ResolverEvent::Done,
        ResolverEvent::Failed("x".to_string()),
    ];
    for mode in [WorkspaceMode::Persistent, WorkspaceMode::PersistentReset, WorkspaceMode::Ephemeral] {
        for explicit in [false, true] {
            for a in 0..events.len() {
                for b in 0..events.len() {
                    for c in 0..events.len() {
                        let mut r = Resolver::new(persistent("/w"), mode, explicit);
                        for i in [a, b, c] {
                            assert_ne!(r.step(events[i].clone()), ResolverAction::Remove);
                        }
                    }
                }
            }
        }
    }
}

#[test]
fn workspace_is_handed_out_only_when_ready() {
    let mut r = Resolver::new(persistent("/data/x"), WorkspaceMode::Persistent, true);
    assert!(r.ready().is_none());
    r.step(ResolverEvent::Exists(false));
    assert!(r.ready().is_none());
    r.step(ResolverEvent::Answer(true));
    assert!(r.ready().is_none());
    r.step(ResolverEvent::Done);
    let ws = r.ready().unwrap();
    assert_eq!(ws.path, "/data/x");
    assert_eq!(ws.durability, Durability::Persistent);
}

#[test]
fn declined_creation_leaves_nothing_ready() {
    let mut r = Resolver::new(persistent("/data/x"), WorkspaceMode::PersistentReset, true);
    r.step(ResolverEvent::Exists(false));
    r.step(ResolverEvent::Answer(false));
    assert!(r.ready().is_none());
    r.step(ResolverEvent::Done);
    assert!(r.ready().is_none());
    assert_eq!(r.state(), ResolverState::Failed);
}
