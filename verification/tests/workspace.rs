use local_polkadot::cli::{Cli, WorkspaceMode};
use local_polkadot::error::ErrorKind;
use local_polkadot::workspace::{check_suffix, fresh_suffix, locate, locate_fresh, Durability};

fn options(path: Option<&str>, tmp: bool, fresh: bool) -> Cli {
    Cli {
        path: path.map(|p| p.to_string()),
        tmp,
        fresh,
        skip_polkadotjs: false,
        only_polkadotjs: false,
    }
}

#[test]
fn mode_follows_the_flags() {
    assert_eq!(options(None, false, false).mode().unwrap(), WorkspaceMode::Persistent);
    assert_eq!(options(None, false, true).mode().unwrap(), WorkspaceMode::PersistentReset);
    assert_eq!(options(None, true, false).mode().unwrap(), WorkspaceMode::Ephemeral);
}

#[test]
fn throwaway_and_reset_exclude_each_other() {
    let err = options(None, true, true).mode().unwrap_err();
    assert_eq!(err.kind, ErrorKind::Configuration);
    assert_eq!(err.resource, "--tmp --fresh");
}

#[test]
fn default_workspace_lies_under_home() {
    let ws = locate(WorkspaceMode::Persistent, None, Some("/home/alice"), "").unwrap();
    assert_eq!(ws.path, "/home/alice/.local-polkadot");
    assert_eq!(ws.durability, Durability::Persistent);
}

#[test]
fn named_path_is_the_workspace() {
    let ws = locate(WorkspaceMode::PersistentReset, Some("/data/chain"), None, "").unwrap();
    assert_eq!(ws.path, "/data/chain");
    assert_eq!(ws.durability, Durability::Persistent);
}

#[test]
fn missing_home_is_a_configuration_error() {
    let err = locate(WorkspaceMode::Persistent, None, None, "").unwrap_err();
    assert_eq!(err.kind, ErrorKind::Configuration);
    assert_eq!(err.resource, "HOME");
    assert_eq!(
        err.message(),
        "configuration error: HOME: home directory not found; name a directory with --path"
    );
}

#[test]
fn ephemeral_workspace_needs_no_home() {
    let ws = locate(WorkspaceMode::Ephemeral, None, None, "abcDEF0123").unwrap();
    assert_eq!(ws.path, "/tmp/.tmp-local-polkadot-abcDEF0123");
    assert_eq!(ws.durability, Durability::Ephemeral);
}

#[test]
fn ephemeral_workspace_under_a_named_path() {
    let ws = locate(WorkspaceMode::Ephemeral, Some("/data/"), Some("/home/a"), "0000000000").unwrap();
    assert_eq!(ws.path, "/data/.tmp-local-polkadot-0000000000");
}

#[test]
fn bad_suffix_is_refused() {
    for suffix in ["", "short", "has/slash0", "elevenchars", "nine_char", "ünïcödé123"] {
        assert!(!check_suffix(suffix), "{suffix}");
        let err = locate(WorkspaceMode::Ephemeral, None, None, suffix).unwrap_err();
        assert_eq!(err.kind, ErrorKind::Configuration);
        assert_eq!(err.resource, suffix);
    }
}

#[test]
fn drawn_suffix_is_ten_letters_or_digits() {
    for _ in 0..200 {
        let s = fresh_suffix();
        assert_eq!(s.chars().count(), 10);
        assert!(s.chars().all(|c| c.is_ascii_alphanumeric()));
        assert!(check_suffix(&s));
    }
}

#[test]
fn two_ephemeral_workspaces_differ() {
    let a = locate_fresh(WorkspaceMode::Ephemeral, None, None).unwrap();
    let b = locate_fresh(WorkspaceMode::Ephemeral, None, None).unwrap();
    assert!(a.path.starts_with("/tmp/.tmp-local-polkadot-"));
    assert_eq!(a.path.len(), "/tmp/.tmp-local-polkadot-".len() + 10);
    assert_ne!(a.path, b.path);
}

#[test]
fn locate_fresh_in_a_persistent_mode_draws_nothing() {
    let ws = locate_fresh(WorkspaceMode::Persistent, None, Some("/home/bob")).unwrap();
    assert_eq!(ws.path, "/home/bob/.local-polkadot");
}
