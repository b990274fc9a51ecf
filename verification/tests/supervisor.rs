use local_polkadot::error::ErrorKind;
use local_polkadot::supervisor::{
    install, install_with, launch, launch_specs, manager_program, tag_line, Capture,
};
use local_polkadot::workspace::{Durability, Workspace};

fn workspace() -> Workspace {
    Workspace { path: "/w".to_string(), durability: Durability::Ephemeral }
}

#[test]
fn node_alone_when_the_explorer_is_skipped() {
    let specs = launch_specs(&workspace(), false, None).unwrap();
    assert_eq!(specs.len(), 1);
    let node = &specs[0];
    assert_eq!(node.name, "polkadot");
    assert_eq!(node.program, "/w/polkadot");
    assert_eq!(node.working_dir, "/w");
    assert_eq!(node.capture, Capture::Streamed);
    assert_eq!(
        node.args,
        vec![
            "--chain", "polkadot", "--tmp", "--name", "myrpc", "--sync", "warp", "--rpc-cors",
            "all", "--rpc-methods", "Safe", "--rpc-port", "9944", "--no-telemetry",
        ]
    );
}

#[test]
fn explorer_comes_first() {
    let specs = launch_specs(&workspace(), true, Some("/usr/bin/yarn")).unwrap();
    assert_eq!(specs.len(), 2);
    let explorer = &specs[0];
    assert_eq!(explorer.name, "polkadot-js");
    assert_eq!(explorer.program, "/usr/bin/yarn");
    assert_eq!(explorer.args, vec!["run", "start"]);
    assert_eq!(explorer.working_dir, "/w/apps-master");
    assert_eq!(explorer.capture, Capture::Silent);
    assert_eq!(specs[1].name, "polkadot");
}

#[test]
fn every_process_runs_inside_the_workspace() {
    let specs = launch_specs(&workspace(), true, Some("yarn")).unwrap();
    for spec in &specs {
        assert!(spec.working_dir == "/w" || spec.working_dir.starts_with("/w/"));
    }
}

#[test]
fn explorer_without_package_manager_cannot_start() {
    let e = launch_specs(&workspace(), true, None).unwrap_err();
    assert_eq!(e.kind, ErrorKind::Spawn);
    assert_eq!(e.resource, "yarn");
    assert_eq!(e.cause, "`yarn` not found in PATH. Please install yarn and try again.");
}

#[test]
fn package_manager_is_ignored_without_explorer() {
    let specs = launch_specs(&workspace(), false, Some("/usr/bin/yarn")).unwrap();
    assert_eq!(specs.len(), 1);
    assert_eq!(specs[0].name, "polkadot");
}

#[test]
fn launch_without_explorer_needs_no_lookup() {
    let specs = launch(&workspace(), false).unwrap();
    assert_eq!(specs.len(), 1);
    assert_eq!(specs[0].program, "/w/polkadot");
}

#[test]
fn launch_with_explorer_follows_the_lookup() {
    match launch(&workspace(), true) {
        Ok(specs) => {
            assert_eq!(specs.len(), 2);
            assert_eq!(specs[0].name, "polkadot-js");
            assert!(specs[0].program.starts_with('/'));
            assert!(specs[0].program.contains("yarn"));
            assert_eq!(specs[1].name, "polkadot");
        }
        Err(e) => {
            assert_eq!(e.kind, ErrorKind::Spawn);
            assert_eq!(e.resource, "yarn");
        }
    }
}

#[test]
fn lines_are_tagged_with_the_process_name() {
    assert_eq!(tag_line("polkadot", "Imported #1"), "[polkadot] Imported #1");
    assert_eq!(tag_line("", ""), "[] ");
}

#[test]
fn dependencies_are_installed_in_the_tree() {
    let spec = install_with(&workspace(), Some("/usr/bin/yarn")).unwrap();
    assert_eq!(spec.name, "yarn install");
    assert_eq!(spec.program, "/usr/bin/yarn");
    assert_eq!(spec.args, vec!["install"]);
    assert_eq!(spec.working_dir, "/w/apps-master");
    assert_eq!(spec.capture, Capture::Silent);
}

#[test]
fn installing_without_package_manager_fails() {
    let e = install_with(&workspace(), None).unwrap_err();
    assert_eq!(e.kind, ErrorKind::Spawn);
    assert_eq!(e.resource, "yarn");
}

#[test]
fn install_follows_the_lookup() {
    match install(&workspace()) {
        Ok(spec) => {
            assert!(spec.program.starts_with('/'));
            assert_eq!(spec.working_dir, "/w/apps-master");
        }
        Err(e) => assert_eq!(e.kind, ErrorKind::Spawn),
    }
}

#[test]
fn package_manager_is_looked_up_as_yarn() {
    assert_eq!(manager_program(), "yarn");
    let e = launch_specs(&workspace(), true, None).unwrap_err();
    assert_eq!(e.resource, manager_program());
}
