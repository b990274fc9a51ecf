//! The processes of a run: what is started, with which arguments, where,
//! and how its output is treated.
//!
//! Starting a process is the caller's work. What is started is decided
//! here: the explorer first, if it is part of the run, then the node,
//! each in a directory of the workspace. The one thing looked up here is
//! the package manager: [`launch`] and [`install`] search for it along
//! the search path of the environment, and [`launch_specs`] and
//! [`install_with`] say what follows from whatever the search gave.

use vstd::prelude::*;
use crate::acquire::{spec_file_name, Artifact};
use crate::error::{Error, ErrorKind, ErrorView};
use crate::paths::{inside, lemma_root_is_inside, spec_join};
use crate::workspace::{opt_text, Workspace, WorkspaceView};

verus! {

/// What happens to the output of a process.
#[derive(Clone, Copy, Debug, PartialEq, Eq, Structural)]
pub enum Capture {
    /// Standard output and standard error are discarded.
    Silent,
    /// Standard error is read line by line and shown to the operator;
    /// standard output is discarded.
    Streamed,
}

/// One process to start.
#[derive(Clone, Debug)]
pub struct ProcessSpec {
    /// The name under which the process is reported.
    pub name: String,
    /// The executable.
    pub program: String,
    /// The arguments, in order.
    pub args: Vec<String>,
    /// The directory in which the process runs.
    pub working_dir: String,
    /// What happens to its output.
    pub capture: Capture,
}

/// The mathematical content of a [`ProcessSpec`].
pub struct ProcessSpecView {
    pub name: Seq<char>,
    pub program: Seq<char>,
    pub args: Seq<Seq<char>>,
    pub working_dir: Seq<char>,
    pub capture: Capture,
}

/// The texts of a sequence of strings.
pub open spec fn texts(words: Seq<String>) -> Seq<Seq<char>> {
    Seq::new(words.len(), |i: int| words[i]@)
}

impl View for ProcessSpec {
    type V = ProcessSpecView;

    open spec fn view(&self) -> ProcessSpecView {
        ProcessSpecView {
            name: self.name@,
            program: self.program@,
            args: texts(self.args@),
            working_dir: self.working_dir@,
            capture: self.capture,
        }
    }
}

/// The contents of a sequence of process specifications.
pub open spec fn spec_views(specs: Seq<ProcessSpec>) -> Seq<ProcessSpecView> {
    Seq::new(specs.len(), |i: int| specs[i]@)
}

/// The name of the package manager that runs the explorer.
pub open spec fn package_manager() -> Seq<char> {
    "yarn"@
}

/// The arguments with which the explorer is started.
pub open spec fn explorer_args() -> Seq<Seq<char>> {
    seq!["run"@, "start"@]
}

/// The arguments with which the node is started.
pub open spec fn node_args() -> Seq<Seq<char>> {
    seq![
        "--chain"@,
        "polkadot"@,
        "--tmp"@,
        "--name"@,
        "myrpc"@,
        "--sync"@,
        "warp"@,
        "--rpc-cors"@,
        "all"@,
        "--rpc-methods"@,
        "Safe"@,
        "--rpc-port"@,
        "9944"@,
        "--no-telemetry"@,
    ]
}

/// The explorer: run by the package manager at `manager`, silently, in
/// the unpacked tree.
pub open spec fn explorer_spec(workspace: WorkspaceView, manager: Seq<char>) -> ProcessSpecView {
    ProcessSpecView {
        name: "polkadot-js"@,
        program: manager,
        args: explorer_args(),
        working_dir: spec_join(workspace.path, spec_file_name(Artifact::Tree)),
        capture: Capture::Silent,
    }
}

/// The node: the binary of the workspace, run in the workspace itself,
/// with its standard error shown.
pub open spec fn node_spec(workspace: WorkspaceView) -> ProcessSpecView {
    ProcessSpecView {
        name: "polkadot"@,
        program: spec_join(workspace.path, spec_file_name(Artifact::Binary)),
        args: node_args(),
        working_dir: workspace.path,
        capture: Capture::Streamed,
    }
}

/// The failure of a run that needs the package manager and has none.
pub open spec fn missing_manager() -> ErrorView {
    ErrorView {
        kind: ErrorKind::Spawn,
        resource: package_manager(),
        cause: "`yarn` not found in PATH. Please install yarn and try again."@,
    }
}

/// The processes of a run, in the order in which they are started: the
/// explorer, if it is part of the run, then the node. A run with the
/// explorer but without a package manager fails.
pub open spec fn spec_launch(
    workspace: WorkspaceView,
    explorer: bool,
    manager: Option<Seq<char>>,
) -> Result<Seq<ProcessSpecView>, ErrorView> {
    if !explorer {
        Ok(seq![node_spec(workspace)])
    } else {
        match manager {
            Some(m) => Ok(seq![explorer_spec(workspace, m), node_spec(workspace)]),
            None => Err(missing_manager()),
        }
    }
}

/// Whether every process of `specs` runs inside the workspace.
pub open spec fn all_inside(specs: Seq<ProcessSpecView>, workspace: WorkspaceView) -> bool {
    forall|i: int|
        0 <= i < specs.len() ==> inside(workspace.path, (#[trigger] specs[i]).working_dir)
}

/// Appends `word` to `words`.
fn push_text(words: &mut Vec<String>, word: &str)
    ensures
        texts(final(words)@) == texts(old(words)@).push(word@),
{
    words.push(String::from_str(word));
    assert(texts(words@) =~= texts(old(words)@).push(word@));
}

/// The arguments of the explorer.
fn make_explorer_args() -> (args: Vec<String>)
    ensures
        texts(args@) == explorer_args(),
{
    let mut args: Vec<String> = Vec::new();
    assert(texts(args@) =~= Seq::<Seq<char>>::empty());
    push_text(&mut args, "run");
    push_text(&mut args, "start");
    assert(texts(args@) =~= explorer_args());
    args
}

/// The arguments of the node.
fn make_node_args() -> (args: Vec<String>)
    ensures
        texts(args@) == node_args(),
{
    let mut args: Vec<String> = Vec::new();
    assert(texts(args@) =~= Seq::<Seq<char>>::empty());
    push_text(&mut args, "--chain");
    push_text(&mut args, "polkadot");
    push_text(&mut args, "--tmp");
    push_text(&mut args, "--name");
    push_text(&mut args, "myrpc");
    push_text(&mut args, "--sync");
    push_text(&mut args, "warp");
    push_text(&mut args, "--rpc-cors");
    push_text(&mut args, "all");
    push_text(&mut args, "--rpc-methods");
    push_text(&mut args, "Safe");
    push_text(&mut args, "--rpc-port");
    push_text(&mut args, "9944");
    push_text(&mut args, "--no-telemetry");
    assert(texts(args@) =~= node_args());
    args
}

/// Whether the result `out` has the content `expected`.
pub open spec fn launched_as(
    out: Result<Vec<ProcessSpec>, Error>,
    expected: Result<Seq<ProcessSpecView>, ErrorView>,
) -> bool {
    match out {
        Ok(specs) => expected == Ok::<Seq<ProcessSpecView>, ErrorView>(spec_views(specs@)),
        Err(e) => expected == Err::<Seq<ProcessSpecView>, ErrorView>(e@),
    }
}

/// The processes to start in `workspace`, given where the package manager
/// was found. Every process runs inside the workspace.
pub fn launch_specs(workspace: &Workspace, explorer: bool, manager: Option<&str>) -> (out: Result<
    Vec<ProcessSpec>,
    Error,
>)
    ensures
        launched_as(out, spec_launch(workspace@, explorer, opt_text(manager))),
        out matches Ok(specs) ==> all_inside(spec_views(specs@), workspace@),
{
    let mut specs: Vec<ProcessSpec> = Vec::new();
    if explorer {
        match manager {
            Some(m) => {
                specs.push(
                    ProcessSpec {
                        name: String::from_str("polkadot-js"),
                        program: String::from_str(m),
                        args: make_explorer_args(),
                        working_dir: Artifact::Tree.path_in(workspace),
                        capture: Capture::Silent,
                    },
                );
            },
            None => {
                return Err(
                    Error::new(
                        ErrorKind::Spawn,
                        manager_program(),
                        "`yarn` not found in PATH. Please install yarn and try again.",
                    ),
                );
            },
        }
    }
    specs.push(
        ProcessSpec {
            name: String::from_str("polkadot"),
            program: Artifact::Binary.path_in(workspace),
            args: make_node_args(),
            working_dir: String::from_str(workspace.path.as_str()),
            capture: Capture::Streamed,
        },
    );
    proof {
        let views = spec_views(specs@);
        lemma_root_is_inside(workspace.path@);
        if explorer {
            assert(views =~= seq![
                explorer_spec(workspace@, manager.unwrap()@),
                node_spec(workspace@),
            ]);
        } else {
            assert(views =~= seq![node_spec(workspace@)]);
        }
    }
    Ok(specs)
}

/// The name under which the package manager is looked up.
pub fn manager_program() -> (name: &'static str)
    ensures
        name@ == package_manager(),
{
    "yarn"
}

/// Looks a program up by name, as `which::which` does: along the search
/// path of the environment. Nothing is claimed of the answer, which
/// depends on the environment and on what is on disk.
#[verifier::external_body]
fn find_in_path(program: &str) -> (found: Option<String>)
{
    which::which(program).ok().and_then(|p| p.into_os_string().into_string().ok())
}

/// The text of an optional owned string.
pub open spec fn found_text(found: Option<String>) -> Option<Seq<char>> {
    match found {
        Some(m) => Some(m@),
        None => None,
    }
}

/// The processes to start in `workspace`. The package manager is looked
/// up along the search path under the name that [`manager_program`]
/// gives, and only if the explorer is part of the run; whatever the
/// lookup gives, the result is the one that [`launch_specs`] gives for it.
pub fn launch(workspace: &Workspace, explorer: bool) -> (out: Result<Vec<ProcessSpec>, Error>)
    ensures
        !explorer ==> launched_as(out, spec_launch(workspace@, false, None)),
        exists|manager: Option<Seq<char>>| #[trigger]
            launched_as(out, spec_launch(workspace@, explorer, manager)),
        out matches Ok(specs) ==> all_inside(spec_views(specs@), workspace@),
{
    if explorer {
        let found = find_in_path(manager_program());
        let out = match &found {
            Some(m) => launch_specs(workspace, true, Some(m.as_str())),
            None => launch_specs(workspace, true, None),
        };
        assert(launched_as(out, spec_launch(workspace@, explorer, found_text(found))));
        out
    } else {
        let out = launch_specs(workspace, false, None);
        assert(launched_as(out, spec_launch(workspace@, explorer, None)));
        out
    }
}

/// The installation of the explorer's dependencies: the package manager
/// at `manager`, run silently in the unpacked tree.
pub open spec fn install_spec(workspace: WorkspaceView, manager: Seq<char>) -> ProcessSpecView {
    ProcessSpecView {
        name: "yarn install"@,
        program: manager,
        args: seq!["install"@],
        working_dir: spec_join(workspace.path, spec_file_name(Artifact::Tree)),
        capture: Capture::Silent,
    }
}

/// Whether the result `out` has the content `expected`.
pub open spec fn installed_as(
    out: Result<ProcessSpec, Error>,
    expected: Result<ProcessSpecView, ErrorView>,
) -> bool {
    match out {
        Ok(spec) => expected == Ok::<ProcessSpecView, ErrorView>(spec@),
        Err(e) => expected == Err::<ProcessSpecView, ErrorView>(e@),
    }
}

/// The installation to run after unpacking, or the failure of a run
/// without a package manager.
pub open spec fn spec_install(workspace: WorkspaceView, manager: Option<Seq<char>>) -> Result<
    ProcessSpecView,
    ErrorView,
> {
    match manager {
        Some(m) => Ok(install_spec(workspace, m)),
        None => Err(missing_manager()),
    }
}

/// The process that installs the explorer's dependencies in `workspace`,
/// given where the package manager was found.
pub fn install_with(workspace: &Workspace, manager: Option<&str>) -> (out: Result<
    ProcessSpec,
    Error,
>)
    ensures
        installed_as(out, spec_install(workspace@, opt_text(manager))),
        out matches Ok(spec) ==> inside(workspace.path@, spec.working_dir@),
{
    match manager {
        Some(m) => {
            let mut args: Vec<String> = Vec::new();
            assert(texts(args@) =~= Seq::<Seq<char>>::empty());
            push_text(&mut args, "install");
            assert(texts(args@) =~= seq!["install"@]);
            Ok(
                ProcessSpec {
                    name: String::from_str("yarn install"),
                    program: String::from_str(m),
                    args,
                    working_dir: Artifact::Tree.path_in(workspace),
                    capture: Capture::Silent,
                },
            )
        },
        None => Err(
            Error::new(
                ErrorKind::Spawn,
                manager_program(),
                "`yarn` not found in PATH. Please install yarn and try again.",
            ),
        ),
    }
}

/// The process that installs the explorer's dependencies in `workspace`.
/// The package manager is looked up along the search path under the name
/// that [`manager_program`] gives; whatever the lookup gives, the result
/// is the one that [`install_with`] gives for it.
pub fn install(workspace: &Workspace) -> (out: Result<ProcessSpec, Error>)
    ensures
        exists|manager: Option<Seq<char>>| #[trigger]
            installed_as(out, spec_install(workspace@, manager)),
        out matches Ok(spec) ==> inside(workspace.path@, spec.working_dir@),
{
    let found = find_in_path(manager_program());
    let out = match &found {
        Some(m) => install_with(workspace, Some(m.as_str())),
        None => install_with(workspace, None),
    };
    assert(installed_as(out, spec_install(workspace@, found_text(found))));
    out
}

/// A line of a streamed process as shown to the operator: the name of the
/// process in brackets, a space, the line.
pub open spec fn spec_tagged(name: Seq<char>, line: Seq<char>) -> Seq<char> {
    seq!['['] + name + seq![']', ' '] + line
}

/// Tags a line of output with the name of the process it came from.
pub fn tag_line(name: &str, line: &str) -> (out: String)
    ensures
        out@ == spec_tagged(name@, line@),
{
    proof {
        reveal_strlit("[");
        reveal_strlit("] ");
        assert("["@ =~= seq!['[']);
        assert("] "@ =~= seq![']', ' ']);
    }
    let mut out = String::from_str("[");
    out.append(name);
    out.append("] ");
    out.append(line);
    out
}

} // verus!
