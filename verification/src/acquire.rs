//! What must be fetched and unpacked before the processes can start.
//!
//! Presence on disk is the only gate: what is there is never fetched or
//! unpacked again. The work is planned in two lanes that share nothing but
//! the workspace path, so the caller may run them side by side and join
//! them with [`first_failure`].

use vstd::prelude::*;
use crate::error::{Error, ErrorKind, ErrorView};
use crate::paths::{
    current_dir, inside, join_path, lemma_name_stays_below, parent_dir, resolve_below, spec_join,
};
use crate::workspace::{Workspace, WorkspaceView};

verus! {

/// One of the three things kept under the workspace.
#[derive(Clone, Copy, Debug, PartialEq, Eq, Structural)]
pub enum Artifact {
    /// The node binary.
    Binary,
    /// The explorer's archive as downloaded.
    Archive,
    /// The explorer's tree, unpacked from the archive.
    Tree,
}

/// Which of the artifacts are on disk.
#[derive(Clone, Copy, Debug, PartialEq, Eq, Structural)]
pub struct Presence {
    pub binary: bool,
    pub archive: bool,
    pub tree: bool,
}

/// One piece of work.
#[derive(Clone, Copy, Debug, PartialEq, Eq, Structural)]
pub enum Step {
    /// Download the node binary.
    FetchBinary,
    /// Make the node binary executable.
    MarkExecutable,
    /// Download the explorer's archive.
    FetchArchive,
    /// Unpack the archive into the workspace.
    Extract,
    /// Install the dependencies of the unpacked tree.
    PostInstall,
}

/// The work of one run: two lanes without an order between them.
#[derive(Clone, Debug)]
pub struct Plan {
    /// The steps for the node binary, in order.
    pub node: Vec<Step>,
    /// The steps for the explorer, in order.
    pub explorer: Vec<Step>,
}

/// Where the artifacts come from.
#[derive(Clone, Debug)]
pub struct Sources {
    /// The URL of the node binary.
    pub binary_url: String,
    /// The URL of the explorer's archive.
    pub archive_url: String,
}

/// The file or directory name of an artifact under the workspace.
pub open spec fn spec_file_name(artifact: Artifact) -> Seq<char> {
    match artifact {
        Artifact::Binary => "polkadot"@,
        Artifact::Archive => "pjs.zip"@,
        Artifact::Tree => "apps-master"@,
    }
}

/// The artifact that a step writes, or works in.
pub open spec fn spec_target(step: Step) -> Artifact {
    match step {
        Step::FetchBinary => Artifact::Binary,
        Step::MarkExecutable => Artifact::Binary,
        Step::FetchArchive => Artifact::Archive,
        Step::Extract => Artifact::Tree,
        Step::PostInstall => Artifact::Tree,
    }
}

/// Whether a step downloads or unpacks.
pub open spec fn acquires(step: Step) -> bool {
    step == Step::FetchBinary || step == Step::FetchArchive || step == Step::Extract
}

/// The lane of the node binary: fetched if absent, then made executable.
pub open spec fn node_lane(presence: Presence) -> Seq<Step> {
    if presence.binary {
        seq![Step::MarkExecutable]
    } else {
        seq![Step::FetchBinary, Step::MarkExecutable]
    }
}

/// The lane of the explorer: nothing if it is left out or its tree is
/// there; unpacking and installing if only the archive is there; else
/// fetching first.
pub open spec fn explorer_lane(presence: Presence, explorer: bool) -> Seq<Step> {
    if !explorer || presence.tree {
        Seq::empty()
    } else if presence.archive {
        seq![Step::Extract, Step::PostInstall]
    } else {
        seq![Step::FetchArchive, Step::Extract, Step::PostInstall]
    }
}

/// What is on disk after a step has succeeded.
pub open spec fn after_step(presence: Presence, step: Step) -> Presence {
    match step {
        Step::FetchBinary => Presence { binary: true, ..presence },
        Step::FetchArchive => Presence { archive: true, ..presence },
        Step::Extract => Presence { tree: true, ..presence },
        _ => presence,
    }
}

/// What is on disk after all of `steps` have succeeded, in order.
pub open spec fn after_steps(presence: Presence, steps: Seq<Step>) -> Presence
    decreases steps.len(),
{
    if steps.len() == 0 {
        presence
    } else {
        after_step(after_steps(presence, steps.drop_last()), steps.last())
    }
}

impl Artifact {
    /// The file or directory name under the workspace.
    pub fn file_name(self) -> (name: &'static str)
        ensures
            name@ == spec_file_name(self),
    {
        match self {
            Artifact::Binary => "polkadot",
            Artifact::Archive => "pjs.zip",
            Artifact::Tree => "apps-master",
        }
    }

    /// The path of the artifact in `workspace`, which lies inside it.
    pub fn path_in(self, workspace: &Workspace) -> (path: String)
        ensures
            path@ == spec_join(workspace.path@, spec_file_name(self)),
            inside(workspace.path@, path@),
    {
        proof {
            lemma_artifacts_are_inside(workspace.path@, self);
        }
        join_path(workspace.path.as_str(), self.file_name())
    }
}

impl Step {
    /// The artifact that the step writes, or works in.
    pub fn target(self) -> (artifact: Artifact)
        ensures
            artifact == spec_target(self),
    {
        match self {
            Step::FetchBinary => Artifact::Binary,
            Step::MarkExecutable => Artifact::Binary,
            Step::FetchArchive => Artifact::Archive,
            Step::Extract => Artifact::Tree,
            Step::PostInstall => Artifact::Tree,
        }
    }

    /// Whether the step downloads or unpacks.
    pub fn is_acquisition(self) -> (yes: bool)
        ensures
            yes == acquires(self),
    {
        match self {
            Step::FetchBinary => true,
            Step::FetchArchive => true,
            Step::Extract => true,
            _ => false,
        }
    }
}

impl Sources {
    /// The public download locations.
    pub fn standard() -> (sources: Sources)
        ensures
            sources.binary_url@
                == "https://github.com/paritytech/polkadot-sdk/releases/latest/download/polkadot"@,
            sources.archive_url@
                == "https://github.com/polkadot-js/apps/archive/refs/heads/master.zip"@,
    {
        Sources {
            binary_url: String::from_str(
                "https://github.com/paritytech/polkadot-sdk/releases/latest/download/polkadot",
            ),
            archive_url: String::from_str(
                "https://github.com/polkadot-js/apps/archive/refs/heads/master.zip",
            ),
        }
    }

    /// The URL that a step downloads from, if it downloads.
    pub fn url_of(&self, step: Step) -> (url: Option<&str>)
        ensures
            step == Step::FetchBinary ==> url.is_some() && url.unwrap()@ == self.binary_url@,
            step == Step::FetchArchive ==> url.is_some() && url.unwrap()@ == self.archive_url@,
            step != Step::FetchBinary && step != Step::FetchArchive ==> url.is_none(),
    {
        match step {
            Step::FetchBinary => Some(self.binary_url.as_str()),
            Step::FetchArchive => Some(self.archive_url.as_str()),
            _ => None,
        }
    }
}

/// Plans the work of a run from what is on disk. With `explorer` unset the
/// explorer is left out altogether.
pub fn plan(presence: Presence, explorer: bool) -> (plan: Plan)
    ensures
        plan.node@ == node_lane(presence),
        plan.explorer@ == explorer_lane(presence, explorer),
{
    let mut node: Vec<Step> = Vec::new();
    if !presence.binary {
        node.push(Step::FetchBinary);
    }
    node.push(Step::MarkExecutable);
    let mut lane: Vec<Step> = Vec::new();
    if explorer && !presence.tree {
        if !presence.archive {
            lane.push(Step::FetchArchive);
        }
        lane.push(Step::Extract);
        lane.push(Step::PostInstall);
    }
    assert(node@ =~= node_lane(presence));
    assert(lane@ =~= explorer_lane(presence, explorer));
    Plan { node, explorer: lane }
}

/// The first failure among `outcomes`, or none.
pub open spec fn spec_first_failure(outcomes: Seq<Option<Error>>) -> Option<ErrorView>
    decreases outcomes.len(),
{
    if outcomes.len() == 0 {
        None
    } else {
        match outcomes[0] {
            Some(e) => Some(e@),
            None => spec_first_failure(outcomes.drop_first()),
        }
    }
}

/// Joins the lanes: succeeds when every lane has, and else surfaces the
/// failure of the first lane, in the order given, that failed. The caller
/// hands over one outcome per lane after all lanes have come to an end.
pub fn first_failure(outcomes: &Vec<Option<Error>>) -> (joined: Result<(), Error>)
    ensures
        match joined {
            Ok(_) => spec_first_failure(outcomes@).is_none(),
            Err(e) => spec_first_failure(outcomes@) == Some(e@),
        },
{
    let mut i: usize = 0;
    assert(outcomes@.skip(0) =~= outcomes@);
    while i < outcomes.len()
        invariant
            i <= outcomes.len(),
            spec_first_failure(outcomes@) == spec_first_failure(outcomes@.skip(i as int)),
        decreases outcomes.len() - i,
    {
        proof {
            let rest = outcomes@.skip(i as int);
            assert(rest[0] == outcomes@[i as int]);
            assert(rest.drop_first() =~= outcomes@.skip(i + 1));
        }
        match &outcomes[i] {
            Some(e) => {
                return Err(Error::new(e.kind, e.resource.as_str(), e.cause.as_str()));
            },
            None => {},
        }
        i = i + 1;
    }
    assert(outcomes@.skip(i as int).len() == 0);
    Ok(())
}

/// Whether a response status counts as success: the codes from 200 to 299.
pub fn status_is_success(status: u16) -> (ok: bool)
    ensures
        ok == (200 <= status < 300),
{
    200 <= status && status < 300
}

/// The category of the failure of a step: a download that fails, for
/// whatever reason, is a network error; unpacking, an archive error;
/// installing, a spawn error; the rest, a filesystem error.
pub open spec fn failure_kind(step: Step) -> ErrorKind {
    match step {
        Step::FetchBinary => ErrorKind::Network,
        Step::FetchArchive => ErrorKind::Network,
        Step::Extract => ErrorKind::Archive,
        Step::PostInstall => ErrorKind::Spawn,
        Step::MarkExecutable => ErrorKind::Filesystem,
    }
}

/// The resource that the failure of a step names: for a download the
/// name of the artifact and where it comes from, for unpacking the
/// archive, else the path that the step works on.
pub open spec fn failure_resource(
    step: Step,
    binary_url: Seq<char>,
    archive_url: Seq<char>,
    workspace: WorkspaceView,
) -> Seq<char> {
    match step {
        Step::FetchBinary => spec_file_name(Artifact::Binary) + " from "@ + binary_url,
        Step::FetchArchive => spec_file_name(Artifact::Archive) + " from "@ + archive_url,
        Step::Extract => spec_join(workspace.path, spec_file_name(Artifact::Archive)),
        _ => spec_join(workspace.path, spec_file_name(spec_target(step))),
    }
}

/// The failure of `step`, with the cause that the caller observed.
pub fn step_failure(step: Step, sources: &Sources, workspace: &Workspace, cause: &str) -> (e: Error)
    ensures
        e@ == (ErrorView {
            kind: failure_kind(step),
            resource: failure_resource(
                step,
                sources.binary_url@,
                sources.archive_url@,
                workspace@,
            ),
            cause: cause@,
        }),
{
    match step {
        Step::FetchBinary => {
            let mut resource = String::from_str(Artifact::Binary.file_name());
            resource.append(" from ");
            resource.append(sources.binary_url.as_str());
            Error::new(ErrorKind::Network, resource.as_str(), cause)
        },
        Step::FetchArchive => {
            let mut resource = String::from_str(Artifact::Archive.file_name());
            resource.append(" from ");
            resource.append(sources.archive_url.as_str());
            Error::new(ErrorKind::Network, resource.as_str(), cause)
        },
        Step::Extract => Error::new(
            ErrorKind::Archive,
            Artifact::Archive.path_in(workspace).as_str(),
            cause,
        ),
        Step::PostInstall => Error::new(
            ErrorKind::Spawn,
            Artifact::Tree.path_in(workspace).as_str(),
            cause,
        ),
        Step::MarkExecutable => Error::new(
            ErrorKind::Filesystem,
            Artifact::Binary.path_in(workspace).as_str(),
            cause,
        ),
    }
}

/// The progress of one lane, as mathematics.
pub struct LaneView {
    /// The steps of the lane, in order.
    pub steps: Seq<Step>,
    /// The number of steps that have succeeded.
    pub done: nat,
    /// The failure that stopped the lane, if one has.
    pub failure: Option<ErrorView>,
}

/// The step to run next: the first that has not run yet, as long as
/// nothing has failed.
pub open spec fn lane_next(lane: LaneView) -> Option<Step> {
    if lane.failure.is_none() && lane.done < lane.steps.len() {
        Some(lane.steps[lane.done as int])
    } else {
        None
    }
}

/// The lane after the step it handed out has succeeded (`None`) or
/// failed. A lane that hands out nothing stays as it is.
pub open spec fn lane_after(lane: LaneView, failure: Option<ErrorView>) -> LaneView {
    if lane_next(lane).is_none() {
        lane
    } else {
        match failure {
            None => LaneView { done: lane.done + 1, ..lane },
            Some(e) => LaneView { failure: Some(e), ..lane },
        }
    }
}

/// The lane after all of `reports`, in order, starting with no step run.
pub open spec fn lane_run(steps: Seq<Step>, reports: Seq<Option<ErrorView>>) -> LaneView
    decreases reports.len(),
{
    if reports.len() == 0 {
        LaneView { steps, done: 0, failure: None }
    } else {
        lane_after(lane_run(steps, reports.drop_last()), reports.last())
    }
}

/// The progress of one lane: its steps run one after the other, each
/// only after the one before it has succeeded, and none after a failure.
#[derive(Debug)]
pub struct Lane {
    steps: Vec<Step>,
    done: usize,
    failure: Option<Error>,
}

impl View for Lane {
    type V = LaneView;

    closed spec fn view(&self) -> LaneView {
        LaneView {
            steps: self.steps@,
            done: self.done as nat,
            failure: match self.failure {
                Some(e) => Some(e@),
                None => None,
            },
        }
    }
}

impl Lane {
    /// A lane with the given steps, none of which has run.
    pub fn new(steps: Vec<Step>) -> (lane: Lane)
        ensures
            lane@ == (LaneView { steps: steps@, done: 0, failure: None }),
    {
        Lane { steps, done: 0, failure: None }
    }

    /// The step to run next, or `None` when the lane has come to an end.
    pub fn next(&self) -> (step: Option<Step>)
        ensures
            step == lane_next(self@),
    {
        if self.failure.is_none() && self.done < self.steps.len() {
            Some(self.steps[self.done])
        } else {
            None
        }
    }

    /// Takes in what became of the step that [`Lane::next`] handed out:
    /// `None` if it succeeded, else its failure.
    pub fn report(&mut self, failure: Option<Error>)
        ensures
            final(self)@ == lane_after(
                old(self)@,
                match failure {
                    Some(e) => Some(e@),
                    None => None,
                },
            ),
    {
        if self.failure.is_none() && self.done < self.steps.len() {
            match failure {
                None => {
                    self.done = self.done + 1;
                },
                Some(e) => {
                    self.failure = Some(e);
                },
            }
        }
    }

    /// The failure that stopped the lane, if one has.
    pub fn failure(&self) -> (failure: Option<Error>)
        ensures
            match failure {
                Some(e) => self@.failure == Some(e@),
                None => self@.failure.is_none(),
            },
    {
        match &self.failure {
            Some(e) => Some(Error::new(e.kind, e.resource.as_str(), e.cause.as_str())),
            None => None,
        }
    }
}

/// A step runs only after every step before it has succeeded: whatever is
/// reported, the step that a lane hands out after `count` reports is the
/// step number `count`, and all of those reports were successes.
pub proof fn lemma_step_follows_success(
    steps: Seq<Step>,
    reports: Seq<Option<ErrorView>>,
    count: int,
)
    requires
        0 <= count <= reports.len(),
        lane_next(lane_run(steps, reports.take(count))).is_some(),
    ensures
        count < steps.len(),
        lane_run(steps, reports.take(count)).done == count,
        lane_next(lane_run(steps, reports.take(count))) == Some(steps[count]),
        forall|j: int| 0 <= j < count ==> (#[trigger] reports[j]).is_none(),
    decreases count,
{
    lemma_lane_keeps_steps(steps, reports.take(count));
    if count > 0 {
        let before = lane_run(steps, reports.take(count - 1));
        assert(reports.take(count).drop_last() =~= reports.take(count - 1));
        assert(reports.take(count).last() == reports[count - 1]);
        assert(lane_run(steps, reports.take(count)) == lane_after(before, reports[count - 1]));
        assert(lane_next(before).is_some());
        lemma_step_follows_success(steps, reports, count - 1);
    } else {
        assert(reports.take(0) =~= Seq::<Option<ErrorView>>::empty());
    }
}

/// No report changes the steps of a lane, and no lane runs more steps
/// than it has.
pub proof fn lemma_lane_keeps_steps(steps: Seq<Step>, reports: Seq<Option<ErrorView>>)
    ensures
        lane_run(steps, reports).steps == steps,
        lane_run(steps, reports).done <= steps.len(),
    decreases reports.len(),
{
    if reports.len() > 0 {
        lemma_lane_keeps_steps(steps, reports.drop_last());
    }
}

/// The installation follows the unpacking: in the explorer's lane the
/// dependencies are installed only after the archive has been unpacked
/// with success.
pub proof fn lemma_install_follows_unpacking(
    presence: Presence,
    explorer: bool,
    reports: Seq<Option<ErrorView>>,
    count: int,
)
    requires
        0 <= count <= reports.len(),
        lane_next(lane_run(explorer_lane(presence, explorer), reports.take(count))) == Some(
            Step::PostInstall,
        ),
    ensures
        count >= 1,
        explorer_lane(presence, explorer)[count - 1] == Step::Extract,
        reports[count - 1].is_none(),
{
    lemma_step_follows_success(explorer_lane(presence, explorer), reports, count);
}

/// Acquisition is idempotent: once every step of a plan has succeeded, the
/// plan for what is then on disk downloads nothing and unpacks nothing.
pub proof fn lemma_second_plan_acquires_nothing(presence: Presence, explorer: bool)
    ensures
        ({
            let done = after_steps(
                after_steps(presence, node_lane(presence)),
                explorer_lane(presence, explorer),
            );
            &&& forall|i: int|
                0 <= i < node_lane(done).len() ==> !acquires(#[trigger] node_lane(done)[i])
            &&& explorer_lane(done, explorer).len() == 0
        }),
{
    let node = node_lane(presence);
    let lane = explorer_lane(presence, explorer);
    let fetched = after_steps(presence, node);
    lemma_after_steps_sets(presence, node);
    assert(fetched.binary) by {
        if !presence.binary {
            assert(node[0] == Step::FetchBinary);
        }
    }
    let done = after_steps(fetched, lane);
    lemma_after_steps_sets(fetched, lane);
    if explorer && !presence.tree {
        assert(lane[lane.len() - 2] == Step::Extract);
    }
}

/// Succeeding steps only add to what is on disk, and each adds what it
/// acquires.
pub proof fn lemma_after_steps_sets(presence: Presence, steps: Seq<Step>)
    ensures
        ({
            let done = after_steps(presence, steps);
            &&& presence.binary ==> done.binary
            &&& presence.archive ==> done.archive
            &&& presence.tree ==> done.tree
            &&& forall|i: int|
                0 <= i < steps.len() && #[trigger] steps[i] == Step::FetchBinary ==> done.binary
            &&& forall|i: int|
                0 <= i < steps.len() && #[trigger] steps[i] == Step::FetchArchive ==> done.archive
            &&& forall|i: int|
                0 <= i < steps.len() && #[trigger] steps[i] == Step::Extract ==> done.tree
        }),
    decreases steps.len(),
{
    if steps.len() > 0 {
        lemma_after_steps_sets(presence, steps.drop_last());
        let init = steps.drop_last();
        assert forall|i: int| 0 <= i < steps.len() - 1 implies steps[i] == init[i] by {}
    }
}

/// No step is planned twice, and the lanes share no artifact: the node's
/// lane touches the binary only, the explorer's lane never does.
pub proof fn lemma_lanes_are_disjoint(presence: Presence, explorer: bool)
    ensures
        forall|i: int, j: int|
            0 <= i < j < node_lane(presence).len() ==> node_lane(presence)[i] != node_lane(
                presence,
            )[j],
        forall|i: int, j: int|
            0 <= i < j < explorer_lane(presence, explorer).len() ==> explorer_lane(
                presence,
                explorer,
            )[i] != explorer_lane(presence, explorer)[j],
        forall|i: int|
            0 <= i < node_lane(presence).len() ==> spec_target(#[trigger] node_lane(presence)[i])
                == Artifact::Binary,
        forall|i: int|
            0 <= i < explorer_lane(presence, explorer).len() ==> spec_target(
                #[trigger] explorer_lane(presence, explorer)[i],
            ) != Artifact::Binary,
{
}

/// The three artifacts have three different names, so that steps on
/// different artifacts write to different paths of the workspace.
pub proof fn lemma_file_names_differ(a: Artifact, b: Artifact)
    requires
        a != b,
    ensures
        spec_file_name(a) != spec_file_name(b),
{
    reveal_strlit("polkadot");
    reveal_strlit("pjs.zip");
    reveal_strlit("apps-master");
    assert(spec_file_name(Artifact::Binary).len() == 8);
    assert(spec_file_name(Artifact::Archive).len() == 7);
    assert(spec_file_name(Artifact::Tree).len() == 11);
}

/// Every artifact lies inside the workspace: its name is a plain name.
pub proof fn lemma_artifacts_are_inside(root: Seq<char>, artifact: Artifact)
    ensures
        resolve_below(spec_file_name(artifact)) == Some(seq![spec_file_name(artifact)]),
        inside(root, spec_join(root, spec_file_name(artifact))),
{
    reveal_strlit("polkadot");
    reveal_strlit("pjs.zip");
    reveal_strlit("apps-master");
    let name = spec_file_name(artifact);
    assert(name.len() > 2);
    assert(parent_dir().len() == 2);
    assert(current_dir().len() == 1);
    lemma_name_stays_below(name);
}

} // verus!
