//! Making the workspace directory ready: the decisions between probing
//! the path and declaring it usable.
//!
//! The resolver never touches the filesystem or the terminal. It names the
//! one thing to do next ([`Resolver::pending`]); the caller does it and
//! reports what happened ([`Resolver::step`]). A directory is removed only
//! after the operator has agreed to it, and a directory outside the
//! default location is created only after the operator has agreed to that.

use vstd::prelude::*;
use crate::cli::WorkspaceMode;
use crate::error::{Error, ErrorKind, ErrorView};
use crate::workspace::{Workspace, WorkspaceView};

verus! {

/// Where the resolver stands.
#[derive(Clone, Copy, Debug, PartialEq, Eq, Structural)]
pub enum ResolverState {
    /// Waiting to learn whether the path exists.
    Probing,
    /// Waiting for the answer to "remove the existing directory?".
    ConfirmingReset,
    /// Waiting for the answer to "create the missing directory?".
    ConfirmingCreate,
    /// Waiting for the removal of the directory.
    Removing,
    /// Waiting for the creation of the directory.
    Creating,
    /// The directory exists and may be used.
    Ready,
    /// The run cannot go on.
    Failed,
}

/// What the caller is asked to do.
#[derive(Clone, Copy, Debug, PartialEq, Eq, Structural)]
pub enum ResolverAction {
    /// Test whether the workspace path exists.
    Probe,
    /// Ask the operator whether the existing directory may be removed.
    AskReset,
    /// Ask the operator whether the missing directory may be created.
    AskCreate,
    /// Remove the directory and all it holds.
    Remove,
    /// Create the directory, with its missing ancestors if `parents` is set.
    Create { parents: bool },
    /// Nothing: the workspace is ready.
    Finish,
    /// Nothing: give up with [`Resolver::failure`].
    Abort,
}

/// What the caller reports back.
#[derive(Clone, Debug)]
pub enum ResolverEvent {
    /// The probe found the path present (`true`) or absent.
    Exists(bool),
    /// The operator agreed (`true`) or declined.
    Answer(bool),
    /// The removal or creation succeeded.
    Done,
    /// The requested operation failed, with the cause as text.
    Failed(String),
}

/// Whether the state asks for a change on disk.
pub open spec fn mutates(state: ResolverState) -> bool {
    state == ResolverState::Removing || state == ResolverState::Creating
}

/// The state after `event` arrives in `state`. An event that does not
/// answer what the state waits for changes nothing.
pub open spec fn next_state(
    state: ResolverState,
    mode: WorkspaceMode,
    explicit: bool,
    event: ResolverEvent,
) -> ResolverState {
    match (state, event) {
        (ResolverState::Probing, ResolverEvent::Exists(true)) => match mode {
            WorkspaceMode::Ephemeral => ResolverState::Failed,
            WorkspaceMode::PersistentReset => ResolverState::ConfirmingReset,
            WorkspaceMode::Persistent => ResolverState::Ready,
        },
        (ResolverState::Probing, ResolverEvent::Exists(false)) => {
            if mode != WorkspaceMode::Ephemeral && explicit {
                ResolverState::ConfirmingCreate
            } else {
                ResolverState::Creating
            }
        },
        (ResolverState::ConfirmingReset, ResolverEvent::Answer(true)) => ResolverState::Removing,
        (ResolverState::ConfirmingReset, ResolverEvent::Answer(false)) => ResolverState::Ready,
        (ResolverState::ConfirmingCreate, ResolverEvent::Answer(true)) => ResolverState::Creating,
        (ResolverState::ConfirmingCreate, ResolverEvent::Answer(false)) => ResolverState::Failed,
        (ResolverState::Removing, ResolverEvent::Done) => ResolverState::Creating,
        (ResolverState::Creating, ResolverEvent::Done) => ResolverState::Ready,
        (ResolverState::Ready, _) => ResolverState::Ready,
        (ResolverState::Failed, _) => ResolverState::Failed,
        (_, ResolverEvent::Failed(_)) => ResolverState::Failed,
        _ => state,
    }
}

/// The cause recorded when an ephemeral path is already taken.
pub open spec fn taken_cause() -> Seq<char> {
    "a throwaway directory of this name already exists"@
}

/// The cause recorded when the operator declines the creation.
pub open spec fn declined_cause() -> Seq<char> {
    "the operator declined to create the directory"@
}

/// The failure recorded when `event` takes `state` to
/// [`ResolverState::Failed`]: a declined creation, a throwaway name that
/// is taken, a prompt that could not be shown (a configuration error) or
/// an operation on the directory that failed.
pub open spec fn failure_of(state: ResolverState, event: ResolverEvent, path: Seq<char>) -> ErrorView {
    match event {
        ResolverEvent::Failed(cause) => ErrorView {
            kind: if state == ResolverState::ConfirmingReset || state
                == ResolverState::ConfirmingCreate {
                ErrorKind::Configuration
            } else {
                ErrorKind::Filesystem
            },
            resource: path,
            cause: cause@,
        },
        ResolverEvent::Answer(_) => ErrorView {
            kind: ErrorKind::ConfirmationDeclined,
            resource: path,
            cause: declined_cause(),
        },
        _ => ErrorView { kind: ErrorKind::Filesystem, resource: path, cause: taken_cause() },
    }
}

/// What `state` asks the caller to do.
pub open spec fn action_of(state: ResolverState, explicit: bool) -> ResolverAction {
    match state {
        ResolverState::Probing => ResolverAction::Probe,
        ResolverState::ConfirmingReset => ResolverAction::AskReset,
        ResolverState::ConfirmingCreate => ResolverAction::AskCreate,
        ResolverState::Removing => ResolverAction::Remove,
        ResolverState::Creating => ResolverAction::Create { parents: explicit },
        ResolverState::Ready => ResolverAction::Finish,
        ResolverState::Failed => ResolverAction::Abort,
    }
}

/// The state after all of `events`, in order, starting from `state`.
pub open spec fn state_after(
    state: ResolverState,
    mode: WorkspaceMode,
    explicit: bool,
    events: Seq<ResolverEvent>,
) -> ResolverState
    decreases events.len(),
{
    if events.len() == 0 {
        state
    } else {
        next_state(
            state_after(state, mode, explicit, events.drop_last()),
            mode,
            explicit,
            events.last(),
        )
    }
}

/// The preparation of one workspace.
#[derive(Debug)]
pub struct Resolver {
    workspace: Workspace,
    mode: WorkspaceMode,
    explicit: bool,
    state: ResolverState,
    failure: Option<Error>,
}

/// The failure held by a resolver, as content.
pub open spec fn opt_error(e: Option<Error>) -> Option<ErrorView> {
    match e {
        Some(e) => Some(e@),
        None => None,
    }
}

/// The failure that `event` causes in `state`, on the workspace at `path`.
fn describe_failure(state: ResolverState, event: &ResolverEvent, path: &str) -> (e: Error)
    ensures
        e@ == failure_of(state, *event, path@),
{
    match event {
        ResolverEvent::Failed(cause) => {
            let kind = match state {
                ResolverState::ConfirmingReset => ErrorKind::Configuration,
                ResolverState::ConfirmingCreate => ErrorKind::Configuration,
                _ => ErrorKind::Filesystem,
            };
            Error::new(kind, path, cause.as_str())
        },
        ResolverEvent::Answer(_) => Error::new(
            ErrorKind::ConfirmationDeclined,
            path,
            "the operator declined to create the directory",
        ),
        _ => Error::new(
            ErrorKind::Filesystem,
            path,
            "a throwaway directory of this name already exists",
        ),
    }
}

impl Resolver {
    /// The workspace being prepared.
    pub closed spec fn spec_workspace(&self) -> WorkspaceView {
        self.workspace@
    }

    /// The mode of the run.
    pub closed spec fn spec_mode(&self) -> WorkspaceMode {
        self.mode
    }

    /// Whether the operator named the path.
    pub closed spec fn spec_explicit(&self) -> bool {
        self.explicit
    }

    /// Where the resolver stands.
    pub closed spec fn spec_state(&self) -> ResolverState {
        self.state
    }

    /// The recorded failure.
    pub closed spec fn spec_failure(&self) -> Option<ErrorView> {
        opt_error(self.failure)
    }

    /// A failure is recorded exactly in the failed state.
    pub open spec fn inv(&self) -> bool {
        (self.spec_state() == ResolverState::Failed) == self.spec_failure().is_some()
    }

    /// Starts the preparation of `workspace`: the first thing to learn is
    /// whether its path exists.
    pub fn new(workspace: Workspace, mode: WorkspaceMode, explicit: bool) -> (r: Resolver)
        ensures
            r.inv(),
            r.spec_workspace() == workspace@,
            r.spec_mode() == mode,
            r.spec_explicit() == explicit,
            r.spec_state() == ResolverState::Probing,
            r.spec_failure().is_none(),
    {
        Resolver { workspace, mode, explicit, state: ResolverState::Probing, failure: None }
    }

    /// Where the resolver stands.
    pub fn state(&self) -> (state: ResolverState)
        ensures
            state == self.spec_state(),
    {
        self.state
    }

    /// The workspace being prepared.
    pub fn workspace(&self) -> (workspace: &Workspace)
        ensures
            workspace@ == self.spec_workspace(),
    {
        &self.workspace
    }

    /// The workspace, once it is ready: `None` in every other state.
    pub fn ready(&self) -> (workspace: Option<Workspace>)
        ensures
            match workspace {
                Some(w) => self.spec_state() == ResolverState::Ready && w@
                    == self.spec_workspace(),
                None => self.spec_state() != ResolverState::Ready,
            },
    {
        if self.state == ResolverState::Ready {
            Some(
                Workspace {
                    path: String::from_str(self.workspace.path.as_str()),
                    durability: self.workspace.durability,
                },
            )
        } else {
            None
        }
    }

    /// The failure that ended the preparation, if it has failed.
    pub fn failure(&self) -> (failure: Option<Error>)
        ensures
            opt_error(failure) == self.spec_failure(),
    {
        match &self.failure {
            Some(e) => {
                let copy = Error::new(e.kind, e.resource.as_str(), e.cause.as_str());
                Some(copy)
            },
            None => None,
        }
    }

    /// What the caller is asked to do now.
    pub fn pending(&self) -> (action: ResolverAction)
        ensures
            action == action_of(self.spec_state(), self.spec_explicit()),
    {
        match self.state {
            ResolverState::Probing => ResolverAction::Probe,
            ResolverState::ConfirmingReset => ResolverAction::AskReset,
            ResolverState::ConfirmingCreate => ResolverAction::AskCreate,
            ResolverState::Removing => ResolverAction::Remove,
            ResolverState::Creating => ResolverAction::Create { parents: self.explicit },
            ResolverState::Ready => ResolverAction::Finish,
            ResolverState::Failed => ResolverAction::Abort,
        }
    }

    /// Takes in what the caller reports and returns what to do next. The
    /// workspace, the mode and the named-path flag never change; the state
    /// moves as [`next_state`] says; entering the failed state records the
    /// failure that [`failure_of`] gives, and a recorded failure stays.
    /// Outside the failed state no failure is held.
    pub fn step(&mut self, event: ResolverEvent) -> (action: ResolverAction)
        ensures
            old(self).inv() ==> final(self).inv(),
            final(self).spec_workspace() == old(self).spec_workspace(),
            final(self).spec_mode() == old(self).spec_mode(),
            final(self).spec_explicit() == old(self).spec_explicit(),
            final(self).spec_state() == next_state(
                old(self).spec_state(),
                old(self).spec_mode(),
                old(self).spec_explicit(),
                event,
            ),
            final(self).spec_failure() == if final(self).spec_state() != ResolverState::Failed {
                None
            } else if old(self).spec_state() == ResolverState::Failed {
                old(self).spec_failure()
            } else {
                Some(failure_of(old(self).spec_state(), event, old(self).spec_workspace().path))
            },
            action == action_of(final(self).spec_state(), final(self).spec_explicit()),
    {
        let before = self.state;
        let after = match (before, &event) {
            (ResolverState::Ready, _) => ResolverState::Ready,
            (ResolverState::Failed, _) => ResolverState::Failed,
            (_, ResolverEvent::Failed(_)) => ResolverState::Failed,
            (ResolverState::Probing, ResolverEvent::Exists(true)) => match self.mode {
                WorkspaceMode::Ephemeral => ResolverState::Failed,
                WorkspaceMode::PersistentReset => ResolverState::ConfirmingReset,
                WorkspaceMode::Persistent => ResolverState::Ready,
            },
            (ResolverState::Probing, ResolverEvent::Exists(false)) => {
                if self.mode != WorkspaceMode::Ephemeral && self.explicit {
                    ResolverState::ConfirmingCreate
                } else {
                    ResolverState::Creating
                }
            },
            (ResolverState::ConfirmingReset, ResolverEvent::Answer(true)) => ResolverState::Removing,
            (ResolverState::ConfirmingReset, ResolverEvent::Answer(false)) => ResolverState::Ready,
            (ResolverState::ConfirmingCreate, ResolverEvent::Answer(true)) => ResolverState::Creating,
            (ResolverState::ConfirmingCreate, ResolverEvent::Answer(false)) => ResolverState::Failed,
            (ResolverState::Removing, ResolverEvent::Done) => ResolverState::Creating,
            (ResolverState::Creating, ResolverEvent::Done) => ResolverState::Ready,
            (state, _) => state,
        };
        if after != ResolverState::Failed {
            self.failure = None;
        } else if before != ResolverState::Failed {
            self.failure = Some(describe_failure(before, &event, self.workspace.path.as_str()));
        }
        self.state = after;
        self.pending()
    }
}

/// No event of `events` is the operator's agreement.
pub open spec fn never_agreed(events: Seq<ResolverEvent>) -> bool {
    forall|i: int| 0 <= i < events.len() ==> #[trigger] events[i] != ResolverEvent::Answer(true)
}

/// One more event is one more step.
proof fn lemma_state_after_unfold(
    state: ResolverState,
    mode: WorkspaceMode,
    explicit: bool,
    events: Seq<ResolverEvent>,
    k: int,
)
    requires
        0 <= k < events.len(),
    ensures
        state_after(state, mode, explicit, events.take(k + 1)) == next_state(
            state_after(state, mode, explicit, events.take(k)),
            mode,
            explicit,
            events[k],
        ),
{
    assert(events.take(k + 1).drop_last() =~= events.take(k));
    assert(events.take(k + 1).last() == events[k]);
}

/// A directory is removed only with the operator's consent: whatever the
/// mode and whatever else is reported, as long as no answer is a yes the
/// resolver never asks for the removal.
pub proof fn lemma_removal_needs_consent(
    mode: WorkspaceMode,
    explicit: bool,
    events: Seq<ResolverEvent>,
    k: int,
)
    requires
        never_agreed(events),
        0 <= k <= events.len(),
    ensures
        state_after(ResolverState::Probing, mode, explicit, events.take(k))
            != ResolverState::Removing,
    decreases k,
{
    if k > 0 {
        lemma_removal_needs_consent(mode, explicit, events, k - 1);
        lemma_state_after_unfold(ResolverState::Probing, mode, explicit, events, k - 1);
        assert(events[k - 1] != ResolverEvent::Answer(true));
    }
}

/// A reset that the operator declines changes nothing: when a reset is
/// requested and the probe finds the directory, then as long as no answer
/// is a yes the resolver asks neither for a removal nor for a creation,
/// and a plain "no" makes the workspace ready as it is.
pub proof fn lemma_declined_reset_changes_nothing(explicit: bool, events: Seq<ResolverEvent>, k: int)
    requires
        never_agreed(events),
        events.len() > 0,
        events[0] == ResolverEvent::Exists(true),
        0 <= k <= events.len(),
    ensures
        !mutates(
            state_after(
                ResolverState::Probing,
                WorkspaceMode::PersistentReset,
                explicit,
                events.take(k),
            ),
        ),
        k >= 1 ==> state_after(
            ResolverState::Probing,
            WorkspaceMode::PersistentReset,
            explicit,
            events.take(k),
        ) != ResolverState::Probing,
        k == 2 && events[1] == ResolverEvent::Answer(false) ==> state_after(
            ResolverState::Probing,
            WorkspaceMode::PersistentReset,
            explicit,
            events.take(k),
        ) == ResolverState::Ready,
    decreases k,
{
    let mode = WorkspaceMode::PersistentReset;
    if k > 0 {
        lemma_declined_reset_changes_nothing(explicit, events, k - 1);
        lemma_state_after_unfold(ResolverState::Probing, mode, explicit, events, k - 1);
        assert(events[k - 1] != ResolverEvent::Answer(true));
        if k == 1 {
            assert(events.take(0) =~= Seq::<ResolverEvent>::empty());
        }
        if k == 2 {
            lemma_state_after_unfold(ResolverState::Probing, mode, explicit, events, 0);
            assert(events.take(0) =~= Seq::<ResolverEvent>::empty());
        }
    }
}

/// A persistent workspace at a path that the operator named is neither
/// created nor removed without consent: as long as no answer is a yes,
/// the resolver asks for no change on disk.
pub proof fn lemma_named_path_needs_consent(
    mode: WorkspaceMode,
    events: Seq<ResolverEvent>,
    k: int,
)
    requires
        mode != WorkspaceMode::Ephemeral,
        never_agreed(events),
        0 <= k <= events.len(),
    ensures
        !mutates(state_after(ResolverState::Probing, mode, true, events.take(k))),
    decreases k,
{
    if k > 0 {
        lemma_named_path_needs_consent(mode, events, k - 1);
        lemma_state_after_unfold(ResolverState::Probing, mode, true, events, k - 1);
        assert(events[k - 1] != ResolverEvent::Answer(true));
    }
}

/// A missing directory at a named path is never claimed as ready without
/// consent: when the probe does not find the named path of a persistent
/// workspace, then as long as no answer is a yes the workspace does not
/// become ready.
pub proof fn lemma_declined_creation_is_never_ready(
    mode: WorkspaceMode,
    events: Seq<ResolverEvent>,
    k: int,
)
    requires
        mode != WorkspaceMode::Ephemeral,
        never_agreed(events),
        events.len() > 0,
        events[0] == ResolverEvent::Exists(false),
        0 <= k <= events.len(),
    ensures
        state_after(ResolverState::Probing, mode, true, events.take(k)) != ResolverState::Ready,
        !mutates(state_after(ResolverState::Probing, mode, true, events.take(k))),
        k >= 1 ==> {
            ||| state_after(ResolverState::Probing, mode, true, events.take(k))
                == ResolverState::ConfirmingCreate
            ||| state_after(ResolverState::Probing, mode, true, events.take(k))
                == ResolverState::Failed
        },
    decreases k,
{
    if k > 0 {
        lemma_declined_creation_is_never_ready(mode, events, k - 1);
        lemma_state_after_unfold(ResolverState::Probing, mode, true, events, k - 1);
        assert(events[k - 1] != ResolverEvent::Answer(true));
    }
    if k <= 1 {
        assert(events.take(0) =~= Seq::<ResolverEvent>::empty());
    }
}

/// The ready and the failed state are final: no event leaves them.
pub proof fn lemma_final_states_absorb(
    state: ResolverState,
    mode: WorkspaceMode,
    explicit: bool,
    events: Seq<ResolverEvent>,
)
    requires
        state == ResolverState::Ready || state == ResolverState::Failed,
    ensures
        state_after(state, mode, explicit, events) == state,
    decreases events.len(),
{
    if events.len() > 0 {
        lemma_final_states_absorb(state, mode, explicit, events.drop_last());
    }
}

} // verus!
