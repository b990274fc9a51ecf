//! The options of a run, as the command line hands them over.

use vstd::prelude::*;
use crate::error::{Error, ErrorKind, ErrorView};

verus! {

/// The options of a run.
#[derive(Clone, Debug)]
pub struct Cli {
    /// The workspace directory; the default lies under the home directory.
    pub path: Option<String>,
    /// Use a throwaway workspace that is removed at shutdown.
    pub tmp: bool,
    /// Wipe an existing workspace first, after confirmation.
    pub fresh: bool,
    /// Leave out the explorer: neither fetched nor started.
    pub skip_polkadotjs: bool,
    /// Accepted for the explorer-only invocation; the plan does not depend on it.
    pub only_polkadotjs: bool,
}

/// How the workspace is treated: the three modes exclude one another.
#[derive(Clone, Copy, Debug, PartialEq, Eq, Structural)]
pub enum WorkspaceMode {
    /// Kept between runs, used as it is found.
    Persistent,
    /// Kept between runs, wiped first if the operator agrees.
    PersistentReset,
    /// Unique to this run and removed at shutdown.
    Ephemeral,
}

/// The text of the failure that conflicting flags give.
pub open spec fn conflict_cause() -> Seq<char> {
    "a throwaway workspace cannot be reset"@
}

/// The resource that the failure of conflicting flags names.
pub open spec fn conflict_resource() -> Seq<char> {
    "--tmp --fresh"@
}

/// The mode that the two flags select, or the failure when both are set.
pub open spec fn spec_mode(tmp: bool, fresh: bool) -> Result<WorkspaceMode, ErrorView> {
    if tmp && fresh {
        Err(
            ErrorView {
                kind: ErrorKind::Configuration,
                resource: conflict_resource(),
                cause: conflict_cause(),
            },
        )
    } else if tmp {
        Ok(WorkspaceMode::Ephemeral)
    } else if fresh {
        Ok(WorkspaceMode::PersistentReset)
    } else {
        Ok(WorkspaceMode::Persistent)
    }
}

impl Cli {
    /// The workspace mode of this run. Asking for a throwaway workspace
    /// and for a reset together is a configuration error.
    pub fn mode(&self) -> (mode: Result<WorkspaceMode, Error>)
        ensures
            match mode {
                Ok(m) => spec_mode(self.tmp, self.fresh) == Ok::<WorkspaceMode, ErrorView>(m),
                Err(e) => spec_mode(self.tmp, self.fresh) == Err::<WorkspaceMode, ErrorView>(e@),
            },
    {
        if self.tmp && self.fresh {
            Err(
                Error::new(
                    ErrorKind::Configuration,
                    "--tmp --fresh",
                    "a throwaway workspace cannot be reset",
                ),
            )
        } else if self.tmp {
            Ok(WorkspaceMode::Ephemeral)
        } else if self.fresh {
            Ok(WorkspaceMode::PersistentReset)
        } else {
            Ok(WorkspaceMode::Persistent)
        }
    }

    /// Whether the explorer is part of this run.
    pub fn wants_explorer(&self) -> (wanted: bool)
        ensures
            wanted == !self.skip_polkadotjs,
    {
        !self.skip_polkadotjs
    }
}

} // verus!
