//! Workspace lifecycle and process supervision for a local Polkadot
//! development environment.
//!
//! The library decides; its caller acts. Creating and removing
//! directories, downloading, prompting, writing files and starting and
//! killing processes are performed by the caller, which reports the
//! outcome back. Three things the library does itself: it reads an archive
//! held in memory, it draws the random suffix of an ephemeral workspace,
//! and it searches for the package manager along the search path. What is
//! decided here is stated in contracts and proved: where the workspace
//! lives, when it may be wiped, which artifacts are fetched, where an
//! archive entry may be written, in which order the processes die and
//! when an ephemeral workspace is removed.

pub mod acquire;
pub mod archive;
pub mod cli;
pub mod error;
pub mod paths;
pub mod resolver;
pub mod shutdown;
pub mod supervisor;
pub mod workspace;
