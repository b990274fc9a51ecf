//! Where the workspace of a run lives.
//!
//! A persistent workspace is the directory the operator named, or a fixed
//! directory under the home directory. An ephemeral workspace gets a name
//! with a random suffix, under the named directory or the temporary root.

use vstd::prelude::*;
use crate::cli::WorkspaceMode;
use crate::error::{Error, ErrorKind, ErrorView};
use crate::paths::{
    current_dir, forbidden, inside, join_path, lemma_name_stays_below, parent_dir, separator,
    spec_join,
};

verus! {

/// Whether the workspace outlives the run.
#[derive(Clone, Copy, Debug, PartialEq, Eq, Structural)]
pub enum Durability {
    Persistent,
    Ephemeral,
}

/// The directory that holds the artifacts and in which the processes run.
#[derive(Clone, Debug)]
pub struct Workspace {
    pub path: String,
    pub durability: Durability,
}

/// The mathematical content of a [`Workspace`].
pub struct WorkspaceView {
    pub path: Seq<char>,
    pub durability: Durability,
}

impl View for Workspace {
    type V = WorkspaceView;

    open spec fn view(&self) -> WorkspaceView {
        WorkspaceView { path: self.path@, durability: self.durability }
    }
}

/// The number of characters in the suffix of an ephemeral directory.
pub const SUFFIX_LEN: usize = 10;

/// A letter of the English alphabet or a decimal digit.
pub open spec fn is_alphanumeric(c: char) -> bool {
    ('a' <= c && c <= 'z') || ('A' <= c && c <= 'Z') || ('0' <= c && c <= '9')
}

/// A suffix is ten letters or digits.
pub open spec fn valid_suffix(suffix: Seq<char>) -> bool {
    &&& suffix.len() == SUFFIX_LEN
    &&& forall|i: int| 0 <= i < suffix.len() ==> is_alphanumeric(#[trigger] suffix[i])
}

/// The name of the persistent workspace under the home directory.
pub open spec fn default_dir_name() -> Seq<char> {
    ".local-polkadot"@
}

/// The name of an ephemeral workspace with the given suffix.
pub open spec fn ephemeral_dir_name(suffix: Seq<char>) -> Seq<char> {
    ".tmp-local-polkadot-"@ + suffix
}

/// The directory under which an ephemeral workspace is made when the
/// operator named none.
pub open spec fn temp_root() -> Seq<char> {
    "/tmp"@
}

/// The failure of a persistent run without a named path and without a
/// home directory.
pub open spec fn missing_home() -> ErrorView {
    ErrorView {
        kind: ErrorKind::Configuration,
        resource: "HOME"@,
        cause: "home directory not found; name a directory with --path"@,
    }
}

/// The failure of an ephemeral run whose suffix is not ten letters or digits.
pub open spec fn bad_suffix(suffix: Seq<char>) -> ErrorView {
    ErrorView {
        kind: ErrorKind::Configuration,
        resource: suffix,
        cause: "the suffix of a throwaway directory is ten letters or digits"@,
    }
}

/// Where the workspace lives. An ephemeral workspace is named by its
/// suffix and needs no home directory; a persistent one is the named
/// path itself, or the default directory under the home directory.
pub open spec fn spec_locate(
    mode: WorkspaceMode,
    explicit: Option<Seq<char>>,
    home: Option<Seq<char>>,
    suffix: Seq<char>,
) -> Result<WorkspaceView, ErrorView> {
    if mode == WorkspaceMode::Ephemeral {
        if !valid_suffix(suffix) {
            Err(bad_suffix(suffix))
        } else {
            let root = match explicit {
                Some(p) => p,
                None => temp_root(),
            };
            Ok(
                WorkspaceView {
                    path: spec_join(root, ephemeral_dir_name(suffix)),
                    durability: Durability::Ephemeral,
                },
            )
        }
    } else {
        match explicit {
            Some(p) => Ok(WorkspaceView { path: p, durability: Durability::Persistent }),
            None => match home {
                Some(h) => Ok(
                    WorkspaceView {
                        path: spec_join(h, default_dir_name()),
                        durability: Durability::Persistent,
                    },
                ),
                None => Err(missing_home()),
            },
        }
    }
}

/// The text of an optional string.
pub open spec fn opt_text(s: Option<&str>) -> Option<Seq<char>> {
    match s {
        Some(t) => Some(t@),
        None => None,
    }
}

/// Whether the result `out` has the content `expected`.
pub open spec fn located_as(
    out: Result<Workspace, Error>,
    expected: Result<WorkspaceView, ErrorView>,
) -> bool {
    match out {
        Ok(w) => expected == Ok::<WorkspaceView, ErrorView>(w@),
        Err(e) => expected == Err::<WorkspaceView, ErrorView>(e@),
    }
}

/// Whether `c` is a letter of the English alphabet or a decimal digit.
pub fn check_alphanumeric(c: char) -> (ok: bool)
    ensures
        ok == is_alphanumeric(c),
{
    ('a' <= c && c <= 'z') || ('A' <= c && c <= 'Z') || ('0' <= c && c <= '9')
}

/// Whether `suffix` is ten letters or digits.
pub fn check_suffix(suffix: &str) -> (ok: bool)
    ensures
        ok == valid_suffix(suffix@),
{
    let n = suffix.unicode_len();
    if n != SUFFIX_LEN {
        return false;
    }
    let mut i: usize = 0;
    while i < n
        invariant
            i <= n,
            n == suffix@.len(),
            forall|j: int| 0 <= j < i ==> is_alphanumeric(#[trigger] suffix@[j]),
        decreases n - i,
    {
        if !check_alphanumeric(suffix.get_char(i)) {
            return false;
        }
        i = i + 1;
    }
    true
}

/// Locates the workspace for the given mode, named path, home directory
/// and suffix. The suffix is read in ephemeral mode only, the home
/// directory only in a persistent mode without a named path.
pub fn locate(
    mode: WorkspaceMode,
    explicit: Option<&str>,
    home: Option<&str>,
    suffix: &str,
) -> (out: Result<Workspace, Error>)
    ensures
        located_as(out, spec_locate(mode, opt_text(explicit), opt_text(home), suffix@)),
{
    match mode {
        WorkspaceMode::Ephemeral => {
            if !check_suffix(suffix) {
                return Err(
                    Error::new(
                        ErrorKind::Configuration,
                        suffix,
                        "the suffix of a throwaway directory is ten letters or digits",
                    ),
                );
            }
            let mut name = String::from_str(".tmp-local-polkadot-");
            name.append(suffix);
            let root = match explicit {
                Some(p) => p,
                None => "/tmp",
            };
            Ok(Workspace { path: join_path(root, name.as_str()), durability: Durability::Ephemeral })
        },
        _ => match explicit {
            Some(p) => Ok(Workspace { path: String::from_str(p), durability: Durability::Persistent }),
            None => match home {
                Some(h) => Ok(
                    Workspace {
                        path: join_path(h, ".local-polkadot"),
                        durability: Durability::Persistent,
                    },
                ),
                None => Err(
                    Error::new(
                        ErrorKind::Configuration,
                        "HOME",
                        "home directory not found; name a directory with --path",
                    ),
                ),
            },
        },
    }
}

/// `fastrand::alphanumeric` draws one character from the letters `a` to
/// `z`, `A` to `Z` and the digits; which one is left open.
pub assume_specification[ fastrand::alphanumeric ]() -> (c: char)
    ensures
        is_alphanumeric(c),
;

/// `String::push` appends the character to the end of the string.
pub assume_specification[ String::push ](text: &mut String, c: char)
    ensures
        final(text)@ == old(text)@.push(c),
;

/// Draws the suffix of an ephemeral directory: ten random letters or digits.
pub fn fresh_suffix() -> (suffix: String)
    ensures
        valid_suffix(suffix@),
{
    let mut suffix = String::new();
    let mut i: usize = 0;
    while i < SUFFIX_LEN
        invariant
            i <= SUFFIX_LEN,
            suffix@.len() == i,
            forall|j: int| 0 <= j < i ==> is_alphanumeric(#[trigger] suffix@[j]),
        decreases SUFFIX_LEN - i,
    {
        let c = fastrand::alphanumeric();
        suffix.push(c);
        i = i + 1;
    }
    suffix
}

/// Locates the workspace of a run, drawing the suffix that an ephemeral
/// workspace needs. Whatever suffix is drawn, the result is the one that
/// [`locate`] gives for it.
pub fn locate_fresh(mode: WorkspaceMode, explicit: Option<&str>, home: Option<&str>) -> (out: Result<
    Workspace,
    Error,
>)
    ensures
        exists|suffix: Seq<char>|
            valid_suffix(suffix) && #[trigger] located_as(
                out,
                spec_locate(mode, opt_text(explicit), opt_text(home), suffix),
            ),
{
    if mode == WorkspaceMode::Ephemeral {
        let suffix = fresh_suffix();
        let out = locate(mode, explicit, home, suffix.as_str());
        assert(located_as(out, spec_locate(mode, opt_text(explicit), opt_text(home), suffix@)));
        out
    } else {
        let out = locate(mode, explicit, home, "");
        proof {
            let any = Seq::new(SUFFIX_LEN as nat, |i: int| 'a');
            assert(valid_suffix(any));
            assert(located_as(out, spec_locate(mode, opt_text(explicit), opt_text(home), any)));
        }
        out
    }
}

/// The directory under which `spec_locate` puts a workspace that it names
/// itself: the named path or the temporary root for an ephemeral one, the
/// home directory for the default one.
pub open spec fn root_of(
    mode: WorkspaceMode,
    explicit: Option<Seq<char>>,
    home: Option<Seq<char>>,
) -> Option<Seq<char>> {
    if mode == WorkspaceMode::Ephemeral {
        match explicit {
            Some(p) => Some(p),
            None => Some(temp_root()),
        }
    } else if explicit.is_none() {
        home
    } else {
        None
    }
}

/// A workspace that is not the named path itself lies inside the
/// directory it is put under: its name is a plain name, whatever the
/// suffix.
pub proof fn lemma_workspace_is_under_its_root(
    mode: WorkspaceMode,
    explicit: Option<Seq<char>>,
    home: Option<Seq<char>>,
    suffix: Seq<char>,
)
    ensures
        spec_locate(mode, explicit, home, suffix) matches Ok(w) ==> (root_of(mode, explicit, home)
            matches Some(root) ==> inside(root, w.path)),
{
    reveal_strlit(".local-polkadot");
    reveal_strlit(".tmp-local-polkadot-");
    assert(parent_dir().len() == 2);
    assert(current_dir().len() == 1);
    if mode == WorkspaceMode::Ephemeral {
        if valid_suffix(suffix) {
            let name = ephemeral_dir_name(suffix);
            let prefix = ".tmp-local-polkadot-"@;
            assert forall|i: int| 0 <= i < name.len() implies name[i] != separator() && !forbidden(
                name[i],
            ) by {
                if i >= prefix.len() {
                    assert(name[i] == suffix[i - prefix.len()]);
                    assert(is_alphanumeric(suffix[i - prefix.len()]));
                } else {
                    assert(name[i] == prefix[i]);
                }
            }
            lemma_name_stays_below(name);
        }
    } else if explicit.is_none() && home.is_some() {
        lemma_name_stays_below(default_dir_name());
    }
}

} // verus!
