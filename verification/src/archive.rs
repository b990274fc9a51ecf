//! Unpacking an archive: which entry goes where, and which is left out.
//!
//! The archive is read with the `zip` crate; nothing is written here. The
//! plan lists, in the order of the archive, the directories to create and
//! the files to write under the destination, and the archive hands out
//! the contents of each file. An entry whose path would leave the
//! destination, or whose recorded name starts at a root, is left out, and
//! the rest is still unpacked; an archive of which nothing can be placed
//! is refused.

use vstd::prelude::*;
use crate::error::{Error, ErrorKind, ErrorView};
use crate::paths::{
    depth_below, inside, is_rooted, join_path, resolve_below, rooted, spec_join,
};

verus! {

/// The archive reader of the `zip` crate, carried as an opaque value.
#[verifier::external_type_specification]
#[verifier::external_body]
#[verifier::reject_recursive_types(R)]
pub struct ExZipArchive<R>(zip::ZipArchive<R>);

/// The in-memory reader of the standard library, carried as an opaque value.
#[verifier::external_type_specification]
#[verifier::external_body]
#[verifier::reject_recursive_types(T)]
pub struct ExCursor<T>(std::io::Cursor<T>);

/// The error of the `zip` crate, carried as an opaque value.
#[verifier::external_type_specification]
#[verifier::external_body]
pub struct ExZipError(zip::result::ZipError);

/// What an archive holds: for each index what `zip::ZipArchive::by_index`
/// answers, `None` where it fails, and else the entry's name as `name`
/// gives it (`None` where that fails), its name as `enclosed_name` gives
/// it, what `is_dir` says, and its `unix_mode`.
pub uninterp spec fn archive_entries(
    archive: zip::ZipArchive<std::io::Cursor<Vec<u8>>>,
) -> Seq<Option<(Option<Seq<char>>, Option<Seq<char>>, bool, Option<u32>)>>;

/// The contents of what an archive holds: for each index the bytes that
/// `zip::ZipArchive::by_index` followed by `read_to_end` gives, `None`
/// where either fails.
pub uninterp spec fn archive_contents(
    archive: zip::ZipArchive<std::io::Cursor<Vec<u8>>>,
) -> Seq<Option<Seq<u8>>>;

/// What `zip::ZipArchive::new` makes of the bytes of an archive: `None`
/// where it refuses them, and else what the archive that it returns
/// holds, entries first and contents second.
pub uninterp spec fn parsed_archive(bytes: Seq<u8>) -> Option<
    (
        Seq<Option<(Option<Seq<char>>, Option<Seq<char>>, bool, Option<u32>)>>,
        Seq<Option<Seq<u8>>>,
    ),
>;

/// One entry of an archive, as far as unpacking reads it.
#[derive(Clone, Debug)]
pub struct Entry {
    /// The name recorded for the entry, if it can be read as text.
    pub name: Option<String>,
    /// The path of the entry relative to the destination, if the archive
    /// reader found the recorded name safe to use.
    pub enclosed: Option<String>,
    /// Whether the entry is a directory.
    pub is_dir: bool,
    /// The permission bits recorded for the entry, if any.
    pub mode: Option<u32>,
}

/// The mathematical content of an [`Entry`].
pub struct EntryView {
    pub name: Option<Seq<char>>,
    pub enclosed: Option<Seq<char>>,
    pub is_dir: bool,
    pub mode: Option<u32>,
}

impl View for Entry {
    type V = EntryView;

    open spec fn view(&self) -> EntryView {
        EntryView {
            name: match self.name {
                Some(n) => Some(n@),
                None => None,
            },
            enclosed: match self.enclosed {
                Some(p) => Some(p@),
                None => None,
            },
            is_dir: self.is_dir,
            mode: self.mode,
        }
    }
}

/// One thing to do on disk.
#[derive(Clone, Debug)]
pub enum ExtractAction {
    /// Create the directory at `path` with its missing ancestors, then
    /// set its permission bits if `mode` holds any.
    MakeDir { path: String, mode: Option<u32> },
    /// Create the missing ancestors of `path`, write the contents of the
    /// entry number `index` to it, then set its permission bits if `mode`
    /// holds any.
    WriteFile { index: usize, path: String, mode: Option<u32> },
}

/// The mathematical content of an [`ExtractAction`].
pub enum ActionView {
    MakeDir { path: Seq<char>, mode: Option<u32> },
    WriteFile { index: int, path: Seq<char>, mode: Option<u32> },
}

impl View for ExtractAction {
    type V = ActionView;

    open spec fn view(&self) -> ActionView {
        match *self {
            ExtractAction::MakeDir { path, mode } => ActionView::MakeDir { path: path@, mode },
            ExtractAction::WriteFile { index, path, mode } => ActionView::WriteFile {
                index: index as int,
                path: path@,
                mode,
            },
        }
    }
}

impl ActionView {
    /// The path that the action creates or writes.
    pub open spec fn path(self) -> Seq<char> {
        match self {
            ActionView::MakeDir { path, .. } => path,
            ActionView::WriteFile { path, .. } => path,
        }
    }
}

/// The contents of a sequence of entries.
pub open spec fn entry_views(entries: Seq<Entry>) -> Seq<EntryView> {
    Seq::new(entries.len(), |i: int| entries[i]@)
}

/// The contents of a sequence of actions.
pub open spec fn action_views(actions: Seq<ExtractAction>) -> Seq<ActionView> {
    Seq::new(actions.len(), |i: int| actions[i]@)
}

/// Whether the name recorded for an entry starts at a root.
pub open spec fn recorded_at_root(name: Option<Seq<char>>) -> bool {
    match name {
        Some(n) => rooted(n),
        None => false,
    }
}

/// Where the entry number `index` goes under `root`, or `None` if it is
/// left out. An entry whose recorded name starts at a root is left out,
/// even where the archive reader would make the name relative. Any other
/// entry is placed if the archive reader found its name safe and the name
/// stays below the destination: a directory at any such place, the
/// destination itself included; a file only at a place strictly below
/// the destination.
pub open spec fn placement(entry: EntryView, index: int, root: Seq<char>) -> Option<ActionView> {
    if recorded_at_root(entry.name) {
        None
    } else {
        match entry.enclosed {
            None => None,
            Some(rel) => match resolve_below(rel) {
                None => None,
                Some(names) => {
                    if entry.is_dir {
                        Some(ActionView::MakeDir { path: spec_join(root, rel), mode: entry.mode })
                    } else if names.len() >= 1 {
                        Some(
                            ActionView::WriteFile {
                                index,
                                path: spec_join(root, rel),
                                mode: entry.mode,
                            },
                        )
                    } else {
                        None
                    }
                },
            },
        }
    }
}

/// The placements of the first `count` entries, in the order of the
/// archive, those that are left out skipped.
pub open spec fn placements(entries: Seq<EntryView>, root: Seq<char>, count: int) -> Seq<
    ActionView,
>
    decreases count,
{
    if count <= 0 {
        Seq::empty()
    } else {
        let before = placements(entries, root, count - 1);
        match placement(entries[count - 1], count - 1, root) {
            Some(action) => before.push(action),
            None => before,
        }
    }
}

/// The failure of an archive that has entries, none of which can be placed.
pub open spec fn nothing_placed(name: Seq<char>) -> ErrorView {
    ErrorView {
        kind: ErrorKind::Archive,
        resource: name,
        cause: "no entry of the archive stays inside the destination"@,
    }
}

/// The plan for the archive called `name` with the given entries: the
/// placements of all entries, or a failure if there are entries and none
/// of them is placed.
pub open spec fn spec_plan(name: Seq<char>, entries: Seq<EntryView>, root: Seq<char>) -> Result<
    Seq<ActionView>,
    ErrorView,
> {
    let actions = placements(entries, root, entries.len() as int);
    if entries.len() > 0 && actions.len() == 0 {
        Err(nothing_placed(name))
    } else {
        Ok(actions)
    }
}

/// Whether the result `out` has the content `expected`.
pub open spec fn planned_as(
    out: Result<Vec<ExtractAction>, Error>,
    expected: Result<Seq<ActionView>, ErrorView>,
) -> bool {
    match out {
        Ok(actions) => expected == Ok::<Seq<ActionView>, ErrorView>(action_views(actions@)),
        Err(e) => expected == Err::<Seq<ActionView>, ErrorView>(e@),
    }
}

/// The content of an optional action.
pub open spec fn opt_action(action: Option<ExtractAction>) -> Option<ActionView> {
    match action {
        Some(a) => Some(a@),
        None => None,
    }
}

/// Decides where the entry number `index` goes under `root`, if anywhere.
pub fn place(entry: &Entry, index: usize, root: &str) -> (action: Option<ExtractAction>)
    ensures
        opt_action(action) == placement(entry@, index as int, root@),
{
    if let Some(name) = &entry.name {
        if is_rooted(name.as_str()) {
            return None;
        }
    }
    match &entry.enclosed {
        None => None,
        Some(rel) => match depth_below(rel.as_str()) {
            None => None,
            Some(depth) => {
                if entry.is_dir {
                    Some(
                        ExtractAction::MakeDir {
                            path: join_path(root, rel.as_str()),
                            mode: entry.mode,
                        },
                    )
                } else if depth >= 1 {
                    Some(
                        ExtractAction::WriteFile {
                            index,
                            path: join_path(root, rel.as_str()),
                            mode: entry.mode,
                        },
                    )
                } else {
                    None
                }
            },
        },
    }
}

/// Plans the unpacking of the archive called `name`, whose entries are
/// `entries`, into `root`.
pub fn plan_entries(name: &str, entries: &Vec<Entry>, root: &str) -> (out: Result<
    Vec<ExtractAction>,
    Error,
>)
    ensures
        planned_as(out, spec_plan(name@, entry_views(entries@), root@)),
        out matches Ok(actions) ==> forall|k: int|
            0 <= k < actions@.len() ==> inside(root@, (#[trigger] actions@[k])@.path()),
{
    let mut actions: Vec<ExtractAction> = Vec::new();
    let mut i: usize = 0;
    while i < entries.len()
        invariant
            i <= entries.len(),
            action_views(actions@) == placements(entry_views(entries@), root@, i as int),
        decreases entries.len() - i,
    {
        let ghost before = action_views(actions@);
        match place(&entries[i], i, root) {
            Some(action) => {
                actions.push(action);
                assert(action_views(actions@) =~= before.push(action@));
            },
            None => {},
        }
        i = i + 1;
    }
    if entries.len() > 0 && actions.len() == 0 {
        Err(
            Error::new(
                ErrorKind::Archive,
                name,
                "no entry of the archive stays inside the destination",
            ),
        )
    } else {
        proof {
            lemma_plan_stays_inside(entry_views(entries@), root@, entries@.len() as int);
            assert forall|k: int| 0 <= k < actions@.len() implies inside(
                root@,
                (#[trigger] actions@[k])@.path(),
            ) by {
                assert(action_views(actions@)[k] == actions@[k]@);
            }
        }
        Ok(actions)
    }
}

/// An entry as the tuple that [`archive_entries`] holds.
pub open spec fn as_tuple(entry: EntryView) -> (
    Option<Seq<char>>,
    Option<Seq<char>>,
    bool,
    Option<u32>,
) {
    (entry.name, entry.enclosed, entry.is_dir, entry.mode)
}

/// A tuple of [`archive_entries`] as an entry.
pub open spec fn from_tuple(
    tuple: (Option<Seq<char>>, Option<Seq<char>>, bool, Option<u32>),
) -> EntryView {
    EntryView { name: tuple.0, enclosed: tuple.1, is_dir: tuple.2, mode: tuple.3 }
}

/// The entries behind a sequence of tuples.
pub open spec fn from_tuples(
    tuples: Seq<Option<(Option<Seq<char>>, Option<Seq<char>>, bool, Option<u32>)>>,
) -> Seq<Option<EntryView>> {
    Seq::new(
        tuples.len(),
        |i: int|
            match tuples[i] {
                Some(tuple) => Some(from_tuple(tuple)),
                None => None,
            },
    )
}

/// What the bytes of an archive hold, entry by entry, or `None` if they
/// are refused as an archive.
pub open spec fn parsed(bytes: Seq<u8>) -> Option<Seq<Option<EntryView>>> {
    match parsed_archive(bytes) {
        Some(held) => Some(from_tuples(held.0)),
        None => None,
    }
}

/// The contents that the bytes of an archive hold, entry by entry, or
/// `None` if they are refused as an archive.
pub open spec fn parsed_contents(bytes: Seq<u8>) -> Option<Seq<Option<Seq<u8>>>> {
    match parsed_archive(bytes) {
        Some(held) => Some(held.1),
        None => None,
    }
}

/// Opens an archive held in memory, with `zip::ZipArchive::new` on a
/// cursor over the bytes. Whether the bytes are accepted, and what the
/// archive then holds, depends on the bytes alone.
#[verifier::external_body]
fn open_archive(bytes: Vec<u8>) -> (out: Result<
    zip::ZipArchive<std::io::Cursor<Vec<u8>>>,
    zip::result::ZipError,
>)
    ensures
        match out {
            Ok(archive) => parsed_archive(bytes@) == Some(
                (archive_entries(archive), archive_contents(archive)),
            ),
            Err(_) => parsed_archive(bytes@).is_none(),
        },
{
    zip::ZipArchive::new(std::io::Cursor::new(bytes))
}

/// The number of entries, from `zip::ZipArchive::len`: the length of
/// what the archive holds, entries and contents alike.
#[verifier::external_body]
fn archive_len(archive: &zip::ZipArchive<std::io::Cursor<Vec<u8>>>) -> (n: usize)
    ensures
        n == archive_entries(*archive).len(),
        n == archive_contents(*archive).len(),
{
    archive.len()
}

/// Reads the entry number `index` with `zip::ZipArchive::by_index` and
/// hands out its `name`, `enclosed_name`, `is_dir` and `unix_mode`. The
/// archive holds afterwards what it held before; the call fails exactly
/// where the archive holds no entry at that index, which includes every
/// index from its length on.
#[verifier::external_body]
fn read_entry(archive: &mut zip::ZipArchive<std::io::Cursor<Vec<u8>>>, index: usize) -> (out:
    Result<Entry, zip::result::ZipError>)
    ensures
        archive_entries(*final(archive)) == archive_entries(*old(archive)),
        archive_contents(*final(archive)) == archive_contents(*old(archive)),
        match out {
            Ok(entry) => index < archive_entries(*old(archive)).len() && archive_entries(
                *old(archive),
            )[index as int] == Some(as_tuple(entry@)),
            Err(_) => index < archive_entries(*old(archive)).len() ==> archive_entries(
                *old(archive),
            )[index as int].is_none(),
        },
{
    let file = archive.by_index(index)?;
    let name = file.name().ok().map(|n| n.into_owned());
    let enclosed = file.enclosed_name().and_then(|p| p.into_os_string().into_string().ok());
    Ok(Entry { name, enclosed, is_dir: file.is_dir(), mode: file.unix_mode() })
}

/// Reads the contents of the entry number `index`, with
/// `zip::ZipArchive::by_index` and `read_to_end`. The archive holds
/// afterwards what it held before; the call gives the contents that the
/// archive holds at that index, and fails exactly where it holds none,
/// which includes every index from its length on. It succeeds only where
/// the archive holds an entry.
#[verifier::external_body]
fn read_contents(archive: &mut zip::ZipArchive<std::io::Cursor<Vec<u8>>>, index: usize) -> (out:
    Result<Vec<u8>, zip::result::ZipError>)
    ensures
        archive_entries(*final(archive)) == archive_entries(*old(archive)),
        archive_contents(*final(archive)) == archive_contents(*old(archive)),
        match out {
            Ok(bytes) => {
                &&& index < archive_contents(*old(archive)).len()
                &&& archive_contents(*old(archive))[index as int] == Some(bytes@)
                &&& index < archive_entries(*old(archive)).len()
                &&& archive_entries(*old(archive))[index as int].is_some()
            },
            Err(_) => index < archive_contents(*old(archive)).len() ==> archive_contents(
                *old(archive),
            )[index as int].is_none(),
        },
{
    let mut file = archive.by_index(index)?;
    let mut bytes = Vec::new();
    std::io::Read::read_to_end(&mut file, &mut bytes)?;
    Ok(bytes)
}

/// The text of an error of the archive reader, from its `Display`.
#[verifier::external_body]
fn describe_zip_error(error: &zip::result::ZipError) -> (text: String)
{
    format!("{}", error)
}

/// An archive held in memory, with the name under which failures report it.
pub struct Archive {
    name: String,
    inner: zip::ZipArchive<std::io::Cursor<Vec<u8>>>,
}

/// Whether every entry can be read.
pub open spec fn all_readable(entries: Seq<Option<EntryView>>) -> bool {
    forall|i: int| 0 <= i < entries.len() ==> (#[trigger] entries[i]).is_some()
}

/// The entries of an archive all of whose entries can be read.
pub open spec fn readable(entries: Seq<Option<EntryView>>) -> Seq<EntryView> {
    Seq::new(entries.len(), |i: int| entries[i].unwrap())
}

impl Archive {
    /// The name under which failures report the archive.
    pub closed spec fn spec_name(&self) -> Seq<char> {
        self.name@
    }

    /// What the archive holds at each index: an entry, or `None` where
    /// the entry cannot be read.
    pub closed spec fn entries(&self) -> Seq<Option<EntryView>> {
        from_tuples(archive_entries(self.inner))
    }

    /// The contents that the archive holds at each index, or `None`
    /// where they cannot be read.
    pub closed spec fn contents(&self) -> Seq<Option<Seq<u8>>> {
        archive_contents(self.inner)
    }

    /// Opens the archive that `bytes` holds. Succeeds exactly if the
    /// bytes are accepted as an archive, and the archive then holds the
    /// entries and the contents that the bytes hold; a failure is an
    /// archive error that names the archive.
    pub fn open(name: &str, bytes: Vec<u8>) -> (out: Result<Archive, Error>)
        ensures
            match out {
                Ok(archive) => {
                    &&& archive.spec_name() == name@
                    &&& parsed(bytes@) == Some(archive.entries())
                    &&& parsed_contents(bytes@) == Some(archive.contents())
                },
                Err(e) => {
                    &&& e.kind == ErrorKind::Archive
                    &&& e.resource@ == name@
                    &&& parsed(bytes@).is_none()
                },
            },
    {
        match open_archive(bytes) {
            Ok(inner) => Ok(Archive { name: String::from_str(name), inner }),
            Err(error) => Err(
                Error::new(ErrorKind::Archive, name, describe_zip_error(&error).as_str()),
            ),
        }
    }

    /// The number of entries, each of which has its contents.
    pub fn len(&self) -> (n: usize)
        ensures
            n == self.entries().len(),
            n == self.contents().len(),
    {
        archive_len(&self.inner)
    }

    /// The entry number `index`. Fails, with an archive error that names
    /// the archive, exactly if the archive has no readable entry there.
    pub fn entry(&mut self, index: usize) -> (out: Result<Entry, Error>)
        ensures
            final(self).entries() == old(self).entries(),
            final(self).contents() == old(self).contents(),
            final(self).spec_name() == old(self).spec_name(),
            match out {
                Ok(entry) => index < old(self).entries().len() && old(self).entries()[index as int]
                    == Some(entry@),
                Err(e) => {
                    &&& e.kind == ErrorKind::Archive
                    &&& e.resource@ == old(self).spec_name()
                    &&& index < old(self).entries().len() ==> old(self).entries()[index as int].is_none()
                },
            },
    {
        match read_entry(&mut self.inner, index) {
            Ok(entry) => Ok(entry),
            Err(error) => Err(
                Error::new(
                    ErrorKind::Archive,
                    self.name.as_str(),
                    describe_zip_error(&error).as_str(),
                ),
            ),
        }
    }

    /// The contents of the entry number `index`: the bytes that the
    /// archive holds there. Fails, with an archive error that names the
    /// archive, exactly if the archive holds no readable contents there;
    /// where it holds contents it holds an entry.
    pub fn read_file(&mut self, index: usize) -> (out: Result<Vec<u8>, Error>)
        ensures
            final(self).entries() == old(self).entries(),
            final(self).contents() == old(self).contents(),
            final(self).spec_name() == old(self).spec_name(),
            match out {
                Ok(bytes) => {
                    &&& index < old(self).contents().len()
                    &&& old(self).contents()[index as int] == Some(bytes@)
                    &&& index < old(self).entries().len()
                    &&& old(self).entries()[index as int].is_some()
                },
                Err(e) => {
                    &&& e.kind == ErrorKind::Archive
                    &&& e.resource@ == old(self).spec_name()
                    &&& index < old(self).contents().len() ==> old(self).contents()[index as int].is_none()
                },
            },
    {
        match read_contents(&mut self.inner, index) {
            Ok(bytes) => Ok(bytes),
            Err(error) => Err(
                Error::new(
                    ErrorKind::Archive,
                    self.name.as_str(),
                    describe_zip_error(&error).as_str(),
                ),
            ),
        }
    }

    /// Plans the unpacking of the archive into `root`. The plan is the one
    /// that [`spec_plan`] gives for the entries; it fails, with an archive
    /// error that names the archive, exactly if an entry cannot be read or
    /// if there are entries and none can be placed.
    pub fn plan_extraction(&mut self, root: &str) -> (out: Result<Vec<ExtractAction>, Error>)
        ensures
            final(self).entries() == old(self).entries(),
            final(self).contents() == old(self).contents(),
            final(self).spec_name() == old(self).spec_name(),
            match out {
                Ok(actions) => {
                    &&& all_readable(old(self).entries())
                    &&& spec_plan(old(self).spec_name(), readable(old(self).entries()), root@)
                        == Ok::<Seq<ActionView>, ErrorView>(action_views(actions@))
                    &&& forall|k: int|
                        0 <= k < actions@.len() ==> inside(root@, (#[trigger] actions@[k])@.path())
                },
                Err(e) => {
                    &&& e.kind == ErrorKind::Archive
                    &&& e.resource@ == old(self).spec_name()
                    &&& all_readable(old(self).entries()) ==> spec_plan(
                        old(self).spec_name(),
                        readable(old(self).entries()),
                        root@,
                    ) == Err::<Seq<ActionView>, ErrorView>(e@)
                },
            },
    {
        let n = self.len();
        let mut entries: Vec<Entry> = Vec::new();
        let mut i: usize = 0;
        while i < n
            invariant
                i <= n,
                n == old(self).entries().len(),
                self.entries() == old(self).entries(),
                self.contents() == old(self).contents(),
                self.spec_name() == old(self).spec_name(),
                entries.len() == i,
                forall|j: int|
                    0 <= j < i ==> (#[trigger] old(self).entries()[j]) == Some(entries[j]@),
            decreases n - i,
        {
            match self.entry(i) {
                Ok(entry) => {
                    entries.push(entry);
                },
                Err(e) => {
                    assert(!all_readable(old(self).entries()));
                    return Err(e);
                },
            }
            i = i + 1;
        }
        assert(all_readable(old(self).entries()));
        assert(entry_views(entries@) =~= readable(old(self).entries()));
        plan_entries(self.name.as_str(), &entries, root)
    }
}

/// Nothing is written outside the destination: every action of a plan
/// creates or writes a path inside `root`, whatever the entries are.
pub proof fn lemma_plan_stays_inside(entries: Seq<EntryView>, root: Seq<char>, count: int)
    requires
        0 <= count <= entries.len(),
    ensures
        forall|k: int|
            0 <= k < placements(entries, root, count).len() ==> inside(
                root,
                (#[trigger] placements(entries, root, count)[k]).path(),
            ),
    decreases count,
{
    if count > 0 {
        lemma_plan_stays_inside(entries, root, count - 1);
        let before = placements(entries, root, count - 1);
        let now = placements(entries, root, count);
        let entry = entries[count - 1];
        assert forall|k: int| 0 <= k < now.len() implies inside(root, (#[trigger] now[k]).path()) by {
            if k < before.len() {
                assert(now[k] == before[k]);
            } else {
                let rel = entry.enclosed.unwrap();
                assert(resolve_below(rel).is_some());
                assert(now[k].path() == spec_join(root, rel));
            }
        }
    }
}

/// An entry that is left out takes nothing else with it: every entry
/// that can be placed is in the plan, and the plan holds nothing else.
pub proof fn lemma_plan_holds_what_can_be_placed(
    entries: Seq<EntryView>,
    root: Seq<char>,
    count: int,
    action: ActionView,
)
    requires
        0 <= count <= entries.len(),
    ensures
        placements(entries, root, count).contains(action) <==> exists|i: int|
            0 <= i < count && #[trigger] placement(entries[i], i, root) == Some(action),
    decreases count,
{
    if count > 0 {
        lemma_plan_holds_what_can_be_placed(entries, root, count - 1, action);
        let before = placements(entries, root, count - 1);
        let now = placements(entries, root, count);
        let last = placement(entries[count - 1], count - 1, root);
        if before.contains(action) {
            let k = choose|k: int| 0 <= k < before.len() && before[k] == action;
            assert(now[k] == action);
        }
        if last == Some(action) {
            assert(now[now.len() - 1] == action);
        }
        if now.contains(action) {
            let k = choose|k: int| 0 <= k < now.len() && now[k] == action;
            if k < before.len() {
                assert(before[k] == action);
            } else {
                assert(last == Some(action));
            }
        }
    }
}

/// A file of the plan is an entry of the archive: every file to write
/// names, by its number, an entry that is no directory, and is written
/// where that entry is placed.
pub proof fn lemma_written_files_are_entries(
    entries: Seq<EntryView>,
    root: Seq<char>,
    count: int,
    k: int,
)
    requires
        0 <= count <= entries.len(),
        0 <= k < placements(entries, root, count).len(),
        placements(entries, root, count)[k] is WriteFile,
    ensures
        ({
            let action = placements(entries, root, count)[k];
            &&& 0 <= action->WriteFile_index < count
            &&& !entries[action->WriteFile_index].is_dir
            &&& placement(entries[action->WriteFile_index], action->WriteFile_index, root) == Some(
                action,
            )
        }),
    decreases count,
{
    if count > 0 {
        let before = placements(entries, root, count - 1);
        if k < before.len() {
            lemma_written_files_are_entries(entries, root, count - 1, k);
        }
    }
}

} // verus!
