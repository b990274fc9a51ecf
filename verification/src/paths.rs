//! Paths as text: joining a segment onto a directory, and deciding whether
//! a relative path stays below the directory it is joined onto.

use vstd::prelude::*;

verus! {

/// The separator between the components of a path.
pub open spec fn separator() -> char {
    '/'
}

/// `part` appended to the directory `base`: an empty side yields the
/// other, and exactly one separator stands between the two.
pub open spec fn spec_join(base: Seq<char>, part: Seq<char>) -> Seq<char> {
    if part.len() == 0 {
        base
    } else if base.len() == 0 {
        part
    } else if base.last() == separator() {
        base + part
    } else {
        base.push(separator()) + part
    }
}

/// Joins `part` onto the directory `base`.
pub fn join_path(base: &str, part: &str) -> (out: String)
    ensures
        out@ == spec_join(base@, part@),
{
    let base_len = base.unicode_len();
    let part_len = part.unicode_len();
    if part_len == 0 {
        String::from_str(base)
    } else if base_len == 0 {
        String::from_str(part)
    } else {
        let mut out = String::from_str(base);
        if base.get_char(base_len - 1) != '/' {
            proof {
                reveal_strlit("/");
                assert("/"@ =~= seq!['/']);
            }
            out.append("/");
        }
        out.append(part);
        out
    }
}

/// The characters of `text`, as a vector.
pub fn chars_of(text: &str) -> (out: Vec<char>)
    ensures
        out@ == text@,
{
    let mut out: Vec<char> = Vec::new();
    for c in it: text.chars()
        invariant
            it.seq() == text@,
            out@ == it.seq().take(it.index()),
    {
        out.push(c);
        assert(it.seq().take(it.index() + 1) =~= it.seq().take(it.index()).push(c));
    }
    assert(text@.take(text@.len() as int) =~= text@);
    out
}

/// The components of a path: the pieces between its separators. A path
/// without a separator is one component; two separators in a row, or one
/// at either end, give an empty component.
pub open spec fn components(path: Seq<char>) -> Seq<Seq<char>>
    decreases path.len(),
{
    if path.len() == 0 {
        seq![Seq::<char>::empty()]
    } else {
        let before = components(path.drop_last());
        if path.last() == separator() {
            before.push(Seq::<char>::empty())
        } else {
            before.drop_last().push(before.last().push(path.last()))
        }
    }
}

/// The component that names the directory above.
pub open spec fn parent_dir() -> Seq<char> {
    seq!['.', '.']
}

/// The component that names the directory itself.
pub open spec fn current_dir() -> Seq<char> {
    seq!['.']
}

/// One component further on a walk that started at some directory:
/// `below` holds the names between that directory and the place reached,
/// or `None` once the walk has climbed above it. An empty component and
/// the current directory stay, the parent directory goes one name up,
/// any other component goes one name down.
pub open spec fn walk_step(below: Option<Seq<Seq<char>>>, component: Seq<char>) -> Option<
    Seq<Seq<char>>,
> {
    match below {
        None => None,
        Some(names) => {
            if component == parent_dir() {
                if names.len() == 0 {
                    None
                } else {
                    Some(names.drop_last())
                }
            } else if component.len() == 0 || component == current_dir() {
                Some(names)
            } else {
                Some(names.push(component))
            }
        },
    }
}

/// The walk along `steps` from the place that `from` describes.
pub open spec fn walk_from(from: Option<Seq<Seq<char>>>, steps: Seq<Seq<char>>) -> Option<
    Seq<Seq<char>>,
>
    decreases steps.len(),
{
    if steps.len() == 0 {
        from
    } else {
        walk_step(walk_from(from, steps.drop_last()), steps.last())
    }
}

/// A character that no relative path may hold: the NUL character, and
/// the backslash, which some platforms read as a separator.
pub open spec fn forbidden(c: char) -> bool {
    c == '\0' || c == '\\'
}

/// Whether `path` holds a forbidden character.
pub open spec fn has_forbidden(path: Seq<char>) -> bool {
    exists|i: int| 0 <= i < path.len() && forbidden(#[trigger] path[i])
}

/// Whether a name starts at a root: with the separator, or with the
/// backslash that some platforms read as one.
pub open spec fn rooted(name: Seq<char>) -> bool {
    name.len() > 0 && (name[0] == separator() || name[0] == '\\')
}

/// Where a relative path leads: the names between the directory it is
/// joined onto and the place it names. `None` if the path is absolute,
/// holds a forbidden character, or at some point climbs above that
/// directory, even if it comes back down afterwards.
pub open spec fn resolve_below(path: Seq<char>) -> Option<Seq<Seq<char>>> {
    if has_forbidden(path) || (path.len() > 0 && path[0] == separator()) {
        None
    } else {
        walk_from(Some(Seq::<Seq<char>>::empty()), components(path))
    }
}

/// What the scan of a path has established after its first `i` characters.
spec fn scanned(
    chars: Seq<char>,
    i: int,
    bad: bool,
    escaped: bool,
    depth: int,
    len: int,
    dots: bool,
) -> bool {
    let parts = components(chars.take(i));
    let closed = walk_from(Some(Seq::<Seq<char>>::empty()), parts.drop_last());
    &&& parts.len() >= 1
    &&& bad == has_forbidden(chars.take(i))
    &&& escaped == closed.is_none()
    &&& !escaped ==> closed.unwrap().len() == depth
    &&& parts.last().len() == len
    &&& dots == (forall|j: int| 0 <= j < parts.last().len() ==> parts.last()[j] == '.')
    &&& depth + len <= i
}

/// Scanning one more character.
proof fn lemma_scan_char(
    chars: Seq<char>,
    i: int,
    bad: bool,
    escaped: bool,
    depth: int,
    len: int,
    dots: bool,
)
    requires
        0 <= i < chars.len(),
        scanned(chars, i, bad, escaped, depth, len, dots),
    ensures
        ({
            let c = chars[i];
            let bad2 = bad || forbidden(c);
            if c == separator() {
                if escaped {
                    scanned(chars, i + 1, bad2, true, depth, 0, true)
                } else if dots && len == 2 {
                    if depth == 0 {
                        scanned(chars, i + 1, bad2, true, depth, 0, true)
                    } else {
                        scanned(chars, i + 1, bad2, false, depth - 1, 0, true)
                    }
                } else if len == 0 || (dots && len == 1) {
                    scanned(chars, i + 1, bad2, false, depth, 0, true)
                } else {
                    scanned(chars, i + 1, bad2, false, depth + 1, 0, true)
                }
            } else {
                scanned(chars, i + 1, bad2, escaped, depth, len + 1, dots && c == '.')
            }
        }),
{
    let c = chars[i];
    let before = chars.take(i);
    let after = chars.take(i + 1);
    assert(after.drop_last() =~= before);
    assert(after.last() == c);
    assert(after =~= before.push(c));
    let parts = components(before);
    let parts2 = components(after);
    let cur = parts.last();
    assert(has_forbidden(after) == (has_forbidden(before) || forbidden(c))) by {
        if has_forbidden(before) {
            let k = choose|k: int| 0 <= k < before.len() && forbidden(#[trigger] before[k]);
            assert(after[k] == before[k]);
        }
        if forbidden(c) {
            assert(after[i] == c);
        }
        if has_forbidden(after) {
            let k = choose|k: int| 0 <= k < after.len() && forbidden(#[trigger] after[k]);
            if k < i {
                assert(before[k] == after[k]);
            }
        }
    }
    if c == separator() {
        assert(parts2 == parts.push(Seq::<char>::empty()));
        assert(parts2.drop_last() =~= parts);
        assert(parts.drop_last().len() + 1 == parts.len());
        lemma_classify(cur, len, dots);
    } else {
        assert(parts2 == parts.drop_last().push(cur.push(c)));
        assert(parts2.drop_last() =~= parts.drop_last());
        assert(parts2.last() == cur.push(c));
        let cur2 = cur.push(c);
        if dots && c == '.' {
            assert forall|j: int| 0 <= j < cur2.len() implies cur2[j] == '.' by {
                if j < cur.len() {
                    assert(cur2[j] == cur[j]);
                }
            }
        } else if !dots {
            let j = choose|j: int| 0 <= j < cur.len() && cur[j] != '.';
            assert(cur2[j] == cur[j]);
        } else {
            assert(cur2[cur.len() as int] == c);
        }
    }
}

/// A component is the parent directory exactly if it is two dots, and the
/// current directory exactly if it is one.
proof fn lemma_classify(component: Seq<char>, len: int, dots: bool)
    requires
        component.len() == len,
        dots == (forall|j: int| 0 <= j < component.len() ==> component[j] == '.'),
    ensures
        (component == parent_dir()) == (dots && len == 2),
        (component == current_dir()) == (dots && len == 1),
{
    if dots && len == 2 {
        assert(component =~= parent_dir());
    }
    if dots && len == 1 {
        assert(component =~= current_dir());
    }
    if component == parent_dir() {
        assert(component.len() == 2);
        assert(component[0] == '.' && component[1] == '.');
    }
    if component == current_dir() {
        assert(component.len() == 1);
        assert(component[0] == '.');
    }
}

/// Whether `name` starts at a root.
pub fn is_rooted(name: &str) -> (yes: bool)
    ensures
        yes == rooted(name@),
{
    if name.unicode_len() == 0 {
        false
    } else {
        let first = name.get_char(0);
        first == '/' || first == '\\'
    }
}

/// How deep below the directory it is joined onto the relative path
/// `path` leads: the number of names between the two. `None` if the path
/// is absolute, holds a NUL character or a backslash, or climbs above
/// that directory.
pub fn depth_below(path: &str) -> (depth: Option<usize>)
    ensures
        match depth {
            Some(d) => resolve_below(path@) matches Some(names) && names.len() == d,
            None => resolve_below(path@).is_none(),
        },
{
    let chars = chars_of(path);
    let n = chars.len();
    if n > 0 && chars[0] == '/' {
        return None;
    }
    let mut bad = false;
    let mut escaped = false;
    let mut depth: usize = 0;
    let mut len: usize = 0;
    let mut dots = true;
    let mut i: usize = 0;
    proof {
        assert(chars@.take(0) =~= Seq::<char>::empty());
        let parts = components(chars@.take(0));
        assert(parts =~= seq![Seq::<char>::empty()]);
        assert(parts.drop_last() =~= Seq::<Seq<char>>::empty());
    }
    while i < n
        invariant
            i <= n,
            n == chars@.len(),
            scanned(chars@, i as int, bad, escaped, depth as int, len as int, dots),
        decreases n - i,
    {
        let c = chars[i];
        proof {
            lemma_scan_char(chars@, i as int, bad, escaped, depth as int, len as int, dots);
        }
        if c == '\0' || c == '\\' {
            bad = true;
        }
        if c == '/' {
            if !escaped {
                if dots && len == 2 {
                    if depth == 0 {
                        escaped = true;
                    } else {
                        depth = depth - 1;
                    }
                } else if !(len == 0 || (dots && len == 1)) {
                    depth = depth + 1;
                }
            }
            len = 0;
            dots = true;
        } else {
            len = len + 1;
            dots = dots && c == '.';
        }
        i = i + 1;
    }
    proof {
        assert(chars@.take(n as int) =~= chars@);
        let parts = components(chars@);
        lemma_classify(parts.last(), len as int, dots);
        assert(parts =~= parts.drop_last().push(parts.last()));
    }
    if bad || escaped {
        return None;
    }
    if dots && len == 2 {
        if depth == 0 {
            None
        } else {
            Some(depth - 1)
        }
    } else if len == 0 || (dots && len == 1) {
        Some(depth)
    } else {
        Some(depth + 1)
    }
}

/// Whether `path` is `root` joined with a relative path that stays below
/// the directory it is joined onto.
pub open spec fn inside(root: Seq<char>, path: Seq<char>) -> bool {
    exists|rel: Seq<char>| path == spec_join(root, rel) && (#[trigger] resolve_below(rel)).is_some()
}

/// A path has at least one component.
pub proof fn lemma_components_nonempty(path: Seq<char>)
    ensures
        components(path).len() >= 1,
    decreases path.len(),
{
    if path.len() > 0 {
        lemma_components_nonempty(path.drop_last());
    }
}

/// The components of two paths with a separator between them are the
/// components of the first followed by those of the second.
pub proof fn lemma_components_of_joined(first: Seq<char>, second: Seq<char>)
    ensures
        components(first.push(separator()) + second) == components(first) + components(second),
    decreases second.len(),
{
    let head = first.push(separator());
    if second.len() == 0 {
        assert(head + second =~= head);
        assert(head.drop_last() =~= first);
        assert(components(head) == components(first).push(Seq::<char>::empty()));
        assert(components(first).push(Seq::<char>::empty()) =~= components(first) + components(
            second,
        ));
    } else {
        let shorter = second.drop_last();
        let c = second.last();
        lemma_components_of_joined(first, shorter);
        lemma_components_nonempty(shorter);
        assert((head + second).drop_last() =~= head + shorter);
        assert((head + second).last() == c);
        let left = components(first);
        let right = components(shorter);
        if c == separator() {
            assert((left + right).push(Seq::<char>::empty()) =~= left + right.push(
                Seq::<char>::empty(),
            ));
        } else {
            assert((left + right).drop_last() =~= left + right.drop_last());
            assert((left + right).last() == right.last());
            assert((left + right.drop_last()).push(right.last().push(c)) =~= left
                + right.drop_last().push(right.last().push(c)));
        }
    }
}

/// A walk along two stretches is the walk along the second from where
/// the first has led.
pub proof fn lemma_walk_in_two(
    from: Option<Seq<Seq<char>>>,
    first: Seq<Seq<char>>,
    second: Seq<Seq<char>>,
)
    ensures
        walk_from(from, first + second) == walk_from(walk_from(from, first), second),
    decreases second.len(),
{
    if second.len() == 0 {
        assert(first + second =~= first);
    } else {
        lemma_walk_in_two(from, first, second.drop_last());
        assert((first + second).drop_last() =~= first + second.drop_last());
        assert((first + second).last() == second.last());
    }
}

/// A walk that stays below its starting point leads to the same names
/// from any starting point.
pub proof fn lemma_walk_from_deeper(
    start: Seq<Seq<char>>,
    steps: Seq<Seq<char>>,
    names: Seq<Seq<char>>,
)
    requires
        walk_from(Some(Seq::<Seq<char>>::empty()), steps) == Some(names),
    ensures
        walk_from(Some(start), steps) == Some(start + names),
    decreases steps.len(),
{
    if steps.len() == 0 {
        assert(start + names =~= start);
    } else {
        let before = walk_from(Some(Seq::<Seq<char>>::empty()), steps.drop_last());
        assert(before.is_some());
        let reached = before.unwrap();
        lemma_walk_from_deeper(start, steps.drop_last(), reached);
        let c = steps.last();
        if c == parent_dir() {
            assert((start + reached).drop_last() =~= start + reached.drop_last());
        } else if c.len() == 0 || c == current_dir() {
        } else {
            assert((start + reached).push(c) =~= start + reached.push(c));
        }
    }
}

/// A lone empty component leads nowhere else.
proof fn lemma_walk_empty_component(from: Option<Seq<Seq<char>>>)
    ensures
        walk_from(from, seq![Seq::<char>::empty()]) == from,
{
    let one = seq![Seq::<char>::empty()];
    assert(one.drop_last() =~= Seq::<Seq<char>>::empty());
    assert(walk_from(from, one.drop_last()) == from);
    assert(one.last().len() == 0);
    assert(parent_dir().len() == 2);
}

/// Containment: a relative path that stays below the directory it is
/// joined onto names, once joined onto `root`, the place of `root`
/// followed by the names it leads through. Wherever `root` leads to from
/// a starting point `from`, the joined path leads to that place or below.
pub proof fn lemma_join_stays_below(
    from: Option<Seq<Seq<char>>>,
    root: Seq<char>,
    rel: Seq<char>,
)
    requires
        walk_from(from, components(root)).is_some(),
        resolve_below(rel).is_some(),
    ensures
        walk_from(from, components(spec_join(root, rel))) == Some(
            walk_from(from, components(root)).unwrap() + resolve_below(rel).unwrap(),
        ),
{
    let place = walk_from(from, components(root)).unwrap();
    let names = resolve_below(rel).unwrap();
    if rel.len() == 0 {
        assert(components(rel) =~= seq![Seq::<char>::empty()]);
        lemma_walk_empty_component(Some(Seq::<Seq<char>>::empty()));
        assert(names =~= Seq::<Seq<char>>::empty());
        assert(place + names =~= place);
    } else if root.len() == 0 {
        assert(components(root) =~= seq![Seq::<char>::empty()]);
        lemma_walk_empty_component(from);
        assert(from == Some(place));
        lemma_walk_from_deeper(place, components(rel), names);
    } else {
        let first = if root.last() == separator() {
            root.drop_last()
        } else {
            root
        };
        assert(spec_join(root, rel) =~= first.push(separator()) + rel) by {
            if root.last() == separator() {
                assert(root =~= first.push(separator()));
            }
        }
        lemma_components_of_joined(first, rel);
        lemma_walk_in_two(from, components(first), components(rel));
        assert(walk_from(from, components(first)) == Some(place)) by {
            if root.last() == separator() {
                let closed = components(first).push(Seq::<char>::empty());
                assert(components(root) == closed);
                assert(closed.drop_last() =~= components(first));
                assert(closed.last().len() == 0);
                assert(parent_dir().len() == 2);
                assert(walk_from(from, closed) == walk_step(
                    walk_from(from, components(first)),
                    Seq::<char>::empty(),
                ));
            }
        }
        lemma_walk_from_deeper(place, components(rel), names);
    }
}

/// Containment, for a path known to be [`inside`] a directory: wherever
/// `root` leads to from a starting point, `path` leads to that place or
/// below it.
pub proof fn lemma_inside_is_below(from: Option<Seq<Seq<char>>>, root: Seq<char>, path: Seq<char>)
    requires
        inside(root, path),
        walk_from(from, components(root)).is_some(),
    ensures
        walk_from(from, components(path)).is_some(),
        walk_from(from, components(root)).unwrap().is_prefix_of(
            walk_from(from, components(path)).unwrap(),
        ),
{
    let rel = choose|rel: Seq<char>|
        path == spec_join(root, rel) && (#[trigger] resolve_below(rel)).is_some();
    lemma_join_stays_below(from, root, rel);
    let place = walk_from(from, components(root)).unwrap();
    let names = resolve_below(rel).unwrap();
    assert((place + names).subrange(0, place.len() as int) =~= place);
}

/// A name without separator is its own sole component.
pub proof fn lemma_components_of_name(name: Seq<char>)
    requires
        forall|i: int| 0 <= i < name.len() ==> name[i] != separator(),
    ensures
        components(name) == seq![name],
    decreases name.len(),
{
    if name.len() == 0 {
        assert(name =~= Seq::<char>::empty());
    } else {
        let shorter = name.drop_last();
        lemma_components_of_name(shorter);
        let before = components(shorter);
        assert(before.drop_last() =~= Seq::<Seq<char>>::empty());
        assert(shorter.push(name.last()) =~= name);
        assert(before.drop_last().push(before.last().push(name.last())) =~= seq![name]);
    }
}

/// A plain name stays below: a name that is not empty, holds neither a
/// separator nor a forbidden character and is neither the parent nor the
/// current directory leads one name down.
pub proof fn lemma_name_stays_below(name: Seq<char>)
    requires
        name.len() > 0,
        forall|i: int| 0 <= i < name.len() ==> name[i] != separator() && !forbidden(name[i]),
        name != parent_dir(),
        name != current_dir(),
    ensures
        resolve_below(name) == Some(seq![name]),
{
    lemma_components_of_name(name);
    let one = seq![name];
    assert(one.drop_last() =~= Seq::<Seq<char>>::empty());
    assert(walk_from(Some(Seq::<Seq<char>>::empty()), one.drop_last()) == Some(
        Seq::<Seq<char>>::empty(),
    ));
    assert(Seq::<Seq<char>>::empty().push(name) =~= seq![name]);
}

/// A directory is inside itself.
pub proof fn lemma_root_is_inside(root: Seq<char>)
    ensures
        inside(root, root),
{
    let nothing = Seq::<char>::empty();
    assert(components(nothing) =~= seq![nothing]);
    lemma_walk_empty_component(Some(Seq::<Seq<char>>::empty()));
    assert(resolve_below(nothing).is_some());
    assert(spec_join(root, nothing) == root);
}

} // verus!
