//! Paths as sequences of component names: the upward search for the
//! repository root, the project-file filter and path listing.

use vstd::prelude::*;
use vstd::string::StringExecFns;

verus! {

/// Whether the directory `levels` above the start holds the root marker.
/// `markers[0]` speaks of the start itself; a level past the end of
/// `markers` holds none.
pub open spec fn marker_at(markers: Seq<bool>, levels: int) -> bool {
    0 <= levels < markers.len() && markers[levels]
}

/// The result of the upward search once the `levels` nearest directories
/// have been found without a marker.
pub open spec fn root_from(start: Seq<Seq<char>>, markers: Seq<bool>, levels: nat) -> Option<
    Seq<Seq<char>>,
>
    decreases start.len() + 1 - levels,
{
    if levels > start.len() {
        None
    } else if marker_at(markers, levels as int) {
        Some(start.take(start.len() - levels))
    } else {
        root_from(start, markers, levels + 1)
    }
}

/// The repository root seen from `start`: the nearest directory, `start`
/// included, that holds the marker.
pub open spec fn git_root(start: Seq<Seq<char>>, markers: Seq<bool>) -> Option<Seq<Seq<char>>> {
    root_from(start, markers, 0)
}

proof fn lemma_root_from_found(start: Seq<Seq<char>>, markers: Seq<bool>, from: nat, depth: nat)
    requires
        from <= depth <= start.len(),
        marker_at(markers, depth as int),
        forall|e: int| from <= e < depth ==> !marker_at(markers, e),
    ensures
        root_from(start, markers, from) == Some(start.take(start.len() - depth)),
    decreases depth - from,
{
    if from < depth {
        lemma_root_from_found(start, markers, from + 1, depth);
    }
}

proof fn lemma_root_from_missing(start: Seq<Seq<char>>, markers: Seq<bool>, from: nat)
    requires
        forall|e: int| from <= e <= start.len() ==> !marker_at(markers, e),
    ensures
        root_from(start, markers, from) is None,
    decreases start.len() + 1 - from,
{
    if from <= start.len() {
        lemma_root_from_missing(start, markers, from + 1);
    }
}

/// A marker `depth` levels above the start, with none nearer, makes that
/// ancestor the root, however large `depth` is.
pub proof fn lemma_root_is_nearest_marker(start: Seq<Seq<char>>, markers: Seq<bool>, depth: nat)
    requires
        depth <= start.len(),
        marker_at(markers, depth as int),
        forall|e: int| 0 <= e < depth ==> !marker_at(markers, e),
    ensures
        git_root(start, markers) == Some(start.take(start.len() - depth)),
{
    lemma_root_from_found(start, markers, 0, depth);
}

/// Where no directory from the start up to the filesystem root holds a
/// marker, there is no root.
pub proof fn lemma_no_marker_no_root(start: Seq<Seq<char>>, markers: Seq<bool>)
    requires
        forall|e: int| 0 <= e <= start.len() ==> !marker_at(markers, e),
    ensures
        git_root(start, markers) is None,
{
    lemma_root_from_missing(start, markers, 0);
}

/// A root, where there is one, is an ancestor of the start that holds a
/// marker, and no directory between the two holds one.
pub proof fn lemma_root_holds_marker(start: Seq<Seq<char>>, markers: Seq<bool>)
    ensures
        match git_root(start, markers) {
            Some(root) => exists|depth: int|
                0 <= depth <= start.len() && #[trigger] marker_at(markers, depth) && root
                    == start.take(start.len() - depth) && forall|e: int|
                    0 <= e < depth ==> !marker_at(markers, e),
            None => forall|e: int| 0 <= e <= start.len() ==> !marker_at(markers, e),
        },
{
    lemma_root_from_holds(start, markers, 0);
}

proof fn lemma_root_from_holds(start: Seq<Seq<char>>, markers: Seq<bool>, from: nat)
    requires
        forall|e: int| 0 <= e < from ==> !marker_at(markers, e),
    ensures
        match root_from(start, markers, from) {
            Some(root) => exists|depth: int|
                0 <= depth <= start.len() && #[trigger] marker_at(markers, depth) && root
                    == start.take(start.len() - depth) && forall|e: int|
                    0 <= e < depth ==> !marker_at(markers, e),
            None => forall|e: int| 0 <= e <= start.len() ==> !marker_at(markers, e),
        },
    decreases start.len() + 1 - from,
{
    if from > start.len() {
    } else if marker_at(markers, from as int) {
    } else {
        lemma_root_from_holds(start, markers, from + 1);
    }
}

/// Copies the components `from..to` of a path.
pub fn copy_components(path: &Vec<String>, from: usize, to: usize) -> (part: Vec<String>)
    requires
        from <= to <= path.len(),
    ensures
        part.deep_view() == path.deep_view().subrange(from as int, to as int),
{
    let mut part: Vec<String> = Vec::new();
    let mut i: usize = from;
    while i < to
        invariant
            from <= i <= to <= path.len(),
            part.len() == i - from,
            forall|k: int| 0 <= k < part.len() ==> part[k]@ == path[from + k]@,
        decreases to - i,
    {
        part.push(path[i].clone());
        i += 1;
    }
    assert(part.deep_view() =~= path.deep_view().subrange(from as int, to as int));
    part
}

/// Copies a whole path.
pub fn copy_path(path: &Vec<String>) -> (copy: Vec<String>)
    ensures
        copy.deep_view() == path.deep_view(),
{
    let copy = copy_components(path, 0, path.len());
    assert(path.deep_view().subrange(0, path.len() as int) =~= path.deep_view());
    copy
}

/// Walks up from `start_path` to the nearest directory that holds the root
/// marker. `markers[k]` tells whether the directory `k` levels above
/// `start_path` holds one.
pub fn find_git_root(start_path: &Vec<String>, markers: &Vec<bool>) -> (root: Option<Vec<String>>)
    ensures
        match root {
            Some(r) => git_root(start_path.deep_view(), markers@) == Some(r.deep_view()),
            None => git_root(start_path.deep_view(), markers@) is None,
        },
{
    let depth: usize = start_path.len();
    let mut levels: usize = 0;
    loop
        invariant
            depth == start_path.len(),
            levels <= depth,
            root_from(start_path.deep_view(), markers@, levels as nat) == git_root(
                start_path.deep_view(),
                markers@,
            ),
        decreases depth - levels,
    {
        if levels < markers.len() && markers[levels] {
            let current = copy_components(start_path, 0, depth - levels);
            return Some(current);
        }
        if levels == depth {
            assert(root_from(start_path.deep_view(), markers@, (levels + 1) as nat) is None);
            return None;
        }
        levels += 1;
    }
}

/// Whether a path's last component is exactly `project.json`.
pub open spec fn names_project_file(path: Seq<Seq<char>>) -> bool {
    path.len() > 0 && path.last() == "project.json"@
}

/// The project-file filter: true for the paths whose base name is
/// `project.json`, and for no other.
pub fn is_project_file(path: &Vec<String>) -> (selected: bool)
    ensures
        selected == names_project_file(path.deep_view()),
{
    let n: usize = path.len();
    if n == 0 {
        return false;
    }
    let wanted = String::from_str("project.json");
    path[n - 1] == wanted
}

/// Whether `root` is `path` or one of its ancestors.
pub open spec fn is_ancestor(root: Seq<Seq<char>>, path: Seq<Seq<char>>) -> bool {
    root.len() <= path.len() && path.take(root.len() as int) == root
}

/// A path as listed: relative to `root` where it lies under it, else as it
/// stands.
pub open spec fn listed(path: Seq<Seq<char>>, root: Seq<Seq<char>>) -> Seq<Seq<char>> {
    if is_ancestor(root, path) {
        path.skip(root.len() as int)
    } else {
        path
    }
}

/// Whether `path` is `root` or lies below it.
pub fn lies_under(path: &Vec<String>, root: &Vec<String>) -> (under: bool)
    ensures
        under == is_ancestor(root.deep_view(), path.deep_view()),
{
    if root.len() > path.len() {
        return false;
    }
    let mut i: usize = 0;
    while i < root.len()
        invariant
            i <= root.len() <= path.len(),
            forall|k: int| 0 <= k < i ==> path[k]@ == root[k]@,
        decreases root.len() - i,
    {
        if path[i] != root[i] {
            assert(path.deep_view().take(root.len() as int)[i as int] != root.deep_view()[i as int]);
            return false;
        }
        i += 1;
    }
    assert(path.deep_view().take(root.len() as int) =~= root.deep_view());
    true
}

/// The components of `path` below `root`, or `None` where `path` does not
/// lie under `root`.
pub fn relative_to(path: &Vec<String>, root: &Vec<String>) -> (rest: Option<Vec<String>>)
    ensures
        match rest {
            Some(r) => is_ancestor(root.deep_view(), path.deep_view()) && r.deep_view()
                == path.deep_view().skip(root.len() as int),
            None => !is_ancestor(root.deep_view(), path.deep_view()),
        },
{
    if lies_under(path, root) {
        Some(copy_components(path, root.len(), path.len()))
    } else {
        None
    }
}

/// What path listing shows for `path`: its components below `root`, or all
/// of them where it does not lie under `root`.
pub fn listed_path(path: &Vec<String>, root: &Vec<String>) -> (shown: Vec<String>)
    ensures
        shown.deep_view() == listed(path.deep_view(), root.deep_view()),
{
    match relative_to(path, root) {
        Some(rest) => rest,
        None => copy_path(path),
    }
}

} // verus!
