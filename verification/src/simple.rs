//! The simple scan: a descent directory by directory that passes over every
//! directory whose name starts with a dot and consults no ignore file.
//!
//! The caller reads one directory at a time. The scan tells which one, takes
//! its listing, and answers with the project files found in it.

use crate::paths::{copy_path, is_ancestor, lies_under, names_project_file};
use vstd::prelude::*;
use vstd::string::{StrSliceExecFns, StringExecFns};

verus! {

/// One entry of a directory listing.
#[derive(Debug, Clone, PartialEq, Eq)]
pub struct DirEntry {
    pub name: String,
    pub is_dir: bool,
}

/// An entry of a listing, with its name as a plain sequence.
pub struct EntryView {
    pub name: Seq<char>,
    pub is_dir: bool,
}

impl View for DirEntry {
    type V = EntryView;

    open spec fn view(&self) -> EntryView {
        EntryView { name: self.name@, is_dir: self.is_dir }
    }
}

/// The views of a listing's entries.
pub open spec fn entry_views(entries: Seq<DirEntry>) -> Seq<EntryView> {
    Seq::new(entries.len(), |i: int| entries[i]@)
}

/// Whether a name starts with a dot.
pub open spec fn is_hidden_name(name: Seq<char>) -> bool {
    name.len() > 0 && name[0] == '.'
}

/// Whether no component of `path` from index `from` on is hidden.
pub open spec fn visible_from(from: int, path: Seq<Seq<char>>) -> bool {
    forall|k: int| from <= k < path.len() ==> !is_hidden_name(#[trigger] path[k])
}

/// Whether the scan descends into an entry: a directory that is not hidden.
pub open spec fn descends_into(entry: EntryView) -> bool {
    entry.is_dir && !is_hidden_name(entry.name)
}

/// Whether an entry is a project file: no directory, and named
/// `project.json`.
pub open spec fn selects(entry: EntryView) -> bool {
    !entry.is_dir && entry.name == "project.json"@
}

/// The directories below `dir` that the scan descends into, as they are put
/// on the stack of pending directories: the first of the listing comes last,
/// and so is read next.
pub open spec fn descents(dir: Seq<Seq<char>>, entries: Seq<EntryView>) -> Seq<Seq<Seq<char>>>
    decreases entries.len(),
{
    if entries.len() == 0 {
        Seq::empty()
    } else if descends_into(entries[0]) {
        descents(dir, entries.skip(1)).push(dir.push(entries[0].name))
    } else {
        descents(dir, entries.skip(1))
    }
}

/// The project files that a listing of `dir` holds, in the listing's order.
pub open spec fn project_files_in(dir: Seq<Seq<char>>, entries: Seq<EntryView>) -> Seq<
    Seq<Seq<char>>,
>
    decreases entries.len(),
{
    if entries.len() == 0 {
        Seq::empty()
    } else if selects(entries.last()) {
        project_files_in(dir, entries.drop_last()).push(dir.push(entries.last().name))
    } else {
        project_files_in(dir, entries.drop_last())
    }
}

/// A simple scan under way: the root, and the directories that are still to
/// be read, the next one last.
#[derive(Debug, Clone, PartialEq, Eq)]
pub struct SimpleScan {
    pub root: Vec<String>,
    pub pending: Vec<Vec<String>>,
}

/// A scan under way, as plain sequences.
pub struct SimpleScanView {
    pub root: Seq<Seq<char>>,
    pub pending: Seq<Seq<Seq<char>>>,
}

impl View for SimpleScan {
    type V = SimpleScanView;

    open spec fn view(&self) -> SimpleScanView {
        SimpleScanView { root: self.root.deep_view(), pending: self.pending.deep_view() }
    }
}

impl SimpleScanView {
    /// Every pending directory is the root or lies below it, and none lies
    /// in or below a hidden directory under the root.
    pub open spec fn well_formed(self) -> bool {
        forall|i: int|
            0 <= i < self.pending.len() ==> is_ancestor(self.root, #[trigger] self.pending[i])
                && visible_from(self.root.len() as int, self.pending[i])
    }

    /// The scan after the listing of its next directory: that directory has
    /// left the pending ones, and the directories it descends into have
    /// joined them. A scan that is over stays as it is.
    pub open spec fn after(self, entries: Seq<EntryView>) -> SimpleScanView {
        if self.pending.len() == 0 {
            self
        } else {
            SimpleScanView {
                root: self.root,
                pending: self.pending.drop_last() + descents(self.pending.last(), entries),
            }
        }
    }

    /// A scan at its start: the root alone is to be read.
    pub open spec fn start(root: Seq<Seq<char>>) -> SimpleScanView {
        SimpleScanView { root, pending: seq![root] }
    }

    /// The scan after a run of listings, each taken in its turn.
    pub open spec fn after_all(self, listings: Seq<Seq<EntryView>>) -> SimpleScanView
        decreases listings.len(),
    {
        if listings.len() == 0 {
            self
        } else {
            self.after_all(listings.drop_last()).after(listings.last())
        }
    }

    /// The project files that the listing of the next directory yields.
    pub open spec fn found(self, entries: Seq<EntryView>) -> Seq<Seq<Seq<char>>> {
        if self.pending.len() == 0 {
            Seq::empty()
        } else {
            project_files_in(self.pending.last(), entries)
        }
    }
}

/// Whether a name starts with a dot.
pub fn is_hidden(name: &str) -> (hidden: bool)
    ensures
        hidden == is_hidden_name(name@),
{
    name.unicode_len() > 0 && name.get_char(0) == '.'
}

/// The path of the entry `name` of the directory `dir`.
pub fn child_path(dir: &Vec<String>, name: &String) -> (path: Vec<String>)
    ensures
        path.deep_view() == dir.deep_view().push(name@),
{
    let mut path = copy_path(dir);
    let ghost base = path.deep_view();
    path.push(name.clone());
    assert(path.deep_view() =~= base.push(name@));
    assert(path.deep_view() =~= dir.deep_view().push(name@));
    path
}

/// Whether no component of `path` from index `from` on is hidden.
pub fn is_visible_from(path: &Vec<String>, from: usize) -> (visible: bool)
    ensures
        visible == visible_from(from as int, path.deep_view()),
{
    if from >= path.len() {
        return true;
    }
    let mut k: usize = from;
    while k < path.len()
        invariant
            from <= k <= path.len(),
            forall|m: int| from <= m < k ==> !is_hidden_name(#[trigger] path.deep_view()[m]),
        decreases path.len() - k,
    {
        if is_hidden(path[k].as_str()) {
            assert(is_hidden_name(path.deep_view()[k as int]));
            return false;
        }
        k += 1;
    }
    true
}

impl SimpleScan {
    /// Whether the scan is well formed. A scan made by `new` and changed by
    /// `step` alone always is.
    pub fn is_well_formed(&self) -> (ok: bool)
        ensures
            ok == self@.well_formed(),
    {
        let mut i: usize = 0;
        while i < self.pending.len()
            invariant
                i <= self.pending.len(),
                forall|k: int|
                    0 <= k < i ==> is_ancestor(self@.root, #[trigger] self@.pending[k])
                        && visible_from(self@.root.len() as int, self@.pending[k]),
            decreases self.pending.len() - i,
        {
            let dir = &self.pending[i];
            assert(dir.deep_view() == self@.pending[i as int]);
            if !lies_under(dir, &self.root) || !is_visible_from(dir, self.root.len()) {
                return false;
            }
            i += 1;
        }
        true
    }

    /// A scan that has the root itself to read.
    pub fn new(root: Vec<String>) -> (scan: SimpleScan)
        ensures
            scan@ == SimpleScanView::start(root.deep_view()),
            scan@.well_formed(),
    {
        let first = copy_path(&root);
        let mut pending: Vec<Vec<String>> = Vec::new();
        pending.push(first);
        let scan = SimpleScan { root, pending };
        assert(scan@.pending =~= seq![scan@.root]);
        assert(scan@.root.take(scan@.root.len() as int) =~= scan@.root);
        scan
    }

    /// The directory to read next, or `None` once the scan is over.
    pub fn next_directory(&self) -> (next: Option<Vec<String>>)
        ensures
            match next {
                Some(dir) => self@.pending.len() > 0 && dir.deep_view() == self@.pending.last(),
                None => self@.pending.len() == 0,
            },
    {
        let n: usize = self.pending.len();
        if n == 0 {
            None
        } else {
            let dir = &self.pending[n - 1];
            Some(copy_path(dir))
        }
    }

    /// Takes the listing of the directory that was to be read next. That
    /// directory leaves the pending ones, and its directories that are not
    /// hidden join them. Returns the project files of the listing. With
    /// nothing pending, nothing changes and nothing is returned.
    pub fn step(&mut self, entries: &Vec<DirEntry>) -> (files: Vec<Vec<String>>)
        requires
            old(self)@.well_formed(),
        ensures
            final(self)@ == old(self)@.after(entry_views(entries@)),
            files.deep_view() == old(self)@.found(entry_views(entries@)),
            final(self)@.well_formed(),
    {
        let mut files: Vec<Vec<String>> = Vec::new();
        assert(files.deep_view() =~= Seq::<Seq<Seq<char>>>::empty());
        let dir = match self.pending.pop() {
            Some(dir) => dir,
            None => {
                assert(self@.pending =~= old(self)@.pending);
                return files;
            },
        };
        let ghost views = entry_views(entries@);
        let ghost kept = old(self)@.pending.drop_last();
        assert(self@.pending =~= kept);
        assert(dir.deep_view() == old(self)@.pending.last());
        let wanted = String::from_str("project.json");
        let mut i: usize = 0;
        assert(views.take(0) =~= Seq::<EntryView>::empty());
        while i < entries.len()
            invariant
                i <= entries.len(),
                views == entry_views(entries@),
                wanted@ == "project.json"@,
                files.deep_view() == project_files_in(dir.deep_view(), views.take(i as int)),
            decreases entries.len() - i,
        {
            let ghost before = files.deep_view();
            assert(views.take(i + 1).drop_last() =~= views.take(i as int));
            assert(views.take(i + 1).last() == entries[i as int]@);
            if !entries[i].is_dir && entries[i].name == wanted {
                let file = child_path(&dir, &entries[i].name);
                files.push(file);
                assert(files.deep_view() =~= before.push(file.deep_view()));
            }
            i += 1;
        }
        assert(views.take(i as int) =~= views);
        let mut j: usize = entries.len();
        assert(views.skip(j as int) =~= Seq::<EntryView>::empty());
        while j > 0
            invariant
                j <= entries.len(),
                views == entry_views(entries@),
                self.root == old(self).root,
                self@.well_formed(),
                is_ancestor(self@.root, dir.deep_view()),
                visible_from(self@.root.len() as int, dir.deep_view()),
                self@.pending == kept + descents(dir.deep_view(), views.skip(j as int)),
            decreases j,
        {
            j -= 1;
            let ghost before = self@.pending;
            assert(views.skip(j as int).skip(1) =~= views.skip(j + 1));
            assert(views.skip(j as int)[0] == entries[j as int]@);
            if entries[j].is_dir && !is_hidden(entries[j].name.as_str()) {
                let sub = child_path(&dir, &entries[j].name);
                self.pending.push(sub);
                assert(self@.pending =~= before.push(sub.deep_view()));
                assert(sub.deep_view().take(self@.root.len() as int) =~= dir.deep_view().take(
                    self@.root.len() as int,
                ));
                assert(kept + descents(dir.deep_view(), views.skip(j as int)) =~= before.push(
                    sub.deep_view(),
                ));
            }
        }
        assert(views.skip(0) =~= views);
        files
    }
}

/// The scan enters no hidden directory: each directory that a listing adds
/// to the pending ones is an entry of the listed directory that is a
/// directory and whose name does not start with a dot.
pub proof fn lemma_hidden_is_never_entered(
    dir: Seq<Seq<char>>,
    entries: Seq<EntryView>,
    k: int,
)
    requires
        0 <= k < descents(dir, entries).len(),
    ensures
        exists|i: int|
            0 <= i < entries.len() && descends_into(#[trigger] entries[i]) && descents(
                dir,
                entries,
            )[k] == dir.push(entries[i].name),
        !is_hidden_name(descents(dir, entries)[k].last()),
    decreases entries.len(),
{
    let rest = descents(dir, entries.skip(1));
    if k < rest.len() {
        lemma_hidden_is_never_entered(dir, entries.skip(1), k);
        let i = choose|i: int|
            0 <= i < entries.skip(1).len() && descends_into(#[trigger] entries.skip(1)[i])
                && rest[k] == dir.push(entries.skip(1)[i].name);
        assert(entries.skip(1)[i] == entries[i + 1]);
        assert(descends_into(entries[i + 1]));
    } else {
        assert(descends_into(entries[0]));
    }
}

/// Each file that a listing yields is an entry of the listed directory that
/// is no directory and is named `project.json`.
pub proof fn lemma_files_are_project_files(
    dir: Seq<Seq<char>>,
    entries: Seq<EntryView>,
    k: int,
)
    requires
        0 <= k < project_files_in(dir, entries).len(),
    ensures
        project_files_in(dir, entries)[k] == dir.push("project.json"@),
        names_project_file(project_files_in(dir, entries)[k]),
    decreases entries.len(),
{
    let rest = project_files_in(dir, entries.drop_last());
    if k < rest.len() {
        lemma_files_are_project_files(dir, entries.drop_last(), k);
    }
}

/// The scan stays out of hidden directories: after any listing every
/// pending directory still lies under the root with no hidden directory on
/// the way, and so does every project file that the listing yields.
pub proof fn lemma_scan_stays_out_of_hidden(scan: SimpleScanView, entries: Seq<EntryView>)
    requires
        scan.well_formed(),
    ensures
        scan.after(entries).well_formed(),
        forall|k: int|
            0 <= k < scan.found(entries).len() ==> is_ancestor(
                scan.root,
                #[trigger] scan.found(entries)[k],
            ) && visible_from(scan.root.len() as int, scan.found(entries)[k]),
{
    reveal_strlit("project.json");
    if scan.pending.len() > 0 {
        let dir = scan.pending.last();
        let kept = scan.pending.drop_last();
        let next = scan.after(entries);
        assert(is_ancestor(scan.root, dir) && visible_from(scan.root.len() as int, dir));
        assert forall|i: int| 0 <= i < next.pending.len() implies is_ancestor(
            next.root,
            #[trigger] next.pending[i],
        ) && visible_from(next.root.len() as int, next.pending[i]) by {
            if i < kept.len() {
                assert(next.pending[i] == scan.pending[i]);
            } else {
                lemma_hidden_is_never_entered(dir, entries, i - kept.len());
                let sub = descents(dir, entries)[i - kept.len()];
                assert(next.pending[i] == sub);
                assert(sub.take(scan.root.len() as int) =~= dir.take(scan.root.len() as int));
            }
        }
        assert forall|k: int| 0 <= k < scan.found(entries).len() implies is_ancestor(
            scan.root,
            #[trigger] scan.found(entries)[k],
        ) && visible_from(scan.root.len() as int, scan.found(entries)[k]) by {
            lemma_files_are_project_files(dir, entries, k);
            let file = scan.found(entries)[k];
            assert(file.take(scan.root.len() as int) =~= dir.take(scan.root.len() as int));
        }
    }
}

/// Whatever the listings hold, a scan never asks for a hidden directory:
/// from the start on, through any run of listings, the directory to read
/// next lies under the root with no hidden directory on the way.
pub proof fn lemma_never_reads_hidden(root: Seq<Seq<char>>, listings: Seq<Seq<EntryView>>)
    ensures
        ({
            let scan = SimpleScanView::start(root).after_all(listings);
            &&& scan.root == root
            &&& scan.well_formed()
            &&& scan.pending.len() > 0 ==> is_ancestor(root, scan.pending.last()) && visible_from(
                root.len() as int,
                scan.pending.last(),
            )
        }),
    decreases listings.len(),
{
    let first = SimpleScanView::start(root);
    if listings.len() == 0 {
        assert(root.take(root.len() as int) =~= root);
    } else {
        lemma_never_reads_hidden(root, listings.drop_last());
        lemma_scan_stays_out_of_hidden(first.after_all(listings.drop_last()), listings.last());
    }
}

} // verus!
