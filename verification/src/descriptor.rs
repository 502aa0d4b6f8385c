//! The project descriptor and the output lines that it stands for.

use vstd::prelude::*;
use vstd::string::StringExecFns;

verus! {

/// One target of a project: the names of its configurations, in the order
/// of the document. What a configuration holds is never looked at.
#[derive(Debug, Clone, PartialEq, Eq)]
pub struct Target {
    pub configurations: Vec<String>,
}

/// A decoded project file: the project's name and its targets by name, in
/// the order of the document.
#[derive(Debug, Clone, PartialEq, Eq)]
pub struct ProjectJson {
    pub name: String,
    pub targets: Vec<(String, Target)>,
}

/// A project descriptor as plain sequences.
pub struct ProjectView {
    pub name: Seq<char>,
    pub targets: Seq<(Seq<char>, Seq<Seq<char>>)>,
}

impl View for Target {
    type V = Seq<Seq<char>>;

    open spec fn view(&self) -> Seq<Seq<char>> {
        self.configurations.deep_view()
    }
}

impl View for ProjectJson {
    type V = ProjectView;

    open spec fn view(&self) -> ProjectView {
        ProjectView {
            name: self.name@,
            targets: Seq::new(
                self.targets@.len(),
                |i: int| (self.targets@[i].0@, self.targets@[i].1@),
            ),
        }
    }
}

/// The line `project:target:configuration`.
pub open spec fn triple(project: Seq<char>, target: Seq<char>, configuration: Seq<char>) -> Seq<
    char,
> {
    project + seq![':'] + target + seq![':'] + configuration
}

/// The lines of one target: one for each of its configurations, in their
/// order. A target without configurations has none.
pub open spec fn target_lines(
    project: Seq<char>,
    target: Seq<char>,
    configurations: Seq<Seq<char>>,
) -> Seq<Seq<char>> {
    Seq::new(configurations.len(), |j: int| triple(project, target, configurations[j]))
}

/// The lines of the first `count` targets of a project.
pub open spec fn lines_of_first(project: ProjectView, count: nat) -> Seq<Seq<char>>
    decreases count,
{
    if count == 0 || count > project.targets.len() {
        Seq::empty()
    } else {
        lines_of_first(project, (count - 1) as nat) + target_lines(
            project.name,
            project.targets[count - 1].0,
            project.targets[count - 1].1,
        )
    }
}

/// The lines of a project: those of its targets, one target after the other.
pub open spec fn project_lines(project: ProjectView) -> Seq<Seq<char>> {
    lines_of_first(project, project.targets.len())
}

/// Builds the line `project:target:configuration`.
pub fn triple_line(project: &str, target: &str, configuration: &str) -> (line: String)
    ensures
        line@ == triple(project@, target@, configuration@),
{
    proof {
        reveal_strlit(":");
    }
    let mut line = String::from_str(project);
    line.append(":");
    line.append(target);
    line.append(":");
    line.append(configuration);
    assert(":"@ =~= seq![':']);
    line
}

/// Whether `name` is none of the first `count` names of `targets`.
pub open spec fn is_new_target(
    targets: Seq<(Seq<char>, Seq<Seq<char>>)>,
    count: int,
    name: Seq<char>,
) -> bool {
    forall|k: int| 0 <= k < count && k < targets.len() ==> (#[trigger] targets[k]).0 != name
}

impl ProjectView {
    /// The descriptor is a mapping from target names to mappings from
    /// configuration names: no target name occurs twice, and within a target
    /// no configuration name does.
    pub open spec fn well_formed(self) -> bool {
        &&& forall|a: int, b: int|
            0 <= a < b < self.targets.len() ==> (#[trigger] self.targets[a]).0 != (
            #[trigger] self.targets[b]).0
        &&& forall|i: int|
            0 <= i < self.targets.len() ==> (#[trigger] self.targets[i]).1.no_duplicates()
    }
}

impl Target {
    /// A target without configurations.
    pub fn new() -> (target: Target)
        ensures
            target@ == Seq::<Seq<char>>::empty(),
    {
        let target = Target { configurations: Vec::new() };
        assert(target@ =~= Seq::<Seq<char>>::empty());
        target
    }

    /// Whether the target has a configuration of this name.
    pub fn has_configuration(&self, name: &String) -> (found: bool)
        ensures
            found == self@.contains(name@),
    {
        let mut i: usize = 0;
        while i < self.configurations.len()
            invariant
                i <= self.configurations.len(),
                forall|k: int| 0 <= k < i ==> self@[k] != name@,
            decreases self.configurations.len() - i,
        {
            if self.configurations[i] == *name {
                assert(self@[i as int] == name@);
                return true;
            }
            i += 1;
        }
        false
    }

    /// Adds a configuration name behind the others, unless the target has
    /// it already. Returns whether it was added.
    pub fn insert_configuration(&mut self, name: String) -> (added: bool)
        ensures
            added == !old(self)@.contains(name@),
            final(self)@ == if added {
                old(self)@.push(name@)
            } else {
                old(self)@
            },
            old(self)@.no_duplicates() ==> final(self)@.no_duplicates(),
    {
        if self.has_configuration(&name) {
            return false;
        }
        let ghost before = self@;
        self.configurations.push(name);
        assert(self@ =~= before.push(name@));
        true
    }
}

impl ProjectJson {
    /// A project of this name without targets.
    pub fn new(name: String) -> (project: ProjectJson)
        ensures
            project@.name == name@,
            project@.targets == Seq::<(Seq<char>, Seq<Seq<char>>)>::empty(),
            project@.well_formed(),
    {
        let project = ProjectJson { name, targets: Vec::new() };
        assert(project@.targets =~= Seq::<(Seq<char>, Seq<Seq<char>>)>::empty());
        project
    }

    /// Puts a target under `name`. Where the project has a target of that
    /// name, the new one takes its place and the position is returned; else
    /// the new one is added behind the others.
    pub fn insert_target(&mut self, name: String, target: Target) -> (replaced: Option<usize>)
        ensures
            final(self)@.name == old(self)@.name,
            match replaced {
                Some(at) => at < old(self)@.targets.len() && old(self)@.targets[at as int].0
                    == name@ && is_new_target(old(self)@.targets, at as int, name@)
                    && final(self)@.targets == old(self)@.targets.update(
                    at as int,
                    (name@, target@),
                ),
                None => is_new_target(
                    old(self)@.targets,
                    old(self)@.targets.len() as int,
                    name@,
                ) && final(self)@.targets == old(self)@.targets.push((name@, target@)),
            },
            old(self)@.well_formed() && target@.no_duplicates() ==> final(self)@.well_formed(),
    {
        let ghost before = self@;
        let mut i: usize = 0;
        while i < self.targets.len()
            invariant
                i <= self.targets.len(),
                *self == *old(self),
                before == self@,
                is_new_target(self@.targets, i as int, name@),
            decreases self.targets.len() - i,
        {
            if self.targets[i].0 == name {
                self.targets.set(i, (name, target));
                proof {
                    let after = self@.targets;
                    assert(after =~= before.targets.update(i as int, (name@, target@)));
                    if before.well_formed() && target@.no_duplicates() {
                        assert forall|a: int, b: int| 0 <= a < b < after.len() implies (
                        #[trigger] after[a]).0 != (#[trigger] after[b]).0 by {
                            assert(after[a].0 == before.targets[a].0);
                            assert(after[b].0 == before.targets[b].0);
                        }
                        assert forall|k: int| 0 <= k < after.len() implies (
                        #[trigger] after[k]).1.no_duplicates() by {
                            if k != i {
                                assert(after[k] == before.targets[k]);
                            }
                        }
                    }
                }
                return Some(i);
            }
            i += 1;
        }
        self.targets.push((name, target));
        assert(self@.targets =~= before.targets.push((name@, target@)));
        None
    }

    /// The output lines of this project: for each target in turn, one line
    /// for each of its configurations.
    pub fn lines(&self) -> (lines: Vec<String>)
        ensures
            lines.deep_view() == project_lines(self@),
    {
        let mut lines: Vec<String> = Vec::new();
        let mut i: usize = 0;
        while i < self.targets.len()
            invariant
                i <= self.targets.len(),
                lines.deep_view() == lines_of_first(self@, i as nat),
            decreases self.targets.len() - i,
        {
            let target_name = &self.targets[i].0;
            let target = &self.targets[i].1;
            let ghost before = lines.deep_view();
            let mut j: usize = 0;
            while j < target.configurations.len()
                invariant
                    i < self.targets.len(),
                    j <= target.configurations.len(),
                    target_name == &self.targets[i as int].0,
                    target == &self.targets[i as int].1,
                    lines.deep_view() == before + target_lines(
                        self.name@,
                        target_name@,
                        target@,
                    ).take(j as int),
                decreases target.configurations.len() - j,
            {
                let ghost previous = lines.deep_view();
                let line = triple_line(
                    self.name.as_str(),
                    target_name.as_str(),
                    target.configurations[j].as_str(),
                );
                lines.push(line);
                assert(lines.deep_view() =~= previous.push(line@));
                assert(lines.deep_view() =~= before + target_lines(
                    self.name@,
                    target_name@,
                    target@,
                ).take(j + 1));
                j += 1;
            }
            assert(target_lines(self.name@, target_name@, target@).take(j as int)
                =~= target_lines(self.name@, target_name@, target@));
            i += 1;
        }
        lines
    }
}

proof fn lemma_line_position(project: ProjectView, count: nat, i: int, j: int)
    requires
        0 <= i < count <= project.targets.len(),
        0 <= j < project.targets[i].1.len(),
    ensures
        lines_of_first(project, i as nat).len() + j < lines_of_first(project, count).len(),
        lines_of_first(project, count)[lines_of_first(project, i as nat).len() + j] == triple(
            project.name,
            project.targets[i].0,
            project.targets[i].1[j],
        ),
    decreases count,
{
    if i < count - 1 {
        lemma_line_position(project, (count - 1) as nat, i, j);
    }
}

proof fn lemma_line_origin(project: ProjectView, count: nat, k: int)
    requires
        count <= project.targets.len(),
        0 <= k < lines_of_first(project, count).len(),
    ensures
        exists|i: int, j: int|
            0 <= i < count && 0 <= j < project.targets[i].1.len() && lines_of_first(
                project,
                count,
            )[k] == #[trigger] triple(project.name, project.targets[i].0, project.targets[i].1[j]),
    decreases count,
{
    let earlier = lines_of_first(project, (count - 1) as nat);
    if k < earlier.len() {
        lemma_line_origin(project, (count - 1) as nat, k);
    } else {
        let i = count - 1;
        let j = k - earlier.len();
        assert(lines_of_first(project, count)[k] == triple(
            project.name,
            project.targets[i].0,
            project.targets[i].1[j],
        ));
    }
}

/// Every configuration of every target has its line: the configuration `j`
/// of the target `i` stands `j` lines behind the lines of the targets before
/// `i`.
pub proof fn lemma_configuration_has_line(project: ProjectView, i: int, j: int)
    requires
        0 <= i < project.targets.len(),
        0 <= j < project.targets[i].1.len(),
    ensures
        lines_of_first(project, i as nat).len() + j < project_lines(project).len(),
        project_lines(project)[lines_of_first(project, i as nat).len() + j] == triple(
            project.name,
            project.targets[i].0,
            project.targets[i].1[j],
        ),
{
    lemma_line_position(project, project.targets.len(), i, j);
}

/// Every line of a project is the triple of the project's name, one of its
/// targets and one of that target's configurations.
pub proof fn lemma_line_is_triple(project: ProjectView, k: int)
    requires
        0 <= k < project_lines(project).len(),
    ensures
        exists|i: int, j: int|
            0 <= i < project.targets.len() && 0 <= j < project.targets[i].1.len()
                && project_lines(project)[k] == #[trigger] triple(
                project.name,
                project.targets[i].0,
                project.targets[i].1[j],
            ),
{
    lemma_line_origin(project, project.targets.len(), k);
}

/// A target without configurations adds no line: the project's lines are
/// those of the project without that target.
pub proof fn lemma_empty_target_is_silent(project: ProjectView, i: int)
    requires
        0 <= i < project.targets.len(),
        project.targets[i].1.len() == 0,
    ensures
        project_lines(project) == project_lines(
            ProjectView { name: project.name, targets: project.targets.remove(i) },
        ),
{
    let without = ProjectView { name: project.name, targets: project.targets.remove(i) };
    lemma_lines_without(project, without, i, project.targets.len());
}

proof fn lemma_lines_without(project: ProjectView, without: ProjectView, i: int, count: nat)
    requires
        0 <= i < project.targets.len(),
        project.targets[i].1.len() == 0,
        without.name == project.name,
        without.targets == project.targets.remove(i),
        count <= project.targets.len(),
    ensures
        count <= i ==> lines_of_first(project, count) == lines_of_first(without, count),
        count > i ==> lines_of_first(project, count) == lines_of_first(
            without,
            (count - 1) as nat,
        ),
    decreases count,
{
    if count > 0 {
        lemma_lines_without(project, without, i, (count - 1) as nat);
        if count - 1 == i {
            assert(target_lines(project.name, project.targets[i].0, project.targets[i].1)
                =~= Seq::<Seq<char>>::empty());
            assert(lines_of_first(project, count) =~= lines_of_first(project, (count - 1) as nat));
        } else if count - 1 > i {
            assert(without.targets[count - 2] == project.targets[count - 1]);
        } else {
            assert(without.targets[count - 1] == project.targets[count - 1]);
        }
    }
}

} // verus!
