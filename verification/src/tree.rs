//! Comparison of two directory trees, entry by entry.
//!
//! Both trees are given as listings: the entries of the top directory, each
//! with its name and with what it is, directories with their own entries in
//! turn. [`diff_plan`] matches the entries of the two sides by name and says
//! for every path what is known at once and which pairs of files are left to
//! be compared. [`compare_dirs`] also compares those pairs, for trees whose
//! files are held in memory.
//!
//! An entry that has no counterpart of its own kind on the right side is
//! reported as `LeftOnly`: a file on one side and a directory of the same
//! name on the other do not match, and only the left one is reported. A
//! directory that has no counterpart is reported once, without its entries.

use vstd::prelude::*;
use vstd::string::*;

use crate::comparator::compare_files;
use crate::divergence::comparison;
use crate::outcome::{FileDiff, Outcome};

verus! {

/// What a directory holds under one name.
pub enum Node<T> {
    /// A regular file; the payload is what the caller needs to compare it
    /// with another file: its bytes, or the place where they are found.
    File(T),
    /// A directory with the entries that it holds.
    Dir(Vec<Entry<T>>),
    /// A directory whose entries could not be listed; the payload is the
    /// reason.
    Unreadable(String),
}

/// One entry of a directory.
pub struct Entry<T> {
    pub name: String,
    pub node: Node<T>,
}

/// What is to be done for one path.
pub enum Work<'a, T> {
    /// The outcome is known without reading any file.
    Report(FileDiff),
    /// The path is a file on both sides: the two are to be compared, the
    /// left one first.
    Compare(&'a T, &'a T),
}

/// One step of the comparison of two trees.
pub struct Task<'a, T> {
    /// The path of the entry below the top directory, its parts joined by
    /// `/`.
    pub path: String,
    pub work: Work<'a, T>,
}

/// Mathematical model of a [`Work`].
pub enum WorkView<T> {
    Report(Outcome),
    Compare(T, T),
}

/// Mathematical model of a [`Task`].
pub struct TaskView<T> {
    pub path: Seq<char>,
    pub work: WorkView<T>,
}

impl<'a, T> View for Work<'a, T> {
    type V = WorkView<T>;

    open spec fn view(&self) -> WorkView<T> {
        match self {
            Work::Report(diff) => WorkView::Report(diff@),
            Work::Compare(left, right) => WorkView::Compare(**left, **right),
        }
    }
}

impl<'a, T> View for Task<'a, T> {
    type V = TaskView<T>;

    open spec fn view(&self) -> TaskView<T> {
        TaskView { path: self.path@, work: self.work@ }
    }
}

/// The models of a sequence of tasks, in the same order.
pub open spec fn tasks_view<'a, T>(tasks: Seq<Task<'a, T>>) -> Seq<TaskView<T>> {
    tasks.map_values(|task: Task<'a, T>| task@)
}

/// The index of the first entry at or after `from` that is named `name`.
pub open spec fn position_of<T>(entries: Seq<Entry<T>>, name: Seq<char>, from: nat) -> Option<nat>
    decreases entries.len() - from,
{
    if from >= entries.len() {
        None
    } else if entries[from as int].name@ == name {
        Some(from)
    } else {
        position_of(entries, name, from + 1)
    }
}

/// The path of the entry `name` in the directory at `prefix`; the top
/// directory has the empty path.
pub open spec fn child_path(prefix: Seq<char>, name: Seq<char>) -> Seq<char> {
    if prefix.len() == 0 {
        name
    } else {
        prefix + seq!['/'] + name
    }
}

/// The single task that reports `outcome` for `path`.
pub open spec fn report<T>(path: Seq<char>, outcome: Outcome) -> Seq<TaskView<T>> {
    seq![TaskView { path, work: WorkView::Report(outcome) }]
}

/// The tasks for a path that both sides hold. Two files are to be compared.
/// Two directories give the tasks of their entries and none of their own,
/// unless one of them could not be listed, which is a failure at this path
/// (with the reason of the left one, if both have one). A file and a
/// directory do not match.
pub open spec fn plan_pair<T>(path: Seq<char>, left: Node<T>, right: Node<T>) -> Seq<TaskView<T>>
    decreases left,
{
    match left {
        Node::File(a) => match right {
            Node::File(b) => seq![TaskView { path, work: WorkView::Compare(a, b) }],
            _ => report(path, Outcome::LeftOnly),
        },
        Node::Dir(left_entries) => match right {
            Node::File(_) => report(path, Outcome::LeftOnly),
            Node::Dir(right_entries) => plan_level(path, left_entries@, right_entries@),
            Node::Unreadable(reason) => report(path, Outcome::Failed(reason@)),
        },
        Node::Unreadable(reason) => match right {
            Node::File(_) => report(path, Outcome::LeftOnly),
            _ => report(path, Outcome::Failed(reason@)),
        },
    }
}

/// The tasks for one entry of the left side: those of the pair that it makes
/// with the first entry of the same name on the right side, or `LeftOnly`
/// where there is none.
pub open spec fn plan_entry<T>(prefix: Seq<char>, entry: Entry<T>, right: Seq<Entry<T>>) -> Seq<
    TaskView<T>,
>
    decreases entry,
{
    let path = child_path(prefix, entry.name@);
    match position_of(right, entry.name@, 0) {
        Some(j) => plan_pair(path, entry.node, right[j as int].node),
        None => report(path, Outcome::LeftOnly),
    }
}

/// The tasks for the first `upto` entries of the left side, in their order.
pub open spec fn plan_left<T>(
    prefix: Seq<char>,
    left: Seq<Entry<T>>,
    right: Seq<Entry<T>>,
    upto: nat,
) -> Seq<TaskView<T>>
    decreases left, upto,
{
    if upto == 0 || upto > left.len() {
        Seq::empty()
    } else {
        plan_left(prefix, left, right, (upto - 1) as nat) + plan_entry(
            prefix,
            left[upto - 1],
            right,
        )
    }
}

/// The tasks for the first `upto` entries of the right side: `RightOnly` for
/// each whose name the left side lacks, in their order.
pub open spec fn plan_right<T>(
    prefix: Seq<char>,
    left: Seq<Entry<T>>,
    right: Seq<Entry<T>>,
    upto: nat,
) -> Seq<TaskView<T>>
    decreases upto,
{
    if upto == 0 || upto > right.len() {
        Seq::empty()
    } else {
        let before = plan_right(prefix, left, right, (upto - 1) as nat);
        let entry = right[upto - 1];
        if position_of(left, entry.name@, 0) is None {
            before + report(child_path(prefix, entry.name@), Outcome::RightOnly)
        } else {
            before
        }
    }
}

/// The tasks for two directories at the path `prefix`: those of the entries
/// of the left side, then those of the entries that only the right side has.
pub open spec fn plan_level<T>(prefix: Seq<char>, left: Seq<Entry<T>>, right: Seq<Entry<T>>) -> Seq<
    TaskView<T>,
>
    decreases left, left.len() + 1,
{
    plan_left(prefix, left, right, left.len()) + plan_right(prefix, left, right, right.len())
}

/// What a task comes to once its files, held in memory, are compared.
pub open spec fn settle(task: TaskView<Vec<u8>>, quick: bool) -> (Seq<char>, Outcome) {
    match task.work {
        WorkView::Report(outcome) => (task.path, outcome),
        WorkView::Compare(a, b) => (task.path, comparison(a@, b@, quick)),
    }
}

/// The outcome for every path of two trees whose files are held in memory.
pub open spec fn tree_diff(
    left: Seq<Entry<Vec<u8>>>,
    right: Seq<Entry<Vec<u8>>>,
    quick: bool,
) -> Seq<(Seq<char>, Outcome)> {
    plan_level(Seq::empty(), left, right).map_values(|task: TaskView<Vec<u8>>| settle(task, quick))
}

/// The models of a sequence of reported entries, in the same order.
pub open spec fn entries_view(entries: Seq<(String, FileDiff)>) -> Seq<(Seq<char>, Outcome)> {
    entries.map_values(|entry: (String, FileDiff)| (entry.0@, entry.1@))
}

/// Finds the first entry that is named `name`.
pub fn find_entry<T>(entries: &Vec<Entry<T>>, name: &String) -> (found: Option<usize>)
    ensures
        match found {
            Some(j) => j < entries.len() && position_of(entries@, name@, 0) == Some(j as nat),
            None => position_of(entries@, name@, 0) is None,
        },
{
    let mut i: usize = 0;
    while i < entries.len()
        invariant
            i <= entries.len(),
            position_of(entries@, name@, 0) == position_of(entries@, name@, i as nat),
        decreases entries.len() - i,
    {
        if entries[i].name == *name {
            return Some(i);
        }
        i += 1;
    }
    None
}

/// Joins the name of an entry to the path of its directory.
fn join_path(prefix: &str, name: &str) -> (path: String)
    ensures
        path@ == child_path(prefix@, name@),
{
    if prefix.is_empty() {
        name.to_owned()
    } else {
        proof {
            reveal_strlit("/");
        }
        let mut path = prefix.to_owned();
        path.append("/");
        path.append(name);
        assert(path@ =~= child_path(prefix@, name@));
        path
    }
}

/// The tasks for the two directories at `prefix`.
fn plan_under<'a, T>(prefix: &str, left: &'a Vec<Entry<T>>, right: &'a Vec<Entry<T>>) -> (plan: Vec<
    Task<'a, T>,
>)
    ensures
        tasks_view(plan@) == plan_level(prefix@, left@, right@),
    decreases left,
{
    let mut plan: Vec<Task<'a, T>> = Vec::new();
    let mut i: usize = 0;
    assert(tasks_view(plan@) =~= plan_left(prefix@, left@, right@, 0));
    while i < left.len()
        invariant
            i <= left.len(),
            tasks_view(plan@) == plan_left(prefix@, left@, right@, i as nat),
        decreases left.len() - i,
    {
        let entry = &left[i];
        let path = join_path(prefix, entry.name.as_str());
        let ghost before = plan@;
        match find_entry(right, &entry.name) {
            None => {
                plan.push(Task { path, work: Work::Report(FileDiff::LeftOnly) });
            },
            Some(j) => match &entry.node {
                Node::File(a) => match &right[j].node {
                    Node::File(b) => {
                        plan.push(Task { path, work: Work::Compare(a, b) });
                    },
                    _ => {
                        plan.push(Task { path, work: Work::Report(FileDiff::LeftOnly) });
                    },
                },
                Node::Dir(left_entries) => match &right[j].node {
                    Node::File(_) => {
                        plan.push(Task { path, work: Work::Report(FileDiff::LeftOnly) });
                    },
                    Node::Dir(right_entries) => {
                        let mut inner = plan_under(path.as_str(), left_entries, right_entries);
                        plan.append(&mut inner);
                    },
                    Node::Unreadable(reason) => {
                        plan.push(Task { path, work: Work::Report(FileDiff::Failed(reason.clone())) });
                    },
                },
                Node::Unreadable(reason) => match &right[j].node {
                    Node::File(_) => {
                        plan.push(Task { path, work: Work::Report(FileDiff::LeftOnly) });
                    },
                    _ => {
                        plan.push(Task { path, work: Work::Report(FileDiff::Failed(reason.clone())) });
                    },
                },
            },
        }
        assert(tasks_view(plan@) =~= tasks_view(before) + plan_entry(prefix@, left@[i as int], right@));
        i += 1;
    }
    let mut k: usize = 0;
    let ghost listed = plan@;
    assert(tasks_view(plan@) =~= tasks_view(listed) + plan_right(prefix@, left@, right@, 0));
    while k < right.len()
        invariant
            k <= right.len(),
            tasks_view(listed) == plan_left(prefix@, left@, right@, left@.len()),
            tasks_view(plan@) == tasks_view(listed) + plan_right(prefix@, left@, right@, k as nat),
        decreases right.len() - k,
    {
        let entry = &right[k];
        let ghost before = plan@;
        if find_entry(left, &entry.name).is_none() {
            let path = join_path(prefix, entry.name.as_str());
            plan.push(Task { path, work: Work::Report(FileDiff::RightOnly) });
            assert(tasks_view(plan@) =~= tasks_view(before) + report(
                child_path(prefix@, right@[k as int].name@),
                Outcome::RightOnly,
            ));
        }
        assert(tasks_view(plan@) =~= tasks_view(listed) + plan_right(
            prefix@,
            left@,
            right@,
            (k + 1) as nat,
        ));
        k += 1;
    }
    plan
}

/// Matches the entries of two trees by name and returns the tasks that are
/// left: for every path that only one side has, or at which the two sides do
/// not match or could not be listed, the outcome to report; and for every
/// path that is a file on both sides, the pair to compare.
pub fn diff_plan<'a, T>(left: &'a Vec<Entry<T>>, right: &'a Vec<Entry<T>>) -> (plan: Vec<
    Task<'a, T>,
>)
    ensures
        tasks_view(plan@) == plan_level(Seq::empty(), left@, right@),
{
    proof {
        reveal_strlit("");
        assert(""@ =~= Seq::<char>::empty());
    }
    plan_under("", left, right)
}

/// Compares two trees whose files are held in memory and returns the outcome
/// for every path: for a file that both sides hold, what the comparison of
/// the two gives, read in chunks of `chunk_size` bytes; for every other
/// path, what [`diff_plan`] reports. Directories that match give the entries
/// below them and none of their own.
pub fn compare_dirs(
    left: &Vec<Entry<Vec<u8>>>,
    right: &Vec<Entry<Vec<u8>>>,
    quick: bool,
    chunk_size: usize,
) -> (entries: Vec<(String, FileDiff)>)
    requires
        chunk_size > 0,
    ensures
        entries_view(entries@) == tree_diff(left@, right@, quick),
{
    let plan = diff_plan(left, right);
    let ghost tasks = tasks_view(plan@);
    let mut entries: Vec<(String, FileDiff)> = Vec::new();
    for task in it: plan.into_iter()
        invariant
            chunk_size > 0,
            tasks_view(it.seq()) == tasks,
            entries_view(entries@) == tasks.take(it.index() as int).map_values(
                |task: TaskView<Vec<u8>>| settle(task, quick),
            ),
    {
        let ghost done = it.index();
        let ghost before = entries@;
        assert(task@ == tasks[done]);
        let diff = match task.work {
            Work::Report(diff) => diff,
            Work::Compare(a, b) => compare_files(a.as_slice(), b.as_slice(), quick, chunk_size),
        };
        entries.push((task.path, diff));
        assert(tasks.take(done + 1) =~= tasks.take(done).push(tasks[done]));
        assert(entries_view(entries@) =~= entries_view(before).push(settle(tasks[done], quick)));
    }
    assert(tasks.take(tasks.len() as int) =~= tasks);
    entries
}

} // verus!
