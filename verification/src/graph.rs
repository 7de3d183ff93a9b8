//! The output task graph: an ordered accumulation of fully resolved tasks,
//! seeded with the job's name and canonical descriptive text. A task is
//! admitted only if its name is new and every dependency names a task that
//! the graph already holds.

use vstd::prelude::*;

use crate::TaskReturnCodeMapping;

verus! {

/// One fully resolved task as the graph stores it.
#[derive(Debug)]
pub struct Task {
    pub name: String,
    pub depends_on: Vec<String>,
    pub executor: String,
    pub command: String,
    pub arguments: Vec<String>,
    pub on_result: TaskReturnCodeMapping,
}

pub ghost struct TaskView {
    pub name: Seq<char>,
    pub depends_on: Seq<Seq<char>>,
    pub executor: Seq<char>,
    pub command: Seq<char>,
    pub arguments: Seq<Seq<char>>,
    pub terminate_early: Seq<i32>,
    pub continue_job: Seq<i32>,
}

impl View for Task {
    type V = TaskView;

    open spec fn view(&self) -> TaskView {
        TaskView {
            name: self.name@,
            depends_on: self.depends_on.deep_view(),
            executor: self.executor@,
            command: self.command@,
            arguments: self.arguments.deep_view(),
            terminate_early: self.on_result.terminate_early@,
            continue_job: self.on_result.continue_job@,
        }
    }
}

impl DeepView for Task {
    type V = TaskView;

    open spec fn deep_view(&self) -> TaskView {
        self.view()
    }
}

/// Why the graph refused a task.
#[derive(Debug)]
pub enum GraphError {
    /// A task of that name is in the graph already.
    DuplicateTask(String),
    /// The named task depends on a name the graph does not hold.
    UnknownDependency(String, String),
}

/// Some already-admitted task bears this name.
pub open spec fn has_task_named(tasks: Seq<TaskView>, name: Seq<char>) -> bool {
    exists|i: int| 0 <= i < tasks.len() && tasks[i].name == name
}

/// Index of the first dependency that names no admitted task, or -1 when
/// every dependency is known.
pub open spec fn first_missing_dep(tasks: Seq<TaskView>, deps: Seq<Seq<char>>) -> int
    decreases deps.len(),
{
    if deps.len() == 0 {
        -1
    } else if !has_task_named(tasks, deps[0]) {
        0
    } else {
        let rest = first_missing_dep(tasks, deps.drop_first());
        if rest == -1 {
            -1
        } else {
            rest + 1
        }
    }
}

pub open spec fn all_deps_known(tasks: Seq<TaskView>, deps: Seq<Seq<char>>) -> bool {
    first_missing_dep(tasks, deps) == -1
}

pub proof fn lemma_first_missing_dep(tasks: Seq<TaskView>, deps: Seq<Seq<char>>)
    ensures
        ({
            let m = first_missing_dep(tasks, deps);
            if m == -1 {
                forall|d: int|
                    0 <= d < deps.len() ==> #[trigger] has_task_named(tasks, deps[d])
            } else {
                &&& 0 <= m < deps.len()
                &&& !has_task_named(tasks, deps[m])
                &&& forall|d: int| 0 <= d < m ==> #[trigger] has_task_named(tasks, deps[d])
            }
        }),
    decreases deps.len(),
{
    if deps.len() > 0 && has_task_named(tasks, deps[0]) {
        let sub = deps.drop_first();
        lemma_first_missing_dep(tasks, sub);
        let rest = first_missing_dep(tasks, sub);
        if rest == -1 {
            assert forall|d: int|
                0 <= d < deps.len() implies #[trigger] has_task_named(tasks, deps[d]) by {
                if d >= 1 {
                    assert(deps[d] == sub[d - 1]);
                    assert(has_task_named(tasks, sub[d - 1]));
                }
            };
        } else {
            assert(deps[rest + 1] == sub[rest]);
            assert forall|d: int|
                0 <= d < rest + 1 implies #[trigger] has_task_named(tasks, deps[d]) by {
                if d >= 1 {
                    assert(deps[d] == sub[d - 1]);
                    assert(has_task_named(tasks, sub[d - 1]));
                }
            };
        }
    }
}

/// A well-formed accumulation: task names are unique, and every task's
/// dependencies name tasks admitted before it.
pub open spec fn graph_wf(tasks: Seq<TaskView>) -> bool {
    &&& forall|i: int, j: int|
        0 <= i < j < tasks.len() ==> (#[trigger] tasks[i]).name != (#[trigger] tasks[j]).name
    &&& forall|i: int|
        0 <= i < tasks.len() ==> all_deps_known(tasks.take(i), (#[trigger] tasks[i]).depends_on)
}

/// What `add_task` checks before admitting a task is exactly what keeps
/// the accumulation well-formed.
pub proof fn lemma_admission_preserves_wf(tasks: Seq<TaskView>, t: TaskView)
    requires
        graph_wf(tasks),
        !has_task_named(tasks, t.name),
        all_deps_known(tasks, t.depends_on),
    ensures
        graph_wf(tasks.push(t)),
{
    let p = tasks.push(t);
    assert forall|i: int, j: int|
        0 <= i < j < p.len() implies (#[trigger] p[i]).name != (#[trigger] p[j]).name by {
        if j == tasks.len() {
            assert(p[i] == tasks[i]);
            assert(p[j] == t);
            if tasks[i].name == t.name {
                assert(has_task_named(tasks, t.name));
            }
        }
    }
    assert forall|i: int|
        0 <= i < p.len() implies all_deps_known(p.take(i), (#[trigger] p[i]).depends_on) by {
        if i < tasks.len() {
            assert(p.take(i) =~= tasks.take(i));
            assert(p[i] == tasks[i]);
        } else {
            assert(p.take(i) =~= tasks);
            assert(p[i] == t);
        }
    }
}

/// The view of a task submitted to the graph field by field.
pub open spec fn submitted_task(
    name: Seq<char>,
    depends_on: Seq<Seq<char>>,
    executor: Seq<char>,
    command: Seq<char>,
    arguments: Seq<Seq<char>>,
    terminate_early: Seq<i32>,
    continue_job: Seq<i32>,
) -> TaskView {
    TaskView { name, depends_on, executor, command, arguments, terminate_early, continue_job }
}

/// The accumulated graph: descriptive canonical text, the job's name, and
/// the admitted tasks in admission order.
#[derive(Debug)]
pub struct TaskGraph {
    pub raw: String,
    pub name: String,
    pub tasks: Vec<Task>,
}

pub ghost struct TaskGraphView {
    pub raw: Seq<char>,
    pub name: Seq<char>,
    pub tasks: Seq<TaskView>,
}

impl View for TaskGraph {
    type V = TaskGraphView;

    open spec fn view(&self) -> TaskGraphView {
        TaskGraphView { raw: self.raw@, name: self.name@, tasks: self.tasks.deep_view() }
    }
}

impl TaskGraph {
    /// An empty graph seeded with its canonical text and its name.
    pub fn new(raw: String, name: String) -> (g: TaskGraph)
        ensures
            g@.raw == raw@,
            g@.name == name@,
            g@.tasks == Seq::<TaskView>::empty(),
    {
        let g = TaskGraph { raw, name, tasks: Vec::new() };
        proof {
            assert(g.tasks.deep_view() =~= Seq::<TaskView>::empty());
        }
        g
    }

    /// Admits a fully resolved task if its name is not taken and each of
    /// its dependencies names an already-admitted task; otherwise reports
    /// why and leaves the graph unchanged.
    pub fn add_task(
        &mut self,
        name: String,
        depends_on: Vec<String>,
        executor: String,
        command: String,
        arguments: Vec<String>,
        terminate_early: Vec<i32>,
        continue_job: Vec<i32>,
    ) -> (r: Result<(), GraphError>)
        ensures
            final(self)@.raw == old(self)@.raw,
            final(self)@.name == old(self)@.name,
            ({
                let tv = submitted_task(
                    name@,
                    depends_on.deep_view(),
                    executor@,
                    command@,
                    arguments.deep_view(),
                    terminate_early@,
                    continue_job@,
                );
                match r {
                    Ok(u) => !has_task_named(old(self)@.tasks, tv.name) && all_deps_known(
                        old(self)@.tasks,
                        tv.depends_on,
                    ) && final(self)@.tasks == old(self)@.tasks.push(tv),
                    Err(GraphError::DuplicateTask(n)) => n@ == tv.name && has_task_named(
                        old(self)@.tasks,
                        tv.name,
                    ) && final(self)@ == old(self)@,
                    Err(GraphError::UnknownDependency(t, d)) => {
                        let m = first_missing_dep(old(self)@.tasks, tv.depends_on);
                        &&& t@ == tv.name
                        &&& !has_task_named(old(self)@.tasks, tv.name)
                        &&& 0 <= m < tv.depends_on.len()
                        &&& d@ == tv.depends_on[m]
                        &&& final(self)@ == old(self)@
                    },
                }
            }),
    {
        let ghost deps_view = depends_on.deep_view();
        let ghost tasks0 = self@.tasks;
        let mut i: usize = 0;
        while i < self.tasks.len()
            invariant
                *self == *old(self),
                tasks0 == self@.tasks,
                i <= self.tasks@.len(),
                forall|ii: int| 0 <= ii < i ==> #[trigger] tasks0[ii].name != name@,
            decreases self.tasks@.len() - i,
        {
            proof {
                assert(tasks0[i as int] == self.tasks[i as int]@);
            }
            if self.tasks[i].name == name {
                proof {
                    assert(has_task_named(tasks0, name@));
                }
                return Err(GraphError::DuplicateTask(name.clone()));
            }
            i += 1;
        }
        proof {
            assert(forall|ii: int|
                0 <= ii < tasks0.len() ==> #[trigger] tasks0[ii] == self.tasks[ii]@);
            assert(!has_task_named(tasks0, name@));
        }
        let mut d: usize = 0;
        while d < depends_on.len()
            invariant
                *self == *old(self),
                tasks0 == self@.tasks,
                deps_view == depends_on.deep_view(),
                d <= depends_on@.len(),
                !has_task_named(tasks0, name@),
                forall|dd: int|
                    0 <= dd < d ==> #[trigger] has_task_named(tasks0, deps_view[dd]),
            decreases depends_on@.len() - d,
        {
            let dep = &depends_on[d];
            let mut k: usize = 0;
            let mut found = false;
            while k < self.tasks.len()
                invariant
                    *self == *old(self),
                    tasks0 == self@.tasks,
                    k <= self.tasks@.len(),
                    d < depends_on@.len(),
                    deps_view == depends_on.deep_view(),
                    dep@ == deps_view[d as int],
                    found ==> has_task_named(tasks0, deps_view[d as int]),
                    !found ==> forall|kk: int|
                        0 <= kk < k ==> #[trigger] tasks0[kk].name != dep@,
                decreases self.tasks@.len() - k,
            {
                proof {
                    assert(tasks0[k as int] == self.tasks[k as int]@);
                }
                if self.tasks[k].name == *dep {
                    found = true;
                    proof {
                        assert(has_task_named(tasks0, deps_view[d as int]));
                    }
                }
                k += 1;
            }
            if !found {
                proof {
                    assert(forall|kk: int|
                        0 <= kk < tasks0.len() ==> #[trigger] tasks0[kk].name != dep@);
                    assert(!has_task_named(tasks0, deps_view[d as int]));
                    lemma_first_missing_dep(tasks0, deps_view);
                    assert(first_missing_dep(tasks0, deps_view) == d as int);
                }
                return Err(GraphError::UnknownDependency(name.clone(), depends_on[d].clone()));
            }
            d += 1;
        }
        proof {
            lemma_first_missing_dep(tasks0, deps_view);
            assert(all_deps_known(tasks0, deps_view));
        }
        let task = Task {
            name,
            depends_on,
            executor,
            command,
            arguments,
            on_result: TaskReturnCodeMapping { continue_job, terminate_early },
        };
        let ghost tv = task@;
        self.tasks.push(task);
        proof {
            assert(self.tasks.deep_view() =~= tasks0.push(tv));
        }
        Ok(())
    }
}

} // verus!
