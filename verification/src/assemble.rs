//! The graph assembler: applies substitution to every user-facing string
//! field of a decoded job, resolves each task's exit-code policy, and admits
//! the tasks to a fresh graph one at a time, in document order.

use vstd::prelude::*;

use crate::graph::{
    all_deps_known, first_missing_dep, has_task_named, submitted_task, GraphError, TaskGraph,
    TaskGraphView, TaskView,
};
use crate::model::{JobDescriptor, JobDescriptorView, SubstitutionContext, TaskDescriptorView};
use crate::policy::{
    effective_continue, effective_terminate, policy_conflict, resolve_policy, PolicyError,
};
use crate::template::{decorate, decorate_text, TemplateError};
use crate::OverrideResultMappings;

verus! {

/// Why assembly stopped: the first failure met while resolving and
/// admitting the tasks in document order.
pub enum AssemblyError {
    /// A placeholder named a key the context does not define; the first
    /// field names the offending task where one was already resolved.
    UndefinedVariable(Option<String>, String),
    /// The named task declares no exit code that lets the job continue.
    EmptyContinuationSet(String),
    /// The named task declares an exit code in both of its lists.
    ConflictingPolicy(String),
    /// The graph refused the task.
    Graph(GraphError),
}

pub ghost enum AssemblyErrorView {
    UndefinedVariable(Option<Seq<char>>, Seq<char>),
    EmptyContinuationSet(Seq<char>),
    ConflictingPolicy(Seq<char>),
    DuplicateTask(Seq<char>),
    UnknownDependency(Seq<char>, Seq<char>),
}

impl View for AssemblyError {
    type V = AssemblyErrorView;

    open spec fn view(&self) -> AssemblyErrorView {
        match self {
            AssemblyError::UndefinedVariable(t, k) => AssemblyErrorView::UndefinedVariable(
                match t {
                    Option::Some(s) => Option::Some(s@),
                    Option::None => Option::None,
                },
                k@,
            ),
            AssemblyError::EmptyContinuationSet(n) => AssemblyErrorView::EmptyContinuationSet(n@),
            AssemblyError::ConflictingPolicy(n) => AssemblyErrorView::ConflictingPolicy(n@),
            AssemblyError::Graph(GraphError::DuplicateTask(n)) => AssemblyErrorView::DuplicateTask(
                n@,
            ),
            AssemblyError::Graph(GraphError::UnknownDependency(t, d)) =>
                AssemblyErrorView::UnknownDependency(t@, d@),
        }
    }
}

/// Substitution under an optional context: absent means the text passes
/// through verbatim, placeholders included.
pub open spec fn decorate_opt(text: Seq<char>, ctx: SubstitutionContext) -> Result<
    Seq<char>,
    Seq<char>,
> {
    match ctx {
        SubstitutionContext::NoSubstitution => Ok(text),
        SubstitutionContext::Substitute(c) => decorate_text(text, c.pairs@),
    }
}

/// Substitution over a list of fields, stopping at the first unbound name.
pub open spec fn decorate_all(texts: Seq<Seq<char>>, ctx: SubstitutionContext) -> Result<
    Seq<Seq<char>>,
    Seq<char>,
>
    decreases texts.len(),
{
    if texts.len() == 0 {
        Ok(Seq::<Seq<char>>::empty())
    } else {
        match decorate_opt(texts[0], ctx) {
            Err(k) => Err(k),
            Ok(h) => match decorate_all(texts.drop_first(), ctx) {
                Err(k) => Err(k),
                Ok(t) => Ok(seq![h] + t),
            },
        }
    }
}

/// The outcome of handling one task descriptor against the tasks already
/// admitted: its fully resolved form, or the first failure. The declared
/// policy is validated before the override may replace it.
pub open spec fn step_spec(
    t: TaskDescriptorView,
    ctx: SubstitutionContext,
    ov: OverrideResultMappings,
    admitted: Seq<TaskView>,
) -> Result<TaskView, AssemblyErrorView> {
    match decorate_opt(t.name, ctx) {
        Err(k) => Err(AssemblyErrorView::UndefinedVariable(Option::None, k)),
        Ok(name) => {
            if t.on_result.continue_job.len() == 0 {
                Err(AssemblyErrorView::EmptyContinuationSet(name))
            } else if policy_conflict(t.on_result.continue_job, t.on_result.terminate_job_with_success) {
                Err(AssemblyErrorView::ConflictingPolicy(name))
            } else {
                match decorate_opt(t.command, ctx) {
                    Err(k) => Err(AssemblyErrorView::UndefinedVariable(Option::Some(name), k)),
                    Ok(command) => match decorate_all(t.arguments, ctx) {
                        Err(k) => Err(AssemblyErrorView::UndefinedVariable(Option::Some(name), k)),
                        Ok(arguments) => match decorate_all(t.depends_on, ctx) {
                            Err(k) => Err(
                                AssemblyErrorView::UndefinedVariable(Option::Some(name), k),
                            ),
                            Ok(deps) => {
                                if has_task_named(admitted, name) {
                                    Err(AssemblyErrorView::DuplicateTask(name))
                                } else if !all_deps_known(admitted, deps) {
                                    Err(
                                        AssemblyErrorView::UnknownDependency(
                                            name,
                                            deps[first_missing_dep(admitted, deps)],
                                        ),
                                    )
                                } else {
                                    Ok(
                                        TaskView {
                                            name,
                                            depends_on: deps,
                                            executor: t.executor,
                                            command,
                                            arguments,
                                            terminate_early: effective_terminate(t, ov),
                                            continue_job: effective_continue(t, ov),
                                        },
                                    )
                                }
                            },
                        },
                    },
                }
            }
        },
    }
}

/// Folds `step_spec` over the descriptors in document order, accumulating
/// the admitted tasks; the first failure ends the whole assembly.
pub open spec fn fold_tasks(
    ts: Seq<TaskDescriptorView>,
    ctx: SubstitutionContext,
    ov: OverrideResultMappings,
    acc: Seq<TaskView>,
) -> Result<Seq<TaskView>, AssemblyErrorView>
    decreases ts.len(),
{
    if ts.len() == 0 {
        Ok(acc)
    } else {
        match step_spec(ts[0], ctx, ov, acc) {
            Err(e) => Err(e),
            Ok(tv) => fold_tasks(ts.drop_first(), ctx, ov, acc.push(tv)),
        }
    }
}

/// The whole assembly: canonical text and job name are substituted first,
/// then every task is resolved and admitted in document order.
pub open spec fn assemble_spec(
    job: JobDescriptorView,
    canonical: Seq<char>,
    ctx: SubstitutionContext,
    ov: OverrideResultMappings,
) -> Result<TaskGraphView, AssemblyErrorView> {
    match decorate_opt(canonical, ctx) {
        Err(k) => Err(AssemblyErrorView::UndefinedVariable(Option::None, k)),
        Ok(raw) => match decorate_opt(job.name, ctx) {
            Err(k) => Err(AssemblyErrorView::UndefinedVariable(Option::None, k)),
            Ok(name) => match fold_tasks(job.tasks, ctx, ov, Seq::<TaskView>::empty()) {
                Err(e) => Err(e),
                Ok(tasks) => Ok(TaskGraphView { raw, name, tasks }),
            },
        },
    }
}

fn decorate_opt_exec(text: &str, ctx: &SubstitutionContext) -> (r: Result<String, String>)
    ensures
        (match r {
            Ok(s) => decorate_opt(text@, *ctx) == Ok::<Seq<char>, Seq<char>>(s@),
            Err(k) => decorate_opt(text@, *ctx) == Err::<Seq<char>, Seq<char>>(k@),
        }),
{
    match ctx {
        SubstitutionContext::NoSubstitution => Ok(text.to_owned()),
        SubstitutionContext::Substitute(c) => match decorate(text, c) {
            Ok(s) => Ok(s),
            Err(TemplateError::UndefinedVariable(k)) => Err(k),
        },
    }
}

fn decorate_all_exec(texts: &Vec<String>, ctx: &SubstitutionContext) -> (r: Result<
    Vec<String>,
    String,
>)
    ensures
        (match r {
            Ok(v) => decorate_all(texts.deep_view(), *ctx) == Ok::<Seq<Seq<char>>, Seq<char>>(
                v.deep_view(),
            ),
            Err(k) => decorate_all(texts.deep_view(), *ctx) == Err::<Seq<Seq<char>>, Seq<char>>(
                k@,
            ),
        }),
{
    let ghost full = texts.deep_view();
    let mut out: Vec<String> = Vec::new();
    let mut i: usize = 0;
    proof {
        assert(full.skip(0) =~= full);
        assert(out.deep_view() =~= Seq::<Seq<char>>::empty());
    }
    while i < texts.len()
        invariant
            i <= texts@.len(),
            full == texts.deep_view(),
            (match decorate_all(full.skip(i as int), *ctx) {
                Err(k) => decorate_all(full, *ctx) == Err::<Seq<Seq<char>>, Seq<char>>(k),
                Ok(rest) => decorate_all(full, *ctx) == Ok::<Seq<Seq<char>>, Seq<char>>(
                    out.deep_view() + rest,
                ),
            }),
        decreases texts@.len() - i,
    {
        proof {
            assert(full.skip(i as int)[0] == full[i as int]);
            assert(full.skip(i as int).drop_first() =~= full.skip(i as int + 1));
            assert(full[i as int] == texts@[i as int]@);
        }
        match decorate_opt_exec(texts[i].as_str(), ctx) {
            Err(k) => {
                return Err(k);
            },
            Ok(s) => {
                let ghost out0 = out.deep_view();
                let ghost sv = s@;
                out.push(s);
                proof {
                    assert(out.deep_view() =~= out0.push(sv));
                    if decorate_all(full.skip(i as int + 1), *ctx) is Ok {
                        let rest2 = decorate_all(full.skip(i as int + 1), *ctx)->Ok_0;
                        assert(out0 + (seq![sv] + rest2) =~= out0.push(sv) + rest2);
                    }
                }
                i += 1;
            },
        }
    }
    proof {
        assert(full.skip(texts@.len() as int) =~= Seq::<Seq<char>>::empty());
        assert(out.deep_view() + Seq::<Seq<char>>::empty() =~= out.deep_view());
    }
    Ok(out)
}

/// Substitutes every user-facing string field, resolves every task's
/// policy, and builds the output graph, admitting tasks in document order;
/// the first failure aborts the whole assembly.
pub fn assemble(
    job: &JobDescriptor,
    canonical: &String,
    ctx: &SubstitutionContext,
    overrides: &OverrideResultMappings,
) -> (r: Result<TaskGraph, AssemblyError>)
    ensures
        (match r {
            Ok(g) => assemble_spec(job@, canonical@, *ctx, *overrides) == Ok::<
                TaskGraphView,
                AssemblyErrorView,
            >(g@),
            Err(e) => assemble_spec(job@, canonical@, *ctx, *overrides) == Err::<
                TaskGraphView,
                AssemblyErrorView,
            >(e@),
        }),
{
    let raw = match decorate_opt_exec(canonical.as_str(), ctx) {
        Ok(s) => s,
        Err(k) => {
            return Err(AssemblyError::UndefinedVariable(Option::None, k));
        },
    };
    let name = match decorate_opt_exec(job.name.as_str(), ctx) {
        Ok(s) => s,
        Err(k) => {
            return Err(AssemblyError::UndefinedVariable(Option::None, k));
        },
    };
    let mut g = TaskGraph::new(raw, name);
    let ghost full = job@.tasks;
    let ghost gv0 = g@;
    proof {
        assert(full.skip(0) =~= full);
    }
    let mut i: usize = 0;
    while i < job.tasks.len()
        invariant
            i <= job.tasks@.len(),
            full == job@.tasks,
            g@.raw == gv0.raw,
            g@.name == gv0.name,
            decorate_opt(canonical@, *ctx) == Ok::<Seq<char>, Seq<char>>(gv0.raw),
            decorate_opt(job@.name, *ctx) == Ok::<Seq<char>, Seq<char>>(gv0.name),
            fold_tasks(full, *ctx, *overrides, Seq::<TaskView>::empty()) == fold_tasks(
                full.skip(i as int),
                *ctx,
                *overrides,
                g@.tasks,
            ),
        decreases job.tasks@.len() - i,
    {
        proof {
            assert(full.skip(i as int)[0] == full[i as int]);
            assert(full.skip(i as int).drop_first() =~= full.skip(i as int + 1));
            assert(full[i as int] == job.tasks@[i as int]@);
        }
        let t = &job.tasks[i];
        let final_name = match decorate_opt_exec(t.name.as_str(), ctx) {
            Ok(s) => s,
            Err(k) => {
                return Err(AssemblyError::UndefinedVariable(Option::None, k));
            },
        };
        let mapping = match resolve_policy(t, overrides) {
            Ok(m) => m,
            Err(PolicyError::EmptyContinuationSet) => {
                return Err(AssemblyError::EmptyContinuationSet(final_name));
            },
            Err(PolicyError::ConflictingPolicy) => {
                return Err(AssemblyError::ConflictingPolicy(final_name));
            },
        };
        let command = match decorate_opt_exec(t.command.as_str(), ctx) {
            Ok(s) => s,
            Err(k) => {
                return Err(AssemblyError::UndefinedVariable(Option::Some(final_name), k));
            },
        };
        let arguments = match decorate_all_exec(&t.arguments, ctx) {
            Ok(v) => v,
            Err(k) => {
                return Err(AssemblyError::UndefinedVariable(Option::Some(final_name), k));
            },
        };
        let deps = match decorate_all_exec(&t.depends_on, ctx) {
            Ok(v) => v,
            Err(k) => {
                return Err(AssemblyError::UndefinedVariable(Option::Some(final_name), k));
            },
        };
        let ghost acc0 = g@.tasks;
        let ghost ntv = submitted_task(
            final_name@,
            deps.deep_view(),
            t.executor@,
            command@,
            arguments.deep_view(),
            mapping.terminate_early@,
            mapping.continue_job@,
        );
        match g.add_task(
            final_name,
            deps,
            t.executor.clone(),
            command,
            arguments,
            mapping.terminate_early,
            mapping.continue_job,
        ) {
            Ok(u) => {
                proof {
                    assert(step_spec(full[i as int], *ctx, *overrides, acc0) == Ok::<
                        TaskView,
                        AssemblyErrorView,
                    >(ntv));
                    assert(g@.tasks == acc0.push(ntv));
                }
            },
            Err(e) => {
                proof {
                    match &e {
                        GraphError::DuplicateTask(n) => {
                            assert(step_spec(full[i as int], *ctx, *overrides, acc0)
                                == Err::<TaskView, AssemblyErrorView>(
                                AssemblyErrorView::DuplicateTask(n@),
                            ));
                        },
                        GraphError::UnknownDependency(tn, dn) => {
                            assert(step_spec(full[i as int], *ctx, *overrides, acc0)
                                == Err::<TaskView, AssemblyErrorView>(
                                AssemblyErrorView::UnknownDependency(tn@, dn@),
                            ));
                        },
                    }
                }
                return Err(AssemblyError::Graph(e));
            },
        }
        i += 1;
    }
    proof {
        assert(full.skip(job.tasks@.len() as int) =~= Seq::<TaskDescriptorView>::empty());
    }
    Ok(g)
}

} // verus!
