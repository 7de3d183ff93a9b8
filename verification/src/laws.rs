//! Properties of the assembly pipeline that hold for every input, stated
//! over the same spec functions the executable contracts use.

use vstd::prelude::*;

use crate::assemble::{
    assemble_spec, decorate_opt, fold_tasks, step_spec, AssemblyErrorView,
};
use crate::encode::envelope_text;
use crate::graph::{graph_wf, lemma_admission_preserves_wf, TaskGraphView, TaskView};
use crate::model::{JobDescriptorView, JobEnvelopeView, SubstitutionContext, TaskDescriptorView};
use crate::policy::{effective_continue, effective_terminate, policy_conflict, policy_valid};
use crate::{OverrideResultMappings, TaskReturnCodeMapping};

verus! {

/// The tail of the pipeline from the decoded envelope on is a function of
/// its inputs: two runs on equal inputs give the very same outcome, graph
/// or failure.
pub proof fn lemma_pipeline_deterministic(
    env: JobEnvelopeView,
    ctx: SubstitutionContext,
    ov: OverrideResultMappings,
    r1: Result<TaskGraphView, AssemblyErrorView>,
    r2: Result<TaskGraphView, AssemblyErrorView>,
)
    requires
        r1 == assemble_spec(env.data, envelope_text(env), ctx, ov),
        r2 == assemble_spec(env.data, envelope_text(env), ctx, ov),
    ensures
        r1 == r2,
{
}

proof fn lemma_fold_invalid_policy_errs(
    ts: Seq<TaskDescriptorView>,
    ctx: SubstitutionContext,
    ov: OverrideResultMappings,
    acc: Seq<TaskView>,
    i: int,
)
    requires
        0 <= i < ts.len(),
        !policy_valid(ts[i].on_result.continue_job, ts[i].on_result.terminate_job_with_success),
    ensures
        fold_tasks(ts, ctx, ov, acc) is Err,
    decreases i,
{
    match step_spec(ts[0], ctx, ov, acc) {
        Err(e) => {},
        Ok(tv) => {
            assert(i != 0);
            assert(ts.drop_first()[i - 1] == ts[i]);
            lemma_fold_invalid_policy_errs(ts.drop_first(), ctx, ov, acc.push(tv), i - 1);
        },
    }
}

/// A task whose declared continue and terminate sets intersect makes the
/// whole assembly fail, whatever the override and whatever the context.
pub proof fn lemma_conflicting_policy_rejected(
    job: JobDescriptorView,
    canonical: Seq<char>,
    ctx: SubstitutionContext,
    ov: OverrideResultMappings,
    i: int,
)
    requires
        0 <= i < job.tasks.len(),
        policy_conflict(
            job.tasks[i].on_result.continue_job,
            job.tasks[i].on_result.terminate_job_with_success,
        ),
    ensures
        assemble_spec(job, canonical, ctx, ov) is Err,
{
    if decorate_opt(canonical, ctx) is Ok && decorate_opt(job.name, ctx) is Ok {
        lemma_fold_invalid_policy_errs(job.tasks, ctx, ov, Seq::<TaskView>::empty(), i);
    }
}

/// A task that declares no continue code makes the whole assembly fail,
/// even under an override whose own continue list is non-empty.
pub proof fn lemma_empty_continuation_rejected(
    job: JobDescriptorView,
    canonical: Seq<char>,
    ctx: SubstitutionContext,
    ov: OverrideResultMappings,
    i: int,
)
    requires
        0 <= i < job.tasks.len(),
        job.tasks[i].on_result.continue_job.len() == 0,
    ensures
        assemble_spec(job, canonical, ctx, ov) is Err,
{
    if decorate_opt(canonical, ctx) is Ok && decorate_opt(job.name, ctx) is Ok {
        lemma_fold_invalid_policy_errs(job.tasks, ctx, ov, Seq::<TaskView>::empty(), i);
    }
}

/// Splitting the task fold at any point: the whole fold is the fold of the
/// prefix, continued over the suffix when the prefix succeeded.
pub proof fn lemma_fold_split(
    ts: Seq<TaskDescriptorView>,
    ctx: SubstitutionContext,
    ov: OverrideResultMappings,
    acc: Seq<TaskView>,
    i: int,
)
    requires
        0 <= i <= ts.len(),
    ensures
        fold_tasks(ts, ctx, ov, acc) == (match fold_tasks(ts.take(i), ctx, ov, acc) {
            Err(e) => Err::<Seq<TaskView>, AssemblyErrorView>(e),
            Ok(mid) => fold_tasks(ts.skip(i), ctx, ov, mid),
        }),
    decreases i,
{
    if i == 0 {
        assert(ts.take(0) =~= Seq::<TaskDescriptorView>::empty());
        assert(ts.skip(0) =~= ts);
    } else {
        assert(ts.take(i)[0] == ts[0]);
        match step_spec(ts[0], ctx, ov, acc) {
            Err(e) => {},
            Ok(tv) => {
                assert(ts.take(i).drop_first() =~= ts.drop_first().take(i - 1));
                assert(ts.skip(i) =~= ts.drop_first().skip(i - 1));
                lemma_fold_split(ts.drop_first(), ctx, ov, acc.push(tv), i - 1);
            },
        }
    }
}

/// When assembly reaches a task whose declared sets intersect, it fails
/// with a conflicting-policy error naming that task's resolved name,
/// whatever the override.
pub proof fn lemma_conflict_names_task(
    job: JobDescriptorView,
    canonical: Seq<char>,
    ctx: SubstitutionContext,
    ov: OverrideResultMappings,
    i: int,
    mid: Seq<TaskView>,
    nm: Seq<char>,
)
    requires
        0 <= i < job.tasks.len(),
        decorate_opt(canonical, ctx) is Ok,
        decorate_opt(job.name, ctx) is Ok,
        fold_tasks(job.tasks.take(i), ctx, ov, Seq::<TaskView>::empty()) == Ok::<
            Seq<TaskView>,
            AssemblyErrorView,
        >(mid),
        decorate_opt(job.tasks[i].name, ctx) == Ok::<Seq<char>, Seq<char>>(nm),
        policy_conflict(
            job.tasks[i].on_result.continue_job,
            job.tasks[i].on_result.terminate_job_with_success,
        ),
    ensures
        assemble_spec(job, canonical, ctx, ov) == Err::<TaskGraphView, AssemblyErrorView>(
            AssemblyErrorView::ConflictingPolicy(nm),
        ),
{
    lemma_fold_split(job.tasks, ctx, ov, Seq::<TaskView>::empty(), i);
    assert(job.tasks.skip(i)[0] == job.tasks[i]);
    assert(job.tasks[i].on_result.continue_job.len() > 0);
}

/// When assembly reaches a task with no declared continue code, it fails
/// with an empty-continuation error naming that task's resolved name, even
/// under an override whose own continue list is non-empty.
pub proof fn lemma_empty_continuation_names_task(
    job: JobDescriptorView,
    canonical: Seq<char>,
    ctx: SubstitutionContext,
    ov: OverrideResultMappings,
    i: int,
    mid: Seq<TaskView>,
    nm: Seq<char>,
)
    requires
        0 <= i < job.tasks.len(),
        decorate_opt(canonical, ctx) is Ok,
        decorate_opt(job.name, ctx) is Ok,
        fold_tasks(job.tasks.take(i), ctx, ov, Seq::<TaskView>::empty()) == Ok::<
            Seq<TaskView>,
            AssemblyErrorView,
        >(mid),
        decorate_opt(job.tasks[i].name, ctx) == Ok::<Seq<char>, Seq<char>>(nm),
        job.tasks[i].on_result.continue_job.len() == 0,
    ensures
        assemble_spec(job, canonical, ctx, ov) == Err::<TaskGraphView, AssemblyErrorView>(
            AssemblyErrorView::EmptyContinuationSet(nm),
        ),
{
    lemma_fold_split(job.tasks, ctx, ov, Seq::<TaskView>::empty(), i);
    assert(job.tasks.skip(i)[0] == job.tasks[i]);
}

proof fn lemma_fold_result_shape(
    ts: Seq<TaskDescriptorView>,
    ctx: SubstitutionContext,
    ov: OverrideResultMappings,
    acc: Seq<TaskView>,
    res: Seq<TaskView>,
)
    requires
        fold_tasks(ts, ctx, ov, acc) == Ok::<Seq<TaskView>, AssemblyErrorView>(res),
    ensures
        res.len() == acc.len() + ts.len(),
        forall|k: int| 0 <= k < acc.len() ==> res[k] == acc[k],
        forall|k: int|
            #![trigger ts[k]]
            0 <= k < ts.len() ==> {
                &&& decorate_opt(ts[k].name, ctx) == Ok::<Seq<char>, Seq<char>>(
                    res[acc.len() + k].name,
                )
                &&& res[acc.len() + k].terminate_early == effective_terminate(ts[k], ov)
                &&& res[acc.len() + k].continue_job == effective_continue(ts[k], ov)
            },
    decreases ts.len(),
{
    if ts.len() == 0 {
    } else {
        match step_spec(ts[0], ctx, ov, acc) {
            Err(e) => {
                assert(false);
            },
            Ok(tv) => {
                lemma_fold_result_shape(ts.drop_first(), ctx, ov, acc.push(tv), res);
                assert(res[acc.len() as int] == acc.push(tv)[acc.len() as int]);
                assert forall|k: int|
                    #![trigger ts[k]]
                    0 <= k < ts.len() implies {
                    &&& decorate_opt(ts[k].name, ctx) == Ok::<Seq<char>, Seq<char>>(
                        res[acc.len() + k].name,
                    )
                    &&& res[acc.len() + k].terminate_early == effective_terminate(ts[k], ov)
                    &&& res[acc.len() + k].continue_job == effective_continue(ts[k], ov)
                } by {
                    if k == 0 {
                        assert(res[acc.len() as int] == tv);
                    } else {
                        assert(ts.drop_first()[k - 1] == ts[k]);
                    }
                }
            },
        }
    }
}

proof fn lemma_fold_preserves_wf(
    ts: Seq<TaskDescriptorView>,
    ctx: SubstitutionContext,
    ov: OverrideResultMappings,
    acc: Seq<TaskView>,
    res: Seq<TaskView>,
)
    requires
        graph_wf(acc),
        fold_tasks(ts, ctx, ov, acc) == Ok::<Seq<TaskView>, AssemblyErrorView>(res),
    ensures
        graph_wf(res),
    decreases ts.len(),
{
    if ts.len() > 0 {
        match step_spec(ts[0], ctx, ov, acc) {
            Err(e) => {
                assert(false);
            },
            Ok(tv) => {
                lemma_admission_preserves_wf(acc, tv);
                lemma_fold_preserves_wf(ts.drop_first(), ctx, ov, acc.push(tv), res);
            },
        }
    }
}

/// The graph that assembly returns satisfies the graph's own admission
/// invariant: task names are unique, and every dependency names a task
/// that stands earlier in the graph.
pub proof fn lemma_assembled_graph_wf(
    job: JobDescriptorView,
    canonical: Seq<char>,
    ctx: SubstitutionContext,
    ov: OverrideResultMappings,
    g: TaskGraphView,
)
    requires
        assemble_spec(job, canonical, ctx, ov) == Ok::<TaskGraphView, AssemblyErrorView>(g),
    ensures
        graph_wf(g.tasks),
{
    assert(graph_wf(Seq::<TaskView>::empty()));
    lemma_fold_preserves_wf(job.tasks, ctx, ov, Seq::<TaskView>::empty(), g.tasks);
}

/// Under a global override, every task of the output graph carries the
/// override's exit-code lists, not its document-declared ones.
pub proof fn lemma_override_precedence(
    job: JobDescriptorView,
    canonical: Seq<char>,
    ctx: SubstitutionContext,
    m: TaskReturnCodeMapping,
    g: TaskGraphView,
)
    requires
        assemble_spec(job, canonical, ctx, OverrideResultMappings::All(m)) == Ok::<
            TaskGraphView,
            AssemblyErrorView,
        >(g),
    ensures
        g.tasks.len() == job.tasks.len(),
        forall|k: int|
            0 <= k < g.tasks.len() ==> (#[trigger] g.tasks[k]).continue_job == m.continue_job@
                && g.tasks[k].terminate_early == m.terminate_early@,
{
    let ov = OverrideResultMappings::All(m);
    lemma_fold_result_shape(job.tasks, ctx, ov, Seq::<TaskView>::empty(), g.tasks);
    assert forall|k: int|
        0 <= k < g.tasks.len() implies (#[trigger] g.tasks[k]).continue_job == m.continue_job@
        && g.tasks[k].terminate_early == m.terminate_early@ by {
        assert(0 <= k < job.tasks.len());
        let t = job.tasks[k];
        assert(g.tasks[Seq::<TaskView>::empty().len() + k].continue_job == effective_continue(
            t,
            ov,
        ));
        assert(effective_continue(t, ov) == m.continue_job@);
        assert(effective_terminate(t, ov) == m.terminate_early@);
    }
}

/// Tasks stand in the output graph in document order: the k-th admitted
/// task is the k-th descriptor, under its resolved name.
pub proof fn lemma_ordering_preserved(
    job: JobDescriptorView,
    canonical: Seq<char>,
    ctx: SubstitutionContext,
    ov: OverrideResultMappings,
    g: TaskGraphView,
)
    requires
        assemble_spec(job, canonical, ctx, ov) == Ok::<TaskGraphView, AssemblyErrorView>(g),
    ensures
        g.tasks.len() == job.tasks.len(),
        forall|k: int|
            0 <= k < job.tasks.len() ==> decorate_opt((#[trigger] job.tasks[k]).name, ctx) == Ok::<
                Seq<char>,
                Seq<char>,
            >(g.tasks[k].name),
{
    lemma_fold_result_shape(job.tasks, ctx, ov, Seq::<TaskView>::empty(), g.tasks);
}

} // verus!
