//! The decoded, strongly-typed form of a job document: a named, ordered
//! list of task descriptors, each with dependencies and an exit-code policy,
//! wrapped in a self-describing envelope.

use vstd::prelude::*;

use crate::template::Context;

verus! {

/// The exit-code lists a task declares: which codes end the whole job
/// successfully, and which let the job continue with the task's dependents.
pub struct ResultPolicy {
    pub terminate_job_with_success: Vec<i32>,
    pub continue_job: Vec<i32>,
}

pub ghost struct ResultPolicyView {
    pub terminate_job_with_success: Seq<i32>,
    pub continue_job: Seq<i32>,
}

impl View for ResultPolicy {
    type V = ResultPolicyView;

    open spec fn view(&self) -> ResultPolicyView {
        ResultPolicyView {
            terminate_job_with_success: self.terminate_job_with_success@,
            continue_job: self.continue_job@,
        }
    }
}

/// One task as the document declares it, before substitution.
pub struct TaskDescriptor {
    pub name: String,
    pub executor: String,
    pub command: String,
    pub arguments: Vec<String>,
    pub depends_on: Vec<String>,
    pub on_result: ResultPolicy,
}

pub ghost struct TaskDescriptorView {
    pub name: Seq<char>,
    pub executor: Seq<char>,
    pub command: Seq<char>,
    pub arguments: Seq<Seq<char>>,
    pub depends_on: Seq<Seq<char>>,
    pub on_result: ResultPolicyView,
}

impl View for TaskDescriptor {
    type V = TaskDescriptorView;

    open spec fn view(&self) -> TaskDescriptorView {
        TaskDescriptorView {
            name: self.name@,
            executor: self.executor@,
            command: self.command@,
            arguments: self.arguments.deep_view(),
            depends_on: self.depends_on.deep_view(),
            on_result: self.on_result@,
        }
    }
}

impl DeepView for TaskDescriptor {
    type V = TaskDescriptorView;

    open spec fn deep_view(&self) -> TaskDescriptorView {
        self.view()
    }
}

/// A whole decoded job: its name and its tasks, in document order.
pub struct JobDescriptor {
    pub name: String,
    pub tasks: Vec<TaskDescriptor>,
}

pub ghost struct JobDescriptorView {
    pub name: Seq<char>,
    pub tasks: Seq<TaskDescriptorView>,
}

impl View for JobDescriptor {
    type V = JobDescriptorView;

    open spec fn view(&self) -> JobDescriptorView {
        JobDescriptorView { name: self.name@, tasks: self.tasks.deep_view() }
    }
}

/// The self-describing wrapper around a job: a schema identifier, kept
/// verbatim, and the job itself.
pub struct JobEnvelope {
    pub schema: String,
    pub data: JobDescriptor,
}

pub ghost struct JobEnvelopeView {
    pub schema: Seq<char>,
    pub data: JobDescriptorView,
}

impl View for JobEnvelope {
    type V = JobEnvelopeView;

    open spec fn view(&self) -> JobEnvelopeView {
        JobEnvelopeView { schema: self.schema@, data: self.data@ }
    }
}

/// Whether substitution runs at all: absent means every string field is
/// used verbatim, placeholders included, while an empty mapping would
/// still reject any placeholder it meets.
pub enum SubstitutionContext {
    NoSubstitution,
    Substitute(Context),
}

} // verus!
