//! The pipeline orchestrator: schema-validation outcome, structural
//! decoding, canonical re-encoding and assembly, in that order, with every
//! failure collapsed at the public boundary into one descriptive message
//! tagged with the originating document's identity.

use vstd::prelude::*;

use crate::assemble::{assemble, assemble_spec, AssemblyError, AssemblyErrorView};
use crate::decode::{
    decode_document, decode_spec, json_depth, parsed_json, DecodeError, DecodeErrorView,
    MAX_DOCUMENT_DEPTH,
};
use crate::encode::{encode_envelope, envelope_text};
use crate::graph::{TaskGraph, TaskGraphView};
use crate::model::{JobEnvelope, SubstitutionContext};
use crate::OverrideResultMappings;

verus! {

/// The typed failure of one run of the pipeline, stage by stage.
pub enum ParseError {
    /// The document failed schema validation; carries the validator's
    /// diagnostic.
    SchemaViolation(String),
    /// The document passed validation but failed structural decoding.
    Decode(DecodeError),
    /// Substitution, policy resolution or graph admission failed.
    Assembly(AssemblyError),
}

/// The cause text a decode failure contributes to the collapsed message.
pub open spec fn decode_cause(e: DecodeErrorView) -> Seq<char> {
    match e {
        DecodeErrorView::Syntax(m) => m,
        DecodeErrorView::MissingField(f) => "missing required field '"@ + f + "'"@,
        DecodeErrorView::WrongShape(f) => "the field '"@ + f + "' is not of the expected type"@,
    }
}

/// The cause text an assembly failure contributes to the collapsed message.
pub open spec fn assembly_cause(e: AssemblyErrorView) -> Seq<char> {
    match e {
        AssemblyErrorView::UndefinedVariable(t, k) => match t {
            Option::Some(name) => "the task '"@ + name + "' references undefined variable '"@ + k
                + "'"@,
            Option::None => "the variable '"@ + k + "' is undefined"@,
        },
        AssemblyErrorView::EmptyContinuationSet(t) => "the task '"@ + t
            + "' has no way to continue successfully."@,
        AssemblyErrorView::ConflictingPolicy(t) => "the task '"@ + t
            + "' has conflicting actions."@,
        AssemblyErrorView::DuplicateTask(n) => "a task called '"@ + n + "' exists already"@,
        AssemblyErrorView::UnknownDependency(t, d) => "the task '"@ + t
            + "' depends on an unknown task '"@ + d + "'"@,
    }
}

/// The cause text that each typed failure contributes to the collapsed
/// public message.
pub open spec fn cause_text(e: ParseError) -> Seq<char> {
    match e {
        ParseError::SchemaViolation(d) => d@,
        ParseError::Decode(d) => decode_cause(d@),
        ParseError::Assembly(a) => assembly_cause(a@),
    }
}

/// The collapsed public message: the document's identity, then the cause.
pub open spec fn wrapped_message(label: Seq<char>, cause: Seq<char>) -> Seq<char> {
    "'"@ + label + "' is not a valid job document: "@ + cause
}

fn cause_string(e: &ParseError) -> (r: String)
    ensures
        r@ == cause_text(*e),
{
    let mut s = String::new();
    match e {
        ParseError::SchemaViolation(d) => {
            s.append(d.as_str());
        },
        ParseError::Decode(DecodeError::Syntax(m)) => {
            s.append(m.as_str());
        },
        ParseError::Decode(DecodeError::MissingField(f)) => {
            s.append("missing required field '");
            s.append(f.as_str());
            s.append("'");
        },
        ParseError::Decode(DecodeError::WrongShape(f)) => {
            s.append("the field '");
            s.append(f.as_str());
            s.append("' is not of the expected type");
        },
        ParseError::Assembly(AssemblyError::UndefinedVariable(t, k)) => {
            match t {
                Option::Some(name) => {
                    s.append("the task '");
                    s.append(name.as_str());
                    s.append("' references undefined variable '");
                    s.append(k.as_str());
                    s.append("'");
                },
                Option::None => {
                    s.append("the variable '");
                    s.append(k.as_str());
                    s.append("' is undefined");
                },
            }
        },
        ParseError::Assembly(AssemblyError::EmptyContinuationSet(t)) => {
            s.append("the task '");
            s.append(t.as_str());
            s.append("' has no way to continue successfully.");
        },
        ParseError::Assembly(AssemblyError::ConflictingPolicy(t)) => {
            s.append("the task '");
            s.append(t.as_str());
            s.append("' has conflicting actions.");
        },
        ParseError::Assembly(AssemblyError::Graph(crate::graph::GraphError::DuplicateTask(n))) => {
            s.append("a task called '");
            s.append(n.as_str());
            s.append("' exists already");
        },
        ParseError::Assembly(
            AssemblyError::Graph(crate::graph::GraphError::UnknownDependency(t, d)),
        ) => {
            s.append("the task '");
            s.append(t.as_str());
            s.append("' depends on an unknown task '");
            s.append(d.as_str());
            s.append("'");
        },
    }
    proof {
        assert(s@ =~= cause_text(*e));
    }
    s
}

/// Formats the collapsed public message for one typed failure.
pub fn format_error(source_label: &str, e: &ParseError) -> (r: String)
    ensures
        r@ == wrapped_message(source_label@, cause_text(*e)),
{
    let mut s = String::new();
    s.append("'");
    s.append(source_label);
    s.append("' is not a valid job document: ");
    let cause = cause_string(e);
    s.append(cause.as_str());
    proof {
        assert(s@ =~= wrapped_message(source_label@, cause_text(*e)));
    }
    s
}

/// Re-encodes the decoded envelope to its canonical text and assembles the
/// graph from it: the exactly specified tail of the pipeline, a function of
/// the decoded envelope, the context and the override alone.
pub fn parse_envelope(
    envelope: &JobEnvelope,
    ctx: &SubstitutionContext,
    overrides: &OverrideResultMappings,
) -> (r: Result<TaskGraph, AssemblyError>)
    ensures
        (match r {
            Ok(g) => assemble_spec(envelope@.data, envelope_text(envelope@), *ctx, *overrides)
                == Ok::<TaskGraphView, AssemblyErrorView>(g@),
            Err(e) => assemble_spec(envelope@.data, envelope_text(envelope@), *ctx, *overrides)
                == Err::<TaskGraphView, AssemblyErrorView>(e@),
        }),
{
    let canonical = encode_envelope(envelope);
    assemble(&envelope.data, &canonical, ctx, overrides)
}

/// Runs the pipeline with its typed failures: the externally supplied
/// schema verdict first, then structural decoding, then assembly. The
/// outcome is determined: a decodable document within the depth bound
/// yields exactly what assembly of its decoded envelope yields.
pub fn run_pipeline(
    document: &str,
    schema_check: Result<(), String>,
    ctx: &SubstitutionContext,
    overrides: &OverrideResultMappings,
) -> (r: Result<TaskGraph, ParseError>)
    ensures
        (match schema_check {
            Err(d) => r matches Err(ParseError::SchemaViolation(s)) && s@ == d@,
            Ok(u) => (if json_depth(document@) <= MAX_DOCUMENT_DEPTH as int {
                match parsed_json(document@) {
                    Option::None => r matches Err(ParseError::Decode(DecodeError::Syntax(m))),
                    Option::Some(j) => (match decode_spec(j) {
                        Err(de) => r matches Err(ParseError::Decode(e)) && e@ == de,
                        Ok(env) => (match assemble_spec(
                            env.data,
                            envelope_text(env),
                            *ctx,
                            *overrides,
                        ) {
                            Ok(gv) => r matches Ok(g) && g@ == gv,
                            Err(a) => r matches Err(ParseError::Assembly(e)) && e@ == a,
                        }),
                    }),
                }
            } else {
                r matches Err(ParseError::Decode(DecodeError::Syntax(m)))
            }),
        }),
{
    match schema_check {
        Err(d) => Err(ParseError::SchemaViolation(d)),
        Ok(u) => match decode_document(document) {
            Err(e) => Err(ParseError::Decode(e)),
            Ok(envelope) => match parse_envelope(&envelope, ctx, overrides) {
                Ok(g) => Ok(g),
                Err(e) => Err(ParseError::Assembly(e)),
            },
        },
    }
}

/// The public boundary: as `run_pipeline`, with every failure collapsed
/// into one message identifying the originating document, and every
/// message bound to the actual typed cause.
pub fn parse(
    document: &str,
    source_label: &str,
    schema_check: Result<(), String>,
    ctx: &SubstitutionContext,
    overrides: &OverrideResultMappings,
) -> (r: Result<TaskGraph, String>)
    ensures
        (match schema_check {
            Err(d) => r matches Err(m) && m@ == wrapped_message(source_label@, d@),
            Ok(u) => (if json_depth(document@) <= MAX_DOCUMENT_DEPTH as int {
                match parsed_json(document@) {
                    Option::None => r is Err,
                    Option::Some(j) => (match decode_spec(j) {
                        Err(de) => r matches Err(m) && m@ == wrapped_message(
                            source_label@,
                            decode_cause(de),
                        ),
                        Ok(env) => (match assemble_spec(
                            env.data,
                            envelope_text(env),
                            *ctx,
                            *overrides,
                        ) {
                            Ok(gv) => r matches Ok(g) && g@ == gv,
                            Err(a) => r matches Err(m) && m@ == wrapped_message(
                                source_label@,
                                assembly_cause(a),
                            ),
                        }),
                    }),
                }
            } else {
                r is Err
            }),
        }),
        r matches Err(m) ==> exists|cause: Seq<char>|
            m@ == #[trigger] wrapped_message(source_label@, cause),
{
    match run_pipeline(document, schema_check, ctx, overrides) {
        Ok(g) => Ok(g),
        Err(e) => {
            let msg = format_error(source_label, &e);
            proof {
                assert(msg@ == wrapped_message(source_label@, cause_text(e)));
            }
            Err(msg)
        },
    }
}

} // verus!
