use factotum::assemble::{assemble, AssemblyError};
use factotum::decode::decode_document;
use factotum::encode::encode_envelope;
use factotum::graph::{GraphError, TaskGraph};
use factotum::model::{JobDescriptor, JobEnvelope, ResultPolicy, SubstitutionContext, TaskDescriptor};
use factotum::parse;
use factotum::pipeline::{run_pipeline, ParseError};
use factotum::policy::{resolve_policy, PolicyError};
use factotum::{OverrideResultMappings, TaskReturnCodeMapping};

fn descriptor(name: &str, term: Vec<i32>, cont: Vec<i32>) -> TaskDescriptor {
    TaskDescriptor {
        name: name.to_string(),
        executor: "shell".to_string(),
        command: "run".to_string(),
        arguments: vec![],
        depends_on: vec![],
        on_result: ResultPolicy { terminate_job_with_success: term, continue_job: cont },
    }
}

fn insert_task(g: &mut TaskGraph, name: &str, deps: Vec<&str>) -> Result<(), GraphError> {
    g.add_task(
        name.to_string(),
        deps.iter().map(|d| d.to_string()).collect(),
        "shell".to_string(),
        "run".to_string(),
        vec![],
        vec![],
        vec![0],
    )
}

#[test]
fn policy_keeps_declared_sets_without_override() {
    let t = descriptor("t", vec![3], vec![0, 1]);
    let m = resolve_policy(&t, &OverrideResultMappings::NoOverride).unwrap();
    assert_eq!(m.continue_job, vec![0, 1]);
    assert_eq!(m.terminate_early, vec![3]);
}

#[test]
fn policy_takes_override_sets_when_forced() {
    let t = descriptor("t", vec![3], vec![0, 1]);
    let ov = OverrideResultMappings::All(TaskReturnCodeMapping {
        continue_job: vec![9],
        terminate_early: vec![8],
    });
    let m = resolve_policy(&t, &ov).unwrap();
    assert_eq!(m.continue_job, vec![9]);
    assert_eq!(m.terminate_early, vec![8]);
}

#[test]
fn policy_rejects_empty_continuation() {
    let t = descriptor("t", vec![3], vec![]);
    assert!(matches!(
        resolve_policy(&t, &OverrideResultMappings::NoOverride),
        Err(PolicyError::EmptyContinuationSet)
    ));
}

#[test]
fn policy_rejects_shared_code() {
    let t = descriptor("t", vec![1, 2], vec![0, 2]);
    assert!(matches!(
        resolve_policy(&t, &OverrideResultMappings::NoOverride),
        Err(PolicyError::ConflictingPolicy)
    ));
}

#[test]
fn graph_rejects_duplicate_names() {
    let mut g = TaskGraph::new("{}".to_string(), "j".to_string());
    insert_task(&mut g, "a", vec![]).unwrap();
    match insert_task(&mut g, "a", vec![]) {
        Err(GraphError::DuplicateTask(n)) => assert_eq!(n, "a"),
        _ => panic!("expected a duplicate-task rejection"),
    }
    assert_eq!(g.tasks.len(), 1);
}

#[test]
fn graph_rejects_unknown_dependency() {
    let mut g = TaskGraph::new("{}".to_string(), "j".to_string());
    insert_task(&mut g, "a", vec![]).unwrap();
    match insert_task(&mut g, "b", vec!["a", "zzz"]) {
        Err(GraphError::UnknownDependency(t, d)) => {
            assert_eq!(t, "b");
            assert_eq!(d, "zzz");
        },
        _ => panic!("expected an unknown-dependency rejection"),
    }
}

#[test]
fn graph_accepts_known_dependencies() {
    let mut g = TaskGraph::new("{}".to_string(), "j".to_string());
    insert_task(&mut g, "a", vec![]).unwrap();
    insert_task(&mut g, "b", vec!["a"]).unwrap();
    assert_eq!(g.tasks.len(), 2);
    assert_eq!(g.tasks[1].depends_on, vec!["a".to_string()]);
}

#[test]
fn decoding_reads_every_field() {
    let doc = "{\"schema\":\"sch\",\"data\":{\"name\":\"j\",\"tasks\":[{\"name\":\"t\",\
               \"executor\":\"sh\",\"command\":\"c\",\"arguments\":[\"x\"],\
               \"dependsOn\":[\"d\"],\"onResult\":{\"terminateJobWithSuccess\":[-1,2],\
               \"continueJob\":[0]}}]}}";
    let e = decode_document(doc).unwrap();
    assert_eq!(e.schema, "sch");
    assert_eq!(e.data.name, "j");
    assert_eq!(e.data.tasks.len(), 1);
    let t = &e.data.tasks[0];
    assert_eq!(t.name, "t");
    assert_eq!(t.executor, "sh");
    assert_eq!(t.command, "c");
    assert_eq!(t.arguments, vec!["x".to_string()]);
    assert_eq!(t.depends_on, vec!["d".to_string()]);
    assert_eq!(t.on_result.terminate_job_with_success, vec![-1, 2]);
    assert_eq!(t.on_result.continue_job, vec![0]);
}

#[test]
fn canonical_text_is_exact() {
    let e = JobEnvelope {
        schema: "sch".to_string(),
        data: JobDescriptor {
            name: "j".to_string(),
            tasks: vec![descriptor("t", vec![-1], vec![0, 12])],
        },
    };
    let c = encode_envelope(&e);
    assert_eq!(
        c,
        "{\"schema\":\"sch\",\"data\":{\"name\":\"j\",\"tasks\":[{\"name\":\"t\",\
         \"executor\":\"shell\",\"command\":\"run\",\"arguments\":[],\"dependsOn\":[],\
         \"onResult\":{\"terminateJobWithSuccess\":[-1],\"continueJob\":[0,12]}}]}}"
    );
}

#[test]
fn canonical_text_escapes_specials() {
    let e = JobEnvelope {
        schema: "s".to_string(),
        data: JobDescriptor { name: "a\"b\\c\nd".to_string(), tasks: vec![] },
    };
    let c = encode_envelope(&e);
    assert_eq!(c, "{\"schema\":\"s\",\"data\":{\"name\":\"a\\\"b\\\\c\\nd\",\"tasks\":[]}}");
}

#[test]
fn canonical_text_ignores_document_formatting() {
    let compact = "{\"schema\":\"s\",\"data\":{\"name\":\"j\",\"tasks\":[]}}";
    let spaced = "{ \"schema\" : \"s\" ,\n  \"data\" : { \"name\" : \"j\", \"tasks\" : [ ] } }";
    let g1 = parse(
        compact,
        "a",
        Ok(()),
        &SubstitutionContext::NoSubstitution,
        &OverrideResultMappings::NoOverride,
    )
    .unwrap();
    let g2 = parse(
        spaced,
        "b",
        Ok(()),
        &SubstitutionContext::NoSubstitution,
        &OverrideResultMappings::NoOverride,
    )
    .unwrap();
    assert_eq!(g1.raw, g2.raw);
    assert_eq!(g1.raw, "{\"schema\":\"s\",\"data\":{\"name\":\"j\",\"tasks\":[]}}");
}

#[test]
fn canonical_text_drops_unknown_fields() {
    let doc = "{\"schema\":\"s\",\"extra\":1,\"data\":{\"name\":\"j\",\"tasks\":[],\
               \"stray\":true}}";
    let g = parse(
        doc,
        "a",
        Ok(()),
        &SubstitutionContext::NoSubstitution,
        &OverrideResultMappings::NoOverride,
    )
    .unwrap();
    assert_eq!(g.raw, "{\"schema\":\"s\",\"data\":{\"name\":\"j\",\"tasks\":[]}}");
}

#[test]
fn canonical_text_is_templated_too() {
    let doc = "{\"schema\":\"s\",\"data\":{\"name\":\"j-${r}\",\"tasks\":[]}}";
    let g = parse(
        doc,
        "a",
        Ok(()),
        &SubstitutionContext::Substitute(factotum::template::Context {
            pairs: vec![("r".to_string(), "eu".to_string())],
        }),
        &OverrideResultMappings::NoOverride,
    )
    .unwrap();
    assert_eq!(g.name, "j-eu");
    assert_eq!(g.raw, "{\"schema\":\"s\",\"data\":{\"name\":\"j-eu\",\"tasks\":[]}}");
}

#[test]
fn exit_codes_out_of_range_fail_decoding() {
    let doc = "{\"schema\":\"s\",\"data\":{\"name\":\"j\",\"tasks\":[{\"name\":\"t\",\
               \"executor\":\"sh\",\"command\":\"c\",\"arguments\":[],\"dependsOn\":[],\
               \"onResult\":{\"terminateJobWithSuccess\":[],\
               \"continueJob\":[4294967296]}}]}}";
    let e = parse(
        doc,
        "a",
        Ok(()),
        &SubstitutionContext::NoSubstitution,
        &OverrideResultMappings::NoOverride,
    )
    .unwrap_err();
    assert_eq!(
        e,
        "'a' is not a valid job document: the field 'continueJob' is not of the expected type"
    );
}

#[test]
fn assembly_names_the_task_for_a_bad_command_variable() {
    let mut t = descriptor("t1", vec![], vec![0]);
    t.command = "run ${missing}".to_string();
    let job = JobDescriptor { name: "j".to_string(), tasks: vec![t] };
    let ctx = SubstitutionContext::Substitute(factotum::template::Context { pairs: vec![] });
    let r = assemble(&job, &"{}".to_string(), &ctx, &OverrideResultMappings::NoOverride);
    match r {
        Err(AssemblyError::UndefinedVariable(Some(task), key)) => {
            assert_eq!(task, "t1");
            assert_eq!(key, "missing");
        }
        _ => panic!("expected an undefined-variable failure naming the task"),
    }
}

#[test]
fn typed_pipeline_errors_carry_each_stage() {
    let nos = SubstitutionContext::NoSubstitution;
    let nov = OverrideResultMappings::NoOverride;
    match run_pipeline("{}", Err("diag".to_string()), &nos, &nov) {
        Err(ParseError::SchemaViolation(d)) => assert_eq!(d, "diag"),
        _ => panic!("expected a schema violation"),
    }
    match run_pipeline("{}", Ok(()), &nos, &nov) {
        Err(ParseError::Decode(factotum::decode::DecodeError::MissingField(f))) => {
            assert_eq!(f, "schema")
        }
        _ => panic!("expected a decode failure"),
    }
    let doc = "{\"schema\":\"s\",\"data\":{\"name\":\"j\",\"tasks\":[{\"name\":\"t1\",\
               \"executor\":\"sh\",\"command\":\"c\",\"arguments\":[],\"dependsOn\":[],\
               \"onResult\":{\"terminateJobWithSuccess\":[0],\"continueJob\":[0]}}]}}";
    match run_pipeline(doc, Ok(()), &nos, &nov) {
        Err(ParseError::Assembly(AssemblyError::ConflictingPolicy(t))) => assert_eq!(t, "t1"),
        _ => panic!("expected a conflicting-policy failure"),
    }
}

#[test]
fn deeply_nested_documents_are_refused() {
    let mut doc = String::new();
    for _ in 0..200 {
        doc.push('[');
    }
    for _ in 0..200 {
        doc.push(']');
    }
    let e = parse(
        &doc,
        "deep.job",
        Ok(()),
        &SubstitutionContext::NoSubstitution,
        &OverrideResultMappings::NoOverride,
    )
    .unwrap_err();
    assert_eq!(e, "'deep.job' is not a valid job document: the document nests too deeply");
}

#[test]
fn brackets_inside_strings_do_not_count_as_nesting() {
    let doc = "{\"schema\":\"s[[[[[\",\"data\":{\"name\":\"j]]]]\",\"tasks\":[]}}";
    let g = parse(
        doc,
        "a",
        Ok(()),
        &SubstitutionContext::NoSubstitution,
        &OverrideResultMappings::NoOverride,
    )
    .unwrap();
    assert_eq!(g.name, "j]]]]");
}
