use factotum::model::SubstitutionContext;
use factotum::parse;
use factotum::template::Context;
use factotum::{OverrideResultMappings, TaskReturnCodeMapping};

fn ctx(pairs: &[(&str, &str)]) -> SubstitutionContext {
    SubstitutionContext::Substitute(Context {
        pairs: pairs.iter().map(|(k, v)| (k.to_string(), v.to_string())).collect(),
    })
}

fn no_ctx() -> SubstitutionContext {
    SubstitutionContext::NoSubstitution
}

fn task_json(name: &str, command: &str, deps: &str, term: &str, cont: &str) -> String {
    format!(
        "{{\"name\":\"{}\",\"executor\":\"shell\",\"command\":\"{}\",\"arguments\":[],\
         \"dependsOn\":{},\"onResult\":{{\"terminateJobWithSuccess\":{},\"continueJob\":{}}}}}",
        name, command, deps, term, cont
    )
}

fn doc_json(name: &str, tasks: &[String]) -> String {
    format!(
        "{{\"schema\":\"job-schema\",\"data\":{{\"name\":\"{}\",\"tasks\":[{}]}}}}",
        name,
        tasks.join(",")
    )
}

#[test]
fn single_task_document_parses() {
    let doc = doc_json("my job", &[task_json("t1", "echo hi", "[]", "[]", "[0]")]);
    let g = parse(&doc, "test.job", Ok(()), &no_ctx(), &OverrideResultMappings::NoOverride)
        .unwrap();
    assert_eq!(g.name, "my job");
    assert_eq!(g.tasks.len(), 1);
    assert_eq!(g.tasks[0].name, "t1");
    assert_eq!(g.tasks[0].on_result.continue_job, vec![0]);
    assert_eq!(g.tasks[0].on_result.terminate_early, Vec::<i32>::new());
}

#[test]
fn conflicting_policy_is_rejected_naming_the_task() {
    let doc = doc_json("j", &[task_json("t1", "run", "[]", "[1]", "[0,1]")]);
    let e = parse(&doc, "test.job", Ok(()), &no_ctx(), &OverrideResultMappings::NoOverride)
        .unwrap_err();
    assert_eq!(
        e,
        "'test.job' is not a valid job document: the task 't1' has conflicting actions."
    );
}

#[test]
fn conflicting_policy_is_rejected_even_under_override() {
    let doc = doc_json("j", &[task_json("t1", "run", "[]", "[1]", "[0,1]")]);
    let ov = OverrideResultMappings::All(TaskReturnCodeMapping {
        continue_job: vec![0],
        terminate_early: vec![9],
    });
    let e = parse(&doc, "test.job", Ok(()), &no_ctx(), &ov).unwrap_err();
    assert_eq!(
        e,
        "'test.job' is not a valid job document: the task 't1' has conflicting actions."
    );
}

#[test]
fn empty_continuation_is_rejected() {
    let doc = doc_json("j", &[task_json("t1", "run", "[]", "[]", "[]")]);
    let e = parse(&doc, "test.job", Ok(()), &no_ctx(), &OverrideResultMappings::NoOverride)
        .unwrap_err();
    assert_eq!(
        e,
        "'test.job' is not a valid job document: the task 't1' has no way to continue successfully."
    );
}

#[test]
fn empty_continuation_is_rejected_even_under_nonempty_override() {
    let doc = doc_json("j", &[task_json("t1", "run", "[]", "[]", "[]")]);
    let ov = OverrideResultMappings::All(TaskReturnCodeMapping {
        continue_job: vec![0],
        terminate_early: vec![],
    });
    let e = parse(&doc, "test.job", Ok(()), &no_ctx(), &ov).unwrap_err();
    assert_eq!(
        e,
        "'test.job' is not a valid job document: the task 't1' has no way to continue successfully."
    );
}

#[test]
fn override_replaces_every_declared_policy() {
    let doc = doc_json(
        "j",
        &[
            task_json("a", "run a", "[]", "[7]", "[0]"),
            task_json("b", "run b", "[\"a\"]", "[]", "[1]"),
        ],
    );
    let ov = OverrideResultMappings::All(TaskReturnCodeMapping {
        continue_job: vec![0, 4],
        terminate_early: vec![3],
    });
    let g = parse(&doc, "test.job", Ok(()), &no_ctx(), &ov).unwrap();
    assert_eq!(g.tasks.len(), 2);
    for t in &g.tasks {
        assert_eq!(t.on_result.continue_job, vec![0, 4]);
        assert_eq!(t.on_result.terminate_early, vec![3]);
    }
}

#[test]
fn tasks_keep_document_order() {
    let doc = doc_json(
        "j",
        &[
            task_json("first", "c1", "[]", "[]", "[0]"),
            task_json("second", "c2", "[\"first\"]", "[]", "[0]"),
            task_json("third", "c3", "[\"first\",\"second\"]", "[]", "[0]"),
        ],
    );
    let g = parse(&doc, "test.job", Ok(()), &no_ctx(), &OverrideResultMappings::NoOverride)
        .unwrap();
    let names: Vec<&str> = g.tasks.iter().map(|t| t.name.as_str()).collect();
    assert_eq!(names, vec!["first", "second", "third"]);
}

#[test]
fn command_is_templated_from_the_context() {
    let doc = doc_json("j", &[task_json("t1", "run ${env}", "[]", "[]", "[0]")]);
    let g = parse(
        &doc,
        "test.job",
        Ok(()),
        &ctx(&[("env", "prod")]),
        &OverrideResultMappings::NoOverride,
    )
    .unwrap();
    assert_eq!(g.tasks[0].command, "run prod");
}

#[test]
fn missing_key_fails_naming_the_variable() {
    let doc = doc_json("j", &[task_json("t1", "run ${env}", "[]", "[]", "[0]")]);
    let e = parse(&doc, "test.job", Ok(()), &ctx(&[]), &OverrideResultMappings::NoOverride)
        .unwrap_err();
    assert_eq!(e, "'test.job' is not a valid job document: the variable 'env' is undefined");
}

#[test]
fn absent_context_passes_placeholders_through() {
    let doc = doc_json("job-${region}", &[task_json("t1", "run ${env}", "[]", "[]", "[0]")]);
    let g = parse(&doc, "test.job", Ok(()), &no_ctx(), &OverrideResultMappings::NoOverride)
        .unwrap();
    assert_eq!(g.name, "job-${region}");
    assert_eq!(g.tasks[0].command, "run ${env}");
}

#[test]
fn job_name_is_templated_when_context_present() {
    let doc = doc_json("job-${region}", &[task_json("t1", "run", "[]", "[]", "[0]")]);
    let g = parse(
        &doc,
        "test.job",
        Ok(()),
        &ctx(&[("region", "eu")]),
        &OverrideResultMappings::NoOverride,
    )
    .unwrap();
    assert_eq!(g.name, "job-eu");
}

#[test]
fn repeated_parse_gives_identical_outcomes() {
    let doc = doc_json("j", &[task_json("t1", "run ${env}", "[]", "[2]", "[0]")]);
    let c = ctx(&[("env", "prod")]);
    let g1 = parse(&doc, "test.job", Ok(()), &c, &OverrideResultMappings::NoOverride).unwrap();
    let g2 = parse(&doc, "test.job", Ok(()), &c, &OverrideResultMappings::NoOverride).unwrap();
    assert_eq!(g1.raw, g2.raw);
    assert_eq!(g1.name, g2.name);
    assert_eq!(g1.tasks.len(), g2.tasks.len());
    assert_eq!(g1.tasks[0].name, g2.tasks[0].name);
    assert_eq!(g1.tasks[0].command, g2.tasks[0].command);
    assert_eq!(g1.tasks[0].on_result.continue_job, g2.tasks[0].on_result.continue_job);
    let bad = doc_json("j", &[task_json("t1", "run", "[]", "[0]", "[0]")]);
    let e1 = parse(&bad, "x", Ok(()), &c, &OverrideResultMappings::NoOverride).unwrap_err();
    let e2 = parse(&bad, "x", Ok(()), &c, &OverrideResultMappings::NoOverride).unwrap_err();
    assert_eq!(e1, e2);
}

#[test]
fn schema_violation_is_wrapped_with_the_label() {
    let doc = doc_json("j", &[task_json("t1", "run", "[]", "[]", "[0]")]);
    let e = parse(
        &doc,
        "bad.job",
        Err("root: missing property".to_string()),
        &no_ctx(),
        &OverrideResultMappings::NoOverride,
    )
    .unwrap_err();
    assert_eq!(e, "'bad.job' is not a valid job document: root: missing property");
}

#[test]
fn duplicate_task_names_are_rejected() {
    let doc = doc_json(
        "j",
        &[
            task_json("t1", "c1", "[]", "[]", "[0]"),
            task_json("t1", "c2", "[]", "[]", "[0]"),
        ],
    );
    let e = parse(&doc, "test.job", Ok(()), &no_ctx(), &OverrideResultMappings::NoOverride)
        .unwrap_err();
    assert_eq!(e, "'test.job' is not a valid job document: a task called 't1' exists already");
}

#[test]
fn unknown_dependency_is_rejected() {
    let doc = doc_json("j", &[task_json("t1", "c1", "[\"ghost\"]", "[]", "[0]")]);
    let e = parse(&doc, "test.job", Ok(()), &no_ctx(), &OverrideResultMappings::NoOverride)
        .unwrap_err();
    assert_eq!(
        e,
        "'test.job' is not a valid job document: the task 't1' depends on an unknown task 'ghost'"
    );
}

#[test]
fn forward_dependency_is_rejected() {
    let doc = doc_json(
        "j",
        &[
            task_json("t1", "c1", "[\"t2\"]", "[]", "[0]"),
            task_json("t2", "c2", "[]", "[]", "[0]"),
        ],
    );
    let e = parse(&doc, "test.job", Ok(()), &no_ctx(), &OverrideResultMappings::NoOverride)
        .unwrap_err();
    assert_eq!(
        e,
        "'test.job' is not a valid job document: the task 't1' depends on an unknown task 't2'"
    );
}

#[test]
fn missing_field_fails_decoding() {
    let doc = "{\"schema\":\"s\",\"data\":{\"name\":\"j\",\"tasks\":[{\"name\":\"t1\",\
               \"executor\":\"shell\",\"arguments\":[],\"dependsOn\":[],\
               \"onResult\":{\"terminateJobWithSuccess\":[],\"continueJob\":[0]}}]}}";
    let e = parse(doc, "test.job", Ok(()), &no_ctx(), &OverrideResultMappings::NoOverride)
        .unwrap_err();
    assert_eq!(e, "'test.job' is not a valid job document: missing required field 'command'");
}

#[test]
fn wrong_shape_fails_decoding() {
    let doc = doc_json("j", &[task_json("t1", "run", "[3]", "[]", "[0]")]);
    let e = parse(&doc, "test.job", Ok(()), &no_ctx(), &OverrideResultMappings::NoOverride)
        .unwrap_err();
    assert_eq!(
        e,
        "'test.job' is not a valid job document: the field 'dependsOn' is not of the expected type"
    );
}

#[test]
fn syntax_error_fails_decoding() {
    let e = parse("{not json", "test.job", Ok(()), &no_ctx(), &OverrideResultMappings::NoOverride)
        .unwrap_err();
    assert!(e.starts_with("'test.job' is not a valid job document: "));
}

#[test]
fn dependencies_are_templated() {
    let doc = doc_json(
        "j",
        &[
            task_json("base", "c1", "[]", "[]", "[0]"),
            task_json("next", "c2", "[\"${dep}\"]", "[]", "[0]"),
        ],
    );
    let g = parse(
        &doc,
        "test.job",
        Ok(()),
        &ctx(&[("dep", "base")]),
        &OverrideResultMappings::NoOverride,
    )
    .unwrap();
    assert_eq!(g.tasks[1].depends_on, vec!["base".to_string()]);
}

#[test]
fn arguments_are_templated() {
    let doc = doc_json(
        "j",
        &[
            "{\"name\":\"t1\",\"executor\":\"shell\",\"command\":\"run\",\
             \"arguments\":[\"--env\",\"${env}\"],\"dependsOn\":[],\
             \"onResult\":{\"terminateJobWithSuccess\":[],\"continueJob\":[0]}}"
                .to_string(),
        ],
    );
    let g = parse(
        &doc,
        "test.job",
        Ok(()),
        &ctx(&[("env", "prod")]),
        &OverrideResultMappings::NoOverride,
    )
    .unwrap();
    assert_eq!(g.tasks[0].arguments, vec!["--env".to_string(), "prod".to_string()]);
}
