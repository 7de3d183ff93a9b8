use factotum::template::{decorate, Context, TemplateError};

fn ctx(pairs: &[(&str, &str)]) -> Context {
    Context { pairs: pairs.iter().map(|(k, v)| (k.to_string(), v.to_string())).collect() }
}

#[test]
fn plain_text_passes_through_unchanged() {
    let c = ctx(&[("env", "prod"), ("region", "eu")]);
    let r = decorate("no placeholders here", &c).unwrap();
    assert_eq!(r, "no placeholders here");
}

#[test]
fn empty_text_stays_empty() {
    let c = ctx(&[("env", "prod")]);
    assert_eq!(decorate("", &c).unwrap(), "");
}

#[test]
fn single_placeholder_is_replaced() {
    let c = ctx(&[("env", "prod")]);
    assert_eq!(decorate("run ${env}", &c).unwrap(), "run prod");
}

#[test]
fn several_placeholders_are_replaced_in_order() {
    let c = ctx(&[("a", "1"), ("b", "2")]);
    assert_eq!(decorate("${a}-${b}-${a}", &c).unwrap(), "1-2-1");
}

#[test]
fn adjacent_placeholders() {
    let c = ctx(&[("a", "x"), ("b", "y")]);
    assert_eq!(decorate("${a}${b}", &c).unwrap(), "xy");
}

#[test]
fn missing_key_is_reported_by_name() {
    let c = ctx(&[("other", "1")]);
    match decorate("run ${env}", &c) {
        Err(TemplateError::UndefinedVariable(k)) => assert_eq!(k, "env"),
        _ => panic!("expected an undefined-variable failure"),
    }
}

#[test]
fn empty_context_rejects_any_placeholder() {
    let c = ctx(&[]);
    match decorate("${env}", &c) {
        Err(TemplateError::UndefinedVariable(k)) => assert_eq!(k, "env"),
        _ => panic!("expected an undefined-variable failure"),
    }
}

#[test]
fn unterminated_placeholder_is_literal_text() {
    let c = ctx(&[("env", "prod")]);
    assert_eq!(decorate("run ${env", &c).unwrap(), "run ${env");
}

#[test]
fn lone_dollar_is_literal_text() {
    let c = ctx(&[("env", "prod")]);
    assert_eq!(decorate("cost: 5$ and $x", &c).unwrap(), "cost: 5$ and $x");
}

#[test]
fn substituted_value_is_not_rescanned() {
    let c = ctx(&[("a", "${b}"), ("b", "deep")]);
    assert_eq!(decorate("${a}", &c).unwrap(), "${b}");
}

#[test]
fn first_matching_pair_wins() {
    let c = ctx(&[("k", "first"), ("k", "second")]);
    assert_eq!(decorate("${k}", &c).unwrap(), "first");
}

#[test]
fn lookup_finds_and_misses() {
    let c = ctx(&[("a", "1")]);
    assert_eq!(c.lookup(&"a".to_string()), Some("1".to_string()));
    assert_eq!(c.lookup(&"b".to_string()), None);
}
