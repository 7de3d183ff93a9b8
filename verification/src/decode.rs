//! Structural decoding: turns parsed document structure into the typed
//! model, failing closed on any missing field or field of the wrong shape.
//! Parsing the raw text is the outside library's work, named abstractly by
//! `parsed_json`; every step after the parse is verified code walking the
//! parsed value through a small trusted surface whose accessors are named
//! by `jfind_of`, `jstr_of`, `jarr_of` and `jint_of`, so the decoded
//! envelope is pinned to `decode_spec` of the parsed value.

use vstd::prelude::*;

use rustc_serialize::json::Json;

use crate::model::{
    JobDescriptor, JobDescriptorView, JobEnvelope, JobEnvelopeView, ResultPolicy,
    ResultPolicyView, TaskDescriptor, TaskDescriptorView,
};

verus! {

/// rustc_serialize's parsed document value, declared opaquely: verified
/// code carries it and reads it only through the trusted accessors below.
#[verifier::external_type_specification]
#[verifier::external_body]
pub struct ExJson(Json);

/// Why structural decoding failed: the document lacks a required field, or
/// holds one of the wrong shape.
#[derive(Debug)]
pub enum DecodeError {
    /// The named required field is absent.
    MissingField(String),
    /// The named field is not of the required shape (text, list of text,
    /// or list of integer exit codes in range).
    WrongShape(String),
    /// The text is not a structurally valid document at all, or nests more
    /// deeply than the decoder admits; carries descriptive text.
    Syntax(String),
}

pub ghost enum DecodeErrorView {
    MissingField(Seq<char>),
    WrongShape(Seq<char>),
    Syntax(Seq<char>),
}

impl View for DecodeError {
    type V = DecodeErrorView;

    open spec fn view(&self) -> DecodeErrorView {
        match self {
            DecodeError::MissingField(f) => DecodeErrorView::MissingField(f@),
            DecodeError::WrongShape(f) => DecodeErrorView::WrongShape(f@),
            DecodeError::Syntax(m) => DecodeErrorView::Syntax(m@),
        }
    }
}

/// What `Json::from_str` yields on this text: the parsed value, or nothing
/// when the text is not valid JSON. The parse is a function of the text
/// alone.
pub uninterp spec fn parsed_json(text: Seq<char>) -> Option<Json>;

/// What `Json::find` yields on this value and key: the key's value when
/// the value is an object holding it, else nothing.
pub uninterp spec fn jfind_of(j: Json, key: Seq<char>) -> Option<Json>;

/// What `Json::as_string` yields: the text of a string value, else nothing.
pub uninterp spec fn jstr_of(j: Json) -> Option<Seq<char>>;

/// What `Json::as_array` yields: the elements of an array value, else
/// nothing.
pub uninterp spec fn jarr_of(j: Json) -> Option<Seq<Json>>;

/// What `Json::as_i64` yields: the integral value of a number that fits,
/// else nothing.
pub uninterp spec fn jint_of(j: Json) -> Option<i64>;

/// The deepest bracket nesting a document may have before the decoder
/// refuses it, so that the recursive outside parser runs within a known
/// stack bound.
pub const MAX_DOCUMENT_DEPTH: usize = 128;

/// Bracket-nesting depth of the text from position `i` on, lexed as JSON:
/// brackets inside string literals do not count, and a backslash escapes
/// the character after it.
pub open spec fn json_depth_from(
    text: Seq<char>,
    i: int,
    in_str: bool,
    esc: bool,
    cur: int,
    mx: int,
) -> int
    decreases text.len() - i,
{
    if i < 0 || i >= text.len() {
        mx
    } else {
        let c = text[i];
        if in_str {
            if esc {
                json_depth_from(text, i + 1, true, false, cur, mx)
            } else if c == '\\' {
                json_depth_from(text, i + 1, true, true, cur, mx)
            } else if c == '"' {
                json_depth_from(text, i + 1, false, false, cur, mx)
            } else {
                json_depth_from(text, i + 1, true, false, cur, mx)
            }
        } else if c == '"' {
            json_depth_from(text, i + 1, true, false, cur, mx)
        } else if c == '[' || c == '{' {
            json_depth_from(
                text,
                i + 1,
                false,
                false,
                cur + 1,
                if cur + 1 > mx {
                    cur + 1
                } else {
                    mx
                },
            )
        } else if c == ']' || c == '}' {
            json_depth_from(text, i + 1, false, false, cur - 1, mx)
        } else {
            json_depth_from(text, i + 1, false, false, cur, mx)
        }
    }
}

/// The deepest bracket nesting anywhere in the text.
pub open spec fn json_depth(text: Seq<char>) -> int {
    json_depth_from(text, 0, false, false, 0, 0)
}

/// Whether the text nests shallowly enough for the decoder to admit it.
fn document_depth_ok(text: &str) -> (ok: bool)
    ensures
        ok == (json_depth(text@) <= MAX_DOCUMENT_DEPTH as int),
{
    let n = text.unicode_len();
    let mut i: usize = 0;
    let mut in_str = false;
    let mut esc = false;
    let mut cur: i128 = 0;
    let mut mx: i128 = 0;
    while i < n
        invariant
            i <= n,
            n == text@.len(),
            esc ==> in_str,
            -(i as int) <= cur <= i as int,
            0 <= mx <= i as int,
            json_depth(text@) == json_depth_from(
                text@,
                i as int,
                in_str,
                esc,
                cur as int,
                mx as int,
            ),
        decreases n - i,
    {
        let c = text.get_char(i);
        if in_str {
            if esc {
                esc = false;
            } else if c == '\\' {
                esc = true;
            } else if c == '"' {
                in_str = false;
            }
        } else if c == '"' {
            in_str = true;
        } else if c == '[' || c == '{' {
            cur = cur + 1;
            if cur > mx {
                mx = cur;
            }
        } else if c == ']' || c == '}' {
            cur = cur - 1;
        }
        i += 1;
    }
    mx <= MAX_DOCUMENT_DEPTH as i128
}

/// Relies on rustc_serialize's `Json::from_str`: parses JSON text into a
/// structured value, or reports a syntax error, rendered here as text. The
/// parser recurses once per nesting level with no bound of its own, so the
/// depth precondition keeps it within the call stack.
#[verifier::external_body]
pub(crate) fn json_from_str(s: &str) -> (r: Result<Json, String>)
    requires
        json_depth(s@) <= MAX_DOCUMENT_DEPTH as int,
    ensures
        (match r {
            Ok(j) => parsed_json(s@) == Option::Some(j),
            Err(m) => parsed_json(s@) is None,
        }),
{
    Json::from_str(s).map_err(|e| e.to_string())
}

/// Relies on rustc_serialize's `Json::find`: on an object, the value of the
/// given key, if any; on any other value, nothing.
pub assume_specification<'a>[ Json::find ](v: &'a Json, key: &str) -> (r: Option<&'a Json>)
    ensures
        (match r {
            Option::Some(f) => jfind_of(*v, key@) == Option::Some(*f),
            Option::None => jfind_of(*v, key@) is None,
        }),
;

/// Relies on rustc_serialize's `Json::as_string`: the borrowed text of a
/// string value, or nothing for any other value.
pub assume_specification<'a>[ Json::as_string ](v: &'a Json) -> (r: Option<&'a str>)
    ensures
        (match r {
            Option::Some(s) => jstr_of(*v) == Option::Some(s@),
            Option::None => jstr_of(*v) is None,
        }),
;

/// Relies on rustc_serialize's `Json::as_array`: the borrowed elements of
/// an array value, or nothing for any other value.
pub assume_specification<'a>[ Json::as_array ](v: &'a Json) -> (r: Option<&'a Vec<Json>>)
    ensures
        (match r {
            Option::Some(a) => jarr_of(*v) == Option::Some(a@),
            Option::None => jarr_of(*v) is None,
        }),
;

/// Relies on rustc_serialize's `Json::as_i64`: the integral value of a
/// number that fits, or nothing for any other value.
pub assume_specification[ Json::as_i64 ](v: &Json) -> (r: Option<i64>)
    ensures
        (match r {
            Option::Some(c) => jint_of(*v) == Option::Some(c),
            Option::None => jint_of(*v) is None,
        }),
;

/// A required field of an object, or the missing-field error.
pub open spec fn field_spec(j: Json, name: Seq<char>) -> Result<Json, DecodeErrorView> {
    match jfind_of(j, name) {
        Option::Some(v) => Ok(v),
        Option::None => Err(DecodeErrorView::MissingField(name)),
    }
}

pub open spec fn string_field_spec(j: Json, name: Seq<char>) -> Result<Seq<char>, DecodeErrorView> {
    match field_spec(j, name) {
        Err(e) => Err(e),
        Ok(v) => match jstr_of(v) {
            Option::Some(s) => Ok(s),
            Option::None => Err(DecodeErrorView::WrongShape(name)),
        },
    }
}

pub open spec fn string_items_spec(arr: Seq<Json>, name: Seq<char>) -> Result<
    Seq<Seq<char>>,
    DecodeErrorView,
>
    decreases arr.len(),
{
    if arr.len() == 0 {
        Ok(Seq::<Seq<char>>::empty())
    } else {
        match jstr_of(arr[0]) {
            Option::None => Err(DecodeErrorView::WrongShape(name)),
            Option::Some(s) => match string_items_spec(arr.drop_first(), name) {
                Err(e) => Err(e),
                Ok(t) => Ok(seq![s] + t),
            },
        }
    }
}

pub open spec fn string_array_field_spec(j: Json, name: Seq<char>) -> Result<
    Seq<Seq<char>>,
    DecodeErrorView,
> {
    match field_spec(j, name) {
        Err(e) => Err(e),
        Ok(v) => match jarr_of(v) {
            Option::None => Err(DecodeErrorView::WrongShape(name)),
            Option::Some(a) => string_items_spec(a, name),
        },
    }
}

pub open spec fn code_items_spec(arr: Seq<Json>, name: Seq<char>) -> Result<
    Seq<i32>,
    DecodeErrorView,
>
    decreases arr.len(),
{
    if arr.len() == 0 {
        Ok(Seq::<i32>::empty())
    } else {
        match jint_of(arr[0]) {
            Option::None => Err(DecodeErrorView::WrongShape(name)),
            Option::Some(c) => if c < -2147483648 || c > 2147483647 {
                Err(DecodeErrorView::WrongShape(name))
            } else {
                match code_items_spec(arr.drop_first(), name) {
                    Err(e) => Err(e),
                    Ok(t) => Ok(seq![c as i32] + t),
                }
            },
        }
    }
}

pub open spec fn code_array_field_spec(j: Json, name: Seq<char>) -> Result<
    Seq<i32>,
    DecodeErrorView,
> {
    match field_spec(j, name) {
        Err(e) => Err(e),
        Ok(v) => match jarr_of(v) {
            Option::None => Err(DecodeErrorView::WrongShape(name)),
            Option::Some(a) => code_items_spec(a, name),
        },
    }
}

/// The decoded form of one task value: every required field read in
/// declaration order, the first mismatch failing the whole task.
pub open spec fn task_spec(j: Json) -> Result<TaskDescriptorView, DecodeErrorView> {
    match string_field_spec(j, "name"@) {
        Err(e) => Err(e),
        Ok(name) => match string_field_spec(j, "executor"@) {
            Err(e) => Err(e),
            Ok(executor) => match string_field_spec(j, "command"@) {
                Err(e) => Err(e),
                Ok(command) => match string_array_field_spec(j, "arguments"@) {
                    Err(e) => Err(e),
                    Ok(arguments) => match string_array_field_spec(j, "dependsOn"@) {
                        Err(e) => Err(e),
                        Ok(depends_on) => match field_spec(j, "onResult"@) {
                            Err(e) => Err(e),
                            Ok(onr) => match code_array_field_spec(
                                onr,
                                "terminateJobWithSuccess"@,
                            ) {
                                Err(e) => Err(e),
                                Ok(term) => match code_array_field_spec(onr, "continueJob"@) {
                                    Err(e) => Err(e),
                                    Ok(cont) => Ok(
                                        TaskDescriptorView {
                                            name,
                                            executor,
                                            command,
                                            arguments,
                                            depends_on,
                                            on_result: ResultPolicyView {
                                                terminate_job_with_success: term,
                                                continue_job: cont,
                                            },
                                        },
                                    ),
                                },
                            },
                        },
                    },
                },
            },
        },
    }
}

pub open spec fn tasks_spec(arr: Seq<Json>) -> Result<Seq<TaskDescriptorView>, DecodeErrorView>
    decreases arr.len(),
{
    if arr.len() == 0 {
        Ok(Seq::<TaskDescriptorView>::empty())
    } else {
        match task_spec(arr[0]) {
            Err(e) => Err(e),
            Ok(t) => match tasks_spec(arr.drop_first()) {
                Err(e) => Err(e),
                Ok(rest) => Ok(seq![t] + rest),
            },
        }
    }
}

/// The decoded envelope of a parsed document value, a function of that
/// value through the accessor names alone.
pub open spec fn decode_spec(j: Json) -> Result<JobEnvelopeView, DecodeErrorView> {
    match string_field_spec(j, "schema"@) {
        Err(e) => Err(e),
        Ok(schema) => match field_spec(j, "data"@) {
            Err(e) => Err(e),
            Ok(data) => match string_field_spec(data, "name"@) {
                Err(e) => Err(e),
                Ok(name) => match field_spec(data, "tasks"@) {
                    Err(e) => Err(e),
                    Ok(tj) => match jarr_of(tj) {
                        Option::None => Err(DecodeErrorView::WrongShape("tasks"@)),
                        Option::Some(arr) => match tasks_spec(arr) {
                            Err(e) => Err(e),
                            Ok(tasks) => Ok(
                                JobEnvelopeView { schema, data: JobDescriptorView { name, tasks } },
                            ),
                        },
                    },
                },
            },
        },
    }
}

proof fn lemma_string_items_shape(arr: Seq<Json>, name: Seq<char>)
    ensures
        (match string_items_spec(arr, name) {
            Err(e) => e == DecodeErrorView::WrongShape(name),
            Ok(v) => true,
        }),
    decreases arr.len(),
{
    if arr.len() > 0 && jstr_of(arr[0]) is Some {
        lemma_string_items_shape(arr.drop_first(), name);
    }
}

proof fn lemma_code_items_shape(arr: Seq<Json>, name: Seq<char>)
    ensures
        (match code_items_spec(arr, name) {
            Err(e) => e == DecodeErrorView::WrongShape(name),
            Ok(v) => true,
        }),
    decreases arr.len(),
{
    if arr.len() > 0 && jint_of(arr[0]) is Some {
        lemma_code_items_shape(arr.drop_first(), name);
    }
}

proof fn lemma_task_spec_no_syntax(j: Json)
    ensures
        (match task_spec(j) {
            Err(e) => !(e is Syntax),
            Ok(t) => true,
        }),
{
    match field_spec(j, "arguments"@) {
        Ok(v) => match jarr_of(v) {
            Option::Some(a) => lemma_string_items_shape(a, "arguments"@),
            Option::None => {},
        },
        Err(e) => {},
    }
    match field_spec(j, "dependsOn"@) {
        Ok(v) => match jarr_of(v) {
            Option::Some(a) => lemma_string_items_shape(a, "dependsOn"@),
            Option::None => {},
        },
        Err(e) => {},
    }
    match field_spec(j, "onResult"@) {
        Ok(onr) => {
            match field_spec(onr, "terminateJobWithSuccess"@) {
                Ok(v) => match jarr_of(v) {
                    Option::Some(a) => lemma_code_items_shape(a, "terminateJobWithSuccess"@),
                    Option::None => {},
                },
                Err(e) => {},
            }
            match field_spec(onr, "continueJob"@) {
                Ok(v) => match jarr_of(v) {
                    Option::Some(a) => lemma_code_items_shape(a, "continueJob"@),
                    Option::None => {},
                },
                Err(e) => {},
            }
        },
        Err(e) => {},
    }
}

proof fn lemma_tasks_spec_no_syntax(arr: Seq<Json>)
    ensures
        (match tasks_spec(arr) {
            Err(e) => !(e is Syntax),
            Ok(v) => true,
        }),
    decreases arr.len(),
{
    if arr.len() > 0 {
        lemma_task_spec_no_syntax(arr[0]);
        if task_spec(arr[0]) is Ok {
            lemma_tasks_spec_no_syntax(arr.drop_first());
        }
    }
}

/// A decode failure is always a missing or misshapen field, never the
/// syntax kind, which is reserved for text the parser refused.
pub proof fn lemma_decode_spec_no_syntax(j: Json)
    ensures
        (match decode_spec(j) {
            Err(e) => !(e is Syntax),
            Ok(v) => true,
        }),
{
    match field_spec(j, "data"@) {
        Ok(data) => match field_spec(data, "tasks"@) {
            Ok(tj) => match jarr_of(tj) {
                Option::Some(arr) => lemma_tasks_spec_no_syntax(arr),
                Option::None => {},
            },
            Err(e) => {},
        },
        Err(e) => {},
    }
}

fn field<'a>(j: &'a Json, name: &str) -> (r: Result<&'a Json, DecodeError>)
    ensures
        (match r {
            Ok(v) => field_spec(*j, name@) == Ok::<Json, DecodeErrorView>(*v),
            Err(e) => field_spec(*j, name@) == Err::<Json, DecodeErrorView>(e@),
        }),
{
    match j.find(name) {
        Option::Some(v) => Ok(v),
        Option::None => Err(DecodeError::MissingField(name.to_owned())),
    }
}

fn string_field(j: &Json, name: &str) -> (r: Result<String, DecodeError>)
    ensures
        (match r {
            Ok(s) => string_field_spec(*j, name@) == Ok::<Seq<char>, DecodeErrorView>(s@),
            Err(e) => string_field_spec(*j, name@) == Err::<Seq<char>, DecodeErrorView>(e@),
        }),
{
    let v = match field(j, name) {
        Ok(v) => v,
        Err(e) => {
            return Err(e);
        },
    };
    match v.as_string() {
        Option::Some(s) => Ok(s.to_owned()),
        Option::None => Err(DecodeError::WrongShape(name.to_owned())),
    }
}

fn string_array_field(j: &Json, name: &str) -> (r: Result<Vec<String>, DecodeError>)
    ensures
        (match r {
            Ok(v) => string_array_field_spec(*j, name@) == Ok::<Seq<Seq<char>>, DecodeErrorView>(
                v.deep_view(),
            ),
            Err(e) => string_array_field_spec(*j, name@) == Err::<Seq<Seq<char>>, DecodeErrorView>(
                e@,
            ),
        }),
{
    let v = match field(j, name) {
        Ok(v) => v,
        Err(e) => {
            return Err(e);
        },
    };
    let arr = match v.as_array() {
        Option::Some(a) => a,
        Option::None => {
            return Err(DecodeError::WrongShape(name.to_owned()));
        },
    };
    let ghost full = arr@;
    let mut out: Vec<String> = Vec::new();
    let mut i: usize = 0;
    proof {
        assert(full.skip(0) =~= full);
        assert(out.deep_view() =~= Seq::<Seq<char>>::empty());
    }
    while i < arr.len()
        invariant
            i <= arr@.len(),
            full == arr@,
            field_spec(*j, name@) == Ok::<Json, DecodeErrorView>(*v),
            jarr_of(*v) == Option::Some(full),
            (match string_items_spec(full.skip(i as int), name@) {
                Err(e) => string_items_spec(full, name@) == Err::<Seq<Seq<char>>, DecodeErrorView>(
                    e,
                ),
                Ok(rest) => string_items_spec(full, name@) == Ok::<Seq<Seq<char>>, DecodeErrorView>(
                    out.deep_view() + rest,
                ),
            }),
        decreases arr@.len() - i,
    {
        proof {
            assert(full.skip(i as int)[0] == full[i as int]);
            assert(full.skip(i as int).drop_first() =~= full.skip(i as int + 1));
        }
        match arr[i].as_string() {
            Option::Some(s) => {
                let ghost out0 = out.deep_view();
                let owned = s.to_owned();
                let ghost sv = owned@;
                out.push(owned);
                proof {
                    assert(out.deep_view() =~= out0.push(sv));
                    if string_items_spec(full.skip(i as int + 1), name@) is Ok {
                        let rest2 = string_items_spec(full.skip(i as int + 1), name@)->Ok_0;
                        assert(out0 + (seq![sv] + rest2) =~= out0.push(sv) + rest2);
                    }
                }
            },
            Option::None => {
                return Err(DecodeError::WrongShape(name.to_owned()));
            },
        }
        i += 1;
    }
    proof {
        assert(full.skip(arr@.len() as int) =~= Seq::<Json>::empty());
        assert(out.deep_view() + Seq::<Seq<char>>::empty() =~= out.deep_view());
    }
    Ok(out)
}

fn code_array_field(j: &Json, name: &str) -> (r: Result<Vec<i32>, DecodeError>)
    ensures
        (match r {
            Ok(v) => code_array_field_spec(*j, name@) == Ok::<Seq<i32>, DecodeErrorView>(v@),
            Err(e) => code_array_field_spec(*j, name@) == Err::<Seq<i32>, DecodeErrorView>(e@),
        }),
{
    let v = match field(j, name) {
        Ok(v) => v,
        Err(e) => {
            return Err(e);
        },
    };
    let arr = match v.as_array() {
        Option::Some(a) => a,
        Option::None => {
            return Err(DecodeError::WrongShape(name.to_owned()));
        },
    };
    let ghost full = arr@;
    let mut out: Vec<i32> = Vec::new();
    let mut i: usize = 0;
    proof {
        assert(full.skip(0) =~= full);
    }
    while i < arr.len()
        invariant
            i <= arr@.len(),
            full == arr@,
            field_spec(*j, name@) == Ok::<Json, DecodeErrorView>(*v),
            jarr_of(*v) == Option::Some(full),
            (match code_items_spec(full.skip(i as int), name@) {
                Err(e) => code_items_spec(full, name@) == Err::<Seq<i32>, DecodeErrorView>(e),
                Ok(rest) => code_items_spec(full, name@) == Ok::<Seq<i32>, DecodeErrorView>(
                    out@ + rest,
                ),
            }),
        decreases arr@.len() - i,
    {
        proof {
            assert(full.skip(i as int)[0] == full[i as int]);
            assert(full.skip(i as int).drop_first() =~= full.skip(i as int + 1));
        }
        match arr[i].as_i64() {
            Option::Some(c) => {
                if c < -2147483648i64 || c > 2147483647i64 {
                    return Err(DecodeError::WrongShape(name.to_owned()));
                }
                let ghost out0 = out@;
                out.push(c as i32);
                proof {
                    if code_items_spec(full.skip(i as int + 1), name@) is Ok {
                        let rest2 = code_items_spec(full.skip(i as int + 1), name@)->Ok_0;
                        assert(out0 + (seq![c as i32] + rest2) =~= out0.push(c as i32) + rest2);
                    }
                }
            },
            Option::None => {
                return Err(DecodeError::WrongShape(name.to_owned()));
            },
        }
        i += 1;
    }
    proof {
        assert(full.skip(arr@.len() as int) =~= Seq::<Json>::empty());
        assert(out@ + Seq::<i32>::empty() =~= out@);
    }
    Ok(out)
}

fn decode_task(j: &Json) -> (r: Result<TaskDescriptor, DecodeError>)
    ensures
        (match r {
            Ok(t) => task_spec(*j) == Ok::<TaskDescriptorView, DecodeErrorView>(t@),
            Err(e) => task_spec(*j) == Err::<TaskDescriptorView, DecodeErrorView>(e@),
        }),
{
    let name = match string_field(j, "name") {
        Ok(s) => s,
        Err(e) => {
            return Err(e);
        },
    };
    let executor = match string_field(j, "executor") {
        Ok(s) => s,
        Err(e) => {
            return Err(e);
        },
    };
    let command = match string_field(j, "command") {
        Ok(s) => s,
        Err(e) => {
            return Err(e);
        },
    };
    let arguments = match string_array_field(j, "arguments") {
        Ok(v) => v,
        Err(e) => {
            return Err(e);
        },
    };
    let depends_on = match string_array_field(j, "dependsOn") {
        Ok(v) => v,
        Err(e) => {
            return Err(e);
        },
    };
    let on_result_json = match field(j, "onResult") {
        Ok(v) => v,
        Err(e) => {
            return Err(e);
        },
    };
    let terminate = match code_array_field(on_result_json, "terminateJobWithSuccess") {
        Ok(v) => v,
        Err(e) => {
            return Err(e);
        },
    };
    let cont = match code_array_field(on_result_json, "continueJob") {
        Ok(v) => v,
        Err(e) => {
            return Err(e);
        },
    };
    Ok(
        TaskDescriptor {
            name,
            executor,
            command,
            arguments,
            depends_on,
            on_result: ResultPolicy { terminate_job_with_success: terminate, continue_job: cont },
        },
    )
}

/// Decodes a parsed document into the typed envelope, checking every
/// required field and its shape; any mismatch fails the whole decode. The
/// result is exactly `decode_spec` of the parsed value.
pub fn decode_json(j: &Json) -> (r: Result<JobEnvelope, DecodeError>)
    ensures
        (match r {
            Ok(env) => decode_spec(*j) == Ok::<JobEnvelopeView, DecodeErrorView>(env@),
            Err(e) => decode_spec(*j) == Err::<JobEnvelopeView, DecodeErrorView>(e@),
        }),
{
    let schema = match string_field(j, "schema") {
        Ok(s) => s,
        Err(e) => {
            return Err(e);
        },
    };
    let data = match field(j, "data") {
        Ok(v) => v,
        Err(e) => {
            return Err(e);
        },
    };
    let name = match string_field(data, "name") {
        Ok(s) => s,
        Err(e) => {
            return Err(e);
        },
    };
    let tasks_json = match field(data, "tasks") {
        Ok(v) => v,
        Err(e) => {
            return Err(e);
        },
    };
    let arr = match tasks_json.as_array() {
        Option::Some(a) => a,
        Option::None => {
            return Err(DecodeError::WrongShape("tasks".to_owned()));
        },
    };
    let ghost full = arr@;
    let mut tasks: Vec<TaskDescriptor> = Vec::new();
    let mut i: usize = 0;
    proof {
        assert(full.skip(0) =~= full);
        assert(tasks.deep_view() =~= Seq::<TaskDescriptorView>::empty());
    }
    while i < arr.len()
        invariant
            i <= arr@.len(),
            full == arr@,
            string_field_spec(*j, "schema"@) == Ok::<Seq<char>, DecodeErrorView>(schema@),
            field_spec(*j, "data"@) == Ok::<Json, DecodeErrorView>(*data),
            string_field_spec(*data, "name"@) == Ok::<Seq<char>, DecodeErrorView>(name@),
            field_spec(*data, "tasks"@) == Ok::<Json, DecodeErrorView>(*tasks_json),
            jarr_of(*tasks_json) == Option::Some(full),
            (match tasks_spec(full.skip(i as int)) {
                Err(e) => tasks_spec(full) == Err::<Seq<TaskDescriptorView>, DecodeErrorView>(e),
                Ok(rest) => tasks_spec(full) == Ok::<Seq<TaskDescriptorView>, DecodeErrorView>(
                    tasks.deep_view() + rest,
                ),
            }),
        decreases arr@.len() - i,
    {
        proof {
            assert(full.skip(i as int)[0] == full[i as int]);
            assert(full.skip(i as int).drop_first() =~= full.skip(i as int + 1));
        }
        match decode_task(&arr[i]) {
            Ok(t) => {
                let ghost tasks0 = tasks.deep_view();
                let ghost tv = t@;
                tasks.push(t);
                proof {
                    assert(tasks.deep_view() =~= tasks0.push(tv));
                    if tasks_spec(full.skip(i as int + 1)) is Ok {
                        let rest2 = tasks_spec(full.skip(i as int + 1))->Ok_0;
                        assert(tasks0 + (seq![tv] + rest2) =~= tasks0.push(tv) + rest2);
                    }
                }
            },
            Err(e) => {
                return Err(e);
            },
        }
        i += 1;
    }
    proof {
        assert(full.skip(arr@.len() as int) =~= Seq::<Json>::empty());
        assert(tasks.deep_view() + Seq::<TaskDescriptorView>::empty() =~= tasks.deep_view());
    }
    Ok(JobEnvelope { schema, data: JobDescriptor { name, tasks } })
}

/// Parses the raw text and decodes it into the typed envelope. A document
/// that nests too deeply or is not valid JSON fails with descriptive text;
/// otherwise the result is exactly `decode_spec` of the parsed value.
pub fn decode_document(text: &str) -> (r: Result<JobEnvelope, DecodeError>)
    ensures
        (match r {
            Ok(env) => json_depth(text@) <= MAX_DOCUMENT_DEPTH as int && (parsed_json(text@)
                matches Option::Some(j) && decode_spec(j) == Ok::<JobEnvelopeView, DecodeErrorView>(
                env@,
            )),
            Err(e) => match e {
                DecodeError::Syntax(m) => json_depth(text@) > MAX_DOCUMENT_DEPTH as int
                    || parsed_json(text@) is None,
                _ => json_depth(text@) <= MAX_DOCUMENT_DEPTH as int && (parsed_json(text@) matches
                    Option::Some(j) && decode_spec(j) == Err::<JobEnvelopeView, DecodeErrorView>(
                    e@,
                )),
            },
        }),
{
    if !document_depth_ok(text) {
        return Err(DecodeError::Syntax("the document nests too deeply".to_owned()));
    }
    match json_from_str(text) {
        Ok(j) => {
            let out = decode_json(&j);
            proof {
                lemma_decode_spec_no_syntax(j);
            }
            out
        },
        Err(msg) => Err(DecodeError::Syntax(msg)),
    }
}

} // verus!
