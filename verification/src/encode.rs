//! The canonical compact text of a decoded envelope: the exact character
//! sequence is pinned down by spec functions, so the stored descriptive
//! payload is a function of the decoded fields alone, independent of the
//! formatting of the original document.

use vstd::prelude::*;

use crate::model::{JobDescriptorView, JobEnvelope, JobEnvelopeView, TaskDescriptorView};

verus! {

pub open spec fn dec_digit(d: int) -> char {
    if d == 0 {
        '0'
    } else if d == 1 {
        '1'
    } else if d == 2 {
        '2'
    } else if d == 3 {
        '3'
    } else if d == 4 {
        '4'
    } else if d == 5 {
        '5'
    } else if d == 6 {
        '6'
    } else if d == 7 {
        '7'
    } else if d == 8 {
        '8'
    } else {
        '9'
    }
}

pub open spec fn hex_digit(d: int) -> char {
    if d < 10 {
        dec_digit(d)
    } else if d == 10 {
        'a'
    } else if d == 11 {
        'b'
    } else if d == 12 {
        'c'
    } else if d == 13 {
        'd'
    } else if d == 14 {
        'e'
    } else {
        'f'
    }
}

/// Decimal digits of `n`, most significant first.
pub open spec fn dec_nat(n: nat) -> Seq<char>
    decreases n,
{
    if n < 10 {
        seq![dec_digit(n as int)]
    } else {
        dec_nat(n / 10).push(dec_digit((n % 10) as int))
    }
}

/// Decimal text of a (possibly negative) exit code.
pub open spec fn dec_int(x: int) -> Seq<char> {
    if x < 0 {
        seq!['-'] + dec_nat((-x) as nat)
    } else {
        dec_nat(x as nat)
    }
}

/// How one character appears inside a canonical string literal: quote and
/// backslash are escaped, the named control characters take their short
/// escapes, any other control character a four-digit escape, and everything
/// else stands as itself.
pub open spec fn escape_char(c: char) -> Seq<char> {
    if c == '"' {
        seq!['\\', '"']
    } else if c == '\\' {
        seq!['\\', '\\']
    } else if c == '\u{8}' {
        seq!['\\', 'b']
    } else if c == '\u{c}' {
        seq!['\\', 'f']
    } else if c == '\n' {
        seq!['\\', 'n']
    } else if c == '\r' {
        seq!['\\', 'r']
    } else if c == '\t' {
        seq!['\\', 't']
    } else if (c as u32) < 32 {
        seq!['\\', 'u', '0', '0', hex_digit(c as u32 as int / 16), hex_digit(c as u32 as int % 16)]
    } else {
        seq![c]
    }
}

pub open spec fn escape_seq(s: Seq<char>) -> Seq<char>
    decreases s.len(),
{
    if s.len() == 0 {
        Seq::<char>::empty()
    } else {
        escape_char(s[0]) + escape_seq(s.drop_first())
    }
}

/// A canonical string literal: the escaped text between double quotes.
pub open spec fn quoted(s: Seq<char>) -> Seq<char> {
    seq!['"'] + escape_seq(s) + seq!['"']
}

/// Comma-separated decimal codes.
pub open spec fn codes_items(codes: Seq<i32>) -> Seq<char>
    decreases codes.len(),
{
    if codes.len() == 0 {
        Seq::<char>::empty()
    } else if codes.len() == 1 {
        dec_int(codes[0] as int)
    } else {
        dec_int(codes[0] as int) + seq![','] + codes_items(codes.drop_first())
    }
}

pub open spec fn codes_list(codes: Seq<i32>) -> Seq<char> {
    seq!['['] + codes_items(codes) + seq![']']
}

/// Comma-separated canonical string literals.
pub open spec fn strings_items(ss: Seq<Seq<char>>) -> Seq<char>
    decreases ss.len(),
{
    if ss.len() == 0 {
        Seq::<char>::empty()
    } else if ss.len() == 1 {
        quoted(ss[0])
    } else {
        quoted(ss[0]) + seq![','] + strings_items(ss.drop_first())
    }
}

pub open spec fn strings_list(ss: Seq<Seq<char>>) -> Seq<char> {
    seq!['['] + strings_items(ss) + seq![']']
}

/// One task in canonical form, fields in declaration order.
pub open spec fn task_text(t: TaskDescriptorView) -> Seq<char> {
    "{\"name\":"@ + quoted(t.name) + ",\"executor\":"@ + quoted(t.executor) + ",\"command\":"@
        + quoted(t.command) + ",\"arguments\":"@ + strings_list(t.arguments) + ",\"dependsOn\":"@
        + strings_list(t.depends_on) + ",\"onResult\":{\"terminateJobWithSuccess\":"@ + codes_list(
        t.on_result.terminate_job_with_success,
    ) + ",\"continueJob\":"@ + codes_list(t.on_result.continue_job) + "}}"@
}

pub open spec fn tasks_items(ts: Seq<TaskDescriptorView>) -> Seq<char>
    decreases ts.len(),
{
    if ts.len() == 0 {
        Seq::<char>::empty()
    } else if ts.len() == 1 {
        task_text(ts[0])
    } else {
        task_text(ts[0]) + seq![','] + tasks_items(ts.drop_first())
    }
}

pub open spec fn job_text(j: JobDescriptorView) -> Seq<char> {
    "{\"name\":"@ + quoted(j.name) + ",\"tasks\":["@ + tasks_items(j.tasks) + "]}"@
}

/// The whole envelope in canonical compact form.
pub open spec fn envelope_text(e: JobEnvelopeView) -> Seq<char> {
    "{\"schema\":"@ + quoted(e.schema) + ",\"data\":"@ + job_text(e.data) + "}"@
}

/// Relies on `String`'s `FromIterator` over characters: collecting yields
/// the string of exactly those characters in order.
#[verifier::external_body]
fn chars_to_string(v: &Vec<char>) -> (r: String)
    ensures
        r@ == v@,
{
    v.iter().collect()
}

fn append_str_chars(out: &mut Vec<char>, s: &str)
    ensures
        final(out)@ == old(out)@ + s@,
{
    let n = s.unicode_len();
    let mut i: usize = 0;
    while i < n
        invariant
            i <= n,
            n == s@.len(),
            out@ == old(out)@ + s@.take(i as int),
        decreases n - i,
    {
        out.push(s.get_char(i));
        proof {
            assert(old(out)@ + s@.take(i as int) + seq![s@[i as int]] =~= old(out)@ + s@.take(
                i as int + 1,
            ));
        }
        i += 1;
    }
    proof {
        assert(old(out)@ + s@.take(n as int) =~= old(out)@ + s@);
    }
}

fn dec_digit_exec(d: u32) -> (c: char)
    requires
        d < 10,
    ensures
        c == dec_digit(d as int),
{
    if d == 0 {
        '0'
    } else if d == 1 {
        '1'
    } else if d == 2 {
        '2'
    } else if d == 3 {
        '3'
    } else if d == 4 {
        '4'
    } else if d == 5 {
        '5'
    } else if d == 6 {
        '6'
    } else if d == 7 {
        '7'
    } else if d == 8 {
        '8'
    } else {
        '9'
    }
}

fn hex_digit_exec(d: u32) -> (c: char)
    requires
        d < 16,
    ensures
        c == hex_digit(d as int),
{
    if d < 10 {
        dec_digit_exec(d)
    } else if d == 10 {
        'a'
    } else if d == 11 {
        'b'
    } else if d == 12 {
        'c'
    } else if d == 13 {
        'd'
    } else if d == 14 {
        'e'
    } else {
        'f'
    }
}

fn append_dec_u32(out: &mut Vec<char>, n: u32)
    ensures
        final(out)@ == old(out)@ + dec_nat(n as nat),
    decreases n,
{
    if n < 10 {
        out.push(dec_digit_exec(n));
        proof {
            assert(old(out)@.push(dec_digit(n as int)) =~= old(out)@ + dec_nat(n as nat));
        }
    } else {
        append_dec_u32(out, n / 10);
        out.push(dec_digit_exec(n % 10));
        proof {
            assert(old(out)@ + dec_nat((n / 10) as nat) + seq![dec_digit((n % 10) as int)]
                =~= old(out)@ + dec_nat(n as nat));
        }
    }
}

fn append_dec_i32(out: &mut Vec<char>, x: i32)
    ensures
        final(out)@ == old(out)@ + dec_int(x as int),
{
    if x < 0 {
        out.push('-');
        let n: u32 = (-(x as i64)) as u32;
        append_dec_u32(out, n);
        proof {
            assert(old(out)@.push('-') + dec_nat(n as nat) =~= old(out)@ + dec_int(x as int));
        }
    } else {
        append_dec_u32(out, x as u32);
    }
}

fn append_escaped_char(out: &mut Vec<char>, c: char)
    ensures
        final(out)@ == old(out)@ + escape_char(c),
{
    if c == '"' {
        out.push('\\');
        out.push('"');
        proof {
            assert(old(out)@.push('\\').push('"') =~= old(out)@ + escape_char(c));
        }
    } else if c == '\\' {
        out.push('\\');
        out.push('\\');
        proof {
            assert(old(out)@.push('\\').push('\\') =~= old(out)@ + escape_char(c));
        }
    } else if c == '\u{8}' {
        out.push('\\');
        out.push('b');
        proof {
            assert(old(out)@.push('\\').push('b') =~= old(out)@ + escape_char(c));
        }
    } else if c == '\u{c}' {
        out.push('\\');
        out.push('f');
        proof {
            assert(old(out)@.push('\\').push('f') =~= old(out)@ + escape_char(c));
        }
    } else if c == '\n' {
        out.push('\\');
        out.push('n');
        proof {
            assert(old(out)@.push('\\').push('n') =~= old(out)@ + escape_char(c));
        }
    } else if c == '\r' {
        out.push('\\');
        out.push('r');
        proof {
            assert(old(out)@.push('\\').push('r') =~= old(out)@ + escape_char(c));
        }
    } else if c == '\t' {
        out.push('\\');
        out.push('t');
        proof {
            assert(old(out)@.push('\\').push('t') =~= old(out)@ + escape_char(c));
        }
    } else {
        let code = c as u32;
        if code < 32 {
            out.push('\\');
            out.push('u');
            out.push('0');
            out.push('0');
            out.push(hex_digit_exec(code / 16));
            out.push(hex_digit_exec(code % 16));
            proof {
                assert(old(out)@.push('\\').push('u').push('0').push('0').push(
                    hex_digit(code as int / 16),
                ).push(hex_digit(code as int % 16)) =~= old(out)@ + escape_char(c));
            }
        } else {
            out.push(c);
            proof {
                assert(old(out)@.push(c) =~= old(out)@ + escape_char(c));
            }
        }
    }
}

proof fn lemma_escape_seq_snoc(s: Seq<char>, c: char)
    ensures
        escape_seq(s.push(c)) == escape_seq(s) + escape_char(c),
    decreases s.len(),
{
    if s.len() == 0 {
        assert(s.push(c)[0] == c);
        assert(s.push(c).drop_first() =~= Seq::<char>::empty());
        assert(escape_seq(Seq::<char>::empty()) == Seq::<char>::empty());
        assert(escape_seq(s.push(c)) == escape_char(c) + escape_seq(s.push(c).drop_first()));
        assert(escape_char(c) + Seq::<char>::empty() =~= escape_char(c));
        assert(Seq::<char>::empty() + escape_char(c) =~= escape_char(c));
    } else {
        assert(s.push(c)[0] == s[0]);
        assert(s.push(c).drop_first() =~= s.drop_first().push(c));
        lemma_escape_seq_snoc(s.drop_first(), c);
        assert(escape_char(s[0]) + (escape_seq(s.drop_first()) + escape_char(c)) =~= (escape_char(
            s[0],
        ) + escape_seq(s.drop_first())) + escape_char(c));
    }
}

fn append_quoted(out: &mut Vec<char>, s: &str)
    ensures
        final(out)@ == old(out)@ + quoted(s@),
{
    out.push('"');
    let n = s.unicode_len();
    let mut i: usize = 0;
    while i < n
        invariant
            i <= n,
            n == s@.len(),
            out@ == old(out)@.push('"') + escape_seq(s@.take(i as int)),
        decreases n - i,
    {
        proof {
            assert(s@.take(i as int).push(s@[i as int]) =~= s@.take(i as int + 1));
            lemma_escape_seq_snoc(s@.take(i as int), s@[i as int]);
        }
        append_escaped_char(out, s.get_char(i));
        proof {
            assert(old(out)@.push('"') + escape_seq(s@.take(i as int)) + escape_char(s@[i as int])
                =~= old(out)@.push('"') + escape_seq(s@.take(i as int + 1)));
        }
        i += 1;
    }
    out.push('"');
    proof {
        assert(s@.take(n as int) =~= s@);
        assert(old(out)@.push('"') + escape_seq(s@) + seq!['"'] =~= old(out)@ + quoted(s@));
        assert((old(out)@.push('"') + escape_seq(s@)).push('"') =~= old(out)@.push('"')
            + escape_seq(s@) + seq!['"']);
    }
}

proof fn lemma_codes_items_snoc(codes: Seq<i32>, x: i32)
    ensures
        codes_items(codes.push(x)) == if codes.len() == 0 {
            dec_int(x as int)
        } else {
            codes_items(codes) + seq![','] + dec_int(x as int)
        },
    decreases codes.len(),
{
    if codes.len() == 0 {
        assert(codes.push(x)[0] == x);
    } else {
        assert(codes.push(x).drop_first() =~= codes.drop_first().push(x));
        lemma_codes_items_snoc(codes.drop_first(), x);
        if codes.len() == 1 {
            assert(codes_items(codes.push(x)) == dec_int(codes[0] as int) + seq![','] + dec_int(
                x as int,
            ));
        } else {
            assert(dec_int(codes[0] as int) + seq![','] + (codes_items(codes.drop_first())
                + seq![','] + dec_int(x as int)) =~= (dec_int(codes[0] as int) + seq![',']
                + codes_items(codes.drop_first())) + seq![','] + dec_int(x as int));
        }
    }
}

fn append_codes_list(out: &mut Vec<char>, codes: &Vec<i32>)
    ensures
        final(out)@ == old(out)@ + codes_list(codes@),
{
    out.push('[');
    let mut i: usize = 0;
    while i < codes.len()
        invariant
            i <= codes@.len(),
            out@ == old(out)@.push('[') + codes_items(codes@.take(i as int)),
        decreases codes@.len() - i,
    {
        proof {
            assert(codes@.take(i as int).push(codes@[i as int]) =~= codes@.take(i as int + 1));
            lemma_codes_items_snoc(codes@.take(i as int), codes@[i as int]);
        }
        if i > 0 {
            out.push(',');
        }
        append_dec_i32(out, codes[i]);
        proof {
            if i > 0 {
                assert(old(out)@.push('[') + codes_items(codes@.take(i as int)) + seq![','] + dec_int(
                    codes@[i as int] as int,
                ) =~= old(out)@.push('[') + codes_items(codes@.take(i as int + 1)));
            } else {
                assert(old(out)@.push('[') + dec_int(codes@[i as int] as int) =~= old(out)@.push(
                    '[',
                ) + codes_items(codes@.take(i as int + 1)));
            }
        }
        i += 1;
    }
    out.push(']');
    proof {
        assert(codes@.take(codes@.len() as int) =~= codes@);
        assert((old(out)@.push('[') + codes_items(codes@)).push(']') =~= old(out)@ + codes_list(
            codes@,
        ));
    }
}

proof fn lemma_strings_items_snoc(ss: Seq<Seq<char>>, x: Seq<char>)
    ensures
        strings_items(ss.push(x)) == if ss.len() == 0 {
            quoted(x)
        } else {
            strings_items(ss) + seq![','] + quoted(x)
        },
    decreases ss.len(),
{
    if ss.len() == 0 {
        assert(ss.push(x)[0] == x);
    } else {
        assert(ss.push(x).drop_first() =~= ss.drop_first().push(x));
        lemma_strings_items_snoc(ss.drop_first(), x);
        if ss.len() == 1 {
        } else {
            assert(quoted(ss[0]) + seq![','] + (strings_items(ss.drop_first()) + seq![','] + quoted(
                x,
            )) =~= (quoted(ss[0]) + seq![','] + strings_items(ss.drop_first())) + seq![','] + quoted(
                x,
            ));
        }
    }
}

fn append_strings_list(out: &mut Vec<char>, ss: &Vec<String>)
    ensures
        final(out)@ == old(out)@ + strings_list(ss.deep_view()),
{
    out.push('[');
    let ghost full = ss.deep_view();
    let mut i: usize = 0;
    while i < ss.len()
        invariant
            i <= ss@.len(),
            full == ss.deep_view(),
            out@ == old(out)@.push('[') + strings_items(full.take(i as int)),
        decreases ss@.len() - i,
    {
        proof {
            assert(full.take(i as int).push(full[i as int]) =~= full.take(i as int + 1));
            lemma_strings_items_snoc(full.take(i as int), full[i as int]);
            assert(full[i as int] == ss@[i as int]@);
        }
        if i > 0 {
            out.push(',');
        }
        append_quoted(out, ss[i].as_str());
        proof {
            if i > 0 {
                assert(old(out)@.push('[') + strings_items(full.take(i as int)) + seq![','] + quoted(
                    full[i as int],
                ) =~= old(out)@.push('[') + strings_items(full.take(i as int + 1)));
            } else {
                assert(old(out)@.push('[') + quoted(full[i as int]) =~= old(out)@.push('[')
                    + strings_items(full.take(i as int + 1)));
            }
        }
        i += 1;
    }
    out.push(']');
    proof {
        assert(full.take(ss@.len() as int) =~= full);
        assert((old(out)@.push('[') + strings_items(full)).push(']') =~= old(out)@ + strings_list(
            full,
        ));
    }
}

proof fn lemma_tasks_items_snoc(ts: Seq<TaskDescriptorView>, x: TaskDescriptorView)
    ensures
        tasks_items(ts.push(x)) == if ts.len() == 0 {
            task_text(x)
        } else {
            tasks_items(ts) + seq![','] + task_text(x)
        },
    decreases ts.len(),
{
    if ts.len() == 0 {
        assert(ts.push(x)[0] == x);
    } else {
        assert(ts.push(x)[0] == ts[0]);
        assert(ts.push(x).drop_first() =~= ts.drop_first().push(x));
        lemma_tasks_items_snoc(ts.drop_first(), x);
        if ts.len() == 1 {
        } else {
            assert(task_text(ts[0]) + seq![','] + (tasks_items(ts.drop_first()) + seq![',']
                + task_text(x)) =~= (task_text(ts[0]) + seq![','] + tasks_items(ts.drop_first()))
                + seq![','] + task_text(x));
        }
    }
}

fn append_task(out: &mut Vec<char>, t: &crate::model::TaskDescriptor)
    ensures
        final(out)@ == old(out)@ + task_text(t@),
{
    append_str_chars(out, "{\"name\":");
    append_quoted(out, t.name.as_str());
    append_str_chars(out, ",\"executor\":");
    append_quoted(out, t.executor.as_str());
    append_str_chars(out, ",\"command\":");
    append_quoted(out, t.command.as_str());
    append_str_chars(out, ",\"arguments\":");
    append_strings_list(out, &t.arguments);
    append_str_chars(out, ",\"dependsOn\":");
    append_strings_list(out, &t.depends_on);
    append_str_chars(out, ",\"onResult\":{\"terminateJobWithSuccess\":");
    append_codes_list(out, &t.on_result.terminate_job_with_success);
    append_str_chars(out, ",\"continueJob\":");
    append_codes_list(out, &t.on_result.continue_job);
    append_str_chars(out, "}}");
    proof {
        assert(out@ =~= old(out)@ + task_text(t@));
    }
}

fn append_job(out: &mut Vec<char>, j: &crate::model::JobDescriptor)
    ensures
        final(out)@ == old(out)@ + job_text(j@),
{
    append_str_chars(out, "{\"name\":");
    append_quoted(out, j.name.as_str());
    append_str_chars(out, ",\"tasks\":[");
    let ghost mid = out@;
    let ghost full = j.tasks.deep_view();
    let mut i: usize = 0;
    while i < j.tasks.len()
        invariant
            i <= j.tasks@.len(),
            full == j.tasks.deep_view(),
            out@ == mid + tasks_items(full.take(i as int)),
        decreases j.tasks@.len() - i,
    {
        proof {
            assert(full.take(i as int).push(full[i as int]) =~= full.take(i as int + 1));
            lemma_tasks_items_snoc(full.take(i as int), full[i as int]);
            assert(full[i as int] == j.tasks@[i as int]@);
        }
        if i > 0 {
            out.push(',');
        }
        append_task(out, &j.tasks[i]);
        proof {
            if i > 0 {
                assert(mid + tasks_items(full.take(i as int)) + seq![','] + task_text(
                    full[i as int],
                ) =~= mid + tasks_items(full.take(i as int + 1)));
            } else {
                assert(mid + task_text(full[i as int]) =~= mid + tasks_items(
                    full.take(i as int + 1),
                ));
            }
        }
        i += 1;
    }
    append_str_chars(out, "]}");
    proof {
        assert(full.take(j.tasks@.len() as int) =~= full);
        assert(mid + tasks_items(full) + "]}"@ =~= old(out)@ + job_text(j@));
    }
}

/// The canonical compact text of the decoded envelope; the result is a
/// function of the decoded fields alone.
pub fn encode_envelope(e: &JobEnvelope) -> (r: String)
    ensures
        r@ == envelope_text(e@),
{
    let mut out: Vec<char> = Vec::new();
    append_str_chars(&mut out, "{\"schema\":");
    append_quoted(&mut out, e.schema.as_str());
    append_str_chars(&mut out, ",\"data\":");
    append_job(&mut out, &e.data);
    append_str_chars(&mut out, "}");
    proof {
        assert(out@ =~= envelope_text(e@));
    }
    chars_to_string(&out)
}

} // verus!
