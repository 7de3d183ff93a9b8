//! Placeholder substitution: resolves `${name}` references inside a string
//! against a flat mapping of substitution values, in a single left-to-right
//! pass. Substituted values are inserted verbatim and never re-scanned.

use vstd::prelude::*;

verus! {

/// A flat substitution mapping from placeholder names to replacement text.
/// Lookup takes the first pair whose name matches the key.
pub struct Context {
    pub pairs: Vec<(String, String)>,
}

/// Failure of one substitution: a placeholder named a key that the
/// context does not define.
#[derive(Debug)]
pub enum TemplateError {
    UndefinedVariable(String),
}

/// First-match lookup of `key` among `pairs`.
pub open spec fn lookup_spec(pairs: Seq<(String, String)>, key: Seq<char>) -> Option<Seq<char>>
    decreases pairs.len(),
{
    if pairs.len() == 0 {
        Option::None
    } else if pairs[0].0@ == key {
        Option::Some(pairs[0].1@)
    } else {
        lookup_spec(pairs.drop_first(), key)
    }
}

impl Context {
    pub open spec fn spec_lookup(&self, key: Seq<char>) -> Option<Seq<char>> {
        lookup_spec(self.pairs@, key)
    }

    fn lookup_from(&self, key: &String, i: usize) -> (r: Option<String>)
        requires
            i <= self.pairs@.len(),
        ensures
            (match r {
                Option::Some(v) => lookup_spec(self.pairs@.skip(i as int), key@)
                    == Option::Some(v@),
                Option::None => lookup_spec(self.pairs@.skip(i as int), key@) is None,
            }),
        decreases self.pairs@.len() - i,
    {
        if i == self.pairs.len() {
            Option::None
        } else {
            proof {
                assert(self.pairs@.skip(i as int)[0] == self.pairs@[i as int]);
                assert(self.pairs@.skip(i as int).drop_first()
                    =~= self.pairs@.skip(i as int + 1));
            }
            if self.pairs[i].0 == *key {
                Option::Some(self.pairs[i].1.clone())
            } else {
                self.lookup_from(key, i + 1)
            }
        }
    }

    /// Returns the replacement bound to `key`, or `None` when the context
    /// does not define it.
    pub fn lookup(&self, key: &String) -> (r: Option<String>)
        ensures
            (match r {
                Option::Some(v) => self.spec_lookup(key@) == Option::Some(v@),
                Option::None => self.spec_lookup(key@) is None,
            }),
    {
        proof {
            assert(self.pairs@.skip(0) =~= self.pairs@);
        }
        self.lookup_from(key, 0)
    }
}

/// Index of the first `}` at or after `from`, or -1 when none follows.
pub open spec fn find_close(text: Seq<char>, from: int) -> int
    decreases text.len() - from,
{
    if from < 0 || from >= text.len() {
        -1
    } else if text[from] == '}' {
        from
    } else {
        find_close(text, from + 1)
    }
}

pub proof fn lemma_find_close(text: Seq<char>, from: int)
    requires
        0 <= from <= text.len(),
    ensures
        ({
            let c = find_close(text, from);
            if c >= 0 {
                &&& from <= c < text.len()
                &&& text[c] == '}'
                &&& forall|j: int| from <= j < c ==> text[j] != '}'
            } else {
                forall|j: int| from <= j < text.len() ==> text[j] != '}'
            }
        }),
    decreases text.len() - from,
{
    if from < text.len() && text[from] != '}' {
        lemma_find_close(text, from + 1);
    }
}

/// A complete placeholder `${name}` begins at position `i`.
pub open spec fn placeholder_at(text: Seq<char>, i: int) -> bool {
    &&& 0 <= i
    &&& i + 1 < text.len()
    &&& text[i] == '$'
    &&& text[i + 1] == '{'
    &&& find_close(text, i + 2) >= 0
}

/// The resolved form of `text` from position `i` on: literal characters are
/// kept, each complete placeholder is replaced by the value its name is
/// bound to, and an unbound name is the error. Text after a substituted
/// placeholder is scanned, the substituted value itself is not.
pub open spec fn decorate_from(
    text: Seq<char>,
    i: int,
    pairs: Seq<(String, String)>,
) -> Result<Seq<char>, Seq<char>>
    decreases text.len() - i,
    via decorate_from_dec
{
    if i < 0 || i >= text.len() {
        Ok(Seq::<char>::empty())
    } else if placeholder_at(text, i) {
        let close = find_close(text, i + 2);
        let key = text.subrange(i + 2, close);
        match lookup_spec(pairs, key) {
            Option::None => Err(key),
            Option::Some(v) => match decorate_from(text, close + 1, pairs) {
                Ok(rest) => Ok(v + rest),
                Err(k) => Err(k),
            },
        }
    } else {
        match decorate_from(text, i + 1, pairs) {
            Ok(rest) => Ok(seq![text[i]] + rest),
            Err(k) => Err(k),
        }
    }
}

#[via_fn]
proof fn decorate_from_dec(text: Seq<char>, i: int, pairs: Seq<(String, String)>) {
    if 0 <= i < text.len() && placeholder_at(text, i) {
        lemma_find_close(text, i + 2);
    }
}

/// The resolved form of whole `text`, or the first unbound placeholder name.
pub open spec fn decorate_text(
    text: Seq<char>,
    pairs: Seq<(String, String)>,
) -> Result<Seq<char>, Seq<char>> {
    decorate_from(text, 0, pairs)
}

fn find_close_exec(text: &str, from: usize) -> (r: Option<usize>)
    requires
        from <= text@.len(),
    ensures
        (match r {
            Option::Some(u) => find_close(text@, from as int) == u,
            Option::None => find_close(text@, from as int) == -1,
        }),
    decreases text@.len() - from,
{
    let n = text.unicode_len();
    if from >= n {
        Option::None
    } else if text.get_char(from) == '}' {
        Option::Some(from)
    } else {
        find_close_exec(text, from + 1)
    }
}

fn decorate_exec_from(text: &str, i: usize, ctx: &Context) -> (r: Result<String, String>)
    requires
        i <= text@.len(),
    ensures
        (match r {
            Ok(s) => decorate_from(text@, i as int, ctx.pairs@)
                == Ok::<Seq<char>, Seq<char>>(s@),
            Err(k) => decorate_from(text@, i as int, ctx.pairs@)
                == Err::<Seq<char>, Seq<char>>(k@),
        }),
    decreases text@.len() - i,
{
    let n = text.unicode_len();
    if i >= n {
        return Ok(String::new());
    }
    let mut close_opt: Option<usize> = Option::None;
    if i + 1 < n && text.get_char(i) == '$' && text.get_char(i + 1) == '{' {
        close_opt = find_close_exec(text, i + 2);
    }
    match close_opt {
        Option::Some(close) => {
            proof {
                lemma_find_close(text@, i as int + 2);
                assert(placeholder_at(text@, i as int));
            }
            let key = text.substring_char(i + 2, close);
            let key_string = key.to_owned();
            match ctx.lookup(&key_string) {
                Option::Some(v) => {
                    match decorate_exec_from(text, close + 1, ctx) {
                        Ok(rest) => {
                            let mut out = v;
                            out.append(rest.as_str());
                            Ok(out)
                        },
                        Err(k) => Err(k),
                    }
                },
                Option::None => Err(key_string),
            }
        },
        Option::None => {
            proof {
                assert(!placeholder_at(text@, i as int));
            }
            let piece = text.substring_char(i, i + 1);
            match decorate_exec_from(text, i + 1, ctx) {
                Ok(rest) => {
                    let mut out = piece.to_owned();
                    out.append(rest.as_str());
                    proof {
                        assert(seq![text@[i as int]] + rest@ =~= out@);
                    }
                    Ok(out)
                },
                Err(k) => Err(k),
            }
        },
    }
}

/// Resolves every `${name}` placeholder in `text` against `ctx`, in one
/// left-to-right pass; fails with the first name that `ctx` does not define.
pub fn decorate(text: &str, ctx: &Context) -> (r: Result<String, TemplateError>)
    ensures
        (match r {
            Ok(s) => decorate_text(text@, ctx.pairs@) == Ok::<Seq<char>, Seq<char>>(s@),
            Err(e) => match e {
                TemplateError::UndefinedVariable(k) => decorate_text(text@, ctx.pairs@)
                    == Err::<Seq<char>, Seq<char>>(k@),
            },
        }),
{
    match decorate_exec_from(text, 0, ctx) {
        Ok(s) => Ok(s),
        Err(k) => Err(TemplateError::UndefinedVariable(k)),
    }
}

/// No position of `text` starts placeholder syntax.
pub open spec fn placeholder_free(text: Seq<char>) -> bool {
    forall|i: int|
        0 <= i < text.len() - 1 ==> !((#[trigger] text[i]) == '$' && text[i + 1] == '{')
}

proof fn lemma_decorate_from_placeholder_free(
    text: Seq<char>,
    i: int,
    pairs: Seq<(String, String)>,
)
    requires
        0 <= i <= text.len(),
        placeholder_free(text),
    ensures
        decorate_from(text, i, pairs) == Ok::<Seq<char>, Seq<char>>(text.skip(i)),
    decreases text.len() - i,
{
    if i >= text.len() {
        assert(text.skip(i) =~= Seq::<char>::empty());
    } else {
        assert(!placeholder_at(text, i));
        lemma_decorate_from_placeholder_free(text, i + 1, pairs);
        assert(seq![text[i]] + text.skip(i + 1) =~= text.skip(i));
    }
}

/// Substitution is the identity on text that contains no placeholder
/// syntax, whatever the context holds.
pub proof fn lemma_decorate_placeholder_free(text: Seq<char>, pairs: Seq<(String, String)>)
    requires
        placeholder_free(text),
    ensures
        decorate_text(text, pairs) == Ok::<Seq<char>, Seq<char>>(text),
{
    lemma_decorate_from_placeholder_free(text, 0, pairs);
    assert(text.skip(0) =~= text);
}

} // verus!
