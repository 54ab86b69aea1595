//! The built-in substitution engine: each `{{key}}` of a text becomes the
//! text of the key's value. No escaping, nesting or conditionals.
use vstd::prelude::*;

use crate::text::{chars_of, occurs_at, occurs_in, replace_all, replace_chars, string_of};

verus! {

/// The token `{{key}}`.
pub open spec fn placeholder(key: Seq<char>) -> Seq<char> {
    seq!['{', '{'] + key + seq!['}', '}']
}

/// The text after replacing, for each variable in order, every occurrence of
/// its placeholder by its value.
pub open spec fn substitute_all(text: Seq<char>, vars: Seq<(String, String)>) -> Seq<char>
    decreases vars.len(),
{
    if vars.len() == 0 {
        text
    } else {
        substitute_all(replace_all(text, placeholder(vars[0].0@), vars[0].1@), vars.skip(1))
    }
}

/// No placeholder of any variable occurs in `text`.
pub open spec fn free_of_placeholders(text: Seq<char>, vars: Seq<(String, String)>) -> bool {
    forall|i: int| 0 <= i < vars.len() ==> !occurs_in(text, #[trigger] placeholder(vars[i].0@))
}

/// The placeholder of `key`, as characters.
fn placeholder_chars(key: &String) -> (r: Vec<char>)
    ensures
        r@ == placeholder(key@),
{
    let mut r: Vec<char> = vec!['{', '{'];
    let k = chars_of(key.as_str());
    let mut i: usize = 0;
    while i < k.len()
        invariant
            i <= k@.len(),
            r@ == seq!['{', '{'] + k@.take(i as int),
        decreases k@.len() - i,
    {
        r.push(k[i]);
        i += 1;
        assert(r@ =~= seq!['{', '{'] + k@.take(i as int));
    }
    r.push('}');
    r.push('}');
    assert(r@ =~= placeholder(key@));
    r
}

/// Renders `content` with the built-in engine: for each variable in order,
/// every occurrence of `{{key}}` becomes the value's text. Placeholders of
/// keys that are not given stay as they are.
pub fn substitute_variables(content: &str, variables: &Vec<(String, String)>) -> (r: String)
    ensures
        r@ == substitute_all(content@, variables@),
{
    let mut cur = chars_of(content);
    let mut k: usize = 0;
    assert(variables@.skip(0) =~= variables@);
    while k < variables.len()
        invariant
            k <= variables@.len(),
            substitute_all(cur@, variables@.skip(k as int)) == substitute_all(
                content@,
                variables@,
            ),
        decreases variables@.len() - k,
    {
        let pat = placeholder_chars(&variables[k].0);
        let rep = chars_of(variables[k].1.as_str());
        cur = replace_chars(&cur, &pat, &rep);
        assert(variables@.skip(k as int).skip(1) =~= variables@.skip(k + 1));
        k += 1;
    }
    string_of(&cur)
}

/// Text in which a pattern does not occur is left as it is by replacing it.
pub proof fn lemma_replace_absent(s: Seq<char>, pat: Seq<char>, rep: Seq<char>)
    requires
        !occurs_in(s, pat),
    ensures
        replace_all(s, pat, rep) == s,
    decreases s.len(),
{
    if pat.len() == 0 || s.len() < pat.len() {
    } else {
        if s.take(pat.len() as int) == pat {
            assert(s.subrange(0, pat.len() as int) =~= s.take(pat.len() as int));
            assert(occurs_at(s, pat, 0));
        } else {
            let t = s.skip(1);
            assert forall|i: int| !occurs_at(t, pat, i) by {
                if occurs_at(t, pat, i) {
                    assert(t.subrange(i, i + pat.len()) =~= s.subrange(i + 1, i + 1 + pat.len()));
                    assert(occurs_at(s, pat, i + 1));
                }
            }
            lemma_replace_absent(t, pat, rep);
            assert(seq![s[0]] + t =~= s);
        }
    }
}

/// Every occurrence is replaced: an occurrence of `pat` preceded by text
/// without the pattern's first character becomes `rep`, and what follows it
/// is replaced in turn.
pub proof fn lemma_replace_occurrence(a: Seq<char>, b: Seq<char>, pat: Seq<char>, rep: Seq<char>)
    requires
        pat.len() > 0,
        forall|i: int| 0 <= i < a.len() ==> a[i] != pat[0],
    ensures
        replace_all(a + pat + b, pat, rep) == a + rep + replace_all(b, pat, rep),
    decreases a.len(),
{
    let s = a + pat + b;
    if a.len() == 0 {
        assert(s =~= pat + b);
        assert(s.take(pat.len() as int) =~= pat);
        assert(s.skip(pat.len() as int) =~= b);
        assert(a + rep =~= rep);
    } else {
        assert(s[0] == a[0]);
        assert(s.take(pat.len() as int)[0] != pat[0]);
        assert(s.skip(1) =~= a.skip(1) + pat + b);
        lemma_replace_occurrence(a.skip(1), b, pat, rep);
        assert(seq![a[0]] + (a.skip(1) + rep + replace_all(b, pat, rep)) =~= a + rep
            + replace_all(b, pat, rep));
    }
}

/// Substitution leaves a text without placeholders of the given keys as it
/// is; placeholders of other keys stay untouched.
pub proof fn lemma_substitute_free_text(text: Seq<char>, vars: Seq<(String, String)>)
    requires
        free_of_placeholders(text, vars),
    ensures
        substitute_all(text, vars) == text,
    decreases vars.len(),
{
    if vars.len() > 0 {
        assert(!occurs_in(text, placeholder(vars[0].0@)));
        lemma_replace_absent(text, placeholder(vars[0].0@), vars[0].1@);
        assert forall|i: int| 0 <= i < vars.skip(1).len() implies !occurs_in(
            text,
            #[trigger] placeholder(vars.skip(1)[i].0@),
        ) by {
            assert(vars.skip(1)[i] == vars[i + 1]);
            assert(!occurs_in(text, placeholder(vars[i + 1].0@)));
        }
        lemma_substitute_free_text(text, vars.skip(1));
    }
}

/// On a text without placeholders, rendering twice with the same variables
/// gives the same output as rendering once.
pub proof fn lemma_substitute_idempotent(text: Seq<char>, vars: Seq<(String, String)>)
    requires
        free_of_placeholders(text, vars),
    ensures
        substitute_all(substitute_all(text, vars), vars) == substitute_all(text, vars),
{
    lemma_substitute_free_text(text, vars);
}

/// With one variable, a placeholder preceded by text without `{` becomes
/// the value, and the rest of the text is rendered in turn.
pub proof fn lemma_substitute_occurrence(
    a: Seq<char>,
    b: Seq<char>,
    vars: Seq<(String, String)>,
)
    requires
        vars.len() == 1,
        forall|i: int| 0 <= i < a.len() ==> a[i] != '{',
    ensures
        substitute_all(a + placeholder(vars[0].0@) + b, vars) == a + vars[0].1@ + substitute_all(
            b,
            vars,
        ),
{
    let pat = placeholder(vars[0].0@);
    let rep = vars[0].1@;
    assert(pat[0] == '{');
    lemma_replace_occurrence(a, b, pat, rep);
    let rest = vars.skip(1);
    assert(rest.len() == 0);
    assert(substitute_all(replace_all(a + pat + b, pat, rep), rest) == replace_all(
        a + pat + b,
        pat,
        rep,
    ));
    assert(substitute_all(replace_all(b, pat, rep), rest) == replace_all(b, pat, rep));
}

/// A variable's value, as the substitution engine sees it.
#[derive(Debug, Clone)]
pub enum VarValue {
    /// A string value: substituted as it stands, without quotes.
    Str(String),
    /// Any other value (number, boolean, null, sequence or mapping), held as
    /// its JSON text: substituted as that text.
    Json(String),
}

/// The text a value's placeholder is replaced by.
pub open spec fn value_text(v: VarValue) -> Seq<char> {
    match v {
        VarValue::Str(s) => s@,
        VarValue::Json(j) => j@,
    }
}

/// Each variable's key with the text of its value, in order.
pub fn variable_texts(variables: &Vec<(String, VarValue)>) -> (r: Vec<(String, String)>)
    ensures
        r@.len() == variables@.len(),
        forall|i: int|
            0 <= i < r@.len() ==> (#[trigger] r@[i]).0@ == variables@[i].0@ && r@[i].1@
                == value_text(variables@[i].1),
{
    let mut r: Vec<(String, String)> = Vec::new();
    let mut i: usize = 0;
    while i < variables.len()
        invariant
            i <= variables@.len(),
            r@.len() == i,
            forall|k: int|
                0 <= k < i ==> (#[trigger] r@[k]).0@ == variables@[k].0@ && r@[k].1@ == value_text(
                    variables@[k].1,
                ),
        decreases variables@.len() - i,
    {
        let text = match &variables[i].1 {
            VarValue::Str(s) => s.clone(),
            VarValue::Json(j) => j.clone(),
        };
        r.push((variables[i].0.clone(), text));
        i += 1;
    }
    r
}

/// Neither brace occurs in `s`.
pub open spec fn brace_free(s: Seq<char>) -> bool {
    forall|i: int| 0 <= i < s.len() ==> s[i] != '{' && s[i] != '}'
}

/// A piece of a template: `(true, key)` stands for the placeholder of `key`,
/// `(false, text)` for literal text.
pub open spec fn piece_text(p: (bool, Seq<char>)) -> Seq<char> {
    if p.0 {
        placeholder(p.1)
    } else {
        p.1
    }
}

/// The text made of `pieces`, in order.
pub open spec fn join_pieces(pieces: Seq<(bool, Seq<char>)>) -> Seq<char>
    decreases pieces.len(),
{
    if pieces.len() == 0 {
        Seq::empty()
    } else {
        piece_text(pieces[0]) + join_pieces(pieces.skip(1))
    }
}

/// Some variable has the key `k`.
pub open spec fn has_key(vars: Seq<(String, String)>, k: Seq<char>) -> bool
    decreases vars.len(),
{
    if vars.len() == 0 {
        false
    } else {
        vars[0].0@ == k || has_key(vars.skip(1), k)
    }
}

/// The value of the first variable with the key `k`.
pub open spec fn lookup(vars: Seq<(String, String)>, k: Seq<char>) -> Seq<char>
    decreases vars.len(),
{
    if vars.len() == 0 {
        Seq::empty()
    } else if vars[0].0@ == k {
        vars[0].1@
    } else {
        lookup(vars.skip(1), k)
    }
}

/// The pieces once every placeholder of a given key is its value; the
/// other placeholders and all literal text stay.
pub open spec fn resolve_pieces(
    pieces: Seq<(bool, Seq<char>)>,
    vars: Seq<(String, String)>,
) -> Seq<(bool, Seq<char>)> {
    Seq::new(
        pieces.len(),
        |i: int|
            if pieces[i].0 && has_key(vars, pieces[i].1) {
                (false, lookup(vars, pieces[i].1))
            } else {
                pieces[i]
            },
    )
}

/// The pieces with every placeholder of `k` made the literal text `v`.
pub open spec fn fill_key(pieces: Seq<(bool, Seq<char>)>, k: Seq<char>, v: Seq<char>) -> Seq<
    (bool, Seq<char>),
> {
    Seq::new(
        pieces.len(),
        |i: int|
            if pieces[i].0 && pieces[i].1 == k {
                (false, v)
            } else {
                pieces[i]
            },
    )
}

/// Where no occurrence of `pat` starts within `a`, replacing in `a + b`
/// keeps `a` and replaces in `b`.
proof fn lemma_replace_after_prefix(a: Seq<char>, b: Seq<char>, pat: Seq<char>, rep: Seq<char>)
    requires
        pat.len() > 0,
        forall|i: int| 0 <= i < a.len() ==> !occurs_at(a + b, pat, i),
    ensures
        replace_all(a + b, pat, rep) == a + replace_all(b, pat, rep),
    decreases a.len(),
{
    let s = a + b;
    if a.len() == 0 {
        assert(s =~= b);
        assert(a + replace_all(b, pat, rep) =~= replace_all(b, pat, rep));
    } else if s.len() < pat.len() {
        assert(replace_all(b, pat, rep) == b);
    } else {
        assert(!occurs_at(s, pat, 0));
        assert(s.subrange(0, pat.len() as int) =~= s.take(pat.len() as int));
        let t = a.skip(1);
        assert(s.skip(1) =~= t + b);
        assert forall|i: int| 0 <= i < t.len() implies !occurs_at(t + b, pat, i) by {
            assert(!occurs_at(s, pat, i + 1));
            if occurs_at(t + b, pat, i) {
                assert((t + b).subrange(i, i + pat.len()) =~= s.subrange(i + 1, i + 1 + pat.len()));
            }
        }
        lemma_replace_after_prefix(t, b, pat, rep);
        assert(seq![a[0]] + (t + replace_all(b, pat, rep)) =~= a + replace_all(b, pat, rep));
    }
}

/// The placeholder of one brace-free key does not start anywhere within the
/// placeholder of another.
proof fn lemma_other_placeholder(k: Seq<char>, k2: Seq<char>, b: Seq<char>, i: int)
    requires
        brace_free(k),
        brace_free(k2),
        k != k2,
        0 <= i < placeholder(k2).len(),
    ensures
        !occurs_at(placeholder(k2) + b, placeholder(k), i),
{
    let s = placeholder(k2) + b;
    let pat = placeholder(k);
    let n = k.len() as int;
    let n2 = k2.len() as int;
    if occurs_at(s, pat, i) {
        assert(s.subrange(i, i + pat.len())[0] == pat[0]);
        assert(s.subrange(i, i + pat.len())[1] == pat[1]);
        if i == 0 {
            if n < n2 {
                assert(s.subrange(0, pat.len() as int)[2 + n] == pat[2 + n]);
                assert(pat[2 + n] == '}');
                assert(s[2 + n] == k2[n]);
            } else if n > n2 {
                assert(s.subrange(0, pat.len() as int)[2 + n2] == pat[2 + n2]);
                assert(s[2 + n2] == '}');
                assert(pat[2 + n2] == k[n2]);
            } else {
                assert forall|j: int| 0 <= j < n implies k[j] == k2[j] by {
                    assert(s.subrange(0, pat.len() as int)[2 + j] == pat[2 + j]);
                    assert(s[2 + j] == k2[j]);
                    assert(pat[2 + j] == k[j]);
                }
                assert(k =~= k2);
            }
        } else if i == 1 {
            assert(s[i + 1] == pat[1]);
            if n2 > 0 {
                assert(s[2] == k2[0]);
            } else {
                assert(s[2] == '}');
            }
        } else {
            assert(s[i] == pat[0]);
            if i < 2 + n2 {
                assert(s[i] == k2[i - 2]);
            } else {
                assert(s[i] == '}');
            }
        }
    }
}

/// Replacing the placeholder of `k` by a brace-free value in text made of
/// brace-free pieces fills exactly the placeholders of `k`.
proof fn lemma_replace_pieces(pieces: Seq<(bool, Seq<char>)>, k: Seq<char>, v: Seq<char>)
    requires
        brace_free(k),
        forall|i: int| 0 <= i < pieces.len() ==> brace_free(#[trigger] pieces[i].1),
    ensures
        replace_all(join_pieces(pieces), placeholder(k), v) == join_pieces(fill_key(pieces, k, v)),
    decreases pieces.len(),
{
    let pat = placeholder(k);
    let filled = fill_key(pieces, k, v);
    if pieces.len() == 0 {
        assert(replace_all(Seq::<char>::empty(), pat, v) == Seq::<char>::empty());
    } else {
        let p = pieces[0];
        let rest = pieces.skip(1);
        let b = join_pieces(rest);
        assert(brace_free(p.1));
        assert forall|i: int| 0 <= i < rest.len() implies brace_free(#[trigger] rest[i].1) by {
            assert(rest[i] == pieces[i + 1]);
        }
        lemma_replace_pieces(rest, k, v);
        assert(fill_key(rest, k, v) =~= filled.skip(1));
        if p.0 && p.1 == k {
            lemma_replace_occurrence(Seq::empty(), b, pat, v);
            assert(Seq::<char>::empty() + pat + b =~= pat + b);
            assert(Seq::<char>::empty() + v + replace_all(b, pat, v) =~= v + replace_all(b, pat, v));
        } else if p.0 {
            assert forall|i: int| 0 <= i < placeholder(p.1).len() implies !occurs_at(
                placeholder(p.1) + b,
                pat,
                i,
            ) by {
                lemma_other_placeholder(k, p.1, b, i);
            }
            lemma_replace_after_prefix(placeholder(p.1), b, pat, v);
        } else {
            assert forall|i: int| 0 <= i < p.1.len() implies !occurs_at(p.1 + b, pat, i) by {
                if occurs_at(p.1 + b, pat, i) {
                    assert((p.1 + b).subrange(i, i + pat.len())[0] == pat[0]);
                    assert((p.1 + b)[i] == p.1[i]);
                }
            }
            lemma_replace_after_prefix(p.1, b, pat, v);
        }
    }
}

/// Substitution on a template made of literal text and placeholders, where
/// the texts, the keys in it, and the variables' keys and values hold no
/// brace: every
/// placeholder of a given key becomes the value of that key's first
/// variable; every other placeholder and all literal text stay as they are.
pub proof fn lemma_substitute_pieces(pieces: Seq<(bool, Seq<char>)>, vars: Seq<(String, String)>)
    requires
        forall|i: int| 0 <= i < pieces.len() ==> brace_free(#[trigger] pieces[i].1),
        forall|j: int|
            0 <= j < vars.len() ==> brace_free(#[trigger] vars[j].0@) && brace_free(vars[j].1@),
    ensures
        substitute_all(join_pieces(pieces), vars) == join_pieces(resolve_pieces(pieces, vars)),
    decreases vars.len(),
{
    if vars.len() == 0 {
        assert(resolve_pieces(pieces, vars) =~= pieces);
    } else {
        let k = vars[0].0@;
        let v = vars[0].1@;
        let rest = vars.skip(1);
        assert(brace_free(v));
        let filled = fill_key(pieces, k, v);
        assert(brace_free(k));
        lemma_replace_pieces(pieces, k, v);
        assert forall|i: int| 0 <= i < filled.len() implies brace_free(#[trigger] filled[i].1) by {
        }
        assert forall|j: int| 0 <= j < rest.len() implies brace_free(#[trigger] rest[j].0@)
            && brace_free(rest[j].1@) by {
            assert(rest[j] == vars[j + 1]);
        }
        lemma_substitute_pieces(filled, rest);
        assert(resolve_pieces(filled, rest) =~= resolve_pieces(pieces, vars));
    }
}

} // verus!
