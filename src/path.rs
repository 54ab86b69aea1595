//! Paths as text: joining, the last component, its stem and its extension.
//! A path separator is `/`.
use vstd::prelude::*;

use crate::text::{chars_of, replace_all, replace_chars, string_of};

verus! {

/// The view of an optional string.
pub open spec fn opt_view(o: Option<String>) -> Option<Seq<char>> {
    match o {
        Some(s) => Some(s@),
        None => None,
    }
}

/// Position of the last `c` in `s`, or -1 where there is none.
pub open spec fn last_index(s: Seq<char>, c: char) -> int
    decreases s.len(),
{
    if s.len() == 0 {
        -1
    } else if s.last() == c {
        s.len() - 1
    } else {
        last_index(s.drop_last(), c)
    }
}

/// `p` without the separators at its end.
pub open spec fn trim_separators(p: Seq<char>) -> Seq<char>
    decreases p.len(),
{
    if p.len() > 0 && p.last() == '/' {
        trim_separators(p.drop_last())
    } else {
        p
    }
}

/// The last component of `p`: what follows the last separator once the
/// separators at the end are removed.
pub open spec fn file_name(p: Seq<char>) -> Seq<char> {
    let t = trim_separators(p);
    t.skip(last_index(t, '/') + 1)
}

/// The parent-directory component.
pub open spec fn is_parent_name(name: Seq<char>) -> bool {
    name == seq!['.', '.']
}

/// What follows the last dot of the file name, where that dot is not its
/// first character; none for `..`.
pub open spec fn extension_of(p: Seq<char>) -> Option<Seq<char>> {
    let name = file_name(p);
    let k = last_index(name, '.');
    if k <= 0 || is_parent_name(name) {
        None
    } else {
        Some(name.skip(k + 1))
    }
}

/// The file name without its extension; empty for `..`.
pub open spec fn stem_of(p: Seq<char>) -> Seq<char> {
    let name = file_name(p);
    let k = last_index(name, '.');
    if is_parent_name(name) {
        Seq::empty()
    } else if k <= 0 {
        name
    } else {
        name.take(k)
    }
}

/// `rel` placed under `base`, with one separator between them.
pub open spec fn join(base: Seq<char>, rel: Seq<char>) -> Seq<char> {
    if base.len() == 0 {
        rel
    } else if base.last() == '/' {
        base + rel
    } else {
        base + seq!['/'] + rel
    }
}

/// The name given to a template fetched from `url`: the stem of its last
/// component, with every `.git` taken out.
pub open spec fn template_name_of(url: Seq<char>) -> Seq<char> {
    replace_all(stem_of(url), seq!['.', 'g', 'i', 't'], Seq::empty())
}

proof fn lemma_last_index_bounds(s: Seq<char>, c: char)
    ensures
        -1 <= last_index(s, c) < s.len(),
        last_index(s, c) >= 0 ==> s[last_index(s, c)] == c,
    decreases s.len(),
{
    if s.len() > 0 && s.last() != c {
        lemma_last_index_bounds(s.drop_last(), c);
    }
}

/// One more than the position of the last `c` among the first `end`
/// characters of `v`; 0 where there is none.
fn last_index_before(v: &Vec<char>, end: usize, c: char) -> (r: usize)
    requires
        end <= v@.len(),
    ensures
        r as int == last_index(v@.take(end as int), c) + 1,
        r <= end,
{
    proof {
        lemma_last_index_bounds(v@.take(end as int), c);
    }
    let mut j = end;
    while j > 0
        invariant
            j <= end <= v@.len(),
            last_index(v@.take(end as int), c) == last_index(v@.take(j as int), c),
        decreases j,
    {
        assert(v@.take(j as int).last() == v@[j - 1]);
        if v[j - 1] == c {
            return j;
        }
        assert(v@.take(j as int).drop_last() =~= v@.take(j - 1));
        j -= 1;
    }
    0
}

/// The characters of `v` from `from` up to `to`.
fn slice_of(v: &Vec<char>, from: usize, to: usize) -> (r: Vec<char>)
    requires
        from <= to <= v@.len(),
    ensures
        r@ == v@.subrange(from as int, to as int),
{
    let mut r: Vec<char> = Vec::new();
    let mut i = from;
    while i < to
        invariant
            from <= i <= to <= v@.len(),
            r@ == v@.subrange(from as int, i as int),
        decreases to - i,
    {
        r.push(v[i]);
        i += 1;
        assert(r@ =~= v@.subrange(from as int, i as int));
    }
    r
}

/// Bounds of the last component of `v`: `(start, end)`, with
/// `file_name(v@) == v@.subrange(start, end)`.
fn file_name_bounds(v: &Vec<char>) -> (r: (usize, usize))
    ensures
        r.0 <= r.1 <= v@.len(),
        v@.subrange(r.0 as int, r.1 as int) == file_name(v@),
{
    let mut end = v.len();
    assert(v@.take(end as int) =~= v@);
    while end > 0 && v[end - 1] == '/'
        invariant
            end <= v@.len(),
            trim_separators(v@) == trim_separators(v@.take(end as int)),
        decreases end,
    {
        assert(v@.take(end as int).drop_last() =~= v@.take(end - 1));
        end -= 1;
    }
    let ghost t = v@.take(end as int);
    assert(trim_separators(t) == t);
    let start = last_index_before(v, end, '/');
    assert(t.skip(start as int) =~= v@.subrange(start as int, end as int));
    (start, end)
}

/// The last component of `path`.
pub fn file_name_chars(path: &Vec<char>) -> (r: Vec<char>)
    ensures
        r@ == file_name(path@),
{
    let (start, end) = file_name_bounds(path);
    slice_of(path, start, end)
}

/// Whether `name` is `..`.
fn is_parent(name: &Vec<char>) -> (r: bool)
    ensures
        r == is_parent_name(name@),
{
    if name.len() == 2 && name[0] == '.' && name[1] == '.' {
        assert(name@ =~= seq!['.', '.']);
        true
    } else {
        false
    }
}

/// The extension of `path`, as [`extension_of`] states it.
pub fn file_extension(path: &str) -> (r: Option<String>)
    ensures
        opt_view(r) == extension_of(path@),
{
    let v = chars_of(path);
    let name = file_name_chars(&v);
    let k = last_index_before(&name, name.len(), '.');
    assert(name@.take(name@.len() as int) =~= name@);
    if k <= 1 || is_parent(&name) {
        None
    } else {
        let ext = slice_of(&name, k, name.len());
        assert(ext@ =~= name@.skip(k as int));
        Some(string_of(&ext))
    }
}

/// `rel` placed under `base`, as [`join`] states it.
pub fn join_path(base: &str, rel: &str) -> (r: String)
    ensures
        r@ == join(base@, rel@),
{
    let b = chars_of(base);
    let mut s = base.to_owned();
    if b.len() == 0 {
        return rel.to_owned();
    }
    if b[b.len() - 1] != '/' {
        s.append("/");
        proof {
            reveal_strlit("/");
        }
        s.append(rel);
        assert(s@ =~= base@ + seq!['/'] + rel@);
    } else {
        s.append(rel);
    }
    s
}

/// The name given to a template fetched from `url`.
pub fn infer_template_name(url: &str) -> (r: String)
    ensures
        r@ == template_name_of(url@),
{
    let v = chars_of(url);
    let name = file_name_chars(&v);
    let k = last_index_before(&name, name.len(), '.');
    assert(name@.take(name@.len() as int) =~= name@);
    let stem = if is_parent(&name) {
        Vec::new()
    } else if k <= 1 {
        name
    } else {
        slice_of(&name, 0, k - 1)
    };
    assert(stem@ =~= stem_of(url@));
    let pat = vec!['.', 'g', 'i', 't'];
    let nothing: Vec<char> = Vec::new();
    assert(pat@ =~= seq!['.', 'g', 'i', 't']);
    assert(nothing@ =~= Seq::<char>::empty());
    let r = replace_chars(&stem, &pat, &nothing);
    string_of(&r)
}

} // verus!
