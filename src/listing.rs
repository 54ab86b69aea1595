//! The table that lists the plugins of an index and whether each is
//! installed.
use vstd::prelude::*;

use crate::plugin::listed;
use crate::text::{chars_of, push_all, string_of};

verus! {

/// A plugin of the index, as the listing shows it.
#[derive(Debug, Clone)]
pub struct ListedPlugin {
    pub name: String,
    pub version: Option<String>,
    /// The repository the plugin comes from.
    pub repo: Option<String>,
}

/// `n` spaces.
pub open spec fn spaces(n: nat) -> Seq<char>
    decreases n,
{
    if n == 0 {
        Seq::empty()
    } else {
        spaces((n - 1) as nat).push(' ')
    }
}

/// `s` padded with spaces on the right to at least `w` characters.
pub open spec fn pad_right(s: Seq<char>, w: nat) -> Seq<char> {
    if s.len() >= w {
        s
    } else {
        s + spaces((w - s.len()) as nat)
    }
}

/// One line of the table: name, version and installed mark in columns of
/// 20, 10 and 10 characters, then the URL, separated by single spaces.
pub open spec fn row_text(
    name: Seq<char>,
    version: Seq<char>,
    mark: Seq<char>,
    url: Seq<char>,
) -> Seq<char> {
    pad_right(name, 20) + seq![' '] + pad_right(version, 10) + seq![' '] + pad_right(mark, 10)
        + seq![' '] + url
}

/// `o`'s text, or `default` where there is none.
pub open spec fn or_default(o: Option<String>, default: Seq<char>) -> Seq<char> {
    match o {
        Some(s) => s@,
        None => default,
    }
}

/// The mark of an installed plugin, or of one that is not.
pub open spec fn installed_mark(installed: bool) -> Seq<char> {
    if installed {
        "✅"@
    } else {
        "❌"@
    }
}

/// The line of `p`, where `installed` lists the names of the installed
/// plugins.
pub open spec fn plugin_line(p: ListedPlugin, installed: Seq<String>) -> Seq<char> {
    row_text(
        p.name@,
        or_default(p.version, "unknown"@),
        installed_mark(listed(installed, p.name@)),
        or_default(p.repo, "N/A"@),
    )
}

/// Appends `s` padded with spaces to `w` characters.
fn push_padded(out: &mut Vec<char>, s: &str, w: usize)
    ensures
        final(out)@ == old(out)@ + pad_right(s@, w as nat),
{
    let v = chars_of(s);
    push_all(out, &v);
    let mut k = v.len();
    assert(out@ =~= old(out)@ + v@ + spaces(0));
    while k < w
        invariant
            v@ == s@,
            k >= v@.len(),
            k <= w || k == v@.len(),
            out@ == old(out)@ + v@ + spaces((k - v@.len()) as nat),
        decreases w - k,
    {
        let ghost before = out@;
        out.push(' ');
        k += 1;
        assert(spaces((k - v@.len()) as nat) == spaces((k - 1 - v@.len()) as nat).push(' '));
        assert(out@ =~= old(out)@ + v@ + spaces((k - v@.len()) as nat));
    }
    if v.len() >= w {
        assert(out@ =~= old(out)@ + pad_right(s@, w as nat));
    } else {
        assert(out@ =~= old(out)@ + pad_right(s@, w as nat));
    }
}

/// One line of the table.
pub fn row(name: &str, version: &str, mark: &str, url: &str) -> (r: String)
    ensures
        r@ == row_text(name@, version@, mark@, url@),
{
    let mut out: Vec<char> = Vec::new();
    push_padded(&mut out, name, 20);
    out.push(' ');
    push_padded(&mut out, version, 10);
    out.push(' ');
    push_padded(&mut out, mark, 10);
    out.push(' ');
    let u = chars_of(url);
    push_all(&mut out, &u);
    assert(out@ =~= row_text(name@, version@, mark@, url@));
    string_of(&out)
}

/// Whether `name` is among `names`.
fn contains_name(names: &Vec<String>, name: &String) -> (r: bool)
    ensures
        r == listed(names@, name@),
{
    let mut j: usize = 0;
    while j < names.len()
        invariant
            j <= names@.len(),
            forall|k: int| 0 <= k < j ==> names@[k]@ != name@,
        decreases names@.len() - j,
    {
        if names[j] == *name {
            return true;
        }
        j += 1;
    }
    false
}

/// The line of one plugin.
pub fn plugin_row(p: &ListedPlugin, installed: &Vec<String>) -> (r: String)
    ensures
        r@ == plugin_line(*p, installed@),
{
    let version = match &p.version {
        Some(v) => v.as_str(),
        None => "unknown",
    };
    let url = match &p.repo {
        Some(u) => u.as_str(),
        None => "N/A",
    };
    let mark = if contains_name(installed, &p.name) {
        "✅"
    } else {
        "❌"
    };
    row(p.name.as_str(), version, mark, url)
}

/// The table: a heading line, a rule, and one line per plugin in the
/// index's order; `installed` lists the names of the installed plugins.
pub fn plugin_table(plugins: &Vec<ListedPlugin>, installed: &Vec<String>) -> (r: Vec<String>)
    ensures
        r@.len() == plugins@.len() + 2,
        r@[0]@ == row_text("Name"@, "Version"@, "Installed"@, "URL"@),
        r@[1]@ == row_text(
            "--------------------"@,
            "----------"@,
            "----------"@,
            "--------------------"@,
        ),
        forall|i: int| 0 <= i < plugins@.len() ==> r@[i + 2]@ == plugin_line(plugins@[i], installed@),
{
    let mut r: Vec<String> = Vec::new();
    r.push(row("Name", "Version", "Installed", "URL"));
    r.push(row("--------------------", "----------", "----------", "--------------------"));
    let mut i: usize = 0;
    while i < plugins.len()
        invariant
            i <= plugins@.len(),
            r@.len() == i + 2,
            r@[0]@ == row_text("Name"@, "Version"@, "Installed"@, "URL"@),
            r@[1]@ == row_text(
                "--------------------"@,
                "----------"@,
                "----------"@,
                "--------------------"@,
            ),
            forall|k: int| 0 <= k < i ==> r@[k + 2]@ == plugin_line(plugins@[k], installed@),
        decreases plugins@.len() - i,
    {
        r.push(plugin_row(&plugins[i], installed));
        i += 1;
    }
    r
}

} // verus!
