//! Plugin descriptors and the detection of a project's plugin.
use vstd::prelude::*;

use crate::error::ForgeError;

verus! {

/// The files whose joint presence under a project root identifies a plugin.
#[derive(Debug, Clone)]
pub struct PluginDetectRule {
    pub files: Vec<String>,
}

/// A project-type profile. The keys of `templates` and of `actions` are
/// unique (see [`PluginMetadata::wf`]).
#[derive(Debug, Clone)]
pub struct PluginMetadata {
    pub name: String,
    pub version: String,
    pub description: Option<String>,
    /// Template name to source: a repository URL or a local path.
    pub templates: Vec<(String, String)>,
    pub detect: Option<PluginDetectRule>,
    /// Action name to the shell commands it runs, in order.
    pub actions: Option<Vec<(String, Vec<String>)>>,
    /// The delegate that renders the files the built-in engines do not own.
    pub custom_renderer_command: Option<String>,
}

/// No two entries of `s` have the same key.
pub open spec fn keys_unique<T>(s: Seq<(String, T)>) -> bool {
    forall|i: int, j: int| 0 <= i < j < s.len() ==> s[i].0@ != s[j].0@
}

impl PluginMetadata {
    /// Template names and action names are unique.
    pub open spec fn wf(&self) -> bool {
        &&& keys_unique(self.templates@)
        &&& match self.actions {
            Some(a) => keys_unique(a@),
            None => true,
        }
    }
}

impl PluginMetadata {
    /// The descriptor written for a freshly installed plugin named `name`:
    /// version `0.1.0`, a stock description, and nothing else.
    pub fn installed_stub(name: &str) -> (r: PluginMetadata)
        ensures
            r.wf(),
            r.name@ == name@,
            r.version@ == "0.1.0"@,
            r.description matches Some(d) && d@ == "Sample installed plugin"@,
            r.templates@.len() == 0,
            r.detect is None,
            r.actions is None,
            r.custom_renderer_command is None,
    {
        PluginMetadata {
            name: name.to_owned(),
            version: "0.1.0".to_string(),
            description: Some("Sample installed plugin".to_string()),
            templates: Vec::new(),
            detect: None,
            actions: None,
            custom_renderer_command: None,
        }
    }
}

/// Whether the keys of `s` are unique.
fn unique_keys<T>(s: &Vec<(String, T)>) -> (r: bool)
    ensures
        r == keys_unique(s@),
{
    let n = s.len();
    let mut i: usize = 0;
    while i < n
        invariant
            n == s@.len(),
            i <= n,
            forall|a: int, b: int| 0 <= a < b < n && a < i ==> s@[a].0@ != s@[b].0@,
        decreases n - i,
    {
        let mut j: usize = i + 1;
        while j < n
            invariant
                n == s@.len(),
                i < n,
                i < j <= n,
                forall|a: int, b: int| 0 <= a < b < n && a < i ==> s@[a].0@ != s@[b].0@,
                forall|b: int| i < b < j ==> s@[i as int].0@ != s@[b].0@,
            decreases n - j,
        {
            if s[i].0 == s[j].0 {
                return false;
            }
            j += 1;
        }
        i += 1;
    }
    true
}

/// Accepts a descriptor whose template names and action names are unique;
/// otherwise it is invalid.
pub fn check_descriptor(plugin: &PluginMetadata) -> (r: Result<(), ForgeError>)
    ensures
        r is Ok <==> plugin.wf(),
        r matches Err(e) ==> e is InvalidDescriptor,
{
    if !unique_keys(&plugin.templates) {
        return Err(ForgeError::InvalidDescriptor("duplicate template name".to_string()));
    }
    match &plugin.actions {
        Some(a) => {
            if !unique_keys(a) {
                return Err(ForgeError::InvalidDescriptor("duplicate action name".to_string()));
            }
        },
        None => {},
    }
    Ok(())
}

/// One plugin of an index, as detection reads it.
#[derive(Debug, Clone)]
pub struct IndexEntry {
    pub name: String,
    /// The entry's `installed` flag; `Some(false)` also where it is not a
    /// boolean.
    pub installed: Option<bool>,
    /// The detection files the entry lists, where it lists any.
    pub files: Option<Vec<String>>,
    /// The entry read as a descriptor, where it reads as one.
    pub descriptor: Option<PluginMetadata>,
}

/// `s` is one of the strings of `list`.
pub open spec fn listed(list: Seq<String>, s: Seq<char>) -> bool {
    exists|j: int| 0 <= j < list.len() && list[j]@ == s
}

/// Every file of `files` is among `present`.
pub open spec fn all_listed(files: Seq<String>, present: Seq<String>) -> bool {
    forall|i: int| 0 <= i < files.len() ==> listed(present, #[trigger] files[i]@)
}

/// The entry identifies the project whose root holds the files `present`:
/// it is not marked as uninstalled, reads as a descriptor, lists its
/// detection files and all of them are present.
pub open spec fn matches_project(e: IndexEntry, present: Seq<String>) -> bool {
    &&& e.installed != Some(false)
    &&& e.descriptor is Some
    &&& match e.files {
        Some(f) => all_listed(f@, present),
        None => false,
    }
}

/// The plugin detected: the first entry, in the index's order, that matches
/// the project.
pub open spec fn detected(index: Seq<IndexEntry>, present: Seq<String>) -> Option<int> {
    if exists|i: int| 0 <= i < index.len() && matches_project(index[i], present) {
        Some(
            choose|i: int|
                0 <= i < index.len() && matches_project(index[i], present) && forall|j: int|
                    0 <= j < i ==> !matches_project(#[trigger] index[j], present),
        )
    } else {
        None
    }
}

/// Whether `s` is one of the strings of `list`.
fn is_listed(list: &Vec<String>, s: &String) -> (r: bool)
    ensures
        r == listed(list@, s@),
{
    let mut j: usize = 0;
    while j < list.len()
        invariant
            j <= list@.len(),
            forall|k: int| 0 <= k < j ==> list@[k]@ != s@,
        decreases list@.len() - j,
    {
        if list[j] == *s {
            return true;
        }
        j += 1;
    }
    false
}

/// Whether every file of `files` is among `present`.
fn all_present(files: &Vec<String>, present: &Vec<String>) -> (r: bool)
    ensures
        r == all_listed(files@, present@),
{
    let mut i: usize = 0;
    while i < files.len()
        invariant
            i <= files@.len(),
            forall|k: int| 0 <= k < i ==> listed(present@, #[trigger] files@[k]@),
        decreases files@.len() - i,
    {
        if !is_listed(present, &files[i]) {
            return false;
        }
        i += 1;
    }
    true
}

/// Whether `e` matches the project whose root holds `present`.
fn entry_matches(e: &IndexEntry, present: &Vec<String>) -> (r: bool)
    ensures
        r == matches_project(*e, present@),
{
    if e.installed == Some(false) || e.descriptor.is_none() {
        return false;
    }
    match &e.files {
        Some(f) => all_present(f, present),
        None => false,
    }
}

/// The position in `index` of the plugin of the project whose root holds
/// the files `present` (relative paths): the first entry that matches, so
/// that the answer does not depend on anything but the index's order.
pub fn detect_plugin(index: &Vec<IndexEntry>, present: &Vec<String>) -> (r: Option<usize>)
    ensures
        match r {
            Some(i) => detected(index@, present@) == Some(i as int),
            None => detected(index@, present@) is None,
        },
{
    let mut i: usize = 0;
    while i < index.len()
        invariant
            i <= index@.len(),
            forall|j: int| 0 <= j < i ==> !matches_project(#[trigger] index@[j], present@),
        decreases index@.len() - i,
    {
        if entry_matches(&index[i], present) {
            proof {
                lemma_first_match(index@, present@, i as int);
            }
            return Some(i);
        }
        i += 1;
    }
    None
}

/// The first matching entry is the one detected.
proof fn lemma_first_match(index: Seq<IndexEntry>, present: Seq<String>, i: int)
    requires
        0 <= i < index.len(),
        matches_project(index[i], present),
        forall|j: int| 0 <= j < i ==> !matches_project(#[trigger] index[j], present),
    ensures
        detected(index, present) == Some(i),
{
    let k = choose|k: int|
        0 <= k < index.len() && matches_project(index[k], present) && forall|j: int|
            0 <= j < k ==> !matches_project(#[trigger] index[j], present);
    if k < i {
        assert(!matches_project(index[k], present));
    }
    if i < k {
        assert(!matches_project(index[i], present));
    }
}

/// Of two plugins whose detection files are disjoint, where the project
/// matches only one, detection picks that one, whatever the order of the
/// index and however often it is asked.
pub proof fn lemma_detect_unique_match(
    index: Seq<IndexEntry>,
    present: Seq<String>,
    k: int,
)
    requires
        index.len() == 2,
        0 <= k < 2,
        index[0].files is Some,
        index[1].files is Some,
        forall|a: int, b: int|
            0 <= a < index[0].files.unwrap()@.len() && 0 <= b < index[1].files.unwrap()@.len()
                ==> index[0].files.unwrap()@[a]@ != index[1].files.unwrap()@[b]@,
        matches_project(index[k], present),
        !matches_project(index[1 - k], present),
    ensures
        detected(index, present) == Some(k),
{
    lemma_first_match(index, present, k);
}

} // verus!
