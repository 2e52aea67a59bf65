use crate::resolution::{
    DirectoryResolution, GitResolution, LockfileResolution, RegistryResolution, ResolutionSerde,
    ResolutionView, TaggedResolution, TarballResolution,
};
use crate::text::{same_text, text_of};
use vstd::prelude::*;

verus! {

/// What an entry of a written resolution holds.
#[derive(Debug, Clone, PartialEq, Eq)]
pub enum EntryValue {
    /// Nothing: the entry is there without a value.
    Null,
    /// A text.
    Text(String),
    /// Anything else: a number, a list, a nested mapping.
    Other,
}

/// One entry of a written resolution: a key and what it holds.
#[derive(Debug, Clone, PartialEq, Eq)]
pub struct Entry {
    pub key: String,
    pub value: EntryValue,
}

/// Mathematical value of an [`EntryValue`].
pub enum EntryValueView {
    Null,
    Text(Seq<char>),
    Other,
}

/// Mathematical value of an [`Entry`].
pub struct EntryView {
    pub key: Seq<char>,
    pub value: EntryValueView,
}

impl View for EntryValue {
    type V = EntryValueView;

    open spec fn view(&self) -> EntryValueView {
        match self {
            EntryValue::Null => EntryValueView::Null,
            EntryValue::Text(text) => EntryValueView::Text(text@),
            EntryValue::Other => EntryValueView::Other,
        }
    }
}

impl View for Entry {
    type V = EntryView;

    open spec fn view(&self) -> EntryView {
        EntryView { key: self.key@, value: self.value@ }
    }
}

/// The views of a sequence of entries.
pub open spec fn entry_views(entries: Seq<Entry>) -> Seq<EntryView> {
    entries.map_values(|entry: Entry| entry@)
}

/// The keys that occur in some written resolution.
pub open spec fn is_known_key(key: Seq<char>) -> bool {
    key == "type"@ || key == "tarball"@ || key == "integrity"@ || key == "directory"@ || key
        == "repo"@ || key == "commit"@
}

/// Every key is known and none occurs twice.
pub open spec fn well_keyed(entries: Seq<EntryView>) -> bool {
    &&& forall|i: int| 0 <= i < entries.len() ==> is_known_key(#[trigger] entries[i].key)
    &&& forall|i: int, j: int|
        0 <= i < j < entries.len() ==> (#[trigger] entries[i]).key != (#[trigger] entries[j]).key
}

/// What the entries hold under `key`, if they have such an entry.
pub open spec fn value_of(entries: Seq<EntryView>, key: Seq<char>) -> Option<EntryValueView>
    decreases entries.len(),
{
    if entries.len() == 0 {
        None
    } else if entries.last().key == key {
        Some(entries.last().value)
    } else {
        value_of(entries.drop_last(), key)
    }
}

/// The text that is held, if a text is held.
pub open spec fn held_text(value: Option<EntryValueView>) -> Option<Seq<char>> {
    match value {
        Some(EntryValueView::Text(text)) => Some(text),
        _ => None,
    }
}

/// Whether nothing, or an entry without a value, is held.
pub open spec fn is_absent_or_null(value: Option<EntryValueView>) -> bool {
    value is None || value == Some(EntryValueView::Null)
}

/// The resolution that a set of entries denotes, if it denotes one.
///
/// A tarball resolution has a `tarball` text and may have an `integrity`
/// text; a registry resolution has an `integrity` text only; a directory
/// resolution has the `type` `directory` and a `directory` text; a git
/// resolution has the `type` `git`, a `repo` text and a `commit` text. The
/// order of the entries does not matter. Any further entry, a repeated key,
/// or a value that is no text, leaves the entries without meaning.
pub open spec fn denoted(entries: Seq<EntryView>) -> Option<ResolutionView> {
    let kind = value_of(entries, "type"@);
    let tarball = value_of(entries, "tarball"@);
    let integrity = value_of(entries, "integrity"@);
    let directory = value_of(entries, "directory"@);
    let repo = value_of(entries, "repo"@);
    let commit = value_of(entries, "commit"@);
    if !well_keyed(entries) {
        None
    } else if kind is None && directory is None && repo is None && commit is None {
        match (held_text(tarball), held_text(integrity)) {
            (Some(tarball), Some(integrity)) => Some(
                ResolutionView::Tarball { tarball, integrity: Some(integrity) },
            ),
            (Some(tarball), None) => if is_absent_or_null(integrity) {
                Some(ResolutionView::Tarball { tarball, integrity: None })
            } else {
                None
            },
            (None, Some(integrity)) => if tarball is None {
                Some(ResolutionView::Registry { integrity })
            } else {
                None
            },
            (None, None) => None,
        }
    } else if tarball is None && integrity is None {
        if kind == Some(EntryValueView::Text("directory"@)) && repo is None && commit is None {
            match held_text(directory) {
                Some(directory) => Some(ResolutionView::Directory { directory }),
                None => None,
            }
        } else if kind == Some(EntryValueView::Text("git"@)) && directory is None {
            match (held_text(repo), held_text(commit)) {
                (Some(repo), Some(commit)) => Some(ResolutionView::Git { repo, commit }),
                _ => None,
            }
        } else {
            None
        }
    } else {
        None
    }
}

/// An entry that holds a text.
pub open spec fn text_entry(key: Seq<char>, text: Seq<char>) -> EntryView {
    EntryView { key, value: EntryValueView::Text(text) }
}

/// The entries that a resolution is written as, in their order.
pub open spec fn written(resolution: ResolutionView) -> Seq<EntryView> {
    match resolution {
        ResolutionView::Tarball { tarball, integrity: None } => seq![
            text_entry("tarball"@, tarball),
        ],
        ResolutionView::Tarball { tarball, integrity: Some(integrity) } => seq![
            text_entry("tarball"@, tarball),
            text_entry("integrity"@, integrity),
        ],
        ResolutionView::Registry { integrity } => seq![text_entry("integrity"@, integrity)],
        ResolutionView::Directory { directory } => seq![
            text_entry("type"@, "directory"@),
            text_entry("directory"@, directory),
        ],
        ResolutionView::Git { repo, commit } => seq![
            text_entry("type"@, "git"@),
            text_entry("repo"@, repo),
            text_entry("commit"@, commit),
        ],
    }
}

/// The six keys are six different texts.
pub proof fn lemma_keys_differ()
    ensures
        "type"@ != "tarball"@,
        "type"@ != "integrity"@,
        "type"@ != "directory"@,
        "type"@ != "repo"@,
        "type"@ != "commit"@,
        "tarball"@ != "integrity"@,
        "tarball"@ != "directory"@,
        "tarball"@ != "repo"@,
        "tarball"@ != "commit"@,
        "integrity"@ != "directory"@,
        "integrity"@ != "repo"@,
        "integrity"@ != "commit"@,
        "directory"@ != "repo"@,
        "directory"@ != "commit"@,
        "repo"@ != "commit"@,
{
    reveal_strlit("type");
    reveal_strlit("tarball");
    reveal_strlit("integrity");
    reveal_strlit("directory");
    reveal_strlit("repo");
    reveal_strlit("commit");
    assert("directory"@[0] == 'd' && "repo"@[0] == 'r' && "commit"@[0] == 'c');
    assert("type"@.len() == 4 && "tarball"@.len() == 7);
}

/// Reading what a resolution is written as gives the resolution back, for
/// each of its kinds, with and without the optional integrity.
pub proof fn lemma_denoted_written(resolution: ResolutionView)
    ensures
        denoted(written(resolution)) == Some(resolution),
{
    lemma_keys_differ();
    reveal_with_fuel(value_of, 4);
    // by cases: each kind is written under keys of its own
    match resolution {
        ResolutionView::Tarball { integrity: None, .. } => {},
        ResolutionView::Tarball { integrity: Some(_), .. } => {},
        ResolutionView::Registry { .. } => {},
        ResolutionView::Directory { .. } => {},
        ResolutionView::Git { .. } => {},
    }
}

/// Whether `key` is one of the keys of a written resolution.
pub fn is_known(key: &String) -> (known: bool)
    ensures
        known == is_known_key(key@),
{
    same_text(key, "type") || same_text(key, "tarball") || same_text(key, "integrity")
        || same_text(key, "directory") || same_text(key, "repo") || same_text(key, "commit")
}

/// Whether every key of `entries` is known and none occurs twice.
pub fn is_well_keyed(entries: &Vec<Entry>) -> (ok: bool)
    ensures
        ok == well_keyed(entry_views(entries@)),
{
    let ghost views = entry_views(entries@);
    let mut i: usize = 0;
    while i < entries.len()
        invariant
            0 <= i <= entries@.len(),
            views == entry_views(entries@),
            forall|k: int| 0 <= k < i ==> is_known_key(#[trigger] views[k].key),
            forall|k: int, l: int|
                0 <= k < l < i ==> (#[trigger] views[k]).key != (#[trigger] views[l]).key,
        decreases entries@.len() - i,
    {
        if !is_known(&entries[i].key) {
            assert(!is_known_key(views[i as int].key));
            return false;
        }
        let mut j: usize = 0;
        while j < i
            invariant
                0 <= j <= i < entries@.len(),
                views == entry_views(entries@),
                forall|k: int| 0 <= k < j ==> (#[trigger] views[k]).key != views[i as int].key,
            decreases i - j,
        {
            if entries[j].key == entries[i].key {
                assert(views[j as int].key == views[i as int].key);
                return false;
            }
            j += 1;
        }
        i += 1;
    }
    true
}

/// The view of an optional borrowed value.
pub open spec fn value_view_of(value: Option<&EntryValue>) -> Option<EntryValueView> {
    match value {
        Some(value) => Some(value@),
        None => None,
    }
}

/// Looks up what `entries` hold under `key`.
pub fn lookup<'a>(entries: &'a Vec<Entry>, key: &str) -> (found: Option<&'a EntryValue>)
    ensures
        value_view_of(found) == value_of(entry_views(entries@), key@),
{
    let ghost views = entry_views(entries@);
    let wanted = key.to_owned();
    let mut found: Option<&'a EntryValue> = None;
    let mut i: usize = 0;
    while i < entries.len()
        invariant
            0 <= i <= entries@.len(),
            wanted@ == key@,
            views == entry_views(entries@),
            value_view_of(found) == value_of(views.take(i as int), key@),
        decreases entries@.len() - i,
    {
        assert(views.take(i + 1).drop_last() =~= views.take(i as int));
        if entries[i].key == wanted {
            found = Some(&entries[i].value);
        }
        i += 1;
    }
    assert(views.take(i as int) =~= views);
    found
}

/// The text that an entry holds, if it holds one.
fn text_in(value: Option<&EntryValue>) -> (text: Option<String>)
    ensures
        text_of(text) == held_text(value_view_of(value)),
{
    match value {
        Some(EntryValue::Text(text)) => Some(text.clone()),
        _ => None,
    }
}

impl ResolutionSerde {
    /// Reads a resolution from its entries; see [`denoted`].
    pub fn from_entries(entries: &Vec<Entry>) -> (read: Option<ResolutionSerde>)
        ensures
            read is Some <==> denoted(entry_views(entries@)) is Some,
            read matches Some(resolution) ==> denoted(entry_views(entries@)) == Some(resolution@),
    {
        if !is_well_keyed(entries) {
            return None;
        }
        let kind = lookup(entries, "type");
        let tarball = lookup(entries, "tarball");
        let integrity = lookup(entries, "integrity");
        let directory = lookup(entries, "directory");
        let repo = lookup(entries, "repo");
        let commit = lookup(entries, "commit");
        if kind.is_none() && directory.is_none() && repo.is_none() && commit.is_none() {
            match (text_in(tarball), integrity) {
                (Some(tarball), Some(EntryValue::Text(integrity))) => Some(
                    ResolutionSerde::Tarball(
                        TarballResolution { tarball, integrity: Some(integrity.clone()) },
                    ),
                ),
                (Some(tarball), None) | (Some(tarball), Some(EntryValue::Null)) => Some(
                    ResolutionSerde::Tarball(TarballResolution { tarball, integrity: None }),
                ),
                (Some(_), Some(EntryValue::Other)) => None,
                (None, _) => match (tarball, text_in(integrity)) {
                    (None, Some(integrity)) => Some(
                        ResolutionSerde::Registry(RegistryResolution { integrity }),
                    ),
                    _ => None,
                },
            }
        } else if tarball.is_none() && integrity.is_none() {
            match text_in(kind) {
                None => None,
                Some(tag) => {
                    if same_text(&tag, "directory") && repo.is_none() && commit.is_none() {
                        match text_in(directory) {
                            Some(directory) => Some(
                                ResolutionSerde::Tagged(
                                    TaggedResolution::Directory(DirectoryResolution { directory }),
                                ),
                            ),
                            None => None,
                        }
                    } else if same_text(&tag, "git") && directory.is_none() {
                        match (text_in(repo), text_in(commit)) {
                            (Some(repo), Some(commit)) => Some(
                                ResolutionSerde::Tagged(
                                    TaggedResolution::Git(GitResolution { repo, commit }),
                                ),
                            ),
                            _ => None,
                        }
                    } else {
                        None
                    }
                },
            }
        } else {
            None
        }
    }

    /// Writes the resolution as entries; see [`written`].
    pub fn to_entries(&self) -> (entries: Vec<Entry>)
        ensures
            entry_views(entries@) == written(self@),
    {
        match self {
            ResolutionSerde::Tarball(resolution) => tarball_entries(resolution),
            ResolutionSerde::Registry(resolution) => registry_entries(resolution),
            ResolutionSerde::Tagged(TaggedResolution::Directory(resolution)) => {
                directory_entries(resolution)
            },
            ResolutionSerde::Tagged(TaggedResolution::Git(resolution)) => git_entries(resolution),
        }
    }
}

/// Writes a tarball resolution as entries.
fn tarball_entries(resolution: &TarballResolution) -> (entries: Vec<Entry>)
    ensures
        entry_views(entries@) == written(resolution@),
{
    let mut entries: Vec<Entry> = Vec::new();
    entries.push(text_entry_of("tarball", &resolution.tarball));
    match &resolution.integrity {
        Some(integrity) => {
            entries.push(text_entry_of("integrity", integrity));
        },
        None => {},
    }
    entries
}

/// Writes a registry resolution as entries.
fn registry_entries(resolution: &RegistryResolution) -> (entries: Vec<Entry>)
    ensures
        entry_views(entries@) == written(resolution@),
{
    let mut entries: Vec<Entry> = Vec::new();
    entries.push(text_entry_of("integrity", &resolution.integrity));
    entries
}

/// Writes a directory resolution as entries.
fn directory_entries(resolution: &DirectoryResolution) -> (entries: Vec<Entry>)
    ensures
        entry_views(entries@) == written(resolution@),
{
    let mut entries: Vec<Entry> = Vec::new();
    entries.push(text_entry_of("type", &"directory".to_owned()));
    entries.push(text_entry_of("directory", &resolution.directory));
    entries
}

/// Writes a git resolution as entries.
fn git_entries(resolution: &GitResolution) -> (entries: Vec<Entry>)
    ensures
        entry_views(entries@) == written(resolution@),
{
    let mut entries: Vec<Entry> = Vec::new();
    entries.push(text_entry_of("type", &"git".to_owned()));
    entries.push(text_entry_of("repo", &resolution.repo));
    entries.push(text_entry_of("commit", &resolution.commit));
    entries
}

/// An entry that holds `text` under `key`.
fn text_entry_of(key: &str, text: &String) -> (entry: Entry)
    ensures
        entry@ == text_entry(key@, text@),
{
    Entry { key: key.to_owned(), value: EntryValue::Text(text.clone()) }
}

impl LockfileResolution {
    /// Reads a resolution from its entries; see [`denoted`].
    pub fn from_entries(entries: &Vec<Entry>) -> (read: Option<LockfileResolution>)
        ensures
            read is Some <==> denoted(entry_views(entries@)) is Some,
            read matches Some(resolution) ==> denoted(entry_views(entries@)) == Some(resolution@),
    {
        match ResolutionSerde::from_entries(entries) {
            Some(grouped) => Some(LockfileResolution::from(grouped)),
            None => None,
        }
    }

    /// Writes the resolution as entries; see [`written`].
    pub fn to_entries(&self) -> (entries: Vec<Entry>)
        ensures
            entry_views(entries@) == written(self@),
            denoted(entry_views(entries@)) == Some(self@),
    {
        let entries = match self {
            LockfileResolution::Tarball(resolution) => tarball_entries(resolution),
            LockfileResolution::Registry(resolution) => registry_entries(resolution),
            LockfileResolution::Directory(resolution) => directory_entries(resolution),
            LockfileResolution::Git(resolution) => git_entries(resolution),
        };
        proof {
            lemma_denoted_written(self@);
        }
        entries
    }
}

} // verus!
