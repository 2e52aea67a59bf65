use vstd::prelude::*;

verus! {

/// One file of an unpacked tarball: its name inside the package and the
/// place of its content in the store.
#[derive(Debug, Clone, PartialEq, Eq)]
pub struct IndexEntry {
    /// Path of the file inside the package, its leading directory removed.
    pub name: String,
    /// Absolute path of the blob in the store.
    pub cas_path: String,
}

/// Mathematical value of an [`IndexEntry`].
pub struct IndexEntryView {
    pub name: Seq<char>,
    pub cas_path: Seq<char>,
}

impl View for IndexEntry {
    type V = IndexEntryView;

    open spec fn view(&self) -> IndexEntryView {
        IndexEntryView { name: self.name@, cas_path: self.cas_path@ }
    }
}

/// The views of a sequence of index entries.
pub open spec fn index_entry_views(entries: Seq<IndexEntry>) -> Seq<IndexEntryView> {
    entries.map_values(|entry: IndexEntry| entry@)
}

/// No file name occurs twice.
pub open spec fn names_distinct(entries: Seq<IndexEntryView>) -> bool {
    forall|i: int, j: int|
        0 <= i < j < entries.len() ==> (#[trigger] entries[i]).name != (#[trigger] entries[j]).name
}

/// The position of the entry named `name`, or the number of entries if none has that name.
pub open spec fn position_of(entries: Seq<IndexEntryView>, name: Seq<char>) -> int
    decreases entries.len(),
{
    if entries.len() == 0 {
        0
    } else if entries[0].name == name {
        0
    } else {
        1 + position_of(entries.drop_first(), name)
    }
}

/// `position_of` gives the first entry with the name.
pub proof fn lemma_position_of(entries: Seq<IndexEntryView>, name: Seq<char>)
    ensures
        0 <= position_of(entries, name) <= entries.len(),
        position_of(entries, name) < entries.len() ==> entries[position_of(entries, name)].name
            == name,
        forall|i: int| 0 <= i < position_of(entries, name) ==> (#[trigger] entries[i]).name != name,
    decreases entries.len(),
{
    if entries.len() > 0 && entries[0].name != name {
        let rest = entries.drop_first();
        lemma_position_of(rest, name);
        assert forall|i: int| 0 <= i < position_of(entries, name) implies (#[trigger] entries[i]).name
            != name by {
            if i > 0 {
                assert(entries[i] == rest[i - 1]);
            }
        }
    }
}

/// A position whose entry has the name, with none before it that has, is the one `position_of` gives.
pub proof fn lemma_position_is(entries: Seq<IndexEntryView>, name: Seq<char>, at: int)
    requires
        0 <= at <= entries.len(),
        at < entries.len() ==> entries[at].name == name,
        forall|i: int| 0 <= i < at ==> (#[trigger] entries[i]).name != name,
    ensures
        position_of(entries, name) == at,
    decreases entries.len(),
{
    if entries.len() > 0 && at > 0 {
        let rest = entries.drop_first();
        lemma_position_is(rest, name, at - 1);
    }
}

/// The entries after `name` was recorded at `cas_path`: an entry of that name
/// gets the new path and keeps its place, otherwise a new entry comes last.
pub open spec fn recorded(
    entries: Seq<IndexEntryView>,
    name: Seq<char>,
    cas_path: Seq<char>,
) -> Seq<IndexEntryView> {
    let at = position_of(entries, name);
    if at < entries.len() {
        entries.update(at, IndexEntryView { name, cas_path })
    } else {
        entries.push(IndexEntryView { name, cas_path })
    }
}

/// The entries as a mapping from file name to store path.
pub open spec fn as_map(entries: Seq<IndexEntryView>) -> Map<Seq<char>, Seq<char>> {
    Map::new(
        |name: Seq<char>| position_of(entries, name) < entries.len(),
        |name: Seq<char>| entries[position_of(entries, name)].cas_path,
    )
}

/// Recording a file is an insertion into the mapping, and keeps distinct names distinct.
pub proof fn lemma_recorded(entries: Seq<IndexEntryView>, name: Seq<char>, cas_path: Seq<char>)
    ensures
        names_distinct(entries) ==> names_distinct(recorded(entries, name, cas_path)),
        as_map(recorded(entries, name, cas_path)) == as_map(entries).insert(name, cas_path),
{
    let after = recorded(entries, name, cas_path);
    let at = position_of(entries, name);
    lemma_position_of(entries, name);
    lemma_position_is(after, name, at);
    let expected = as_map(entries).insert(name, cas_path);
    assert forall|other: Seq<char>| other != name implies (if position_of(entries, other)
        < entries.len() {
        position_of(after, other) == position_of(entries, other)
    } else {
        position_of(after, other) == after.len()
    }) by {
        lemma_position_of(entries, other);
        let there = position_of(entries, other);
        if there < entries.len() {
            lemma_position_is(after, other, there);
        } else {
            lemma_position_is(after, other, after.len() as int);
        }
    }
    assert forall|other: Seq<char>| as_map(after).dom().contains(other) implies #[trigger] as_map(
        after,
    )[other] == expected[other] by {
        lemma_position_of(entries, other);
    }
}

/// The files of one unpacked tarball, each with the place of its content in
/// the store. An index that is built with [`ExtractionIndex::new`] and
/// [`ExtractionIndex::insert`] holds no file name twice; the entries keep the
/// order in which their names were first recorded.
#[derive(Debug, Clone, PartialEq, Eq)]
pub struct ExtractionIndex {
    entries: Vec<IndexEntry>,
}

impl View for ExtractionIndex {
    type V = Seq<IndexEntryView>;

    closed spec fn view(&self) -> Seq<IndexEntryView> {
        index_entry_views(self.entries@)
    }
}

impl ExtractionIndex {
    /// An index without files.
    pub fn new() -> (index: ExtractionIndex)
        ensures
            index@ == Seq::<IndexEntryView>::empty(),
            names_distinct(index@),
    {
        let index = ExtractionIndex { entries: Vec::new() };
        index
    }

    /// Number of files.
    pub fn len(&self) -> (len: usize)
        ensures
            len == self@.len(),
    {
        self.entries.len()
    }

    /// The files, in the order in which their names were first recorded.
    pub fn entries(&self) -> (entries: &Vec<IndexEntry>)
        ensures
            index_entry_views(entries@) == self@,
    {
        &self.entries
    }

    /// Position of the file named `name`; the number of files if there is none.
    fn find(&self, name: &str) -> (at: usize)
        ensures
            at == position_of(self@, name@),
            at <= self.entries@.len(),
    {
        let wanted = name.to_owned();
        let mut at: usize = 0;
        while at < self.entries.len()
            invariant
                0 <= at <= self.entries@.len(),
                wanted@ == name@,
                forall|i: int| 0 <= i < at ==> (#[trigger] self@[i]).name != name@,
            decreases self.entries@.len() - at,
        {
            if self.entries[at].name == wanted {
                proof {
                    lemma_position_is(self@, name@, at as int);
                }
                return at;
            }
            at += 1;
        }
        proof {
            lemma_position_is(self@, name@, at as int);
        }
        at
    }

    /// The store path recorded for the file named `name`.
    pub fn get(&self, name: &str) -> (cas_path: Option<&String>)
        ensures
            cas_path is Some <==> as_map(self@).dom().contains(name@),
            cas_path matches Some(path) ==> path@ == as_map(self@)[name@],
    {
        let at = self.find(name);
        if at < self.entries.len() {
            Some(&self.entries[at].cas_path)
        } else {
            None
        }
    }

    /// Records that the file named `name` is kept at `cas_path`. A path
    /// recorded earlier for the same name is replaced.
    pub fn insert(&mut self, name: String, cas_path: String)
        ensures
            final(self)@ == recorded(old(self)@, name@, cas_path@),
            as_map(final(self)@) == as_map(old(self)@).insert(name@, cas_path@),
            names_distinct(old(self)@) ==> names_distinct(final(self)@),
    {
        proof {
            lemma_recorded(self@, name@, cas_path@);
        }
        let at = self.find(name.as_str());
        if at < self.entries.len() {
            self.entries.set(at, IndexEntry { name, cas_path });
        } else {
            self.entries.push(IndexEntry { name, cas_path });
        }
    }
}

} // verus!
