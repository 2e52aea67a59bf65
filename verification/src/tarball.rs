use crate::cafs::{locate, CafsError, sha512_hex, store_file_path, store_parent_dir, StoreLocation};
use crate::index::{lemma_recorded, names_distinct, recorded, ExtractionIndex, IndexEntryView};
use crate::integrity::{check_body, sha512_integrity, verdict, IntegrityError};
use crate::text::{find_char, first_index, lemma_first_index_is, str_chars, string_from_chars};
use vstd::prelude::*;

verus! {

/// Why a tarball could not be had.
#[derive(Debug, Clone, PartialEq, Eq)]
pub enum TarballError {
    /// The request did not get through.
    Network { url: String, message: String },
    /// The server answered with a status that is no success.
    HttpStatus { url: String, status: u16 },
    /// The body was refused for its integrity.
    Integrity(IntegrityError),
    /// The body could not be decompressed or read as an archive.
    Extract { message: String },
    /// A blob could not be put into the store.
    Store(CafsError),
}

/// What an entry of a tarball is.
#[derive(Debug, Clone, Copy, PartialEq, Eq, Structural)]
pub enum EntryKind {
    /// A regular file.
    Regular,
    /// A directory.
    Directory,
    /// A symbolic link.
    Symlink,
    /// A hard link to another entry.
    Hardlink,
    /// Anything else.
    Other,
}

/// One entry of a decoded tarball.
#[derive(Debug, Clone, PartialEq, Eq)]
pub struct TarEntry {
    /// Path of the entry inside the tarball.
    pub path: String,
    pub kind: EntryKind,
    /// The bytes of the entry; empty for what is no regular file.
    pub content: Vec<u8>,
}

/// Mathematical value of a [`TarEntry`].
pub struct TarEntryView {
    pub path: Seq<char>,
    pub kind: EntryKind,
    pub content: Seq<u8>,
}

impl View for TarEntry {
    type V = TarEntryView;

    open spec fn view(&self) -> TarEntryView {
        TarEntryView { path: self.path@, kind: self.kind, content: self.content@ }
    }
}

/// The views of a sequence of tarball entries.
pub open spec fn tar_entry_views(entries: Seq<TarEntry>) -> Seq<TarEntryView> {
    entries.map_values(|entry: TarEntry| entry@)
}

/// The path of an entry without its first component: what follows the first
/// separator, and nothing where the path has no separator.
pub open spec fn cleaned_name(path: Seq<char>) -> Seq<char> {
    let slash = first_index(path, '/', 0);
    if slash < path.len() {
        path.subrange(slash + 1, path.len() as int)
    } else {
        Seq::<char>::empty()
    }
}

/// Strips the first component, conventionally `package/`, from the path of an entry.
pub fn clean_entry_name(path: &str) -> (name: String)
    ensures
        name@ == cleaned_name(path@),
{
    let chars = str_chars(path);
    let slash = find_char(&chars, '/', 0, chars.len());
    proof {
        lemma_first_index_is(path@, '/', 0, slash as int);
    }
    if slash < chars.len() {
        string_from_chars(&chars, slash + 1, chars.len())
    } else {
        String::new()
    }
}

/// A blob to be put into the store: the entry of the tarball that holds its
/// bytes, and its place in the store.
#[derive(Debug, Clone, PartialEq, Eq)]
pub struct BlobWrite {
    /// Position of the entry in the tarball.
    pub entry: usize,
    pub location: StoreLocation,
}

/// Mathematical value of a [`BlobWrite`].
pub struct BlobWriteView {
    pub entry: int,
    pub file_path: Seq<char>,
    pub parent_dir: Seq<char>,
}

impl View for BlobWrite {
    type V = BlobWriteView;

    open spec fn view(&self) -> BlobWriteView {
        BlobWriteView {
            entry: self.entry as int,
            file_path: self.location.file_path@,
            parent_dir: self.location.parent_dir@,
        }
    }
}

/// The views of a sequence of blob writes.
pub open spec fn blob_write_views(writes: Seq<BlobWrite>) -> Seq<BlobWriteView> {
    writes.map_values(|write: BlobWrite| write@)
}

/// The index of a tarball with the given entries, unpacked into `store_dir`:
/// each regular file is recorded, in the order of the entries, under its
/// cleaned name at the place that its content has in the store. Entries that
/// are no regular files leave no trace.
pub open spec fn extracted_index(store_dir: Seq<char>, entries: Seq<TarEntryView>) -> Seq<
    IndexEntryView,
>
    decreases entries.len(),
{
    if entries.len() == 0 {
        Seq::<IndexEntryView>::empty()
    } else {
        let before = extracted_index(store_dir, entries.drop_last());
        let entry = entries.last();
        if entry.kind == EntryKind::Regular {
            recorded(
                before,
                cleaned_name(entry.path),
                store_file_path(store_dir, sha512_hex(entry.content)),
            )
        } else {
            before
        }
    }
}

/// The index of a tarball holds no file name twice.
pub proof fn lemma_extracted_index_distinct(store_dir: Seq<char>, entries: Seq<TarEntryView>)
    ensures
        names_distinct(extracted_index(store_dir, entries)),
    decreases entries.len(),
{
    if entries.len() > 0 {
        lemma_extracted_index_distinct(store_dir, entries.drop_last());
        let entry = entries.last();
        lemma_recorded(
            extracted_index(store_dir, entries.drop_last()),
            cleaned_name(entry.path),
            store_file_path(store_dir, sha512_hex(entry.content)),
        );
    }
}

/// The blobs that unpacking a tarball puts into `store_dir`: one for each
/// regular file, in the order of the entries.
pub open spec fn extracted_writes(store_dir: Seq<char>, entries: Seq<TarEntryView>) -> Seq<
    BlobWriteView,
>
    decreases entries.len(),
{
    if entries.len() == 0 {
        Seq::<BlobWriteView>::empty()
    } else {
        let before = extracted_writes(store_dir, entries.drop_last());
        let entry = entries.last();
        if entry.kind == EntryKind::Regular {
            before.push(
                BlobWriteView {
                    entry: entries.len() - 1,
                    file_path: store_file_path(store_dir, sha512_hex(entry.content)),
                    parent_dir: store_parent_dir(store_dir, sha512_hex(entry.content)),
                },
            )
        } else {
            before
        }
    }
}

/// What unpacking a tarball amounts to: the blobs to put into the store, and
/// the index that says where each file of the package is kept.
#[derive(Debug, Clone, PartialEq, Eq)]
pub struct Extraction {
    pub index: ExtractionIndex,
    pub writes: Vec<BlobWrite>,
}

/// Evidence that a body was held against its expected integrity and accepted.
/// Only [`accept_body`] makes one.
#[derive(Debug, Clone, PartialEq, Eq)]
pub struct VerifiedBody {
    integrity: String,
}

impl VerifiedBody {
    /// The integrity under which the body was accepted.
    pub closed spec fn integrity(&self) -> Seq<char> {
        self.integrity@
    }

    /// The integrity under which the body was accepted.
    pub fn integrity_text(&self) -> (integrity: &String)
        ensures
            integrity@ == self.integrity(),
    {
        &self.integrity
    }
}

/// Accepts a fetched body if it has the expected integrity, and refuses it otherwise.
pub fn accept_body(expected: &str, body: &Vec<u8>) -> (outcome: Result<VerifiedBody, IntegrityError>)
    ensures
        match outcome {
            Ok(verified) => verdict(expected@, sha512_integrity(body@)) is Ok
                && verified.integrity() == expected@,
            Err(error) => verdict(expected@, sha512_integrity(body@)) == Err::<
                (),
                crate::integrity::IntegrityErrorView,
            >(error@),
        },
{
    match check_body(expected, body) {
        Ok(()) => Ok(VerifiedBody { integrity: expected.to_owned() }),
        Err(error) => Err(error),
    }
}

impl VerifiedBody {
    /// Plans the unpacking of the accepted tarball into `store_dir`, given the
    /// entries that its body decodes to: which blobs to write, and the index of
    /// the package.
    pub fn extract(&self, store_dir: &str, entries: &Vec<TarEntry>) -> (extraction: Extraction)
        ensures
            extraction.index@ == extracted_index(store_dir@, tar_entry_views(entries@)),
            blob_write_views(extraction.writes@) == extracted_writes(
                store_dir@,
                tar_entry_views(entries@),
            ),
            names_distinct(extraction.index@),
    {
        let ghost views = tar_entry_views(entries@);
        proof {
            lemma_extracted_index_distinct(store_dir@, views);
        }
        let mut index = ExtractionIndex::new();
        let mut writes: Vec<BlobWrite> = Vec::new();
        let mut i: usize = 0;
        while i < entries.len()
            invariant
                0 <= i <= entries@.len(),
                views == tar_entry_views(entries@),
                index@ == extracted_index(store_dir@, views.take(i as int)),
                blob_write_views(writes@) == extracted_writes(store_dir@, views.take(i as int)),
            decreases entries@.len() - i,
        {
            proof {
                assert(views.take(i + 1).drop_last() =~= views.take(i as int));
            }
            let entry = &entries[i];
            match entry.kind {
                EntryKind::Regular => {
                    let location = locate(store_dir, &entry.content);
                    index.insert(clean_entry_name(entry.path.as_str()), location.file_path.clone());
                    let write = BlobWrite { entry: i, location };
                    writes.push(write);
                },
                _ => {},
            }
            i += 1;
        }
        assert(views.take(i as int) =~= views);
        Extraction { index, writes }
    }
}

} // verus!
