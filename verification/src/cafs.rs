use crate::paths::{join, join_path};
use ssri::{Algorithm, IntegrityOpts};
use vstd::prelude::*;

verus! {

/// What a blob in the store stands for.
#[derive(Clone, Copy, Debug, PartialEq, Eq, Structural)]
pub enum FileType {
    /// An executable file.
    Exec,
    /// An ordinary file.
    NonExec,
    /// The extraction index of a whole package.
    Index,
}

/// The ending that a blob's file name gets for its type.
pub open spec fn suffix_of(file_type: FileType) -> Seq<char> {
    match file_type {
        FileType::Exec => "-exec"@,
        FileType::NonExec => Seq::<char>::empty(),
        FileType::Index => "-index.json"@,
    }
}

/// A text that can stand for a digest in a path: at least two characters,
/// each of them ASCII and none the path separator. Every hex digest is one.
pub open spec fn is_digest_text(hex: Seq<char>) -> bool {
    hex.len() >= 2 && forall|i: int|
        0 <= i < hex.len() ==> (#[trigger] hex[i]) <= '\x7f' && hex[i] != '/'
}

/// A digit of a hex digest: `0` to `9` or `a` to `f`.
pub open spec fn is_hex_digit(c: char) -> bool {
    ('0' <= c && c <= '9') || ('a' <= c && c <= 'f')
}

/// The place of a blob below the store directory: the first two digits of its
/// hex digest name a directory, the remaining digits and the type's ending
/// name the file in it.
pub open spec fn content_path(file_type: FileType, hex: Seq<char>) -> Seq<char> {
    hex.subrange(0, 2) + seq!['/'] + hex.subrange(2, hex.len() as int) + suffix_of(file_type)
}

/// Derives the store-relative path of a blob from its hex digest.
pub fn content_path_from_hex(file_type: FileType, hex: &str) -> (path: String)
    requires
        is_digest_text(hex@),
    ensures
        path@ == content_path(file_type, hex@),
{
    proof {
        reveal_strlit("/");
        reveal_strlit("");
    }
    let len = hex.unicode_len();
    let mut path = hex.substring_char(0, 2).to_owned();
    path.append("/");
    path.append(hex.substring_char(2, len));
    let extension = match file_type {
        FileType::Exec => "-exec",
        FileType::NonExec => "",
        FileType::Index => "-index.json",
    };
    path.append(extension);
    path
}

/// The lowercase hexadecimal SHA-512 digest of `data`.
pub uninterp spec fn sha512_hex(data: Seq<u8>) -> Seq<char>;

/// Number of hex digits in a SHA-512 digest.
pub open spec fn sha512_hex_len() -> nat {
    128
}

/// Hashes `buffer` with `ssri`: `IntegrityOpts` set to SHA-512 is fed the
/// buffer, and `Integrity::to_hex` renders the one resulting hash.
///
/// Taken on trust: the text depends on the bytes of the buffer alone, and it
/// has 128 digits, two for each of the 64 bytes of the digest, each of them
/// `0` to `9` or `a` to `f`.
#[verifier::external_body]
fn hex_integrity(buffer: &Vec<u8>) -> (hex: String)
    ensures
        hex@ == sha512_hex(buffer@),
        hex@.len() == sha512_hex_len(),
        forall|i: int| 0 <= i < hex@.len() ==> is_hex_digit(#[trigger] hex@[i]),
{
    IntegrityOpts::new().algorithm(Algorithm::Sha512).chain(buffer).result().to_hex().1
}

/// Why the store could not take or give a file.
#[derive(Debug, Clone, PartialEq, Eq)]
#[non_exhaustive]
pub enum CafsError {
    /// Reading or writing failed at `path`.
    Io { path: String, message: String },
}

/// Where a buffer is kept in a store, and the directory that must exist for it.
#[derive(Clone, Debug, PartialEq, Eq)]
pub struct StoreLocation {
    /// Path of the blob itself.
    pub file_path: String,
    /// Directory that holds the blob.
    pub parent_dir: String,
}

/// The path in `store_dir` of the ordinary file whose digest is `hex`.
pub open spec fn store_file_path(store_dir: Seq<char>, hex: Seq<char>) -> Seq<char> {
    join(store_dir, content_path(FileType::NonExec, hex))
}

/// The directory in `store_dir` that holds the blobs whose digest starts as `hex` does.
pub open spec fn store_parent_dir(store_dir: Seq<char>, hex: Seq<char>) -> Seq<char> {
    join(store_dir, hex.subrange(0, 2))
}

/// Locates the ordinary file with digest `hex` in `store_dir`.
pub fn locate_by_hex(store_dir: &str, hex: &str) -> (location: StoreLocation)
    requires
        is_digest_text(hex@),
    ensures
        location.file_path@ == store_file_path(store_dir@, hex@),
        location.parent_dir@ == store_parent_dir(store_dir@, hex@),
{
    let relative = content_path_from_hex(FileType::NonExec, hex);
    let file_path = join_path(store_dir, relative.as_str());
    let parent_dir = join_path(store_dir, hex.substring_char(0, 2));
    StoreLocation { file_path, parent_dir }
}

/// Locates `buffer` in `store_dir` by its content alone.
pub fn locate(store_dir: &str, buffer: &Vec<u8>) -> (location: StoreLocation)
    ensures
        location.file_path@ == store_file_path(store_dir@, sha512_hex(buffer@)),
        location.parent_dir@ == store_parent_dir(store_dir@, sha512_hex(buffer@)),
{
    let hex = hex_integrity(buffer);
    locate_by_hex(store_dir, hex.as_str())
}

/// Content addressing: the path of a buffer in a store is a function of its
/// digest alone, so that equal buffers are kept at the same path, at
/// whatever time and by whichever writer they are stored.
pub proof fn lemma_same_content_same_path(store_dir: Seq<char>, first: Seq<u8>, second: Seq<u8>)
    ensures
        sha512_hex(first) == sha512_hex(second) ==> store_file_path(store_dir, sha512_hex(first))
            == store_file_path(store_dir, sha512_hex(second)),
        first == second ==> store_file_path(store_dir, sha512_hex(first)) == store_file_path(
            store_dir,
            sha512_hex(second),
        ),
{
}

} // verus!
