use vstd::prelude::*;
use crate::capability::{ran_ok, ran_successfully, CapabilityResult};
use crate::text::{chars_of, string_views};
use sha2::Digest;

verus! {

/// A container image archive that passed structural validation, with its size
/// and the lowercase hex SHA-256 digest of its bytes.
pub struct ImageArchiveEntry {
    pub file_path: String,
    pub file_size_bytes: u64,
    pub content_hash: String,
}

/// The SHA-256 digest of `data`.
pub uninterp spec fn sha256_of(data: Seq<u8>) -> Seq<u8>;

/// A running SHA-256 computation: holds a `sha2::Sha256` hasher, which Verus
/// sees only through `absorbed`.
#[verifier::external_body]
pub struct Sha256State {
    inner: sha2::Sha256,
}

/// The bytes that a running SHA-256 computation has taken in so far.
pub uninterp spec fn absorbed(s: Sha256State) -> Seq<u8>;

/// Relies on `sha2::Sha256::new` (through `Digest`): a fresh computation has taken in nothing.
#[verifier::external_body]
fn sha256_start() -> (r: Sha256State)
    ensures
        absorbed(r) == Seq::<u8>::empty(),
{
    Sha256State { inner: sha2::Sha256::new() }
}

/// Relies on `sha2::Sha256::update` (through `Digest`): the chunk is appended to the input.
#[verifier::external_body]
fn sha256_feed(s: &mut Sha256State, chunk: &[u8])
    ensures
        absorbed(*final(s)) == absorbed(*old(s)) + chunk@,
{
    s.inner.update(chunk);
}

/// Relies on `sha2::Sha256::finalize` (through `Digest`): the 32-byte digest of the whole input.
#[verifier::external_body]
fn sha256_end(s: Sha256State) -> (r: Vec<u8>)
    ensures
        r@ == sha256_of(absorbed(s)),
        r@.len() == 32,
{
    s.inner.finalize().to_vec()
}

/// The lowercase hex digit of a value below sixteen.
pub open spec fn hex_digit(n: u8) -> char {
    seq!['0', '1', '2', '3', '4', '5', '6', '7', '8', '9', 'a', 'b', 'c', 'd', 'e', 'f'][n as int]
}

/// Lowercase hex text of `b`: two digits per byte, high half first.
pub open spec fn hex_of(b: Seq<u8>) -> Seq<char>
    decreases b.len(),
{
    if b.len() == 0 {
        Seq::empty()
    } else {
        hex_of(b.drop_last()) + seq![hex_digit(b.last() / 16), hex_digit(b.last() % 16)]
    }
}

/// Hex text is twice as long as its bytes.
pub proof fn lemma_hex_len(b: Seq<u8>)
    ensures
        hex_of(b).len() == 2 * b.len(),
    decreases b.len(),
{
    if b.len() > 0 {
        lemma_hex_len(b.drop_last());
    }
}

/// Relies on `hex::encode`: each byte becomes its two lowercase hex digits, high half first.
#[verifier::external_body]
fn hex_encode(b: &[u8]) -> (r: String)
    ensures
        r@ == hex_of(b@),
{
    hex::encode(b)
}

/// The content hash of a file whose bytes are `data`.
pub open spec fn content_hash_of(data: Seq<u8>) -> Seq<char> {
    hex_of(sha256_of(data))
}

/// Computes the content hash of a file from its bytes, handed over in chunks
/// as they are read, so that no file is held in memory whole.
pub struct ContentHasher {
    state: Sha256State,
}

impl ContentHasher {
    /// The bytes taken in so far, in order.
    pub closed spec fn consumed(&self) -> Seq<u8> {
        absorbed(self.state)
    }

    pub fn new() -> (r: ContentHasher)
        ensures
            r.consumed() == Seq::<u8>::empty(),
    {
        ContentHasher { state: sha256_start() }
    }

    /// Takes in the next chunk of the file.
    pub fn update(&mut self, chunk: &[u8])
        ensures
            final(self).consumed() == old(self).consumed() + chunk@,
    {
        sha256_feed(&mut self.state, chunk);
    }

    /// The content hash of everything taken in: 64 lowercase hex digits.
    pub fn finish(self) -> (r: String)
        ensures
            r@ == content_hash_of(self.consumed()),
            r@.len() == 64,
    {
        let d = sha256_end(self.state);
        proof {
            lemma_hex_len(d@);
        }
        hex_encode(d.as_slice())
    }
}

/// The catalogue entry of a file at `path` of `size` bytes whose contents were
/// fed, in order, to `hasher`.
pub fn catalog_entry(file_path: String, file_size_bytes: u64, hasher: ContentHasher) -> (r: ImageArchiveEntry)
    ensures
        r.file_path@ == file_path@,
        r.file_size_bytes == file_size_bytes,
        r.content_hash@ == content_hash_of(hasher.consumed()),
{
    let content_hash = hasher.finish();
    ImageArchiveEntry { file_path, file_size_bytes, content_hash }
}

/// Cataloguing an unchanged file again gives the same entry: path, size and
/// hash depend on the path, the size and the bytes alone.
pub proof fn lemma_catalog_repeatable(first: Seq<u8>, second: Seq<u8>)
    requires
        first == second,
    ensures
        content_hash_of(first) == content_hash_of(second),
{
}

/// A path whose final component has the archive extension: it ends in `.tar`
/// after a non-empty file stem.
pub open spec fn is_archive_path(p: Seq<char>) -> bool {
    let n = p.len() as int;
    &&& n >= 5
    &&& p[n - 4] == '.' && p[n - 3] == 't' && p[n - 2] == 'a' && p[n - 1] == 'r'
    &&& p[n - 5] != '/'
}

/// The paths among `paths` that have the archive extension, in order.
pub open spec fn with_archive_extension(paths: Seq<Seq<char>>) -> Seq<Seq<char>>
    decreases paths.len(),
{
    if paths.len() == 0 {
        Seq::empty()
    } else if is_archive_path(paths.last()) {
        with_archive_extension(paths.drop_last()).push(paths.last())
    } else {
        with_archive_extension(paths.drop_last())
    }
}

/// The paths that have the archive extension and passed structural validation, in order.
pub open spec fn accepted_paths(validated: Seq<(String, CapabilityResult)>) -> Seq<Seq<char>>
    decreases validated.len(),
{
    if validated.len() == 0 {
        Seq::empty()
    } else if is_archive_path(validated.last().0@) && ran_ok(validated.last().1) {
        accepted_paths(validated.drop_last()).push(validated.last().0@)
    } else {
        accepted_paths(validated.drop_last())
    }
}

/// Whether the final component of `path` has the archive extension.
pub fn has_archive_extension(path: &str) -> (r: bool)
    ensures
        r == is_archive_path(path@),
{
    let v = chars_of(path);
    let n = v.len();
    n >= 5 && v[n - 4] == '.' && v[n - 3] == 't' && v[n - 2] == 'a' && v[n - 1] == 'r' && v[n - 5] != '/'
}

/// The entries of a directory listing that are archive candidates: those with
/// the archive extension, in listing order.
pub fn archive_candidates(paths: &Vec<String>) -> (r: Vec<String>)
    ensures
        string_views(r@) == with_archive_extension(string_views(paths@)),
{
    let mut r: Vec<String> = Vec::new();
    let mut i: usize = 0;
    while i < paths.len()
        invariant
            i <= paths.len(),
            string_views(r@) == with_archive_extension(string_views(paths@.take(i as int))),
        decreases paths.len() - i,
    {
        assert(string_views(paths@.take(i + 1)).drop_last() =~= string_views(paths@.take(i as int)));
        assert(string_views(paths@.take(i + 1)).last() == paths@[i as int]@);
        if has_archive_extension(paths[i].as_str()) {
            let ghost before = r@;
            r.push(paths[i].clone());
            assert(string_views(r@) =~= string_views(before).push(paths@[i as int]@));
        }
        i = i + 1;
    }
    assert(paths@.take(paths.len() as int) =~= paths@);
    r
}

/// The candidates that structural validation accepted, in order. A candidate
/// whose validation failed, or could not run, is left out without an error.
pub fn accepted_archives(validated: &Vec<(String, CapabilityResult)>) -> (r: Vec<String>)
    ensures
        string_views(r@) == accepted_paths(validated@),
{
    let mut r: Vec<String> = Vec::new();
    let mut i: usize = 0;
    while i < validated.len()
        invariant
            i <= validated.len(),
            string_views(r@) == accepted_paths(validated@.take(i as int)),
        decreases validated.len() - i,
    {
        assert(validated@.take(i + 1).drop_last() =~= validated@.take(i as int));
        assert(validated@.take(i + 1).last() == validated@[i as int]);
        if has_archive_extension(validated[i].0.as_str()) && ran_successfully(&validated[i].1) {
            let ghost before = r@;
            r.push(validated[i].0.clone());
            assert(string_views(r@) =~= string_views(before).push(validated@[i as int].0@));
        }
        i = i + 1;
    }
    assert(validated@.take(validated.len() as int) =~= validated@);
    r
}

/// Gathers the entries of a catalogue, all or nothing: every file catalogued
/// gives the entries in order, and otherwise the first failure is the result.
pub fn create_container_image_archives(results: Vec<Result<ImageArchiveEntry, String>>) -> (r: Result<
    Vec<ImageArchiveEntry>,
    String,
>)
    ensures
        match r {
            Ok(v) => {
                &&& forall|i: int| 0 <= i < results@.len() ==> (#[trigger] results@[i]) is Ok
                &&& v@.len() == results@.len()
                &&& forall|i: int| 0 <= i < v@.len() ==> #[trigger] v@[i] == results@[i]->Ok_0
            },
            Err(e) => exists|k: int|
                0 <= k < results@.len() && (#[trigger] results@[k]) is Err && results@[k]->Err_0 == e
                    && forall|j: int| 0 <= j < k ==> (#[trigger] results@[j]) is Ok,
        },
{
    let ghost all = results@;
    let mut v: Vec<ImageArchiveEntry> = Vec::new();
    for x in it: results
        invariant
            it.seq() == all,
            v@.len() == it.index(),
            forall|j: int| 0 <= j < it.index() ==> (#[trigger] all[j]) is Ok && v@[j] == all[j]->Ok_0,
    {
        match x {
            Ok(e) => v.push(e),
            Err(m) => {
                assert(all[it.index() as int] is Err);
                return Err(m);
            },
        }
    }
    Ok(v)
}

} // verus!
