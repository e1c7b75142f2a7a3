//! The client's file operations that decide rather than talk to the network:
//! small or large files, batches of chunks, and what a fetch left missing.
use vstd::prelude::*;
use crate::bytes::bytes_eq;
use crate::dbc::copy_bytes;
use crate::names::{content_name, xor_name_of};

verus! {

/// The most chunks uploaded or fetched at once for a file.
pub const CHUNKS_BATCH_MAX_SIZE: usize = 5;

/// Relies on `self_encryption::MIN_ENCRYPTABLE_BYTES`: files shorter than
/// three minimum chunks of 1024 bytes are not self-encrypted.
#[verifier::external_body]
fn min_encryptable_bytes() -> (r: usize)
    ensures
        r == 3072,
{
    self_encryption::MIN_ENCRYPTABLE_BYTES
}

/// Why a file operation failed.
#[derive(Debug)]
pub enum FilesError {
    /// A small file packs into a chunk too large for one: it needs padding.
    SmallFilePaddingNeeded(usize),
    /// Not every chunk was retrieved; the names of those missing.
    NotEnoughChunksRetrieved { expected: usize, retrieved: usize, missing_chunks: Vec<Vec<u8>> },
}

/// An encrypted chunk of a file, at its index.
#[derive(Clone, Debug)]
pub struct EncryptedChunk {
    pub index: usize,
    pub content: Vec<u8>,
}

/// The file operations of a client.
pub struct Files<C> {
    client: C,
}

impl<C> Files<C> {
    /// The client the operations go through.
    pub closed spec fn client_view(&self) -> C {
        self.client
    }

    /// Creates file operations over a client.
    pub fn new(client: C) -> (r: Files<C>)
        ensures
            r.client_view() == client,
    {
        Files { client }
    }

    /// The client the operations go through.
    pub fn client(&self) -> (r: &C)
        ensures
            *r == self.client_view(),
    {
        &self.client
    }
}

/// Whether a file of `len` bytes is stored as a single small chunk rather
/// than self-encrypted.
pub fn is_small_file(len: usize) -> (r: bool)
    ensures
        r == (len < 3072),
{
    len < min_encryptable_bytes()
}

/// Checks the chunk a small file was packed into: it must stay below the size
/// from which files are self-encrypted.
pub fn check_small_chunk(chunk_len: usize) -> (r: Result<(), FilesError>)
    ensures
        r is Ok <==> chunk_len < 3072,
        r matches Err(FilesError::SmallFilePaddingNeeded(n)) ==> n == chunk_len,
        r matches Err(e) ==> e is SmallFilePaddingNeeded,
{
    if chunk_len >= min_encryptable_bytes() {
        Err(FilesError::SmallFilePaddingNeeded(chunk_len))
    } else {
        Ok(())
    }
}

/// The batches of a list of `total` chunks, in order: each of
/// `CHUNKS_BATCH_MAX_SIZE` chunks, but the last, which holds the rest.
pub open spec fn batch_at(total: nat, i: nat) -> (usize, usize) {
    let start: int = i * CHUNKS_BATCH_MAX_SIZE;
    let end: int = if start + CHUNKS_BATCH_MAX_SIZE <= total {
        start + CHUNKS_BATCH_MAX_SIZE
    } else {
        total as int
    };
    (start as usize, end as usize)
}

/// Splits `total` chunks into the batches they are uploaded or fetched in,
/// as ranges of positions.
pub fn chunk_batches(total: usize) -> (r: Vec<(usize, usize)>)
    ensures
        r@.len() == (total + CHUNKS_BATCH_MAX_SIZE - 1) / CHUNKS_BATCH_MAX_SIZE as int,
        forall|i: int| 0 <= i < r@.len() ==> #[trigger] r@[i] == batch_at(total as nat, i as nat),
{
    let mut r: Vec<(usize, usize)> = Vec::new();
    let mut start: usize = 0;
    while start < total
        invariant
            start <= total,
            r@.len() * CHUNKS_BATCH_MAX_SIZE <= total ==> start == r@.len() * CHUNKS_BATCH_MAX_SIZE,
            r@.len() * CHUNKS_BATCH_MAX_SIZE > total ==> start == total && total > (r@.len() - 1)
                * CHUNKS_BATCH_MAX_SIZE,
            forall|i: int| 0 <= i < r@.len() ==> #[trigger] r@[i] == batch_at(total as nat, i as nat),
        decreases total - start,
    {
        let end = if total - start >= CHUNKS_BATCH_MAX_SIZE {
            start + CHUNKS_BATCH_MAX_SIZE
        } else {
            total
        };
        assert(start == r@.len() * CHUNKS_BATCH_MAX_SIZE);
        r.push((start, end));
        start = end;
    }
    let ghost n: int = r@.len() as int;
    assert(n == (total + 4) / 5) by (nonlinear_arith)
        requires
            n * 5 <= total ==> n * 5 == total,
            n * 5 > total ==> total > (n - 1) * 5,
            n >= 0,
    ;
    r
}

/// The expected names that no retrieved name matches, in order.
pub open spec fn missing_names(expected: Seq<Seq<u8>>, retrieved: Seq<Seq<u8>>) -> Seq<Seq<u8>>
    decreases expected.len(),
{
    if expected.len() == 0 {
        seq![]
    } else {
        let prev = missing_names(expected.drop_last(), retrieved);
        if retrieved.contains(expected.last()) {
            prev
        } else {
            prev.push(expected.last())
        }
    }
}

/// The names of retrieved chunks: the names of their contents.
pub open spec fn content_names(chunks: Seq<EncryptedChunk>) -> Seq<Seq<u8>> {
    chunks.map_values(|c: EncryptedChunk| xor_name_of(c.content@))
}

pub open spec fn name_views(names: Seq<Vec<u8>>) -> Seq<Seq<u8>> {
    names.map_values(|n: Vec<u8>| n@)
}

/// Checks that a fetch retrieved as many chunks as expected. When some are
/// missing, the failures are folded into one error that names every
/// expected chunk whose content did not come back.
pub fn retrieval_outcome(expected: &Vec<Vec<u8>>, retrieved: Vec<EncryptedChunk>) -> (r: Result<
    Vec<EncryptedChunk>,
    FilesError,
>)
    ensures
        expected@.len() <= retrieved@.len() ==> (r matches Ok(c) && c@ == retrieved@),
        expected@.len() > retrieved@.len() ==> (r matches Err(
            FilesError::NotEnoughChunksRetrieved { expected: e, retrieved: n, missing_chunks: m },
        ) && e == expected@.len() && n == retrieved@.len() && name_views(m@) == missing_names(
            name_views(expected@),
            content_names(retrieved@),
        )),
{
    if expected.len() <= retrieved.len() {
        return Ok(retrieved);
    }
    let ghost rn = content_names(retrieved@);
    let mut names: Vec<Vec<u8>> = Vec::new();
    let mut j: usize = 0;
    while j < retrieved.len()
        invariant
            rn == content_names(retrieved@),
            j <= retrieved@.len(),
            name_views(names@) == rn.take(j as int),
        decreases retrieved@.len() - j,
    {
        let ghost prev = names@;
        names.push(content_name(retrieved[j].content.as_slice()));
        assert(name_views(names@) =~= name_views(prev).push(rn[j as int]));
        j = j + 1;
        assert(name_views(names@) =~= rn.take(j as int));
    }
    assert(rn.take(j as int) =~= rn);
    let ghost ev = name_views(expected@);
    let mut missing: Vec<Vec<u8>> = Vec::new();
    let mut i: usize = 0;
    while i < expected.len()
        invariant
            ev == name_views(expected@),
            rn == name_views(names@),
            i <= expected@.len(),
            name_views(missing@) == missing_names(ev.take(i as int), rn),
        decreases expected@.len() - i,
    {
        let e = &expected[i];
        let mut found = false;
        let mut k: usize = 0;
        while k < names.len()
            invariant
                rn == name_views(names@),
                k <= names@.len(),
                found == exists|x: int| 0 <= x < k && rn[x] == e@,
            decreases names@.len() - k,
        {
            if !found && bytes_eq(names[k].as_slice(), e.as_slice()) {
                found = true;
                assert(rn[k as int] == e@);
            }
            k = k + 1;
        }
        assert(ev.take(i + 1).drop_last() =~= ev.take(i as int));
        assert(ev.take(i + 1).last() == e@);
        let ghost prev = missing@;
        if !found {
            missing.push(copy_bytes(e.as_slice()));
            assert(name_views(missing@) =~= name_views(prev).push(e@));
        }
        i = i + 1;
    }
    assert(ev.take(i as int) =~= ev);
    Err(
        FilesError::NotEnoughChunksRetrieved {
            expected: expected.len(),
            retrieved: retrieved.len(),
            missing_chunks: missing,
        },
    )
}

} // verus!
