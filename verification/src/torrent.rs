//! Torrent metainfo: the files, the piece length and the SHA-1 digest of
//! every piece.

use vstd::prelude::*;

verus! {

/// One file of a multi-file torrent.
#[derive(Debug)]
pub struct File {
    /// The length of this file in bytes.
    pub length: usize,
    /// List of subdirectory names with the last being the files path.
    pub path: Vec<String>,
}

/// A single file with its length, or the list of files.
#[derive(Debug)]
pub enum FileType {
    Single { length: usize },
    Multi { files: Vec<File> },
}

/// The `info` dictionary of a torrent.
#[derive(Debug)]
pub struct Info {
    /// A `length` if only one file is present or `files` if many.
    pub file: FileType,
    /// Suggested name to save the file / directory as.
    pub name: String,
    /// Number of bytes in each piece.
    pub piece_len: usize,
    /// 20 byte long SHA-1 hashes of each piece, this was assembled from the concatenation
    /// of them in the bencode blob.
    pub pieces: Hashes,
}

/// A torrent's metainfo.
#[derive(Debug)]
pub struct Torrent {
    /// URL to a "tracker", which is a central server that keeps track of peers
    /// participating in the sharing of a torrent.
    pub announce: String,
    /// Information about the file to be downloaded.
    pub info: Info,
}

/// The SHA-1 digests of the pieces, in piece order.
#[derive(Debug)]
pub struct Hashes(pub Vec<[u8; 20]>);

/// Why a byte string is not a list of piece digests.
#[derive(Debug, Clone, Copy, PartialEq, Eq)]
pub enum HashesError {
    /// The length is not a multiple of twenty.
    BadLength { len: usize },
}

/// The summed lengths of a list of files.
pub open spec fn files_total(files: Seq<File>) -> int
    decreases files.len(),
{
    if files.len() == 0 {
        0
    } else {
        files_total(files.drop_last()) + files.last().length
    }
}

proof fn lemma_files_total_prefix(files: Seq<File>, i: int)
    requires
        0 <= i <= files.len(),
    ensures
        0 <= files_total(files.subrange(0, i)) <= files_total(files),
    decreases files.len() - i,
{
    if i < files.len() {
        lemma_files_total_prefix(files, i + 1);
        lemma_files_total_nonneg(files.subrange(0, i));
        assert(files.subrange(0, i + 1).drop_last() =~= files.subrange(0, i));
        assert(files_total(files.subrange(0, i + 1)) == files_total(files.subrange(0, i))
            + files.subrange(0, i + 1).last().length);
    } else {
        assert(files.subrange(0, i) =~= files);
        lemma_files_total_nonneg(files);
    }
}

proof fn lemma_files_total_nonneg(files: Seq<File>)
    ensures
        files_total(files) >= 0,
    decreases files.len(),
{
    if files.len() > 0 {
        lemma_files_total_nonneg(files.drop_last());
    }
}

/// The summed lengths of no files is zero, of one file its length; adding a
/// file to a list adds its length; and the sum over two lists put together
/// is the sum of their sums.
pub proof fn lemma_files_total_sum(s: Seq<File>, t: Seq<File>, f: File)
    ensures
        files_total(Seq::<File>::empty()) == 0,
        files_total(seq![f]) == f.length,
        files_total(s.push(f)) == files_total(s) + f.length,
        files_total(s + t) == files_total(s) + files_total(t),
    decreases t.len(),
{
    assert(seq![f].drop_last() =~= Seq::<File>::empty());
    assert(s.push(f).drop_last() =~= s);
    if t.len() > 0 {
        lemma_files_total_sum(s, t.drop_last(), f);
        assert((s + t).drop_last() =~= s + t.drop_last());
    } else {
        assert(s + t =~= s);
    }
}

/// Every file's length is at most the summed lengths of its list.
pub proof fn lemma_files_total_bounds(files: Seq<File>)
    ensures
        files_total(files) >= 0,
        forall|i: int| 0 <= i < files.len() ==> #[trigger] files[i].length <= files_total(files),
    decreases files.len(),
{
    lemma_files_total_nonneg(files);
    if files.len() > 0 {
        lemma_files_total_bounds(files.drop_last());
        assert forall|i: int| 0 <= i < files.len() implies #[trigger] files[i].length
            <= files_total(files) by {
            if i < files.len() - 1 {
                assert(files.drop_last()[i] == files[i]);
            }
        }
    }
}

/// The total length of a torrent is the single file's length, or the sum of
/// the lengths of all its files: adding a file to the list adds exactly its
/// length, and no file is longer than the whole.
pub proof fn lemma_total_len(info: Info, more: Info, f: File)
    ensures
        info.file matches FileType::Single { length } ==> info.total_len() == length,
        info.file matches FileType::Multi { files } ==> info.total_len() == files_total(files@),
        info.file matches FileType::Multi { files } ==> forall|i: int|
            0 <= i < files@.len() ==> #[trigger] files@[i].length <= info.total_len(),
        (info.file matches FileType::Multi { files: a } && more.file matches FileType::Multi {
            files: b,
        } && b@ == a@.push(f)) ==> more.total_len() == info.total_len() + f.length,
{
    match info.file {
        FileType::Multi { files: a } => {
            lemma_files_total_bounds(a@);
            lemma_files_total_sum(a@, Seq::<File>::empty(), f);
        },
        _ => {},
    }
}

impl Info {
    /// The total length of the torrent's content.
    pub open spec fn total_len(&self) -> int {
        match self.file {
            FileType::Single { length } => length as int,
            FileType::Multi { files } => files_total(files@),
        }
    }

    /// Whether the total length of the content fits in a `usize`.
    pub fn file_len_fits(&self) -> (r: bool)
        ensures
            r == (self.total_len() <= usize::MAX),
    {
        match &self.file {
            FileType::Single { .. } => true,
            FileType::Multi { files } => {
                let mut sum: usize = 0;
                let mut i: usize = 0;
                while i < files.len()
                    invariant
                        i <= files@.len(),
                        sum == files_total(files@.subrange(0, i as int)),
                        self.total_len() == files_total(files@),
                    decreases files@.len() - i,
                {
                    proof {
                        lemma_files_total_prefix(files@, i + 1);
                        lemma_files_total_prefix(files@, i as int);
                        assert(files@.subrange(0, i + 1).drop_last() =~= files@.subrange(0, i as int));
                    }
                    if files[i].length > usize::MAX - sum {
                        return false;
                    }
                    sum = sum + files[i].length;
                    i = i + 1;
                }
                assert(files@.subrange(0, files@.len() as int) =~= files@);
                true
            },
        }
    }

    /// The total length of the torrent's content: the single file's
    /// length, or the sum of the files' lengths.
    pub fn file_len(&self) -> (r: usize)
        requires
            self.total_len() <= usize::MAX,
        ensures
            r == self.total_len(),
    {
        match &self.file {
            FileType::Single { length } => *length,
            FileType::Multi { files } => {
                let mut sum: usize = 0;
                let mut i: usize = 0;
                while i < files.len()
                    invariant
                        i <= files@.len(),
                        sum == files_total(files@.subrange(0, i as int)),
                        files_total(files@) <= usize::MAX,
                    decreases files@.len() - i,
                {
                    proof {
                        lemma_files_total_prefix(files@, i + 1);
                        assert(files@.subrange(0, i + 1).drop_last() =~= files@.subrange(0, i as int));
                    }
                    sum = sum + files[i].length;
                    i = i + 1;
                }
                assert(files@.subrange(0, files@.len() as int) =~= files@);
                sum
            },
        }
    }
}

/// The concatenation of a list of digests.
pub open spec fn hashes_bytes(h: Seq<[u8; 20]>) -> Seq<u8>
    decreases h.len(),
{
    if h.len() == 0 {
        Seq::empty()
    } else {
        hashes_bytes(h.drop_last()) + h.last()@
    }
}

/// The digests of a list, each as a byte sequence.
pub open spec fn hash_views(h: Seq<[u8; 20]>) -> Seq<Seq<u8>> {
    h.map_values(|a: [u8; 20]| a@)
}

/// The concatenation of digests is twenty bytes per digest, and digest
/// `i` stands at bytes `20 * i` to `20 * i + 20`.
pub proof fn lemma_hashes_bytes_layout(h: Seq<[u8; 20]>)
    ensures
        hashes_bytes(h).len() == 20 * h.len(),
        forall|i: int|
            0 <= i < h.len() ==> #[trigger] hashes_bytes(h).subrange(20 * i, 20 * i + 20) == h[i]@,
    decreases h.len(),
{
    if h.len() > 0 {
        let p = h.drop_last();
        lemma_hashes_bytes_layout(p);
        assert forall|i: int| 0 <= i < h.len() implies #[trigger] hashes_bytes(h).subrange(
            20 * i,
            20 * i + 20,
        ) == h[i]@ by {
            if i < h.len() - 1 {
                assert(hashes_bytes(h).subrange(20 * i, 20 * i + 20) =~= hashes_bytes(p).subrange(
                    20 * i,
                    20 * i + 20,
                ));
                assert(p[i] == h[i]);
            } else {
                assert(hashes_bytes(h).subrange(20 * i, 20 * i + 20) =~= h.last()@);
            }
        }
    }
}

/// Reading back the concatenation of a list of digests gives the list:
/// its length is a multiple of twenty, and any list with the same
/// concatenation holds the same digests.
pub proof fn lemma_hashes_roundtrip(h: Seq<[u8; 20]>, read: Seq<[u8; 20]>)
    requires
        hashes_bytes(read) == hashes_bytes(h),
    ensures
        hashes_bytes(h).len() % 20 == 0,
        hash_views(read) == hash_views(h),
{
    lemma_hashes_bytes_layout(h);
    lemma_hashes_bytes_layout(read);
    assert(read.len() == h.len());
    assert forall|i: int| 0 <= i < h.len() implies hash_views(read)[i] == hash_views(h)[i] by {
        assert(hashes_bytes(read).subrange(20 * i, 20 * i + 20) == read[i]@);
        assert(hashes_bytes(h).subrange(20 * i, 20 * i + 20) == h[i]@);
    }
    assert(hash_views(read) =~= hash_views(h));
}

/// The twenty bytes `v[at..at + 20]` as an array.
fn array20(v: &[u8], at: usize) -> (r: [u8; 20])
    requires
        at + 20 <= v@.len(),
    ensures
        r@ == v@.subrange(at as int, at + 20),
{
    let r: [u8; 20] = [
        v[at], v[at + 1], v[at + 2], v[at + 3], v[at + 4], v[at + 5], v[at + 6], v[at + 7],
        v[at + 8], v[at + 9], v[at + 10], v[at + 11], v[at + 12], v[at + 13], v[at + 14],
        v[at + 15], v[at + 16], v[at + 17], v[at + 18], v[at + 19],
    ];
    assert(r@ =~= v@.subrange(at as int, at + 20));
    r
}

impl Hashes {
    /// The number of pieces.
    pub fn len(&self) -> (r: usize)
        ensures
            r == self.0@.len(),
    {
        self.0.len()
    }

    /// The digest of piece `idx`.
    pub fn index(&self, idx: usize) -> (r: [u8; 20])
        requires
            idx < self.0@.len(),
        ensures
            r == self.0@[idx as int],
    {
        self.0[idx]
    }

    /// Cuts a byte string into twenty-byte digests; its length must be a
    /// multiple of twenty.
    pub fn from_bytes(v: &[u8]) -> (r: Result<Hashes, HashesError>)
        ensures
            (v@.len() % 20 == 0) == (r is Ok),
            r matches Ok(h) ==> hashes_bytes(h.0@) == v@ && h.0@.len() == v@.len() / 20,
            r matches Err(e) ==> e == (HashesError::BadLength { len: v@.len() as usize }),
    {
        if v.len() % 20 != 0 {
            return Err(HashesError::BadLength { len: v.len() });
        }
        let mut out: Vec<[u8; 20]> = Vec::new();
        let mut at: usize = 0;
        while at < v.len()
            invariant
                at <= v@.len(),
                v@.len() % 20 == 0,
                at % 20 == 0,
                out@.len() == at / 20,
                hashes_bytes(out@) == v@.subrange(0, at as int),
            decreases v@.len() - at,
        {
            let chunk = array20(v, at);
            let ghost before = out@;
            out.push(chunk);
            assert(out@.drop_last() == before);
            assert(v@.subrange(0, at + 20) =~= v@.subrange(0, at as int) + chunk@);
            at = at + 20;
        }
        assert(v@.subrange(0, v@.len() as int) =~= v@);
        Ok(Hashes(out))
    }

    /// The concatenation of the digests.
    pub fn to_bytes(&self) -> (r: Vec<u8>)
        ensures
            r@ == hashes_bytes(self.0@),
    {
        let mut out: Vec<u8> = Vec::new();
        let mut i: usize = 0;
        while i < self.0.len()
            invariant
                i <= self.0@.len(),
                out@ == hashes_bytes(self.0@.subrange(0, i as int)),
            decreases self.0@.len() - i,
        {
            let h: [u8; 20] = self.0[i];
            crate::wire::push_all(&mut out, h.as_slice());
            assert(self.0@.subrange(0, i + 1).drop_last() =~= self.0@.subrange(0, i as int));
            i = i + 1;
        }
        assert(self.0@.subrange(0, self.0@.len() as int) =~= self.0@);
        out
    }
}

} // verus!
