//! The downloaded pieces, kept ordered by piece index so that they can be
//! written out in file order.

use vstd::prelude::*;

use crate::wire::push_all;

verus! {

/// Lexicographic order on byte sequences: a proper prefix comes first.
pub open spec fn bytes_lt(a: Seq<u8>, b: Seq<u8>) -> bool
    decreases a.len(),
{
    if a.len() == 0 {
        b.len() > 0
    } else if b.len() == 0 {
        false
    } else if a[0] != b[0] {
        a[0] < b[0]
    } else {
        bytes_lt(a.drop_first(), b.drop_first())
    }
}

/// The order of downloaded pieces: by index, then by content.
pub open spec fn entry_lt(a: (u32, Seq<u8>), b: (u32, Seq<u8>)) -> bool {
    a.0 < b.0 || (a.0 == b.0 && bytes_lt(a.1, b.1))
}

/// Whether a list of pieces is strictly increasing, so that no piece occurs twice.
pub open spec fn strictly_sorted(s: Seq<(u32, Seq<u8>)>) -> bool {
    forall|i: int, j: int| 0 <= i < j < s.len() ==> entry_lt(#[trigger] s[i], #[trigger] s[j])
}

/// The byte order is transitive.
pub proof fn lemma_bytes_lt_transitive(a: Seq<u8>, b: Seq<u8>, c: Seq<u8>)
    requires
        bytes_lt(a, b),
        bytes_lt(b, c),
    ensures
        bytes_lt(a, c),
    decreases a.len(),
{
    if a.len() > 0 && b.len() > 0 && c.len() > 0 && a[0] == b[0] && b[0] == c[0] {
        lemma_bytes_lt_transitive(a.drop_first(), b.drop_first(), c.drop_first());
    }
}

/// Two byte sequences are equal or one comes before the other, and never both.
pub proof fn lemma_bytes_lt_total(a: Seq<u8>, b: Seq<u8>)
    ensures
        a == b || bytes_lt(a, b) || bytes_lt(b, a),
        !(bytes_lt(a, b) && bytes_lt(b, a)),
        !bytes_lt(a, a),
    decreases a.len(),
{
    if a.len() > 0 && b.len() > 0 {
        lemma_bytes_lt_total(a.drop_first(), b.drop_first());
        if a[0] == b[0] && a.drop_first() == b.drop_first() {
            assert(a =~= seq![a[0]] + a.drop_first());
            assert(b =~= seq![b[0]] + b.drop_first());
        }
    } else if a.len() > 0 {
        lemma_bytes_lt_total(a.drop_first(), a.drop_first());
    } else if b.len() == 0 {
        assert(a =~= b);
    }
}

proof fn lemma_index_lower(s: Seq<(u32, Seq<u8>)>, i: int)
    requires
        forall|a: int, b: int| 0 <= a < b < s.len() ==> s[a].0 < s[b].0,
        0 <= i < s.len(),
    ensures
        s[i].0 >= i,
    decreases i,
{
    if i > 0 {
        lemma_index_lower(s, i - 1);
    }
}

proof fn lemma_index_upper(s: Seq<(u32, Seq<u8>)>, i: int)
    requires
        forall|a: int, b: int| 0 <= a < b < s.len() ==> s[a].0 < s[b].0,
        forall|a: int| 0 <= a < s.len() ==> s[a].0 < s.len(),
        0 <= i < s.len(),
    ensures
        s[i].0 <= i,
    decreases s.len() - i,
{
    if i < s.len() - 1 {
        lemma_index_upper(s, i + 1);
    }
}

/// When every piece of a torrent with `s.len()` pieces was downloaded
/// once, the ordered pieces stand in file order: entry `i` is piece `i`,
/// so the assembled content is the pieces one after the other.
pub proof fn lemma_complete_set_in_file_order(s: Seq<(u32, Seq<u8>)>)
    requires
        strictly_sorted(s),
        forall|a: int, b: int| 0 <= a < b < s.len() ==> #[trigger] s[a].0 != #[trigger] s[b].0,
        forall|a: int| 0 <= a < s.len() ==> #[trigger] s[a].0 < s.len(),
    ensures
        forall|i: int| 0 <= i < s.len() ==> #[trigger] s[i].0 == i,
{
    assert forall|a: int, b: int| 0 <= a < b < s.len() implies s[a].0 < s[b].0 by {
        assert(entry_lt(s[a], s[b]));
    }
    assert forall|i: int| 0 <= i < s.len() implies #[trigger] s[i].0 == i by {
        lemma_index_lower(s, i);
        lemma_index_upper(s, i);
    }
}

/// Whether `a` comes before `b`.
fn bytes_less(a: &[u8], b: &[u8]) -> (r: bool)
    ensures
        r == bytes_lt(a@, b@),
{
    let mut i: usize = 0;
    assert(a@.skip(0) =~= a@);
    assert(b@.skip(0) =~= b@);
    while i < a.len() && i < b.len()
        invariant
            i <= a@.len(),
            i <= b@.len(),
            bytes_lt(a@, b@) == bytes_lt(a@.skip(i as int), b@.skip(i as int)),
        decreases a@.len() - i,
    {
        if a[i] != b[i] {
            return a[i] < b[i];
        }
        assert(a@.skip(i as int).drop_first() =~= a@.skip(i + 1));
        assert(b@.skip(i as int).drop_first() =~= b@.skip(i + 1));
        i = i + 1;
    }
    i == a.len() && i < b.len()
}

/// Whether `a` and `b` hold the same bytes.
fn bytes_equal(a: &[u8], b: &[u8]) -> (r: bool)
    ensures
        r == (a@ == b@),
{
    if a.len() != b.len() {
        return false;
    }
    let mut i: usize = 0;
    while i < a.len()
        invariant
            a@.len() == b@.len(),
            i <= a@.len(),
            forall|k: int| 0 <= k < i ==> a@[k] == b@[k],
        decreases a@.len() - i,
    {
        if a[i] != b[i] {
            return false;
        }
        i = i + 1;
    }
    assert(a@ =~= b@);
    true
}

/// The contents of a list of pieces, one after the other.
pub open spec fn assembled(s: Seq<(u32, Seq<u8>)>) -> Seq<u8>
    decreases s.len(),
{
    if s.len() == 0 {
        Seq::empty()
    } else {
        assembled(s.drop_last()) + s.last().1
    }
}

/// The downloaded pieces: each piece with its content, in increasing
/// order of index (and of content, for a piece downloaded twice with
/// different contents), none twice.
///
/// A sorted vector holds them rather than a `BTreeSet<(u32, Vec<u8>)>`:
/// vstd specifies `BTreeSet` only for keys that obey its ordering laws
/// (`obeys_cmp`), and it gives those laws for integers and tuples of such
/// keys but not for `Vec<u8>`, so with these keys not even `insert` says
/// what the set holds afterwards. The order is stated and proved here
/// instead (`bytes_lt`, `entry_lt`).
pub struct PieceSet {
    entries: Vec<(u32, Vec<u8>)>,
}

impl View for PieceSet {
    type V = Seq<(u32, Seq<u8>)>;

    /// The pieces, in order.
    closed spec fn view(&self) -> Seq<(u32, Seq<u8>)> {
        self.entries@.map_values(|e: (u32, Vec<u8>)| (e.0, e.1@))
    }
}

impl PieceSet {

    /// The pieces are in strictly increasing order.
    pub closed spec fn wf(&self) -> bool {
        strictly_sorted(self.view())
    }

    /// No pieces yet.
    pub fn new() -> (r: PieceSet)
        ensures
            r.wf(),
            r.view() == Seq::<(u32, Seq<u8>)>::empty(),
    {
        let r = PieceSet { entries: Vec::new() };
        assert(r.view() =~= Seq::<(u32, Seq<u8>)>::empty());
        r
    }

    /// The number of pieces held.
    pub fn len(&self) -> (r: usize)
        ensures
            r == self.view().len(),
    {
        self.entries.len()
    }

    /// Adds a downloaded piece, unless the same piece with the same
    /// content is already held; the order is kept.
    pub fn insert(&mut self, piece: u32, bytes: Vec<u8>)
        requires
            old(self).wf(),
        ensures
            final(self).wf(),
            old(self).view().contains((piece, bytes@)) ==> final(self).view() == old(self).view(),
            !old(self).view().contains((piece, bytes@)) ==> exists|i: int|
                0 <= i <= old(self).view().len() && final(self).view() == old(self).view().insert(
                    i,
                    (piece, bytes@),
                ),
    {
        let ghost v = self.view();
        let ghost e = (piece, bytes@);
        let mut i: usize = 0;
        while i < self.entries.len() && entry_before(&self.entries[i], piece, bytes.as_slice())
            invariant
                v == self.view(),
                e == (piece, bytes@),
                strictly_sorted(v),
                i <= v.len(),
                forall|k: int| 0 <= k < i ==> entry_lt(#[trigger] v[k], e),
            decreases v.len() - i,
        {
            assert(v[i as int] == (self.entries@[i as int].0, self.entries@[i as int].1@));
            i = i + 1;
        }
        if i < self.entries.len() && self.entries[i].0 == piece && bytes_equal(
            self.entries[i].1.as_slice(),
            bytes.as_slice(),
        ) {
            assert(v[i as int] == e);
            return;
        }
        proof {
            assert forall|j: int| i <= j < v.len() implies entry_lt(e, #[trigger] v[j]) by {
                lemma_entry_total(v[i as int], e);
                if j > i {
                    lemma_entry_transitive(e, v[i as int], v[j]);
                }
            }
            assert forall|k: int| 0 <= k < v.len() implies v[k] != e by {
                lemma_entry_total(e, e);
            }
        }
        self.entries.insert(i, (piece, bytes));
        proof {
            let w = v.insert(i as int, e);
            assert(self.view() =~= w);
            assert forall|a: int, b: int| 0 <= a < b < w.len() implies entry_lt(
                #[trigger] w[a],
                #[trigger] w[b],
            ) by {
                if a < i && b > i {
                    lemma_entry_transitive(v[a], e, v[b - 1]);
                }
            }
            assert(!v.contains(e));
        }
    }

    /// The contents of all the pieces, in order.
    pub fn assemble(&self) -> (r: Vec<u8>)
        ensures
            r@ == assembled(self.view()),
    {
        let mut out: Vec<u8> = Vec::new();
        let mut i: usize = 0;
        while i < self.entries.len()
            invariant
                i <= self.view().len(),
                out@ == assembled(self.view().subrange(0, i as int)),
            decreases self.view().len() - i,
        {
            push_all(&mut out, self.entries[i].1.as_slice());
            assert(self.view().subrange(0, i + 1).drop_last() =~= self.view().subrange(0, i as int));
            i = i + 1;
        }
        assert(self.view().subrange(0, self.view().len() as int) =~= self.view());
        out
    }
}

/// Whether the entry comes before the piece `piece` with content `bytes`.
fn entry_before(entry: &(u32, Vec<u8>), piece: u32, bytes: &[u8]) -> (r: bool)
    ensures
        r == entry_lt((entry.0, entry.1@), (piece, bytes@)),
{
    entry.0 < piece || (entry.0 == piece && bytes_less(entry.1.as_slice(), bytes))
}

proof fn lemma_entry_transitive(a: (u32, Seq<u8>), b: (u32, Seq<u8>), c: (u32, Seq<u8>))
    requires
        entry_lt(a, b),
        entry_lt(b, c),
    ensures
        entry_lt(a, c),
{
    if a.0 == b.0 && b.0 == c.0 {
        lemma_bytes_lt_transitive(a.1, b.1, c.1);
    }
}

proof fn lemma_entry_total(a: (u32, Seq<u8>), b: (u32, Seq<u8>))
    ensures
        a == b || entry_lt(a, b) || entry_lt(b, a),
        !(entry_lt(a, b) && entry_lt(b, a)),
        !entry_lt(a, a),
{
    lemma_bytes_lt_total(a.1, b.1);
    lemma_bytes_lt_total(a.1, a.1);
}

} // verus!
