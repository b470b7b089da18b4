//! SHA-1 digests of pieces and metainfo, and their hex and URL encodings.

use sha1::{Digest, Sha1};
use vstd::prelude::*;

verus! {

/// The SHA-1 digest of a byte sequence, as the `sha1` crate computes it.
pub uninterp spec fn sha1_digest(data: Seq<u8>) -> Seq<u8>;

/// Calls `Digest::digest` of the `sha1` crate's `Sha1` hasher on `data`.
/// Trusted: the twenty bytes returned are `sha1_digest` of `data`; the
/// digest itself is not specified here.
#[verifier::external_body]
fn sha1_of(data: &[u8]) -> (r: [u8; 20])
    ensures
        r@ == sha1_digest(data@),
{
    Sha1::digest(data).into()
}

/// The info hash of a torrent: the SHA-1 digest of its bencoded `info` dictionary.
pub fn info_hash(info_bytes: &[u8]) -> (r: [u8; 20])
    ensures
        r@ == sha1_digest(info_bytes@),
{
    sha1_of(info_bytes)
}

/// Whether `data` has the SHA-1 digest `hash`.
pub fn digest_matches(data: &[u8], hash: &[u8; 20]) -> (r: bool)
    ensures
        r == (sha1_digest(data@) == hash@),
{
    let d = sha1_of(data);
    let mut i: usize = 0;
    while i < 20
        invariant
            i <= 20,
            d@ == sha1_digest(data@),
            forall|j: int| 0 <= j < i ==> d@[j] == hash@[j],
        decreases 20 - i,
    {
        if d[i] != hash[i] {
            return false;
        }
        i = i + 1;
    }
    assert(d@ =~= hash@);
    true
}

/// The lower-case hex digit of a number below sixteen.
pub open spec fn hex_digit(n: u8) -> char {
    if n < 10 {
        ('0' as u8 + n) as char
    } else {
        ('a' as u8 + n - 10) as char
    }
}

/// The lower-case hex encoding of a byte sequence, two digits per byte.
pub open spec fn hex_spec(b: Seq<u8>) -> Seq<char>
    decreases b.len(),
{
    if b.len() == 0 {
        Seq::empty()
    } else {
        hex_spec(b.drop_last()) + seq![hex_digit(b.last() / 16), hex_digit(b.last() % 16)]
    }
}

/// The percent-encoding of every byte of `b`: `%` and two lower-case hex digits each.
pub open spec fn urlencode_spec(b: Seq<u8>) -> Seq<char>
    decreases b.len(),
{
    if b.len() == 0 {
        Seq::empty()
    } else {
        urlencode_spec(b.drop_last()) + seq!['%', hex_digit(b.last() / 16), hex_digit(b.last() % 16)]
    }
}

/// The hex digit of `n` as a one-character string.
fn hex_digit_str(n: u8) -> (s: &'static str)
    requires
        n < 16,
    ensures
        s@ == seq![hex_digit(n)],
{
    if n == 0 {
        proof { reveal_strlit("0"); }
        "0"
    } else if n == 1 {
        proof { reveal_strlit("1"); }
        "1"
    } else if n == 2 {
        proof { reveal_strlit("2"); }
        "2"
    } else if n == 3 {
        proof { reveal_strlit("3"); }
        "3"
    } else if n == 4 {
        proof { reveal_strlit("4"); }
        "4"
    } else if n == 5 {
        proof { reveal_strlit("5"); }
        "5"
    } else if n == 6 {
        proof { reveal_strlit("6"); }
        "6"
    } else if n == 7 {
        proof { reveal_strlit("7"); }
        "7"
    } else if n == 8 {
        proof { reveal_strlit("8"); }
        "8"
    } else if n == 9 {
        proof { reveal_strlit("9"); }
        "9"
    } else if n == 10 {
        proof { reveal_strlit("a"); }
        "a"
    } else if n == 11 {
        proof { reveal_strlit("b"); }
        "b"
    } else if n == 12 {
        proof { reveal_strlit("c"); }
        "c"
    } else if n == 13 {
        proof { reveal_strlit("d"); }
        "d"
    } else if n == 14 {
        proof { reveal_strlit("e"); }
        "e"
    } else {
        proof { reveal_strlit("f"); }
        "f"
    }
}

/// The lower-case hex encoding of `bytes`.
pub fn hex_encode(bytes: &[u8]) -> (r: String)
    ensures
        r@ == hex_spec(bytes@),
{
    let mut r = String::new();
    let mut i: usize = 0;
    while i < bytes.len()
        invariant
            i <= bytes@.len(),
            r@ == hex_spec(bytes@.subrange(0, i as int)),
        decreases bytes@.len() - i,
    {
        let b = bytes[i];
        r.append(hex_digit_str(b / 16));
        r.append(hex_digit_str(b % 16));
        assert(bytes@.subrange(0, i + 1).drop_last() =~= bytes@.subrange(0, i as int));
        i = i + 1;
    }
    assert(bytes@.subrange(0, bytes@.len() as int) =~= bytes@);
    r
}

/// Percent-encodes every byte of an info hash, for a tracker query.
pub fn urlencode(t: &[u8; 20]) -> (r: String)
    ensures
        r@ == urlencode_spec(t@),
{
    let mut r = String::new();
    let mut i: usize = 0;
    while i < 20
        invariant
            i <= 20,
            r@ == urlencode_spec(t@.subrange(0, i as int)),
        decreases 20 - i,
    {
        let b = t[i];
        proof { reveal_strlit("%"); }
        r.append("%");
        r.append(hex_digit_str(b / 16));
        r.append(hex_digit_str(b % 16));
        assert(t@.subrange(0, i + 1).drop_last() =~= t@.subrange(0, i as int));
        i = i + 1;
    }
    assert(t@.subrange(0, 20) =~= t@);
    r
}

/// The announce request sent to a tracker: its URL, `?`, the query, and
/// the percent-encoded info hash.
pub open spec fn tracker_url_spec(announce: Seq<char>, query: Seq<char>, hash: Seq<u8>) -> Seq<
    char,
> {
    announce + "?"@ + query + "&info_hash="@ + urlencode_spec(hash)
}

/// Builds the URL of an announce request.
pub fn tracker_url(announce: &str, query: &str, info_hash: &[u8; 20]) -> (r: String)
    ensures
        r@ == tracker_url_spec(announce@, query@, info_hash@),
{
    let mut r = String::new();
    r.append(announce);
    r.append("?");
    r.append(query);
    r.append("&info_hash=");
    let enc = urlencode(info_hash);
    r.append(enc.as_str());
    r
}

} // verus!
