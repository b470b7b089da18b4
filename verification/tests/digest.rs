use bittorrent::digest::{digest_matches, hex_encode, info_hash, tracker_url, urlencode};

#[test]
fn sha1_known_vectors() {
    assert_eq!(hex_encode(&info_hash(b"abc")), "a9993e364706816aba3e25717850c26c9cd0d89d");
    assert_eq!(hex_encode(&info_hash(b"")), "da39a3ee5e6b4b0d3255bfef95601890afd80709");
    assert_eq!(hex_encode(&info_hash(b"hello world")), "2aae6c35c94fcfb415dbe95f408b9ce91ee846ed");
}

#[test]
fn digest_matches_only_the_right_digest() {
    let h = info_hash(b"piece");
    assert!(digest_matches(b"piece", &h));
    assert!(!digest_matches(b"piecf", &h));
    let mut wrong = h;
    wrong[19] ^= 1;
    assert!(!digest_matches(b"piece", &wrong));
}

#[test]
fn hex_encoding() {
    assert_eq!(hex_encode(&[]), "");
    assert_eq!(hex_encode(&[0x00, 0x0f, 0xa0, 0xff]), "000fa0ff");
}

#[test]
fn urlencode_every_byte() {
    let mut t = [0u8; 20];
    t[0] = 0xd6;
    t[1] = 0x9f;
    t[19] = 0x0a;
    let s = urlencode(&t);
    assert_eq!(s.len(), 60);
    assert!(s.starts_with("%d6%9f%00"));
    assert!(s.ends_with("%00%0a"));
}

#[test]
fn tracker_url_layout() {
    let url = tracker_url("http://t.example/announce", "port=6881&left=5", &[0xab; 20]);
    let expected = format!("http://t.example/announce?port=6881&left=5&info_hash={}", "%ab".repeat(20));
    assert_eq!(url, expected);
}
