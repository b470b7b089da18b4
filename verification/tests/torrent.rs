use bittorrent::torrent::{File, FileType, Hashes, HashesError, Info};

fn info_with(file: FileType) -> Info {
    Info { file, name: "x".to_string(), piece_len: 16, pieces: Hashes(vec![]) }
}

#[test]
fn file_len_single_and_multi() {
    assert_eq!(info_with(FileType::Single { length: 92063 }).file_len(), 92063);
    let files = vec![
        File { length: 10, path: vec!["a".to_string()] },
        File { length: 32, path: vec!["b".to_string(), "c".to_string()] },
        File { length: 0, path: vec!["d".to_string()] },
    ];
    assert_eq!(info_with(FileType::Multi { files }).file_len(), 42);
    assert_eq!(info_with(FileType::Multi { files: vec![] }).file_len(), 0);
}

#[test]
fn hashes_from_bytes_cuts_twenty_byte_digests() {
    let mut v = vec![1u8; 20];
    v.extend_from_slice(&[2u8; 20]);
    let h = Hashes::from_bytes(&v).unwrap();
    assert_eq!(h.len(), 2);
    assert_eq!(h.index(0), [1u8; 20]);
    assert_eq!(h.index(1), [2u8; 20]);
    assert_eq!(Hashes::from_bytes(&[]).unwrap().len(), 0);
}

#[test]
fn hashes_bad_length() {
    assert_eq!(Hashes::from_bytes(&[0u8; 21]).unwrap_err(), HashesError::BadLength { len: 21 });
    assert_eq!(Hashes::from_bytes(&[0u8; 19]).unwrap_err(), HashesError::BadLength { len: 19 });
}

#[test]
fn hashes_roundtrip_law_examples() {
    let v: Vec<u8> = (0..60u8).collect();
    let h = Hashes::from_bytes(&v).unwrap();
    assert_eq!(h.to_bytes(), v);
    let h2 = Hashes(vec![[9; 20], [8; 20], [7; 20]]);
    let back = Hashes::from_bytes(&h2.to_bytes()).unwrap();
    assert_eq!(back.0, h2.0);
}
