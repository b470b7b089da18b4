use bittorrent::message::{
    frame_len, handshake_bytes, handshake_peer_id, Message, MessageError, MessageKind, MessageTag,
    CHUNK_MAX, HANDSHAKE_LEN,
};

#[test]
fn message_kind_request() {
    let req = MessageKind::new(&[6u8, 0, 0, 0, 3, 0, 0, 0, 7, 0, 0, 2, 154]).unwrap();
    if let MessageKind::Request { index, begin, len } = req {
        assert!(index == 3);
        assert!(begin == 7);
        assert!(len == 666);
    } else {
        panic!("MessageKind did from bytes did not create Request variant")
    }
}

#[test]
fn message_kind_simple_tags() {
    assert!(matches!(MessageKind::new(&[0]).unwrap(), MessageKind::Choke));
    assert!(matches!(MessageKind::new(&[1]).unwrap(), MessageKind::Unchoke));
    assert!(matches!(MessageKind::new(&[2]).unwrap(), MessageKind::Interested));
    assert!(matches!(MessageKind::new(&[3]).unwrap(), MessageKind::NotInterested));
    assert!(matches!(MessageKind::new(&[4, 0, 0, 0, 9]).unwrap(), MessageKind::Have));
    assert!(matches!(MessageKind::new(&[8]).unwrap(), MessageKind::Cancel));
}

#[test]
fn message_kind_invalid_tag() {
    assert_eq!(MessageKind::new(&[9]).unwrap_err(), MessageError::InvalidKind);
    assert_eq!(MessageKind::new(&[255, 1, 2]).unwrap_err(), MessageError::InvalidKind);
}

#[test]
fn message_kind_bitfield_and_piece() {
    match MessageKind::new(&[5, 0xff, 0x0f]).unwrap() {
        MessageKind::Bitfield { field } => assert_eq!(field, vec![0xff, 0x0f]),
        other => panic!("unexpected {:?}", other),
    }
    match MessageKind::new(&[7, 0, 0, 0, 1, 0, 0, 0x40, 0, 0xaa, 0xbb]).unwrap() {
        MessageKind::Piece { index, begin, body } => {
            assert_eq!(index, 1);
            assert_eq!(begin, 0x4000);
            assert_eq!(body, vec![0xaa, 0xbb]);
        }
        other => panic!("unexpected {:?}", other),
    }
    // A piece with an empty body.
    match MessageKind::new(&[7, 0, 0, 0, 0, 0, 0, 0, 0]).unwrap() {
        MessageKind::Piece { body, .. } => assert!(body.is_empty()),
        other => panic!("unexpected {:?}", other),
    }
}

#[test]
fn request_ignores_trailing_bytes() {
    match MessageKind::new(&[6, 0, 0, 0, 1, 0, 0, 0, 2, 0, 0, 0, 3, 99, 98]).unwrap() {
        MessageKind::Request { index, begin, len } => assert_eq!((index, begin, len), (1, 2, 3)),
        other => panic!("unexpected {:?}", other),
    }
}

#[test]
fn message_new_keeps_length() {
    let m = Message::new(13, vec![6, 0, 0, 0, 3, 0, 0, 0, 7, 0, 0, 2, 154]).unwrap();
    assert_eq!(m.len, 13);
    assert_eq!(m.name(), "request");
    assert_eq!(Message::new(1, vec![42]).unwrap_err(), MessageError::InvalidKind);
}

#[test]
fn interested_bytes() {
    let m = Message::interested();
    assert_eq!(m.len, 0);
    assert_eq!(m.name(), "interested");
    assert_eq!(m.as_bytes(), vec![0, 0, 0, 1, 2]);
}

#[test]
fn request_bytes() {
    let m = Message::request(3, 2 * CHUNK_MAX, 666);
    assert_eq!(m.name(), "request");
    assert_eq!(m.as_bytes(), vec![0, 0, 0, 1, 6, 0, 0, 0, 3, 0, 0, 0x80, 0, 0, 0, 2, 154]);
}

#[test]
fn as_bytes_uses_len_plus_one() {
    let m = Message::new(5, vec![5, 1, 2, 3, 4]).unwrap();
    assert_eq!(m.as_bytes(), vec![0, 0, 0, 6, 5, 1, 2, 3, 4]);
    let m = Message::new(0x01020304, vec![7, 0, 0, 0, 1, 0, 0, 0, 2, 9]).unwrap();
    assert_eq!(m.as_bytes(), vec![1, 2, 3, 5, 7, 0, 0, 0, 1, 0, 0, 0, 2, 9]);
}

#[test]
fn names_of_all_kinds() {
    let cases: Vec<(Vec<u8>, &str)> = vec![
        (vec![0], "choke"),
        (vec![1], "unchoke"),
        (vec![2], "interested"),
        (vec![3], "notinterested"),
        (vec![4], "have"),
        (vec![5], "bitfield"),
        (vec![6, 0, 0, 0, 0, 0, 0, 0, 0, 0, 0, 0, 0], "request"),
        (vec![7, 0, 0, 0, 0, 0, 0, 0, 0], "piece"),
        (vec![8], "cancel"),
    ];
    for (body, name) in cases {
        let m = Message::new(body.len() as u32, body).unwrap();
        assert_eq!(m.name(), name);
    }
}

#[test]
fn body_roundtrip_law_examples() {
    // Encoding a body and reading it back gives the same message.
    let bodies: Vec<Vec<u8>> = vec![
        vec![0],
        vec![5, 1, 2, 3],
        vec![6, 0, 0, 0, 7, 0, 1, 0, 0, 0, 0, 0x40, 0],
        vec![7, 0, 0, 0, 7, 0, 1, 0, 0, 10, 20, 30],
    ];
    for body in bodies {
        let m = Message::new(body.len() as u32, body.clone()).unwrap();
        let frame = m.as_bytes();
        assert_eq!(&frame[4..], &body[..]);
        let again = Message::new(body.len() as u32, frame[4..].to_vec()).unwrap();
        assert_eq!(again.as_bytes(), frame);
    }
}

#[test]
fn tags_have_wire_values() {
    assert_eq!(MessageTag::Choke.byte(), 0);
    assert_eq!(MessageTag::Request.byte(), 6);
    assert_eq!(MessageTag::Cancel.byte(), 8);
    assert_eq!(MessageKind::Have.tag(), MessageTag::Have);
}

#[test]
fn frame_len_keep_alive_and_length() {
    assert_eq!(frame_len(&[0, 0, 0, 0]), None);
    assert_eq!(frame_len(&[0, 0, 0, 13]), Some(13));
    assert_eq!(frame_len(&[0, 0, 0x40, 9]), Some(0x4009));
    assert_eq!(frame_len(&[0xff, 0xff, 0xff, 0xff]), Some(u32::MAX));
}

#[test]
fn handshake_layout() {
    let hash = [7u8; 20];
    let id = *b"00112233445566778899";
    let hs = handshake_bytes(&hash, &id);
    assert_eq!(hs.len(), HANDSHAKE_LEN);
    assert_eq!(hs[0], 19);
    assert_eq!(&hs[1..20], b"BitTorrent protocol");
    assert_eq!(&hs[20..28], &[0u8; 8]);
    assert_eq!(&hs[28..48], &hash);
    assert_eq!(&hs[48..68], &id);
    let reply: [u8; 68] = hs.try_into().unwrap();
    assert_eq!(handshake_peer_id(&reply), id.to_vec());
}
