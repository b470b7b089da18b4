use bittorrent::digest::info_hash;
use bittorrent::download::{
    chunk_count, chunk_size, client_peer_id, Action, DownloadError, DownloadInfo, Event, PieceDownload,
};
use bittorrent::message::{Message, MessageKind, CHUNK_MAX};
use bittorrent::torrent::{FileType, Hashes, Info};

fn piece_msg(index: u32, begin: u32, body: &[u8]) -> Message {
    let mut b = vec![7u8];
    b.extend_from_slice(&index.to_be_bytes());
    b.extend_from_slice(&begin.to_be_bytes());
    b.extend_from_slice(body);
    Message::new(b.len() as u32, b).unwrap()
}

fn simple(tag: u8) -> Message {
    Message::new(1, vec![tag]).unwrap()
}

fn expect_request(a: &Action, index: u32, begin: u32, len: u32) {
    match a {
        Action::Send(m) => match &m.msg {
            MessageKind::Request { index: i, begin: b, len: l } => {
                assert_eq!((*i, *b, *l), (index, begin, len))
            }
            other => panic!("expected a request, got {:?}", other),
        },
        other => panic!("expected a request, got {:?}", other),
    }
}

fn through_unchoke(info: DownloadInfo) -> (PieceDownload, Action) {
    let (mut d, a) = PieceDownload::new(info);
    assert!(matches!(a, Action::Connect));
    match d.step(Event::Connected) {
        Action::Handshake { info_hash, peer_id } => {
            assert_eq!(info_hash, info.hash);
            assert_eq!(peer_id, client_peer_id());
        }
        other => panic!("unexpected {:?}", other),
    }
    assert!(matches!(d.step(Event::Handshaken), Action::Read));
    match d.step(Event::Received(simple(5))) {
        Action::Send(m) => assert!(matches!(m.msg, MessageKind::Interested)),
        other => panic!("unexpected {:?}", other),
    }
    assert!(matches!(d.step(Event::Sent), Action::Read));
    let a = d.step(Event::Received(simple(1)));
    (d, a)
}

#[test]
fn piece_size_of_last_and_other_pieces() {
    let mut info = DownloadInfo { piece_idx: 0, piece_len: 32768, last_piece: false, file_len: 52768, hash: [0; 20] };
    assert_eq!(info.piece_size(), 32768);
    info.last_piece = true;
    assert_eq!(info.piece_size(), 20000);
    info.file_len = 65536;
    assert_eq!(info.piece_size(), 32768);
}

#[test]
fn chunk_plan_covers_piece() {
    assert_eq!(chunk_count(20000), 2);
    assert_eq!(chunk_size(20000, 2, 0), CHUNK_MAX);
    assert_eq!(chunk_size(20000, 2, 1), 20000 - CHUNK_MAX);
    assert_eq!(chunk_count(32768), 2);
    assert_eq!(chunk_size(32768, 2, 1), CHUNK_MAX);
    assert_eq!(chunk_count(0), 0);
    assert_eq!(chunk_count(1), 1);
    assert_eq!(chunk_size(1, 1, 0), 1);
    for size in [1u32, 100, 16383, 16384, 16385, 50000, 262144] {
        let n = chunk_count(size);
        let total: u32 = (0..n).map(|c| chunk_size(size, n, c)).sum();
        assert_eq!(total, size);
    }
}

#[test]
fn can_plan_rejects_zero_piece_length_for_last_piece() {
    let info = DownloadInfo { piece_idx: 0, piece_len: 0, last_piece: true, file_len: 10, hash: [0; 20] };
    assert!(!info.can_plan());
    let info = DownloadInfo { piece_idx: 0, piece_len: 0, last_piece: false, file_len: 10, hash: [0; 20] };
    assert!(info.can_plan());
    let info = DownloadInfo { piece_idx: 0, piece_len: u32::MAX, last_piece: false, file_len: 10, hash: [0; 20] };
    assert!(!info.can_plan());
}

#[test]
fn full_download_of_two_chunks() {
    let data: Vec<u8> = (0..20000u32).map(|i| (i % 251) as u8).collect();
    let info = DownloadInfo { piece_idx: 1, piece_len: 32768, last_piece: true, file_len: 52768, hash: info_hash(&data) };
    let (mut d, a) = through_unchoke(info);
    expect_request(&a, 1, 0, CHUNK_MAX);
    assert!(matches!(d.step(Event::Sent), Action::Read));
    let a = d.step(Event::Received(piece_msg(1, 0, &data[..16384])));
    expect_request(&a, 1, CHUNK_MAX, 20000 - CHUNK_MAX);
    assert!(matches!(d.step(Event::Sent), Action::Read));
    match d.step(Event::Received(piece_msg(1, CHUNK_MAX, &data[16384..]))) {
        Action::Complete { piece, bytes } => {
            assert_eq!(piece, 1);
            assert_eq!(bytes, data);
        }
        other => panic!("unexpected {:?}", other),
    }
}

#[test]
fn hash_mismatch_fails() {
    let data = vec![1u8; 10];
    let info = DownloadInfo { piece_idx: 4, piece_len: 10, last_piece: false, file_len: 100, hash: [0; 20] };
    let (mut d, a) = through_unchoke(info);
    expect_request(&a, 4, 0, 10);
    assert!(matches!(d.step(Event::Sent), Action::Read));
    match d.step(Event::Received(piece_msg(4, 0, &data))) {
        Action::Fail(DownloadError::HashMismatch { piece }) => assert_eq!(piece, 4),
        other => panic!("unexpected {:?}", other),
    }
}

#[test]
fn choke_fails_and_connect_failure_retries() {
    let info = DownloadInfo { piece_idx: 0, piece_len: 10, last_piece: false, file_len: 10, hash: [0; 20] };
    let (mut d, _) = PieceDownload::new(info);
    assert!(matches!(d.step(Event::ConnectFailed), Action::Retry));

    let (mut d, _) = PieceDownload::new(info);
    d.step(Event::Connected);
    assert!(matches!(d.step(Event::HandshakeFailed), Action::Retry));

    let (mut d, _) = PieceDownload::new(info);
    d.step(Event::Connected);
    d.step(Event::Handshaken);
    d.step(Event::Received(simple(5)));
    d.step(Event::Sent);
    assert!(matches!(d.step(Event::Received(simple(0))), Action::Fail(DownloadError::Choked)));
}

#[test]
fn unexpected_message_and_transport_failures() {
    let info = DownloadInfo { piece_idx: 0, piece_len: 10, last_piece: false, file_len: 10, hash: [0; 20] };
    let (mut d, _) = through_unchoke(info);
    d.step(Event::Sent);
    match d.step(Event::Received(simple(4))) {
        Action::Fail(DownloadError::UnexpectedMessage(m)) => assert_eq!(m.name(), "have"),
        other => panic!("unexpected {:?}", other),
    }
    let (mut d, _) = through_unchoke(info);
    assert!(matches!(d.step(Event::SendFailed), Action::Fail(DownloadError::Transport)));
    let (mut d, _) = PieceDownload::new(info);
    d.step(Event::Connected);
    d.step(Event::Handshaken);
    assert!(matches!(d.step(Event::ReceiveFailed), Action::Fail(DownloadError::Transport)));
}

#[test]
fn empty_piece_completes_without_requests() {
    // A piece of length zero has no blocks: its digest is checked at once.
    let info = DownloadInfo { piece_idx: 0, piece_len: 0, last_piece: false, file_len: 0, hash: info_hash(&[]) };
    let (_, a) = through_unchoke(info);
    match a {
        Action::Complete { piece, bytes } => {
            assert_eq!(piece, 0);
            assert!(bytes.is_empty());
        }
        other => panic!("unexpected {:?}", other),
    }
}

#[test]
fn can_step_refuses_bitfield_after_interest_and_wrong_events() {
    let info = DownloadInfo { piece_idx: 0, piece_len: 10, last_piece: false, file_len: 10, hash: [0; 20] };
    let (mut d, _) = PieceDownload::new(info);
    assert!(!d.can_step(&Event::Sent));
    assert!(d.can_step(&Event::Connected));
    d.step(Event::Connected);
    d.step(Event::Handshaken);
    d.step(Event::Received(simple(5)));
    d.step(Event::Sent);
    assert!(!d.can_step(&Event::Received(simple(5))));
    assert!(d.can_step(&Event::Received(simple(1))));
    assert_eq!(d.info().piece_idx, 0);
}

#[test]
fn for_piece_gathers_torrent_data() {
    let info = Info {
        file: FileType::Single { length: 52768 },
        name: "f".to_string(),
        piece_len: 32768,
        pieces: Hashes(vec![[1; 20], [2; 20]]),
    };
    let d0 = DownloadInfo::for_piece(&info, 0);
    assert_eq!((d0.piece_idx, d0.piece_len, d0.last_piece, d0.file_len), (0, 32768, false, 52768));
    assert_eq!(d0.hash, [1; 20]);
    let d1 = DownloadInfo::for_piece(&info, 1);
    assert!(d1.last_piece);
    assert_eq!(d1.hash, [2; 20]);
    // The pieces cover the file exactly.
    assert_eq!(d0.piece_size() + d1.piece_size(), 52768);
}

#[test]
fn download_ends_within_two_steps_per_block_plus_six() {
    // Answer every action as a cooperative peer would, and count the steps.
    let data: Vec<u8> = (0..40000u32).map(|i| (i % 7) as u8).collect();
    let info = DownloadInfo { piece_idx: 0, piece_len: 40000, last_piece: false, file_len: 40000, hash: info_hash(&data) };
    let blocks = chunk_count(info.piece_size());
    assert_eq!(blocks, 3);
    let (mut d, mut a) = PieceDownload::new(info);
    let mut steps = 0u32;
    let mut offset = 0usize;
    loop {
        let ev = match a {
            Action::Connect => Event::Connected,
            Action::Handshake { .. } => Event::Handshaken,
            Action::Read => match d.phase() {
                bittorrent::download::Phase::AwaitingPiece { chunk } => {
                    let len = chunk_size(info.piece_size(), blocks, chunk) as usize;
                    let m = piece_msg(0, offset as u32, &data[offset..offset + len]);
                    offset += len;
                    Event::Received(m)
                }
                bittorrent::download::Phase::AwaitingUnchoke => Event::Received(simple(1)),
                _ => Event::Received(simple(5)),
            },
            Action::Send(_) => Event::Sent,
            Action::Complete { bytes, .. } => {
                assert_eq!(bytes, data);
                break;
            }
            other => panic!("unexpected {:?}", other),
        };
        a = d.step(ev);
        steps += 1;
    }
    assert!(steps <= 2 * blocks + 6);
    assert_eq!(steps, 2 * blocks + 5);
}
