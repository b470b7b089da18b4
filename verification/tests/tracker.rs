use bittorrent::tracker::{
    other_peer, peer_index, same_socket, IpAddress, Peer, PeerV4, Peers, PeersKind, SocketAddress, Tracker,
    CLIENT_PORT,
};

fn v4(a: [u8; 4], port: u16) -> SocketAddress {
    SocketAddress { ip: IpAddress::V4(a), port }
}

#[test]
fn tracker_new_fields() {
    let t = Tracker::new(92063);
    assert_eq!(t.peer_id, "00112233445566778899");
    assert!(t.ip.is_none());
    assert_eq!(t.port, CLIENT_PORT);
    assert_eq!(t.port, 6881);
    assert_eq!((t.uploaded, t.downloaded, t.left, t.compact), (0, 0, 92063, 1));
    assert!(t.event.is_none());
}

#[test]
fn compact_peers() {
    let v = [165, 232, 33, 77, 0xc8, 0x5b, 178, 62, 85, 20, 0xc9, 0x07, 1, 2];
    let p = Peers::from_compact(&v);
    assert_eq!(p.0.len(), 2);
    assert_eq!(p.0[0].ip, [165, 232, 33, 77]);
    assert_eq!(p.0[0].port, 51291);
    assert_eq!(p.0[1].ip, [178, 62, 85, 20]);
    assert_eq!(p.0[1].port, 51463);
    assert_eq!(Peers::from_compact(&[1, 2, 3]).0.len(), 0);
}

#[test]
fn socket_addr_of_both_forms() {
    let kind = PeersKind::Bytes(Peers(vec![PeerV4 { ip: [1, 2, 3, 4], port: 80 }]));
    let a = kind.socket_addr();
    assert_eq!(a.len(), 1);
    assert!(same_socket(&a[0], &v4([1, 2, 3, 4], 80)));
    let six = SocketAddress { ip: IpAddress::V6([0; 16]), port: 1 };
    let kind = PeersKind::Objects(vec![
        Peer { ip: six, peer_id: "a".to_string() },
        Peer { ip: v4([9, 9, 9, 9], 2), peer_id: "b".to_string() },
    ]);
    let a = kind.socket_addr();
    assert_eq!(a.len(), 2);
    assert!(same_socket(&a[0], &six));
    assert!(same_socket(&a[1], &v4([9, 9, 9, 9], 2)));
}

#[test]
fn socket_equality() {
    assert!(same_socket(&v4([1, 1, 1, 1], 5), &v4([1, 1, 1, 1], 5)));
    assert!(!same_socket(&v4([1, 1, 1, 1], 5), &v4([1, 1, 1, 2], 5)));
    assert!(!same_socket(&v4([1, 1, 1, 1], 5), &v4([1, 1, 1, 1], 6)));
    assert!(!same_socket(&v4([0, 0, 0, 0], 5), &SocketAddress { ip: IpAddress::V6([0; 16]), port: 5 }));
}

#[test]
fn peer_choice() {
    assert_eq!(peer_index(7, 3), 1);
    assert_eq!(peer_index(2, 3), 2);
    let addrs = vec![v4([1, 1, 1, 1], 1), v4([2, 2, 2, 2], 2)];
    assert_eq!(other_peer(&addrs, &v4([1, 1, 1, 1], 1)), Some(1));
    assert_eq!(other_peer(&addrs, &v4([2, 2, 2, 2], 2)), Some(0));
    assert_eq!(other_peer(&addrs[..1], &v4([1, 1, 1, 1], 1)), None);
}
