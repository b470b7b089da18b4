//! Announce requests to a tracker and the peers it answers with.

use vstd::prelude::*;

verus! {

/// The event an announce reports.
#[derive(Debug, Clone, Copy, PartialEq, Eq)]
pub enum Event {
    /// The download has just started.
    Started,
    /// The download has completed.
    Completed,
    /// The download has been stopped, not the same as Completed.
    Stopped,
    /// This is the same as not sending the `event` query parameter.
    Empty,
}

/// The query parameters of an announce request.
#[derive(Debug)]
pub struct Tracker {
    /// A unique id for this client.
    pub peer_id: String,
    /// Optional IPv4 address of the peer, as its four octets.
    pub ip: Option<[u8; 4]>,
    /// The port number this client listens on.
    pub port: u16,
    /// The total amount uploaded.
    pub uploaded: usize,
    /// The total amount downloaded.
    pub downloaded: usize,
    /// The number of bytes left to download.
    pub left: usize,
    /// Should the peer list use the compact representation.
    pub compact: usize,
    /// Optional key that announces the state of the client.
    pub event: Option<Event>,
}

/// The port this client announces.
pub const CLIENT_PORT: u16 = 6881;

impl Tracker {
    /// The first announce for a download of `total_len` bytes: nothing
    /// uploaded or downloaded yet, everything left, compact peer list asked for.
    pub fn new(total_len: usize) -> (r: Self)
        ensures
            r.peer_id@ == "00112233445566778899"@,
            r.ip is None,
            r.port == CLIENT_PORT,
            r.uploaded == 0,
            r.downloaded == 0,
            r.left == total_len,
            r.compact == 1,
            r.event is None,
    {
        Tracker {
            peer_id: String::from_str("00112233445566778899"),
            ip: None,
            port: CLIENT_PORT,
            uploaded: 0,
            downloaded: 0,
            left: total_len,
            compact: 1,
            event: None,
        }
    }
}

/// An IP address: four octets for IPv4, sixteen for IPv6.
#[derive(Debug, Clone, Copy)]
pub enum IpAddress {
    V4([u8; 4]),
    V6([u8; 16]),
}

/// An IP address and a port.
#[derive(Debug, Clone, Copy)]
pub struct SocketAddress {
    pub ip: IpAddress,
    pub port: u16,
}

/// An IPv4 address and a port, as a compact peer list gives them.
#[derive(Debug, Clone, Copy)]
pub struct PeerV4 {
    pub ip: [u8; 4],
    pub port: u16,
}

/// A peer from a tracker's dictionary-form peer list.
#[derive(Debug)]
pub struct Peer {
    pub ip: SocketAddress,
    pub peer_id: String,
}

/// A compact peer list.
#[derive(Debug)]
pub struct Peers(pub Vec<PeerV4>);

/// The two forms a tracker gives its peer list in.
#[derive(Debug)]
pub enum PeersKind {
    Objects(Vec<Peer>),
    Bytes(Peers),
}

/// The socket address of a compact peer entry.
pub open spec fn v4_socket(p: PeerV4) -> SocketAddress {
    SocketAddress { ip: IpAddress::V4(p.ip), port: p.port }
}

/// The peer entry in bytes `6 * i` to `6 * i + 6` of a compact peer list:
/// four address octets, then the port in big-endian order.
pub open spec fn compact_entry(v: Seq<u8>, i: int) -> (Seq<u8>, int) {
    (v.subrange(6 * i, 6 * i + 4), v[6 * i + 4] * 256 + v[6 * i + 5])
}

impl PeersKind {
    /// The socket addresses of the peers, in list order.
    pub fn socket_addr(&self) -> (r: Vec<SocketAddress>)
        ensures
            match self {
                PeersKind::Bytes(peers) => r@ == peers.0@.map_values(|p: PeerV4| v4_socket(p)),
                PeersKind::Objects(peers) => r@ == peers@.map_values(|p: Peer| p.ip),
            },
    {
        let mut out: Vec<SocketAddress> = Vec::new();
        match self {
            PeersKind::Bytes(peers) => {
                let mut i: usize = 0;
                while i < peers.0.len()
                    invariant
                        i <= peers.0@.len(),
                        out@ == peers.0@.subrange(0, i as int).map_values(|p: PeerV4| v4_socket(p)),
                    decreases peers.0@.len() - i,
                {
                    let p = peers.0[i];
                    out.push(SocketAddress { ip: IpAddress::V4(p.ip), port: p.port });
                    assert(out@ =~= peers.0@.subrange(0, i + 1).map_values(|p: PeerV4| v4_socket(p)));
                    i = i + 1;
                }
                assert(peers.0@.subrange(0, peers.0@.len() as int) =~= peers.0@);
            },
            PeersKind::Objects(peers) => {
                let mut i: usize = 0;
                while i < peers.len()
                    invariant
                        i <= peers@.len(),
                        out@ == peers@.subrange(0, i as int).map_values(|p: Peer| p.ip),
                    decreases peers@.len() - i,
                {
                    out.push(peers[i].ip);
                    assert(out@ =~= peers@.subrange(0, i + 1).map_values(|p: Peer| p.ip));
                    i = i + 1;
                }
                assert(peers@.subrange(0, peers@.len() as int) =~= peers@);
            },
        }
        out
    }
}

impl Peers {
    /// Reads a compact peer list: six bytes per peer, trailing bytes that
    /// make no whole entry ignored.
    pub fn from_compact(v: &[u8]) -> (r: Peers)
        ensures
            r.0@.len() == v@.len() / 6,
            forall|i: int|
                0 <= i < r.0@.len() ==> (#[trigger] r.0@[i]).ip@ == compact_entry(v@, i).0
                    && r.0@[i].port == compact_entry(v@, i).1,
    {
        let mut out: Vec<PeerV4> = Vec::new();
        let len = v.len();
        let n = len / 6;
        let mut i: usize = 0;
        while i < n
            invariant
                len == v@.len(),
                n == v@.len() / 6,
                i <= n,
                out@.len() == i,
                forall|k: int|
                    0 <= k < i ==> (#[trigger] out@[k]).ip@ == compact_entry(v@, k).0
                        && out@[k].port == compact_entry(v@, k).1,
            decreases n - i,
        {
            assert(6 * i + 6 <= v@.len()) by (nonlinear_arith)
                requires
                    i < n,
                    n == v@.len() / 6,
            ;
            let at = 6 * i;
            let ip: [u8; 4] = [v[at], v[at + 1], v[at + 2], v[at + 3]];
            assert(ip@ =~= v@.subrange(at as int, at + 4));
            let port = (v[at + 4] as u16) * 256 + (v[at + 5] as u16);
            out.push(PeerV4 { ip, port });
            i = i + 1;
        }
        Peers(out)
    }
}

/// Whether two socket addresses are the same.
pub open spec fn same_address(a: SocketAddress, b: SocketAddress) -> bool {
    &&& a.port == b.port
    &&& match (a.ip, b.ip) {
        (IpAddress::V4(x), IpAddress::V4(y)) => x@ == y@,
        (IpAddress::V6(x), IpAddress::V6(y)) => x@ == y@,
        _ => false,
    }
}

fn same_octets(x: &[u8], y: &[u8]) -> (r: bool)
    ensures
        r == (x@ == y@),
{
    if x.len() != y.len() {
        return false;
    }
    let mut i: usize = 0;
    while i < x.len()
        invariant
            x@.len() == y@.len(),
            i <= x@.len(),
            forall|k: int| 0 <= k < i ==> x@[k] == y@[k],
        decreases x@.len() - i,
    {
        if x[i] != y[i] {
            return false;
        }
        i = i + 1;
    }
    assert(x@ =~= y@);
    true
}

/// Whether two socket addresses are the same.
pub fn same_socket(a: &SocketAddress, b: &SocketAddress) -> (r: bool)
    ensures
        r == same_address(*a, *b),
{
    if a.port != b.port {
        return false;
    }
    match (&a.ip, &b.ip) {
        (IpAddress::V4(x), IpAddress::V4(y)) => same_octets(x.as_slice(), y.as_slice()),
        (IpAddress::V6(x), IpAddress::V6(y)) => same_octets(x.as_slice(), y.as_slice()),
        _ => false,
    }
}

/// The peer to ask for a piece: peers are taken in turn by `key` (the
/// piece index, or any other number), wrapping around the list.
pub fn peer_index(key: usize, n_peers: usize) -> (r: usize)
    requires
        n_peers > 0,
    ensures
        r == key % n_peers,
        r < n_peers,
{
    key % n_peers
}

/// The first peer other than `failed`, to retry a piece with; `None` when
/// every peer is `failed`.
pub fn other_peer(addrs: &[SocketAddress], failed: &SocketAddress) -> (r: Option<usize>)
    ensures
        r matches Some(i) ==> i < addrs@.len() && !same_address(addrs@[i as int], *failed)
            && forall|k: int| 0 <= k < i ==> same_address(#[trigger] addrs@[k], *failed),
        r is None ==> forall|k: int| 0 <= k < addrs@.len() ==> same_address(#[trigger] addrs@[k], *failed),
{
    let mut i: usize = 0;
    while i < addrs.len()
        invariant
            i <= addrs@.len(),
            forall|k: int| 0 <= k < i ==> same_address(#[trigger] addrs@[k], *failed),
        decreases addrs@.len() - i,
    {
        if !same_socket(&addrs[i], failed) {
            return Some(i);
        }
        i = i + 1;
    }
    None
}

} // verus!
