//! Downloading one piece from one peer: the plan of block requests and the
//! decisions taken between the network operations, as a state machine.
//! The caller performs each [`Action`] and reports what happened as an [`Event`].

use vstd::prelude::*;

use crate::digest::{digest_matches, sha1_digest};
use crate::message::{CHUNK_MAX, Message, MessageKind, MessageKindView};
use crate::plan::{last_part_size, lemma_parts_cover, part_count, part_size, parts_total};
use crate::torrent::Info;

verus! {

/// The peer id this client announces: the ASCII text `00112233445566778899`.
pub open spec fn client_peer_id_spec() -> Seq<u8> {
    seq![
        48u8, 48, 49, 49, 50, 50, 51, 51, 52, 52, 53, 53, 54, 54, 55, 55, 56, 56, 57, 57,
    ]
}

/// The peer id this client announces to trackers and peers.
pub fn client_peer_id() -> (r: [u8; 20])
    ensures
        r@ == client_peer_id_spec(),
{
    let r: [u8; 20] = [48, 48, 49, 49, 50, 50, 51, 51, 52, 52, 53, 53, 54, 54, 55, 55, 56, 56, 57, 57];
    assert(r@ =~= client_peer_id_spec());
    r
}

/// Everything needed to download and check one piece.
#[derive(Debug, Clone, Copy)]
pub struct DownloadInfo {
    pub piece_idx: u32,
    pub piece_len: u32,
    pub last_piece: bool,
    pub file_len: u32,
    pub hash: [u8; 20],
}

impl DownloadInfo {
    /// The size of the piece: the nominal piece length, or for the last
    /// piece what is left of the file.
    pub open spec fn size_spec(&self) -> int {
        if self.last_piece {
            last_part_size(self.file_len as int, self.piece_len as int)
        } else {
            self.piece_len as int
        }
    }

    /// Whether the block plan of this piece can be computed: the last piece
    /// needs a non-zero piece length, and the size rounded up to whole
    /// blocks must fit in 32 bits.
    pub open spec fn plannable(&self) -> bool {
        &&& self.last_piece ==> self.piece_len > 0
        &&& self.size_spec() + CHUNK_MAX - 1 <= u32::MAX
    }

    /// How many blocks the piece is requested in.
    pub open spec fn chunks_spec(&self) -> int {
        part_count(self.size_spec(), CHUNK_MAX as int)
    }

    /// The request for block `chunk` of the piece.
    pub open spec fn request_spec(&self, chunk: int) -> MessageKindView {
        MessageKindView::Request {
            index: self.piece_idx,
            begin: (chunk * CHUNK_MAX) as u32,
            len: part_size(self.size_spec(), CHUNK_MAX as int, chunk) as u32,
        }
    }

    /// The size of the piece.
    pub fn piece_size(&self) -> (r: u32)
        requires
            self.last_piece ==> self.piece_len > 0,
        ensures
            r == self.size_spec(),
    {
        if self.last_piece {
            let left_over = self.file_len % self.piece_len;
            if left_over == 0 {
                self.piece_len
            } else {
                left_over
            }
        } else {
            self.piece_len
        }
    }

    /// Whether the block plan of this piece can be computed.
    pub fn can_plan(&self) -> (r: bool)
        ensures
            r == self.plannable(),
    {
        if self.last_piece && self.piece_len == 0 {
            return false;
        }
        let size = self.piece_size();
        size <= u32::MAX - (CHUNK_MAX - 1)
    }
}

/// What is needed to download piece `idx` of a torrent.
pub open spec fn piece_info(info: Info, idx: int) -> DownloadInfo {
    DownloadInfo {
        piece_idx: idx as u32,
        piece_len: info.piece_len as u32,
        last_piece: idx == info.pieces.0@.len() - 1,
        file_len: info.total_len() as u32,
        hash: info.pieces.0@[idx],
    }
}

impl DownloadInfo {
    /// Gathers what is needed to download piece `idx` of a torrent: its
    /// index, the piece length and the file length (both cut to 32 bits),
    /// whether it is the last piece, and its digest.
    pub fn for_piece(info: &Info, idx: usize) -> (r: DownloadInfo)
        requires
            idx < info.pieces.0@.len(),
            info.total_len() <= usize::MAX,
        ensures
            r == piece_info(*info, idx as int),
    {
        let last_piece = idx == info.pieces.len() - 1;
        DownloadInfo {
            piece_idx: idx as u32,
            piece_len: info.piece_len as u32,
            last_piece,
            file_len: info.file_len() as u32,
            hash: info.pieces.index(idx),
        }
    }
}

/// When a torrent has one digest per piece of its content, the pieces
/// cover the content exactly: piece `i` is the `i`-th part of the
/// content cut into pieces of the piece length, and the pieces together
/// are as long as the content.
pub proof fn lemma_pieces_cover_file(info: Info)
    requires
        0 < info.piece_len <= u32::MAX,
        0 <= info.total_len() <= u32::MAX,
        info.pieces.0@.len() == part_count(info.total_len(), info.piece_len as int),
    ensures
        forall|i: int|
            0 <= i < info.pieces.0@.len() ==> #[trigger] piece_info(info, i).size_spec() == part_size(
                info.total_len(),
                info.piece_len as int,
                i,
            ),
        parts_total(info.total_len(), info.piece_len as int, info.pieces.0@.len()) == info.total_len(),
{
    lemma_parts_cover(info.total_len(), info.piece_len as int);
}

/// The block requests of a piece cover it exactly: request `c` asks for
/// the block at offset `c * CHUNK_MAX`, every block holds between one and
/// `CHUNK_MAX` bytes, each block starts where the ones before it end, and
/// all the blocks together are as long as the piece.
pub proof fn lemma_requests_cover_piece(info: DownloadInfo)
    requires
        info.plannable(),
    ensures
        forall|c: int|
            0 <= c < info.chunks_spec() ==> {
                let r = #[trigger] info.request_spec(c);
                &&& r matches MessageKindView::Request { index, begin, len } && index == info.piece_idx
                    && begin == c * CHUNK_MAX && 0 < len <= CHUNK_MAX
                &&& parts_total(info.size_spec(), CHUNK_MAX as int, c as nat) == c * CHUNK_MAX
            },
        parts_total(info.size_spec(), CHUNK_MAX as int, info.chunks_spec() as nat) == info.size_spec(),
{
    if info.last_piece {
        assert(0 <= info.file_len % info.piece_len < info.piece_len);
    }
    lemma_parts_cover(info.size_spec(), CHUNK_MAX as int);
    assert forall|c: int| 0 <= c < info.chunks_spec() implies {
        let r = #[trigger] info.request_spec(c);
        &&& r matches MessageKindView::Request { index, begin, len } && index == info.piece_idx
            && begin == c * CHUNK_MAX && 0 < len <= CHUNK_MAX
        &&& parts_total(info.size_spec(), CHUNK_MAX as int, c as nat) == c * CHUNK_MAX
    } by {
        assert(parts_total(info.size_spec(), CHUNK_MAX as int, c as nat) == c * CHUNK_MAX);
        assert(0 < part_size(info.size_spec(), CHUNK_MAX as int, c) <= CHUNK_MAX);
        assert(c * CHUNK_MAX <= info.size_spec());
    }
}

/// The length asked for by the request for block `c`.
pub open spec fn request_len(info: DownloadInfo, c: int) -> int {
    match info.request_spec(c) {
        MessageKindView::Request { len, .. } => len as int,
        _ => 0,
    }
}

/// The bytes asked for by the requests for the first `n` blocks.
pub open spec fn requested_total(info: DownloadInfo, n: nat) -> int
    decreases n,
{
    if n == 0 {
        0
    } else {
        requested_total(info, (n - 1) as nat) + request_len(info, n - 1)
    }
}

/// The size of a piece from the torrent's numbers: the piece length, or
/// for the last piece the rest of the file when it is shorter.
pub open spec fn piece_bytes(info: DownloadInfo) -> int {
    if info.last_piece && info.file_len % info.piece_len != 0 {
        (info.file_len % info.piece_len) as int
    } else {
        info.piece_len as int
    }
}

/// The block requests of a piece ask for the whole piece and nothing
/// more: the number of blocks is the piece size divided by `CHUNK_MAX`,
/// rounded up; request `c` asks piece `piece_idx` for the block at
/// offset `c * CHUNK_MAX`, of `CHUNK_MAX` bytes for every block but the
/// last, which gets what is left of the piece; so the requested lengths
/// add up to the piece size.
pub proof fn lemma_request_lengths(info: DownloadInfo)
    requires
        info.plannable(),
    ensures
        info.size_spec() == piece_bytes(info),
        info.chunks_spec() * CHUNK_MAX >= piece_bytes(info),
        info.chunks_spec() > 0 ==> (info.chunks_spec() - 1) * CHUNK_MAX < piece_bytes(info),
        piece_bytes(info) == 0 ==> info.chunks_spec() == 0,
        forall|c: int|
            0 <= c < info.chunks_spec() ==> (#[trigger] info.request_spec(c) matches MessageKindView::Request {
                index,
                begin,
                len,
            } && index == info.piece_idx && begin == c * CHUNK_MAX && len == (if c + 1 < info.chunks_spec() {
                CHUNK_MAX as int
            } else {
                piece_bytes(info) - c * CHUNK_MAX
            })),
        requested_total(info, info.chunks_spec() as nat) == piece_bytes(info),
{
    lemma_requests_cover_piece(info);
    let size = info.size_spec();
    let k = info.chunks_spec();
    let unit = CHUNK_MAX as int;
    lemma_parts_cover(size, unit);
    assert forall|n: nat| n <= k implies #[trigger] requested_total(info, n) == parts_total(size, unit, n) by {
        lemma_requested_total_parts(info, n);
    }
    if k > 0 {
        let m = (k - 1) as nat;
        assert(parts_total(size, unit, m) == m * unit);
        assert(parts_total(size, unit, k as nat) == parts_total(size, unit, m) + part_size(size, unit, m as int));
        assert(0 < part_size(size, unit, m as int) <= unit);
        assert(k * unit == m * unit + unit);
    } else {
        assert(size == 0);
    }
    assert forall|c: int| 0 <= c < k implies (#[trigger] info.request_spec(c) matches MessageKindView::Request {
        index,
        begin,
        len,
    } && index == info.piece_idx && begin == c * CHUNK_MAX && len == (if c + 1 < k {
        CHUNK_MAX as int
    } else {
        piece_bytes(info) - c * CHUNK_MAX
    })) by {
        if c + 1 == k {
            assert(parts_total(size, unit, k as nat) == parts_total(size, unit, c as nat) + part_size(size, unit, c));
        }
    }
}

proof fn lemma_requested_total_parts(info: DownloadInfo, n: nat)
    requires
        info.plannable(),
        n <= info.chunks_spec(),
    ensures
        requested_total(info, n) == parts_total(info.size_spec(), CHUNK_MAX as int, n),
    decreases n,
{
    if n > 0 {
        lemma_requested_total_parts(info, (n - 1) as nat);
        lemma_requests_cover_piece(info);
        lemma_parts_cover(info.size_spec(), CHUNK_MAX as int);
        assert(0 < part_size(info.size_spec(), CHUNK_MAX as int, n - 1) <= CHUNK_MAX);
    }
}

/// A piece whose length is non-zero and leaves room for rounding up to
/// whole blocks in 32 bits can always be planned, last piece or not: the
/// last piece is never longer than the others. A piece that is not the
/// last can be planned only then.
pub proof fn lemma_plannable_pieces(info: DownloadInfo)
    ensures
        0 < info.piece_len <= u32::MAX - (CHUNK_MAX - 1) ==> info.plannable(),
        info.piece_len > 0 ==> 0 <= info.size_spec() <= info.piece_len,
        !info.last_piece ==> (info.plannable() <==> info.piece_len <= u32::MAX - (CHUNK_MAX - 1)),
{
    if info.piece_len > 0 {
        assert(0 <= info.file_len % info.piece_len < info.piece_len);
    }
}

/// The number of blocks a piece of `piece_size` bytes is requested in.
pub fn chunk_count(piece_size: u32) -> (r: u32)
    requires
        piece_size + CHUNK_MAX - 1 <= u32::MAX,
    ensures
        r == part_count(piece_size as int, CHUNK_MAX as int),
{
    (piece_size + (CHUNK_MAX - 1)) / CHUNK_MAX
}

/// The size of block `chunk` of a piece of `piece_size` bytes cut into `num_chunks` blocks.
pub fn chunk_size(piece_size: u32, num_chunks: u32, chunk: u32) -> (r: u32)
    requires
        num_chunks == part_count(piece_size as int, CHUNK_MAX as int),
        chunk < num_chunks,
    ensures
        r == part_size(piece_size as int, CHUNK_MAX as int, chunk as int),
{
    if chunk == num_chunks - 1 {
        let left_over = piece_size % CHUNK_MAX;
        if left_over == 0 {
            CHUNK_MAX
        } else {
            left_over
        }
    } else {
        CHUNK_MAX
    }
}

/// Why a piece download ended without the piece.
#[derive(Debug)]
pub enum DownloadError {
    /// Reading from or writing to the peer failed.
    Transport,
    /// The peer answered our interest with a choke.
    Choked,
    /// The peer answered a block request with another kind of message.
    UnexpectedMessage(Message),
    /// The received piece does not have the expected SHA-1 digest.
    HashMismatch { piece: u32 },
}

/// Where a piece download stands.
#[derive(Debug, Clone, Copy, PartialEq, Eq)]
pub enum Phase {
    /// Waiting for the connection to the peer.
    Connecting,
    /// Waiting for the peer's handshake.
    Handshaking,
    /// Waiting for the peer's first message (its bitfield).
    AwaitingBitfield,
    /// Sending our interest.
    SendingInterested,
    /// Waiting for the answer to our interest.
    AwaitingUnchoke,
    /// Sending the request for a block.
    Requesting { chunk: u32 },
    /// Waiting for a requested block.
    AwaitingPiece { chunk: u32 },
    /// The download is over.
    Done,
}

/// What happened to the last action.
#[derive(Debug)]
pub enum Event {
    Connected,
    ConnectFailed,
    Handshaken,
    HandshakeFailed,
    Sent,
    SendFailed,
    Received(Message),
    ReceiveFailed,
}

/// What the caller has to do next.
#[derive(Debug)]
pub enum Action {
    /// Open a connection to the peer.
    Connect,
    /// Exchange handshakes with this info hash and peer id.
    Handshake { info_hash: [u8; 20], peer_id: [u8; 20] },
    /// Read the next message from the peer.
    Read,
    /// Send this message to the peer.
    Send(Message),
    /// This peer cannot be reached: try the piece with another one.
    Retry,
    /// The download failed.
    Fail(DownloadError),
    /// The piece was downloaded and its digest checked.
    Complete { piece: u32, bytes: Vec<u8> },
}

/// The events that are answers to the action taken in `phase`.
pub open spec fn answers(phase: Phase, event: Event) -> bool {
    match phase {
        Phase::Connecting => event is Connected || event is ConnectFailed,
        Phase::Handshaking => event is Handshaken || event is HandshakeFailed,
        Phase::SendingInterested | Phase::Requesting { .. } => event is Sent || event is SendFailed,
        Phase::AwaitingBitfield | Phase::AwaitingUnchoke | Phase::AwaitingPiece { .. } => event is Received
            || event is ReceiveFailed,
        Phase::Done => false,
    }
}

/// Whether `a` sends the request for block `chunk` and moves to `post`.
pub open spec fn requests(info: DownloadInfo, chunk: int, post: Phase, a: Action) -> bool {
    &&& post == Phase::Requesting { chunk: chunk as u32 }
    &&& a matches Action::Send(m) && m.len == 0 && m.msg@ == info.request_spec(chunk)
}

/// Whether `a` ends the download of the received `data`: complete when
/// its digest is the expected one, failed otherwise.
pub open spec fn finishes(info: DownloadInfo, data: Seq<u8>, post: Phase, a: Action) -> bool {
    &&& post is Done
    &&& if sha1_digest(data) == info.hash@ {
        a matches Action::Complete { piece, bytes } && piece == info.piece_idx && bytes@ == data
    } else {
        a == Action::Fail(DownloadError::HashMismatch { piece: info.piece_idx })
    }
}

/// One step of a piece download: from `phase` with the received bytes
/// `data`, the answer `event` leads to `post` with `post_data`, and the
/// caller is told to do `a`.
pub open spec fn step_spec(
    info: DownloadInfo,
    phase: Phase,
    data: Seq<u8>,
    event: Event,
    post: Phase,
    post_data: Seq<u8>,
    a: Action,
) -> bool {
    match phase {
        Phase::Connecting => if event is Connected {
            &&& post is Handshaking
            &&& post_data == data
            &&& a matches Action::Handshake { info_hash, peer_id } && info_hash == info.hash
                && peer_id@ == client_peer_id_spec()
        } else {
            post is Done && a is Retry
        },
        Phase::Handshaking => if event is Handshaken {
            post is AwaitingBitfield && post_data == data && a is Read
        } else {
            post is Done && a is Retry
        },
        Phase::AwaitingBitfield => if event is Received {
            &&& post is SendingInterested
            &&& post_data == data
            &&& a matches Action::Send(m) && m.len == 0 && m.msg@ == MessageKindView::Interested
        } else {
            post is Done && a == Action::Fail(DownloadError::Transport)
        },
        Phase::SendingInterested => if event is Sent {
            post is AwaitingUnchoke && post_data == data && a is Read
        } else {
            post is Done && a == Action::Fail(DownloadError::Transport)
        },
        Phase::AwaitingUnchoke => match event {
            Event::Received(m) => if m.msg is Choke {
                post is Done && a == Action::Fail(DownloadError::Choked)
            } else if info.chunks_spec() == 0 {
                post_data == data && finishes(info, data, post, a)
            } else {
                post_data == data && requests(info, 0, post, a)
            },
            _ => post is Done && a == Action::Fail(DownloadError::Transport),
        },
        Phase::Requesting { chunk } => if event is Sent {
            post == Phase::AwaitingPiece { chunk } && post_data == data && a is Read
        } else {
            post is Done && a == Action::Fail(DownloadError::Transport)
        },
        Phase::AwaitingPiece { chunk } => match event {
            Event::Received(m) => match m.msg {
                MessageKind::Piece { body, .. } => {
                    &&& post_data == data + body@
                    &&& if chunk + 1 < info.chunks_spec() {
                        requests(info, chunk + 1, post, a)
                    } else {
                        finishes(info, post_data, post, a)
                    }
                },
                _ => post is Done && a == Action::Fail(DownloadError::UnexpectedMessage(m)),
            },
            _ => post is Done && a == Action::Fail(DownloadError::Transport),
        },
        Phase::Done => false,
    }
}

/// A piece download in progress.
pub struct PieceDownload {
    info: DownloadInfo,
    phase: Phase,
    piece_size: u32,
    num_chunks: u32,
    data: Vec<u8>,
    blocks: Ghost<Seq<Seq<u8>>>,
}

impl PieceDownload {
    /// The piece being downloaded.
    pub closed spec fn info_spec(&self) -> DownloadInfo {
        self.info
    }

    /// Where the download stands.
    pub closed spec fn phase_spec(&self) -> Phase {
        self.phase
    }

    /// The bytes received so far.
    pub closed spec fn data_spec(&self) -> Seq<u8> {
        self.data@
    }

    /// The blocks received so far, in order.
    pub closed spec fn blocks_spec(&self) -> Seq<Seq<u8>> {
        self.blocks@
    }

    /// The invariant of a download: the received bytes are the received
    /// blocks one after the other; while blocks are requested, the plan
    /// is computable, one block was received per block requested before
    /// the current one, and the current block is in the plan.
    pub closed spec fn wf(&self) -> bool {
        &&& self.data@ == self.blocks@.flatten_alt()
        &&& match self.phase {
            Phase::Requesting { chunk } | Phase::AwaitingPiece { chunk } => {
                &&& self.info.plannable()
                &&& self.piece_size == self.info.size_spec()
                &&& self.num_chunks == self.info.chunks_spec()
                &&& chunk < self.num_chunks
                &&& self.blocks@.len() == chunk
            },
            Phase::Done => true,
            _ => self.blocks@.len() == 0,
        }
    }

    /// How many steps the download can still take at most: two per block
    /// still to fetch (its request and its answer) and one per step of the
    /// opening exchange.
    pub open spec fn steps_left(&self) -> int {
        let k = if self.info_spec().chunks_spec() >= 0 {
            self.info_spec().chunks_spec()
        } else {
            0
        };
        match self.phase_spec() {
            Phase::Connecting => 2 * k + 6,
            Phase::Handshaking => 2 * k + 5,
            Phase::AwaitingBitfield => 2 * k + 4,
            Phase::SendingInterested => 2 * k + 3,
            Phase::AwaitingUnchoke => 2 * k + 2,
            Phase::Requesting { chunk } => 2 * (k - chunk) + 1,
            Phase::AwaitingPiece { chunk } => 2 * (k - chunk),
            Phase::Done => 0,
        }
    }

    /// Whether `event` may be handed to [`PieceDownload::step`]: it answers
    /// the current action, and, when it lets the block plan be computed, the
    /// plan is computable and the answer to our interest is not a bitfield.
    pub open spec fn accepts(&self, event: Event) -> bool {
        &&& answers(self.phase_spec(), event)
        &&& self.phase_spec() is AwaitingUnchoke ==> match event {
            Event::Received(m) => !(m.msg is Bitfield) && (!(m.msg is Choke)
                ==> self.info_spec().plannable()),
            _ => true,
        }
    }

    /// Starts the download of a piece: the first action is to connect.
    pub fn new(info: DownloadInfo) -> (r: (PieceDownload, Action))
        ensures
            r.0.wf(),
            r.0.info_spec() == info,
            r.0.phase_spec() is Connecting,
            r.0.blocks_spec().len() == 0,
            r.0.data_spec().len() == 0,
            r.1 is Connect,
    {
        let d = PieceDownload {
            info,
            phase: Phase::Connecting,
            piece_size: 0,
            num_chunks: 0,
            data: Vec::new(),
            blocks: Ghost(Seq::empty()),
        };
        assert(d.data@ =~= d.blocks@.flatten_alt());
        (d, Action::Connect)
    }

    /// The piece being downloaded.
    pub fn info(&self) -> (r: DownloadInfo)
        ensures
            r == self.info_spec(),
    {
        self.info
    }

    /// Where the download stands.
    pub fn phase(&self) -> (r: Phase)
        ensures
            r == self.phase_spec(),
    {
        self.phase
    }

    /// Whether [`PieceDownload::step`] accepts `event`.
    pub fn can_step(&self, event: &Event) -> (r: bool)
        ensures
            r == self.accepts(*event),
    {
        let answered = match self.phase {
            Phase::Connecting => matches!(event, Event::Connected | Event::ConnectFailed),
            Phase::Handshaking => matches!(event, Event::Handshaken | Event::HandshakeFailed),
            Phase::SendingInterested | Phase::Requesting { .. } => matches!(event, Event::Sent | Event::SendFailed),
            Phase::AwaitingBitfield | Phase::AwaitingUnchoke | Phase::AwaitingPiece { .. } => matches!(
                event,
                Event::Received(_) | Event::ReceiveFailed
            ),
            Phase::Done => false,
        };
        if !answered {
            return false;
        }
        match (self.phase, event) {
            (Phase::AwaitingUnchoke, Event::Received(m)) => match m.msg {
                MessageKind::Bitfield { .. } => false,
                MessageKind::Choke => true,
                _ => self.info.can_plan(),
            },
            _ => true,
        }
    }

    /// Checks the received piece and ends the download.
    fn finish(&mut self) -> (a: Action)
        requires
            old(self).wf(),
        ensures
            final(self).info == old(self).info,
            final(self).data@ == old(self).data@,
            final(self).blocks@ == old(self).blocks@,
            final(self).wf(),
            finishes(final(self).info, final(self).data@, final(self).phase, a),
    {
        self.phase = Phase::Done;
        if digest_matches(self.data.as_slice(), &self.info.hash) {
            let bytes = self.data.clone();
            proof {
                assert(bytes@ =~= self.data@);
            }
            Action::Complete { piece: self.info.piece_idx, bytes }
        } else {
            Action::Fail(DownloadError::HashMismatch { piece: self.info.piece_idx })
        }
    }

    /// Asks for block `chunk`.
    fn request(&mut self, chunk: u32) -> (a: Action)
        requires
            old(self).info.plannable(),
            old(self).piece_size == old(self).info.size_spec(),
            old(self).num_chunks == old(self).info.chunks_spec(),
            chunk < old(self).num_chunks,
            old(self).blocks@.len() == chunk,
            old(self).data@ == old(self).blocks@.flatten_alt(),
        ensures
            final(self).info == old(self).info,
            final(self).data@ == old(self).data@,
            final(self).blocks@ == old(self).blocks@,
            final(self).piece_size == old(self).piece_size,
            final(self).num_chunks == old(self).num_chunks,
            final(self).wf(),
            requests(final(self).info, chunk as int, final(self).phase, a),
    {
        proof {
            lemma_parts_cover(self.piece_size as int, CHUNK_MAX as int);
        }
        let len = chunk_size(self.piece_size, self.num_chunks, chunk);
        self.phase = Phase::Requesting { chunk };
        Action::Send(Message::request(self.info.piece_idx, chunk * CHUNK_MAX, len))
    }

    /// Takes the answer to the last action and gives the next one.
    pub fn step(&mut self, event: Event) -> (a: Action)
        requires
            old(self).wf(),
            old(self).accepts(event),
        ensures
            final(self).wf(),
            final(self).info_spec() == old(self).info_spec(),
            0 <= final(self).steps_left() < old(self).steps_left(),
            step_spec(
                old(self).info_spec(),
                old(self).phase_spec(),
                old(self).data_spec(),
                event,
                final(self).phase_spec(),
                final(self).data_spec(),
                a,
            ),
            a matches Action::Complete { bytes, .. } ==> {
                &&& bytes@ == final(self).blocks_spec().flatten_alt()
                &&& final(self).blocks_spec().len() == old(self).info_spec().chunks_spec()
                &&& sha1_digest(bytes@) == old(self).info_spec().hash@
            },
    {
        match self.phase {
            Phase::Connecting => {
                if let Event::Connected = event {
                    self.phase = Phase::Handshaking;
                    Action::Handshake { info_hash: self.info.hash, peer_id: client_peer_id() }
                } else {
                    self.phase = Phase::Done;
                    Action::Retry
                }
            },
            Phase::Handshaking => {
                if let Event::Handshaken = event {
                    self.phase = Phase::AwaitingBitfield;
                    Action::Read
                } else {
                    self.phase = Phase::Done;
                    Action::Retry
                }
            },
            Phase::AwaitingBitfield => {
                if let Event::Received(_) = event {
                    self.phase = Phase::SendingInterested;
                    Action::Send(Message::interested())
                } else {
                    self.phase = Phase::Done;
                    Action::Fail(DownloadError::Transport)
                }
            },
            Phase::SendingInterested => {
                if let Event::Sent = event {
                    self.phase = Phase::AwaitingUnchoke;
                    Action::Read
                } else {
                    self.phase = Phase::Done;
                    Action::Fail(DownloadError::Transport)
                }
            },
            Phase::AwaitingUnchoke => {
                match event {
                    Event::Received(m) => {
                        if let MessageKind::Choke = m.msg {
                            self.phase = Phase::Done;
                            Action::Fail(DownloadError::Choked)
                        } else {
                            let size = self.info.piece_size();
                            self.piece_size = size;
                            self.num_chunks = chunk_count(size);
                            if self.num_chunks == 0 {
                                self.finish()
                            } else {
                                self.request(0)
                            }
                        }
                    },
                    _ => {
                        self.phase = Phase::Done;
                        Action::Fail(DownloadError::Transport)
                    },
                }
            },
            Phase::Requesting { chunk } => {
                if let Event::Sent = event {
                    self.phase = Phase::AwaitingPiece { chunk };
                    Action::Read
                } else {
                    self.phase = Phase::Done;
                    Action::Fail(DownloadError::Transport)
                }
            },
            Phase::AwaitingPiece { chunk } => {
                match event {
                    Event::Received(m) => {
                        if let MessageKind::Piece { body, .. } = &m.msg {
                            push_all_vec(&mut self.data, body);
                            proof {
                                self.blocks@ = self.blocks@.push(body@);
                                assert(self.blocks@.drop_last() =~= old(self).blocks@);
                            }
                            if chunk + 1 < self.num_chunks {
                                self.request(chunk + 1)
                            } else {
                                self.phase = Phase::Done;
                                self.finish()
                            }
                        } else {
                            self.phase = Phase::Done;
                            Action::Fail(DownloadError::UnexpectedMessage(m))
                        }
                    },
                    _ => {
                        self.phase = Phase::Done;
                        Action::Fail(DownloadError::Transport)
                    },
                }
            },
            Phase::Done => {
                Action::Retry
            },
        }
    }
}

/// Appends the bytes of `s` to `v`.
fn push_all_vec(v: &mut Vec<u8>, s: &Vec<u8>)
    ensures
        final(v)@ == old(v)@ + s@,
{
    crate::wire::push_all(v, s.as_slice());
}

} // verus!
