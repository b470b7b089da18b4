//! The peer wire protocol: message bodies, their length-prefixed frames
//! and the opening handshake.

use vstd::prelude::*;

use crate::wire::{
    be_bytes, be_value, copy_range, lemma_be_bytes_of_value, lemma_be_value_of_bytes, push_all,
    u32_from_be, u32_to_be,
};

verus! {

/// The largest block a peer is asked for in one request (16 KiB).
pub const CHUNK_MAX: u32 = 16384;

/// The tag byte that opens every message body.
#[derive(Debug, Clone, Copy, PartialEq, Eq)]
pub enum MessageTag {
    /// After interested message choke is returned until peer is ready.
    Choke,
    /// Unchoke is sent once peer is ready after interested message.
    Unchoke,
    /// Sent to indicate interest in a file.
    Interested,
    /// Sent to indicate client is not interested in a file.
    NotInterested,
    /// Sent to indicate client has piece.
    Have,
    /// A bitfield representing the pieces this peer has.
    Bitfield,
    /// Sent to request a specific piece at a specific byte offset.
    Request,
    /// Sent to request a specific piece.
    Piece,
    /// Sent to cancel a download.
    Cancel,
}

impl MessageTag {
    /// The byte that stands for this tag on the wire.
    pub open spec fn value(self) -> u8 {
        match self {
            MessageTag::Choke => 0,
            MessageTag::Unchoke => 1,
            MessageTag::Interested => 2,
            MessageTag::NotInterested => 3,
            MessageTag::Have => 4,
            MessageTag::Bitfield => 5,
            MessageTag::Request => 6,
            MessageTag::Piece => 7,
            MessageTag::Cancel => 8,
        }
    }

    /// The byte that stands for this tag on the wire.
    pub fn byte(&self) -> (b: u8)
        ensures
            b == self.value(),
    {
        match self {
            MessageTag::Choke => 0,
            MessageTag::Unchoke => 1,
            MessageTag::Interested => 2,
            MessageTag::NotInterested => 3,
            MessageTag::Have => 4,
            MessageTag::Bitfield => 5,
            MessageTag::Request => 6,
            MessageTag::Piece => 7,
            MessageTag::Cancel => 8,
        }
    }
}

/// Why a message body could not be read.
#[derive(Debug, Clone, Copy, PartialEq, Eq)]
pub enum MessageError {
    /// The tag byte names no message kind.
    InvalidKind,
}

/// The kind of a peer message together with its payload.
#[derive(Debug)]
pub enum MessageKind {
    /// After interested message choke is returned until peer is ready.
    Choke,
    /// Unchoke is sent once peer is ready after interested message.
    Unchoke,
    /// Sent to indicate interest in a file.
    Interested,
    /// Sent to indicate client is not interested in a file.
    NotInterested,
    /// Sent to indicate client has piece.
    Have,
    /// A bitfield representing the pieces this peer has.
    Bitfield { field: Vec<u8> },
    /// Sent to request a specific piece at a specific byte offset.
    Request { index: u32, begin: u32, len: u32 },
    /// Sent to request a specific piece.
    Piece { index: u32, begin: u32, body: Vec<u8> },
    /// Sent to cancel a download.
    Cancel,
}

/// The mathematical value of a [`MessageKind`]: its payload bytes as sequences.
pub enum MessageKindView {
    Choke,
    Unchoke,
    Interested,
    NotInterested,
    Have,
    Bitfield { field: Seq<u8> },
    Request { index: u32, begin: u32, len: u32 },
    Piece { index: u32, begin: u32, body: Seq<u8> },
    Cancel,
}

impl View for MessageKind {
    type V = MessageKindView;

    open spec fn view(&self) -> MessageKindView {
        match self {
            MessageKind::Choke => MessageKindView::Choke,
            MessageKind::Unchoke => MessageKindView::Unchoke,
            MessageKind::Interested => MessageKindView::Interested,
            MessageKind::NotInterested => MessageKindView::NotInterested,
            MessageKind::Have => MessageKindView::Have,
            MessageKind::Bitfield { field } => MessageKindView::Bitfield { field: field@ },
            MessageKind::Request { index, begin, len } => MessageKindView::Request {
                index: *index,
                begin: *begin,
                len: *len,
            },
            MessageKind::Piece { index, begin, body } => MessageKindView::Piece {
                index: *index,
                begin: *begin,
                body: body@,
            },
            MessageKind::Cancel => MessageKindView::Cancel,
        }
    }
}

/// The tag of a message kind.
pub open spec fn kind_tag(k: MessageKindView) -> MessageTag {
    match k {
        MessageKindView::Choke => MessageTag::Choke,
        MessageKindView::Unchoke => MessageTag::Unchoke,
        MessageKindView::Interested => MessageTag::Interested,
        MessageKindView::NotInterested => MessageTag::NotInterested,
        MessageKindView::Have => MessageTag::Have,
        MessageKindView::Bitfield { .. } => MessageTag::Bitfield,
        MessageKindView::Request { .. } => MessageTag::Request,
        MessageKindView::Piece { .. } => MessageTag::Piece,
        MessageKindView::Cancel => MessageTag::Cancel,
    }
}

/// The bytes that follow the tag in a message body.
pub open spec fn kind_payload(k: MessageKindView) -> Seq<u8> {
    match k {
        MessageKindView::Bitfield { field } => field,
        MessageKindView::Request { index, begin, len } => be_bytes(index) + be_bytes(begin)
            + be_bytes(len),
        MessageKindView::Piece { index, begin, body } => be_bytes(index) + be_bytes(begin) + body,
        _ => Seq::empty(),
    }
}

/// A message body: the tag byte, then the payload.
pub open spec fn kind_bytes(k: MessageKindView) -> Seq<u8> {
    seq![kind_tag(k).value()] + kind_payload(k)
}

/// The bodies that [`MessageKind::new`] reads without indexing past their end:
/// at least the tag byte, and all the fixed fields of a request or a piece.
pub open spec fn kind_parsable(b: Seq<u8>) -> bool {
    &&& b.len() >= 1
    &&& b[0] == 6 ==> b.len() >= 13
    &&& b[0] == 7 ==> b.len() >= 9
}

/// Whether [`MessageKind::new`] can read `buf`: see [`kind_parsable`].
pub fn body_readable(buf: &[u8]) -> (r: bool)
    ensures
        r == kind_parsable(buf@),
{
    buf.len() >= 1 && (buf[0] != 6 || buf.len() >= 13) && (buf[0] != 7 || buf.len() >= 9)
}

/// The big-endian number held in `b[i..i + 4]`.
pub open spec fn be_field(b: Seq<u8>, i: int) -> u32 {
    be_value(b.subrange(i, i + 4)) as u32
}

/// What a message body reads as. A request ignores bytes after its
/// three fields; the other fixed kinds ignore every byte after the tag.
pub open spec fn parse_kind(b: Seq<u8>) -> Result<MessageKindView, MessageError>
    recommends
        kind_parsable(b),
{
    if b[0] == 0 {
        Ok(MessageKindView::Choke)
    } else if b[0] == 1 {
        Ok(MessageKindView::Unchoke)
    } else if b[0] == 2 {
        Ok(MessageKindView::Interested)
    } else if b[0] == 3 {
        Ok(MessageKindView::NotInterested)
    } else if b[0] == 4 {
        Ok(MessageKindView::Have)
    } else if b[0] == 5 {
        Ok(MessageKindView::Bitfield { field: b.subrange(1, b.len() as int) })
    } else if b[0] == 6 {
        Ok(
            MessageKindView::Request {
                index: be_field(b, 1),
                begin: be_field(b, 5),
                len: be_field(b, 9),
            },
        )
    } else if b[0] == 7 {
        Ok(
            MessageKindView::Piece {
                index: be_field(b, 1),
                begin: be_field(b, 5),
                body: b.subrange(9, b.len() as int),
            },
        )
    } else if b[0] == 8 {
        Ok(MessageKindView::Cancel)
    } else {
        Err(MessageError::InvalidKind)
    }
}

/// The name of a message kind, as [`Message::name`] gives it.
pub open spec fn kind_name(k: MessageKindView) -> Seq<char> {
    match k {
        MessageKindView::Choke => "choke"@,
        MessageKindView::Unchoke => "unchoke"@,
        MessageKindView::Interested => "interested"@,
        MessageKindView::NotInterested => "notinterested"@,
        MessageKindView::Have => "have"@,
        MessageKindView::Bitfield { .. } => "bitfield"@,
        MessageKindView::Request { .. } => "request"@,
        MessageKindView::Piece { .. } => "piece"@,
        MessageKindView::Cancel => "cancel"@,
    }
}

/// Reads the big-endian number in `buf[i..i + 4]`.
fn be_at(buf: &[u8], i: usize) -> (r: u32)
    requires
        i + 4 <= buf@.len(),
    ensures
        r == be_field(buf@, i as int),
{
    let b: [u8; 4] = [buf[i], buf[i + 1], buf[i + 2], buf[i + 3]];
    assert(b@ =~= buf@.subrange(i as int, i + 4));
    u32_from_be(&b)
}

impl MessageKind {
    /// Reads a message body: its first byte is the tag, the rest the payload.
    pub fn new(buf: &[u8]) -> (r: Result<MessageKind, MessageError>)
        requires
            kind_parsable(buf@),
        ensures
            match r {
                Ok(k) => parse_kind(buf@) == Ok::<MessageKindView, MessageError>(k@),
                Err(e) => parse_kind(buf@) == Err::<MessageKindView, MessageError>(e),
            },
    {
        let tag = buf[0];
        if tag == 0 {
            Ok(MessageKind::Choke)
        } else if tag == 1 {
            Ok(MessageKind::Unchoke)
        } else if tag == 2 {
            Ok(MessageKind::Interested)
        } else if tag == 3 {
            Ok(MessageKind::NotInterested)
        } else if tag == 4 {
            Ok(MessageKind::Have)
        } else if tag == 5 {
            Ok(MessageKind::Bitfield { field: copy_range(buf, 1, buf.len()) })
        } else if tag == 6 {
            Ok(MessageKind::Request { index: be_at(buf, 1), begin: be_at(buf, 5), len: be_at(buf, 9) })
        } else if tag == 7 {
            Ok(
                MessageKind::Piece {
                    index: be_at(buf, 1),
                    begin: be_at(buf, 5),
                    body: copy_range(buf, 9, buf.len()),
                },
            )
        } else if tag == 8 {
            Ok(MessageKind::Cancel)
        } else {
            Err(MessageError::InvalidKind)
        }
    }

    /// The tag of this kind.
    pub fn tag(&self) -> (t: MessageTag)
        ensures
            t == kind_tag(self@),
    {
        match self {
            MessageKind::Choke => MessageTag::Choke,
            MessageKind::Unchoke => MessageTag::Unchoke,
            MessageKind::Interested => MessageTag::Interested,
            MessageKind::NotInterested => MessageTag::NotInterested,
            MessageKind::Have => MessageTag::Have,
            MessageKind::Bitfield { .. } => MessageTag::Bitfield,
            MessageKind::Request { .. } => MessageTag::Request,
            MessageKind::Piece { .. } => MessageTag::Piece,
            MessageKind::Cancel => MessageTag::Cancel,
        }
    }
}

/// A peer message: the length it was framed with and its kind.
#[derive(Debug)]
pub struct Message {
    pub len: u32,
    pub msg: MessageKind,
}

impl Message {
    /// Builds a message from a frame's length and its body.
    pub fn new(len: u32, buf: Vec<u8>) -> (r: Result<Message, MessageError>)
        requires
            kind_parsable(buf@),
        ensures
            match r {
                Ok(m) => m.len == len && parse_kind(buf@) == Ok::<
                    MessageKindView,
                    MessageError,
                >(m.msg@),
                Err(e) => parse_kind(buf@) == Err::<MessageKindView, MessageError>(e),
            },
    {
        match MessageKind::new(buf.as_slice()) {
            Ok(msg) => Ok(Message { len, msg }),
            Err(e) => Err(e),
        }
    }

    /// The message that tells a peer we want its pieces.
    pub fn interested() -> (r: Message)
        ensures
            r.len == 0,
            r.msg@ == MessageKindView::Interested,
    {
        Message { len: 0, msg: MessageKind::Interested }
    }

    /// The message that asks a peer for `len` bytes of piece `index` from offset `begin`.
    pub fn request(index: u32, begin: u32, len: u32) -> (r: Message)
        ensures
            r.len == 0,
            r.msg@ == (MessageKindView::Request { index, begin, len }),
    {
        Message { len: 0, msg: MessageKind::Request { index, begin, len } }
    }

    /// The lower-case name of this message's kind.
    pub fn name(&self) -> (r: &str)
        ensures
            r@ == kind_name(self.msg@),
    {
        match self.msg {
            MessageKind::Choke => "choke",
            MessageKind::Unchoke => "unchoke",
            MessageKind::Interested => "interested",
            MessageKind::NotInterested => "notinterested",
            MessageKind::Have => "have",
            MessageKind::Bitfield { .. } => "bitfield",
            MessageKind::Request { .. } => "request",
            MessageKind::Piece { .. } => "piece",
            MessageKind::Cancel => "cancel",
        }
    }

    /// The frame sent for this message: its length plus one as four
    /// big-endian bytes, then the body.
    pub fn as_bytes(&self) -> (r: Vec<u8>)
        requires
            self.len < u32::MAX,
        ensures
            r@ == be_bytes((self.len + 1) as u32) + kind_bytes(self.msg@),
    {
        let mut bytes: Vec<u8> = Vec::new();
        push_all(&mut bytes, u32_to_be(self.len + 1).as_slice());
        let ghost prefix = bytes@;
        bytes.push(self.msg.tag().byte());
        match &self.msg {
            MessageKind::Bitfield { field } => {
                push_all(&mut bytes, field.as_slice());
            },
            MessageKind::Request { index, begin, len } => {
                push_all(&mut bytes, u32_to_be(*index).as_slice());
                push_all(&mut bytes, u32_to_be(*begin).as_slice());
                push_all(&mut bytes, u32_to_be(*len).as_slice());
            },
            MessageKind::Piece { index, begin, body } => {
                push_all(&mut bytes, u32_to_be(*index).as_slice());
                push_all(&mut bytes, u32_to_be(*begin).as_slice());
                push_all(&mut bytes, body.as_slice());
            },
            _ => {},
        }
        assert(bytes@ =~= prefix + kind_bytes(self.msg@));
        bytes
    }
}


/// Encoding a message body and reading it back gives the same message.
pub proof fn lemma_kind_roundtrip(k: MessageKindView)
    ensures
        kind_parsable(kind_bytes(k)),
        parse_kind(kind_bytes(k)) == Ok::<MessageKindView, MessageError>(k),
{
    let b = kind_bytes(k);
    match k {
        MessageKindView::Bitfield { field } => {
            assert(b.subrange(1, b.len() as int) =~= field);
        },
        MessageKindView::Request { index, begin, len } => {
            assert(b.subrange(1, 5) =~= be_bytes(index));
            assert(b.subrange(5, 9) =~= be_bytes(begin));
            assert(b.subrange(9, 13) =~= be_bytes(len));
            lemma_be_value_of_bytes(index);
            lemma_be_value_of_bytes(begin);
            lemma_be_value_of_bytes(len);
        },
        MessageKindView::Piece { index, begin, body } => {
            assert(b.subrange(1, 5) =~= be_bytes(index));
            assert(b.subrange(5, 9) =~= be_bytes(begin));
            assert(b.subrange(9, b.len() as int) =~= body);
            lemma_be_value_of_bytes(index);
            lemma_be_value_of_bytes(begin);
        },
        _ => {},
    }
}

/// A body that begins with the encoding of a message is readable whatever
/// bytes follow it, and reads as a message with the same tag.
pub proof fn lemma_encoded_bodies_readable(k: MessageKindView, rest: Seq<u8>)
    ensures
        kind_parsable(kind_bytes(k) + rest),
        parse_kind(kind_bytes(k) + rest) is Ok,
        kind_tag(parse_kind(kind_bytes(k) + rest)->Ok_0) == kind_tag(k),
{
    let b = kind_bytes(k) + rest;
    assert(b[0] == kind_tag(k).value());
    match k {
        MessageKindView::Request { .. } => {
            assert(b.len() >= 13);
        },
        MessageKindView::Piece { .. } => {
            assert(b.len() >= 9);
        },
        _ => {},
    }
}

/// Which bodies are readable: every body with a tag byte other than a
/// request's or a piece's, whatever its length; a request body with its three
/// fields; a piece body with its index and offset. No empty body is readable,
/// nor a request or piece body cut short.
pub proof fn lemma_readable_bodies(b: Seq<u8>)
    ensures
        b.len() >= 1 && b[0] != 6 && b[0] != 7 ==> kind_parsable(b),
        b.len() >= 13 ==> kind_parsable(b),
        b.len() >= 9 && b[0] == 7 ==> kind_parsable(b),
        b.len() == 0 ==> !kind_parsable(b),
        b.len() >= 1 && b[0] == 6 && b.len() < 13 ==> !kind_parsable(b),
        b.len() >= 1 && b[0] == 7 && b.len() < 9 ==> !kind_parsable(b),
{
}

/// Reading a message body and encoding what was read gives back the body,
/// up to the bytes that the reading ignored: the result is a prefix of the
/// body, and the whole body for a bitfield or a piece.
pub proof fn lemma_parse_encode_prefix(b: Seq<u8>)
    requires
        kind_parsable(b),
        parse_kind(b) is Ok,
    ensures
        kind_bytes(parse_kind(b)->Ok_0).len() <= b.len(),
        kind_bytes(parse_kind(b)->Ok_0) =~= b.subrange(0, kind_bytes(parse_kind(b)->Ok_0).len() as int),
        (parse_kind(b)->Ok_0 is Bitfield || parse_kind(b)->Ok_0 is Piece) ==> kind_bytes(
            parse_kind(b)->Ok_0,
        ) =~= b,
{
    let k = parse_kind(b)->Ok_0;
    if b[0] == 6 || b[0] == 7 {
        lemma_be_bytes_of_value(b.subrange(1, 5));
        lemma_be_bytes_of_value(b.subrange(5, 9));
        if b[0] == 6 {
            lemma_be_bytes_of_value(b.subrange(9, 13));
        }
    }
}

/// The first four bytes of a message's frame give its length plus one.
pub proof fn lemma_frame_length_prefix(len: u32, k: MessageKindView)
    requires
        len < u32::MAX,
    ensures
        be_value((be_bytes((len + 1) as u32) + kind_bytes(k)).subrange(0, 4)) == len + 1,
{
    assert((be_bytes((len + 1) as u32) + kind_bytes(k)).subrange(0, 4) =~= be_bytes(
        (len + 1) as u32,
    ));
    lemma_be_value_of_bytes((len + 1) as u32);
}

/// The length announced by a frame's four-byte prefix; `None` for a
/// keep-alive frame, which announces no body.
pub fn frame_len(prefix: &[u8; 4]) -> (r: Option<u32>)
    ensures
        be_value(prefix@) == 0 ==> r is None,
        be_value(prefix@) != 0 ==> r == Some(be_value(prefix@) as u32),
{
    let n = u32_from_be(prefix);
    if n == 0 {
        None
    } else {
        Some(n)
    }
}

/// The name of the protocol, as it stands in the handshake.
pub open spec fn protocol_name() -> Seq<u8> {
    seq![
        66u8, 105, 116, 84, 111, 114, 114, 101, 110, 116, 32, 112, 114, 111, 116, 111, 99, 111, 108,
    ]
}

/// The handshake sent to a peer: the length of the protocol name, the
/// name, eight reserved zero bytes, the info hash and our peer id.
pub open spec fn handshake_spec(info_hash: Seq<u8>, id: Seq<u8>) -> Seq<u8> {
    seq![19u8] + protocol_name() + Seq::new(8, |i: int| 0u8) + info_hash + id
}

/// The length of a handshake with a 20-byte info hash and a 20-byte peer id.
pub const HANDSHAKE_LEN: usize = 68;

/// Builds the handshake sent to a peer.
pub fn handshake_bytes(info_hash: &[u8], id: &[u8]) -> (r: Vec<u8>)
    ensures
        r@ == handshake_spec(info_hash@, id@),
{
    let mut bytes: Vec<u8> = Vec::new();
    bytes.push(19);
    let name: [u8; 19] = [
        66, 105, 116, 84, 111, 114, 114, 101, 110, 116, 32, 112, 114, 111, 116, 111, 99, 111, 108,
    ];
    assert(name@ =~= protocol_name());
    push_all(&mut bytes, name.as_slice());
    let reserved: [u8; 8] = [0, 0, 0, 0, 0, 0, 0, 0];
    assert(reserved@ =~= Seq::new(8, |i: int| 0u8));
    push_all(&mut bytes, reserved.as_slice());
    push_all(&mut bytes, info_hash);
    push_all(&mut bytes, id);
    assert(bytes@ =~= handshake_spec(info_hash@, id@));
    bytes
}

/// The peer id that closes a handshake: its last twenty bytes.
pub fn handshake_peer_id(reply: &[u8; 68]) -> (r: Vec<u8>)
    ensures
        r@ == reply@.subrange(48, 68),
{
    copy_range(reply.as_slice(), 48, 68)
}

/// A handshake is 68 bytes long, and the info hash and the peer id it
/// was built from stand at bytes 28 to 48 and 48 to 68.
pub proof fn lemma_handshake_layout(info_hash: Seq<u8>, id: Seq<u8>)
    requires
        info_hash.len() == 20,
        id.len() == 20,
    ensures
        handshake_spec(info_hash, id).len() == HANDSHAKE_LEN,
        handshake_spec(info_hash, id).subrange(28, 48) =~= info_hash,
        handshake_spec(info_hash, id).subrange(48, 68) =~= id,
{
}

} // verus!
