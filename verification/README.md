# bittorrent

A BitTorrent client whose protocol logic is a Verus-verified library.

- `src/` is the library, verified by Verus:
  - `wire` big-endian integers and byte-buffer helpers;
  - `message` the peer wire protocol: message bodies, frames, the handshake;
  - `plan` cutting a length into equal parts (file into pieces, piece into blocks);
  - `download` the per-piece download as a state machine, and the block plan;
  - `digest` SHA-1 of pieces and metainfo, hex and URL encodings, the announce URL;
  - `torrent` metainfo: files, lengths, piece digests;
  - `tracker` announce parameters and peer lists;
  - `pieces` the downloaded pieces in file order;
  - `bencode` turning decoded bencode into JSON.
- `app/` is the command-line program: arguments, files, HTTP to the
  tracker, TCP to peers, and the serde forms of the library's types.
- `tests/` exercises the library on concrete values.
