//! A BitTorrent client library: the peer wire protocol, piece download
//! planning and checking, torrent metainfo and tracker data.

pub mod bencode;
pub mod digest;
pub mod download;
pub mod message;
pub mod pieces;
pub mod plan;
pub mod torrent;
pub mod tracker;
pub mod wire;
