//! Off-wire protocol layer of a BitTorrent client: content identifiers
//! (legacy SHA-1 and self-describing multihash), magnet-link parsing,
//! metadata-exchange control messages, and the UDP tracker protocol
//! (request encoding, response decoding, and the retry/backoff state
//! machine with transaction correlation).

pub mod hex;
pub mod infohash;
pub mod magnet;
pub mod metadata;
pub mod metainfo;
pub mod text;
pub mod tracker;
pub mod util;
pub mod wire;
