//! Metadata-exchange control messages: the three message kinds used to
//! fetch a torrent's metadata from a peer, and their one-byte wire
//! tags. The surrounding extension-envelope framing is a collaborator's
//! concern.

use vstd::prelude::*;

verus! {

/// A metadata-exchange control message: a request for a metadata
/// piece, one piece's raw bytes, or a peer's refusal.
#[derive(Debug)]
pub enum Message {
    Request,
    Data(Vec<u8>),
    Reject,
}

impl Message {
    /// The one-byte wire tag of the message kind.
    pub open spec fn spec_tag(&self) -> u8 {
        match self {
            Message::Request => 0,
            Message::Data(_) => 1,
            Message::Reject => 2,
        }
    }

    /// The one-byte wire tag of the message kind: requests are 0, data
    /// pieces 1, rejections 2.
    pub fn tag(&self) -> (r: u8)
        ensures
            r == self.spec_tag(),
    {
        match self {
            Message::Request => 0,
            Message::Data(_) => 1,
            Message::Reject => 2,
        }
    }
}

} // verus!
