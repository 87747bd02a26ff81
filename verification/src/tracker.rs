//! The UDP tracker client: Connect/Announce/Scrape requests and their
//! fixed-layout datagrams, response decoding with transaction
//! correlation, and the retry/backoff state machine that drives one
//! request/response exchange. The datagram I/O itself is a caller's
//! loop: it sends what the state machine hands out and feeds back what
//! arrived (or that nothing did).

use vstd::prelude::*;
use vstd::slice::{slice_subrange, slice_to_vec};

use crate::infohash::InfoHash;
use crate::util::{PeerId, SocketAddr};
use crate::wire::{
    be16, be32, be64, bm_into_vec, bm_new, bm_put_slice, bm_put_u16, bm_put_u32, bm_put_u64,
    read_u16_be, read_u32_be, read_u64_be, u16_be, u32_be, u64_be,
};

verus! {

/// The magic protocol identifier that opens every Connect request.
pub const PROTOCOL_ID: u64 = 0x41727101980;

/// Relies on `rand::random`: a value drawn from the thread-local
/// generator; nothing can be promised of it.
pub assume_specification<T>[ rand::random::<T> ]() -> (r: T)
    where rand::distributions::Standard: rand::distributions::Distribution<T>,
;

/// A tracker-issued connection credential, valid for two minutes.
#[derive(Clone, Copy, Debug)]
pub struct ConnId(pub u64);

/// A client-chosen token that matches a response to its request.
#[derive(Clone, Copy, Debug, PartialEq, Eq, Structural)]
pub struct TxnId(pub u32);

impl TxnId {
    /// A freshly drawn transaction id.
    pub fn fresh() -> TxnId {
        TxnId(rand::random::<u32>())
    }
}

/// The client's transfer totals reported in an Announce request.
#[derive(Clone, Copy, Debug)]
pub struct Status {
    pub downloaded: u64,
    pub left: u64,
    pub uploaded: u64,
}

/// The announce event: the protocol's "none" value (for a periodic
/// re-announce that reports no event) and the three reported events.
#[derive(Clone, Copy, Debug, PartialEq, Eq, Structural)]
pub enum Event {
    Idle,
    Completed,
    Started,
    Stopped,
}

impl Event {
    /// The wire value of the event: none 0, completed 1, started 2,
    /// stopped 3.
    pub open spec fn spec_wire(self) -> u32 {
        match self {
            Event::Idle => 0,
            Event::Completed => 1,
            Event::Started => 2,
            Event::Stopped => 3,
        }
    }

    /// The wire value of the event (see [`Self::spec_wire`]).
    pub fn wire(&self) -> (r: u32)
        ensures
            r == self.spec_wire(),
    {
        match self {
            Event::Idle => 0,
            Event::Completed => 1,
            Event::Started => 2,
            Event::Stopped => 3,
        }
    }
}

/// The body of a request, by kind.
pub enum RequestParts {
    Connect,
    Announce {
        conn_id: ConnId,
        info_hash: InfoHash,
        peer_id: PeerId,
        status: Status,
        event: Event,
        addr: SocketAddr,
        key: u32,
        num_want: Option<u32>,
    },
    Scrape { conn_id: ConnId, info_hash: InfoHash },
}

/// A request with the transaction id it will carry.
pub struct Request {
    pub txn_id: TxnId,
    pub parts: RequestParts,
}

/// The wire action code of a request kind: connect 0, announce 1,
/// scrape 2.
pub open spec fn action_of(parts: RequestParts) -> u32 {
    match parts {
        RequestParts::Connect => 0,
        RequestParts::Announce { .. } => 1,
        RequestParts::Scrape { .. } => 2,
    }
}

/// The `num_want` field's wire value: the request's own, or the
/// all-ones "default size" sentinel where none was given.
pub open spec fn spec_num_want(o: Option<u32>) -> u32 {
    match o {
        Some(n) => n,
        None => 0xffffffff,
    }
}

/// A request this wire format can carry: the fixed twenty-byte
/// info-hash field fits only a twenty-byte digest.
pub open spec fn request_wf(req: Request) -> bool {
    match req.parts {
        RequestParts::Connect => true,
        RequestParts::Announce { info_hash, .. } => info_hash.value@.len() == 20,
        RequestParts::Scrape { info_hash, .. } => info_hash.value@.len() == 20,
    }
}

/// The exact datagram a request encodes to: sixteen bytes for Connect
/// (magic, action 0, transaction id), ninety-eight for Announce,
/// thirty-six for Scrape, every multi-byte field big-endian.
pub open spec fn spec_encode(req: Request) -> Seq<u8> {
    match req.parts {
        RequestParts::Connect => u64_be(PROTOCOL_ID) + u32_be(0) + u32_be(req.txn_id.0),
        RequestParts::Announce {
            conn_id,
            info_hash,
            peer_id,
            status,
            event,
            addr,
            key,
            num_want,
        } => u64_be(conn_id.0) + u32_be(1) + u32_be(req.txn_id.0) + info_hash.value@ + peer_id.0@
            + u64_be(status.downloaded) + u64_be(status.left) + u64_be(status.uploaded) + u32_be(
            event.spec_wire(),
        ) + u32_be(addr.spec_ip4()) + u32_be(key) + u32_be(spec_num_want(num_want)) + u16_be(
            addr.spec_port(),
        ),
        RequestParts::Scrape { conn_id, info_hash } => u64_be(conn_id.0) + u32_be(2) + u32_be(
            req.txn_id.0,
        ) + info_hash.value@,
    }
}

impl Request {
    /// A request under a freshly drawn transaction id.
    pub fn new(parts: RequestParts) -> (r: Request)
        ensures
            r.parts == parts,
    {
        Request { parts, txn_id: TxnId::fresh() }
    }

    /// Encodes the request to its fixed-layout datagram.
    pub fn encode(&self) -> (r: Vec<u8>)
        requires
            request_wf(*self),
        ensures
            r@ == spec_encode(*self),
    {
        let mut b = bm_new(98);
        match &self.parts {
            RequestParts::Connect => {
                bm_put_u64(&mut b, PROTOCOL_ID);
                bm_put_u32(&mut b, 0);
                bm_put_u32(&mut b, self.txn_id.0);
            },
            RequestParts::Announce {
                conn_id,
                info_hash,
                peer_id,
                status,
                event,
                addr,
                key,
                num_want,
            } => {
                bm_put_u64(&mut b, conn_id.0);
                bm_put_u32(&mut b, 1);
                bm_put_u32(&mut b, self.txn_id.0);
                bm_put_slice(&mut b, info_hash.value.as_slice());
                bm_put_slice(&mut b, peer_id.0.as_slice());
                bm_put_u64(&mut b, status.downloaded);
                bm_put_u64(&mut b, status.left);
                bm_put_u64(&mut b, status.uploaded);
                bm_put_u32(&mut b, event.wire());
                bm_put_u32(&mut b, addr.ip4());
                bm_put_u32(&mut b, *key);
                let nw = match num_want {
                    Some(n) => *n,
                    None => 0xffffffff,
                };
                bm_put_u32(&mut b, nw);
                bm_put_u16(&mut b, addr.port());
            },
            RequestParts::Scrape { conn_id, info_hash } => {
                bm_put_u64(&mut b, conn_id.0);
                bm_put_u32(&mut b, 2);
                bm_put_u32(&mut b, self.txn_id.0);
                bm_put_slice(&mut b, info_hash.value.as_slice());
            },
        }
        proof {
            assert(crate::wire::bm_bytes(b) =~= spec_encode(*self));
        }
        bm_into_vec(b)
    }
}

/// Law: a Connect request encodes to exactly sixteen bytes — the magic
/// protocol identifier, the action code zero, then the transaction id.
pub proof fn lemma_connect_encoding(req: Request)
    requires
        req.parts is Connect,
    ensures
        spec_encode(req).len() == 16,
        spec_encode(req).subrange(0, 8) == u64_be(PROTOCOL_ID),
        spec_encode(req).subrange(8, 12) == u32_be(0),
        spec_encode(req).subrange(12, 16) == u32_be(req.txn_id.0),
{
    assert(spec_encode(req).subrange(0, 8) =~= u64_be(PROTOCOL_ID));
    assert(spec_encode(req).subrange(8, 12) =~= u32_be(0));
    assert(spec_encode(req).subrange(12, 16) =~= u32_be(req.txn_id.0));
}

/// Law: an Announce request encodes to exactly ninety-eight bytes, and
/// bytes sixteen to thirty-six are the twenty-byte legacy digest.
pub proof fn lemma_announce_encoding(req: Request)
    requires
        request_wf(req),
        req.parts is Announce,
    ensures
        spec_encode(req).len() == 98,
        req.parts matches RequestParts::Announce { info_hash, .. } ==> spec_encode(req).subrange(
            16,
            36,
        ) == info_hash.value@,
{
    if let RequestParts::Announce { info_hash, .. } = req.parts {
        assert(spec_encode(req).subrange(16, 36) =~= info_hash.value@);
    }
}

/// A Connect response: the transaction id echoed and the credential
/// issued.
pub struct ConnResponse {
    pub txn_id: TxnId,
    pub conn_id: ConnId,
}

impl ConnResponse {
    /// Reads a Connect response body.
    pub fn decode(d: &[u8]) -> (r: ConnResponse)
        requires
            d@.len() >= 16,
        ensures
            r.txn_id.0 as int == be32(d@, 4),
            r.conn_id.0 as int == be64(d@, 8),
    {
        ConnResponse { txn_id: TxnId(read_u32_be(d, 4)), conn_id: ConnId(read_u64_be(d, 8)) }
    }
}

/// An Announce response: re-announce interval, swarm counts, and the
/// returned peer addresses (four address bytes and two port bytes
/// each).
pub struct AnnounceResponse {
    pub txn_id: TxnId,
    pub interval: u32,
    pub leechers: u32,
    pub seeders: u32,
    pub addrs: Vec<SocketAddr>,
}

impl AnnounceResponse {
    /// Reads an Announce response body.
    pub fn decode(d: &[u8]) -> (r: AnnounceResponse)
        requires
            d@.len() >= 20,
            (d@.len() - 20) % 6 == 0,
        ensures
            r.txn_id.0 as int == be32(d@, 4),
            r.interval as int == be32(d@, 8),
            r.leechers as int == be32(d@, 12),
            r.seeders as int == be32(d@, 16),
            r.addrs@.len() == (d@.len() - 20) / 6,
            forall|j: int|
                0 <= j < r.addrs@.len() ==> (#[trigger] r.addrs@[j] matches SocketAddr::V4(
                    ip,
                    port,
                ) && ip as int == be32(d@, 20 + 6 * j) && port as int == be16(d@, 24 + 6 * j)),
    {
        let n = d.len();
        let count = (n - 20) / 6;
        let mut addrs: Vec<SocketAddr> = Vec::new();
        let mut j: usize = 0;
        while j < count
            invariant
                n == d@.len(),
                n >= 20,
                count == (n - 20) / 6,
                (n - 20) % 6 == 0,
                j <= count,
                addrs@.len() == j,
                forall|i: int|
                    0 <= i < j ==> (#[trigger] addrs@[i] matches SocketAddr::V4(ip, port)
                        && ip as int == be32(d@, 20 + 6 * i) && port as int == be16(
                        d@,
                        24 + 6 * i,
                    )),
            decreases count - j,
        {
            let ip = read_u32_be(d, 20 + 6 * j);
            let port = read_u16_be(d, 24 + 6 * j);
            addrs.push(SocketAddr::V4(ip, port));
            j = j + 1;
        }
        AnnounceResponse {
            txn_id: TxnId(read_u32_be(d, 4)),
            interval: read_u32_be(d, 8),
            leechers: read_u32_be(d, 12),
            seeders: read_u32_be(d, 16),
            addrs,
        }
    }
}

/// One info hash's swarm counts in a Scrape response.
#[derive(Clone, Copy, Debug, PartialEq, Eq, Structural)]
pub struct ScrapeEntry {
    pub seeders: u32,
    pub completed: u32,
    pub leechers: u32,
}

/// A Scrape response: one entry of counts per info hash asked about.
pub struct ScrapeResponse {
    pub txn_id: TxnId,
    pub entries: Vec<ScrapeEntry>,
}

impl ScrapeResponse {
    /// Reads a Scrape response body.
    pub fn decode(d: &[u8]) -> (r: ScrapeResponse)
        requires
            d@.len() >= 8,
            (d@.len() - 8) % 12 == 0,
        ensures
            r.txn_id.0 as int == be32(d@, 4),
            r.entries@.len() == (d@.len() - 8) / 12,
            forall|j: int|
                0 <= j < r.entries@.len() ==> (#[trigger] r.entries@[j]).seeders as int == be32(
                    d@,
                    8 + 12 * j,
                ) && r.entries@[j].completed as int == be32(d@, 12 + 12 * j)
                    && r.entries@[j].leechers as int == be32(d@, 16 + 12 * j),
    {
        let n = d.len();
        let count = (n - 8) / 12;
        let mut entries: Vec<ScrapeEntry> = Vec::new();
        let mut j: usize = 0;
        while j < count
            invariant
                n == d@.len(),
                n >= 8,
                count == (n - 8) / 12,
                (n - 8) % 12 == 0,
                j <= count,
                entries@.len() == j,
                forall|i: int|
                    0 <= i < j ==> (#[trigger] entries@[i]).seeders as int == be32(d@, 8 + 12 * i)
                        && entries@[i].completed as int == be32(d@, 12 + 12 * i)
                        && entries@[i].leechers as int == be32(d@, 16 + 12 * i),
            decreases count - j,
        {
            let seeders = read_u32_be(d, 8 + 12 * j);
            let completed = read_u32_be(d, 12 + 12 * j);
            let leechers = read_u32_be(d, 16 + 12 * j);
            entries.push(ScrapeEntry { seeders, completed, leechers });
            j = j + 1;
        }
        ScrapeResponse { txn_id: TxnId(read_u32_be(d, 4)), entries }
    }
}

/// A decoded, matching response, by request kind.
pub enum Response {
    Connect(ConnResponse),
    Announce(AnnounceResponse),
    Scrape(ScrapeResponse),
}

/// Failures of the tracker client.
#[derive(Debug)]
pub enum TrackerError {
    /// No unexpired connection credential is at hand.
    NotConnected,
    /// The identifier's digest does not fit the fixed twenty-byte
    /// info-hash field of this wire format.
    UnsupportedHashLength(usize),
    /// The retry schedule is exhausted without a matching response.
    Timeout,
    /// The tracker answered with an error message.
    Rejected(Vec<u8>),
}

/// What the driving loop feeds the exchange: a datagram that arrived,
/// or word that the current wait timed out.
pub enum Incoming {
    Datagram(Vec<u8>),
    Timeout,
}

/// What the exchange asks of the driving loop next.
pub enum Step {
    /// Send the exchange's datagram again and wait `wait` seconds.
    Retransmit { wait: u64 },
    /// The datagram was foreign or unreadable: keep waiting on the
    /// running timer.
    Ignore,
    /// The exchange failed: the schedule ran out, or the tracker said
    /// no.
    Failed(TrackerError),
    /// A matching response arrived.
    Done(Response),
}

/// Two to the power `k`.
pub open spec fn two_pow(k: nat) -> nat
    decreases k,
{
    if k == 0 {
        1
    } else {
        2 * two_pow((k - 1) as nat)
    }
}

/// The small powers of two the retry schedule uses.
pub proof fn lemma_two_pow_values()
    ensures
        two_pow(0) == 1,
        two_pow(1) == 2,
        two_pow(2) == 4,
        two_pow(3) == 8,
        two_pow(4) == 16,
        two_pow(5) == 32,
        two_pow(6) == 64,
        two_pow(7) == 128,
        two_pow(8) == 256,
{
    assert(two_pow(1) == 2 * two_pow(0));
    assert(two_pow(2) == 2 * two_pow(1));
    assert(two_pow(3) == 2 * two_pow(2));
    assert(two_pow(4) == 2 * two_pow(3));
    assert(two_pow(5) == 2 * two_pow(4));
    assert(two_pow(6) == 2 * two_pow(5));
    assert(two_pow(7) == 2 * two_pow(6));
    assert(two_pow(8) == 2 * two_pow(7));
}

/// One outstanding request/response cycle with a tracker: the datagram
/// to (re)transmit verbatim, the transaction id and action code a
/// response must echo, and how many transmissions were made.
pub struct Exchange {
    pub datagram: Vec<u8>,
    pub txn_id: u32,
    pub action: u32,
    pub attempt: u32,
}

/// A datagram that belongs to this exchange: long enough to carry a
/// header, and echoing the transaction id last sent.
pub open spec fn relevant(ex: Exchange, d: Seq<u8>) -> bool {
    d.len() >= 8 && be32(d, 4) == ex.txn_id
}

/// A response body long enough (and, for list-shaped bodies, evenly
/// shaped) for the expected kind.
pub open spec fn length_ok(action: u32, d: Seq<u8>) -> bool {
    if action == 0 {
        d.len() >= 16
    } else if action == 1 {
        d.len() >= 20 && (d.len() - 20) % 6 == 0
    } else {
        d.len() >= 8 && (d.len() - 8) % 12 == 0
    }
}

/// The state after one more timeout is answered with a retransmission.
pub open spec fn after_timeout(ex: Exchange) -> Exchange {
    Exchange { datagram: ex.datagram, txn_id: ex.txn_id, action: ex.action, attempt: (ex.attempt
        + 1) as u32 }
}

/// The state after `k` timeouts, each answered with a retransmission.
pub open spec fn run_timeouts(ex: Exchange, k: nat) -> Exchange
    decreases k,
{
    if k == 0 {
        ex
    } else {
        after_timeout(run_timeouts(ex, (k - 1) as nat))
    }
}

impl Exchange {
    /// Between one and nine transmissions, and a known action code.
    pub open spec fn wf(self) -> bool {
        1 <= self.attempt <= 9 && self.action <= 2
    }

    /// Opens an exchange for a request: the first transmission is the
    /// datagram this exchange now holds.
    pub fn begin(req: &Request) -> (ex: Exchange)
        requires
            request_wf(*req),
        ensures
            ex.datagram@ == spec_encode(*req),
            ex.txn_id == req.txn_id.0,
            ex.action == action_of(req.parts),
            ex.attempt == 1,
            ex.wf(),
    {
        let datagram = req.encode();
        let action: u32 = match &req.parts {
            RequestParts::Connect => 0,
            RequestParts::Announce { .. } => 1,
            RequestParts::Scrape { .. } => 2,
        };
        Exchange { datagram, txn_id: req.txn_id.0, action, attempt: 1 }
    }

    /// How long to wait for the transmission just made: `15 * 2^n`
    /// seconds, where `n` counts the timeouts so far.
    pub fn wait_secs(&self) -> (r: u64)
        requires
            self.wf(),
        ensures
            r == 15 * two_pow((self.attempt - 1) as nat),
    {
        proof {
            lemma_two_pow_values();
        }
        match self.attempt {
            1 => 15,
            2 => 30,
            3 => 60,
            4 => 120,
            5 => 240,
            6 => 480,
            7 => 960,
            8 => 1920,
            _ => 3840,
        }
    }

    /// Feeds the exchange one event. A timeout retransmits the same
    /// datagram with the doubled wait, until the ninth transmission has
    /// timed out, which exhausts the schedule. A datagram completes the
    /// exchange only if it echoes the transaction id and the expected
    /// action code with a readable body; an error datagram (action 3)
    /// with the right transaction id is the tracker's rejection; any
    /// other datagram is foreign — it is ignored and changes nothing,
    /// not even the running timer.
    pub fn step(&mut self, input: &Incoming) -> (s: Step)
        requires
            old(self).wf(),
        ensures
            final(self).wf(),
            input is Timeout && old(self).attempt == 9 ==> ({
                &&& *final(self) == *old(self)
                &&& s matches Step::Failed(TrackerError::Timeout)
            }),
            input is Timeout && old(self).attempt < 9 ==> ({
                &&& *final(self) == after_timeout(*old(self))
                &&& s matches Step::Retransmit { wait } && wait == 15 * two_pow(
                    old(self).attempt as nat,
                )
            }),
            input matches Incoming::Datagram(d) ==> !relevant(*old(self), d@) ==> ({
                &&& *final(self) == *old(self)
                &&& s is Ignore
            }),
            input matches Incoming::Datagram(d) ==> relevant(*old(self), d@) && be32(d@, 0)
                == 3 ==> ({
                &&& *final(self) == *old(self)
                &&& s matches Step::Failed(TrackerError::Rejected(m)) && m@ == d@.skip(8)
            }),
            input matches Incoming::Datagram(d) ==> relevant(*old(self), d@) && be32(d@, 0)
                != old(self).action && be32(d@, 0) != 3 ==> ({
                &&& *final(self) == *old(self)
                &&& s is Ignore
            }),
            input matches Incoming::Datagram(d) ==> relevant(*old(self), d@) && be32(d@, 0)
                == old(self).action && !length_ok(old(self).action, d@) ==> ({
                &&& *final(self) == *old(self)
                &&& s is Ignore
            }),
            input matches Incoming::Datagram(d) ==> relevant(*old(self), d@) && old(self).action
                == 0 && be32(d@, 0) == 0 && length_ok(0, d@) ==> ({
                &&& *final(self) == *old(self)
                &&& s matches Step::Done(Response::Connect(c)) && c.txn_id.0 as int == be32(d@, 4)
                    && c.conn_id.0 as int == be64(d@, 8)
            }),
            input matches Incoming::Datagram(d) ==> relevant(*old(self), d@) && old(self).action
                == 1 && be32(d@, 0) == 1 && length_ok(1, d@) ==> ({
                &&& *final(self) == *old(self)
                &&& s matches Step::Done(Response::Announce(a)) && a.txn_id.0 as int == be32(d@, 4)
                    && a.interval as int == be32(d@, 8) && a.leechers as int == be32(d@, 12)
                    && a.seeders as int == be32(d@, 16) && a.addrs@.len() == (d@.len() - 20) / 6
                    && (forall|j: int|
                    0 <= j < a.addrs@.len() ==> (#[trigger] a.addrs@[j] matches SocketAddr::V4(
                        ip,
                        port,
                    ) && ip as int == be32(d@, 20 + 6 * j) && port as int == be16(d@, 24 + 6 * j)))
            }),
            input matches Incoming::Datagram(d) ==> relevant(*old(self), d@) && old(self).action
                == 2 && be32(d@, 0) == 2 && length_ok(2, d@) ==> ({
                &&& *final(self) == *old(self)
                &&& s matches Step::Done(Response::Scrape(sc)) && sc.txn_id.0 as int == be32(d@, 4)
                    && sc.entries@.len() == (d@.len() - 8) / 12 && (forall|j: int|
                    0 <= j < sc.entries@.len() ==> (#[trigger] sc.entries@[j]).seeders as int
                        == be32(d@, 8 + 12 * j) && sc.entries@[j].completed as int == be32(
                        d@,
                        12 + 12 * j,
                    ) && sc.entries@[j].leechers as int == be32(d@, 16 + 12 * j))
            }),
    {
        match input {
            Incoming::Timeout => {
                if self.attempt == 9 {
                    Step::Failed(TrackerError::Timeout)
                } else {
                    self.attempt = self.attempt + 1;
                    let wait = self.wait_secs();
                    Step::Retransmit { wait }
                }
            },
            Incoming::Datagram(d) => {
                let n = d.len();
                if n < 8 {
                    return Step::Ignore;
                }
                let action = read_u32_be(d.as_slice(), 0);
                let txn = read_u32_be(d.as_slice(), 4);
                if txn != self.txn_id {
                    return Step::Ignore;
                }
                if action == 3 {
                    let msg = slice_to_vec(slice_subrange(d.as_slice(), 8, n));
                    proof {
                        assert(msg@ =~= d@.skip(8));
                    }
                    return Step::Failed(TrackerError::Rejected(msg));
                }
                if action != self.action {
                    return Step::Ignore;
                }
                if self.action == 0 {
                    if n < 16 {
                        return Step::Ignore;
                    }
                    Step::Done(Response::Connect(ConnResponse::decode(d.as_slice())))
                } else if self.action == 1 {
                    if n < 20 || (n - 20) % 6 != 0 {
                        return Step::Ignore;
                    }
                    Step::Done(Response::Announce(AnnounceResponse::decode(d.as_slice())))
                } else {
                    if n < 8 || (n - 8) % 12 != 0 {
                        return Step::Ignore;
                    }
                    Step::Done(Response::Scrape(ScrapeResponse::decode(d.as_slice())))
                }
            },
        }
    }
}

/// Law (retry schedule): an exchange begun fresh and never answered
/// retransmits on each of its first eight timeouts — after the `k`th,
/// it has made `k + 1` transmissions of the same datagram and waits
/// `15 * 2^k` seconds — and on the ninth timeout, nine transmissions
/// in, `step` reports `Failed(Timeout)` rather than transmit again.
pub proof fn lemma_retry_schedule(ex: Exchange, k: nat)
    requires
        ex.wf(),
        ex.attempt == 1,
        k <= 8,
    ensures
        run_timeouts(ex, k).attempt == k + 1,
        run_timeouts(ex, k).datagram == ex.datagram,
        run_timeouts(ex, k).txn_id == ex.txn_id,
        run_timeouts(ex, k).action == ex.action,
        run_timeouts(ex, k).wf(),
        k == 8 ==> run_timeouts(ex, k).attempt == 9,
    decreases k,
{
    if k > 0 {
        lemma_retry_schedule(ex, (k - 1) as nat);
    }
}

/// A connection credential and the moment it expires, two minutes
/// after its issue.
#[derive(Clone, Copy, Debug)]
pub struct ConnCred {
    pub id: ConnId,
    pub expires_at: u64,
}

/// How long a connection credential lasts, in seconds.
pub const CONN_TTL_SECS: u64 = 120;

/// The per-endpoint tracker client state: the connection credential in
/// hand, if any.
pub struct Tracker {
    pub conn_id: Option<ConnCred>,
}

/// A marker for tracker-shaped types.
pub trait TrackerLike {

}

/// A response value that is read out of a datagram's bytes.
pub trait Decode: Sized {
    fn encode(v: &[u8]) -> Self;
}

impl TrackerLike for Tracker {

}

impl Tracker {
    /// A credential is in hand and unexpired at `now` (seconds).
    pub open spec fn connected(self, now: u64) -> bool {
        self.conn_id matches Some(c) && now < c.expires_at
    }

    /// A fresh, disconnected client.
    pub fn new() -> (t: Tracker)
        ensures
            t.conn_id is None,
    {
        Tracker { conn_id: None }
    }

    /// A Connect request, to be driven through an [`Exchange`].
    pub fn connect(&self) -> (r: Request)
        ensures
            r.parts is Connect,
            request_wf(r),
    {
        Request::new(RequestParts::Connect)
    }

    /// Stores the credential a Connect response carries, good for two
    /// minutes from `now` (seconds).
    pub fn complete_connect(&mut self, resp: &ConnResponse, now: u64)
        requires
            now + CONN_TTL_SECS <= u64::MAX,
        ensures
            final(self).conn_id matches Some(c) && c.id == resp.conn_id && c.expires_at == now
                + CONN_TTL_SECS,
            final(self).connected(now),
    {
        self.conn_id = Some(ConnCred { id: resp.conn_id, expires_at: now + CONN_TTL_SECS });
    }

    /// An Announce request under the credential in hand. Owed exactly
    /// when a credential is unexpired at `now` and the digest fits the
    /// wire format's twenty-byte field; a stale credential asks the
    /// caller for a fresh Connect round first.
    pub fn announce(
        &self,
        now: u64,
        info_hash: InfoHash,
        peer_id: PeerId,
        status: Status,
        event: Event,
        addr: SocketAddr,
        key: u32,
        num_want: Option<u32>,
    ) -> (r: Result<Request, TrackerError>)
        ensures
            !self.connected(now) ==> (r matches Err(TrackerError::NotConnected)),
            self.connected(now) && info_hash.value@.len() != 20 ==> (r matches Err(
                TrackerError::UnsupportedHashLength(l),
            ) && l == info_hash.value@.len()),
            self.connected(now) && info_hash.value@.len() == 20 ==> ({
                &&& r matches Ok(req) && request_wf(req) && (req.parts
                    matches RequestParts::Announce {
                    conn_id: c,
                    info_hash: ih,
                    peer_id: p,
                    status: st,
                    event: e,
                    addr: a,
                    key: k,
                    num_want: nw,
                } && (self.conn_id matches Some(cred) && c.0 == cred.id.0) && ih == info_hash && p
                    == peer_id && st == status && e == event && a == addr && k == key && nw
                    == num_want)
            }),
    {
        let cred = match &self.conn_id {
            Some(c) => c,
            None => {
                return Err(TrackerError::NotConnected);
            },
        };
        if now >= cred.expires_at {
            return Err(TrackerError::NotConnected);
        }
        if info_hash.value.len() != 20 {
            return Err(TrackerError::UnsupportedHashLength(info_hash.value.len()));
        }
        Ok(
            Request::new(
                RequestParts::Announce {
                    conn_id: ConnId(cred.id.0),
                    info_hash,
                    peer_id,
                    status,
                    event,
                    addr,
                    key,
                    num_want,
                },
            ),
        )
    }

    /// A Scrape request under the credential in hand, for one info
    /// hash. Owed under the same conditions as an Announce.
    pub fn scrape(&self, now: u64, info_hash: InfoHash) -> (r: Result<Request, TrackerError>)
        ensures
            !self.connected(now) ==> (r matches Err(TrackerError::NotConnected)),
            self.connected(now) && info_hash.value@.len() != 20 ==> (r matches Err(
                TrackerError::UnsupportedHashLength(l),
            ) && l == info_hash.value@.len()),
            self.connected(now) && info_hash.value@.len() == 20 ==> ({
                &&& r matches Ok(req) && request_wf(req) && (req.parts
                    matches RequestParts::Scrape { conn_id: c, info_hash: ih } && (self.conn_id
                    matches Some(cred) && c.0 == cred.id.0) && ih == info_hash)
            }),
    {
        let cred = match &self.conn_id {
            Some(c) => c,
            None => {
                return Err(TrackerError::NotConnected);
            },
        };
        if now >= cred.expires_at {
            return Err(TrackerError::NotConnected);
        }
        if info_hash.value.len() != 20 {
            return Err(TrackerError::UnsupportedHashLength(info_hash.value.len()));
        }
        Ok(Request::new(RequestParts::Scrape { conn_id: ConnId(cred.id.0), info_hash }))
    }
}

} // verus!
