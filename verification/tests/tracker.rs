use btproto::infohash::{HashFn, InfoHash};
use btproto::metadata::Message;
use btproto::tracker::{
    Event, Exchange, Incoming, Request, RequestParts, Response, Status, Step, Tracker,
    TrackerError, TxnId,
};
use btproto::util::{PeerId, SocketAddr};

fn sample_digest() -> Vec<u8> {
    vec![
        0x80, 0x76, 0x46, 0x16, 0x1c, 0x8b, 0xad, 0x88, 0x78, 0x17, 0x61, 0xdf, 0xc7, 0x59, 0xee,
        0xf8, 0x70, 0x42, 0x10, 0x98,
    ]
}

fn sample_announce(txn: u32) -> Request {
    Request {
        txn_id: TxnId(txn),
        parts: RequestParts::Announce {
            conn_id: btproto::tracker::ConnId(0x0102030405060708),
            info_hash: InfoHash { hash_fn: HashFn::SHA1, value: sample_digest() },
            peer_id: PeerId([0x2d; 20]),
            status: Status { downloaded: 1, left: 2, uploaded: 3 },
            event: Event::Started,
            addr: SocketAddr::V4(0x7f000001, 6881),
            key: 0xdeadbeef,
            num_want: None,
        },
    }
}

#[test]
fn connect_encoding_is_sixteen_bytes() {
    let req = Request { txn_id: TxnId(7), parts: RequestParts::Connect };
    let d = req.encode();
    assert_eq!(d.len(), 16);
    // the magic protocol identifier, big-endian
    assert_eq!(&d[0..8], &[0x00, 0x00, 0x04, 0x17, 0x27, 0x10, 0x19, 0x80]);
    // action code zero
    assert_eq!(&d[8..12], &[0, 0, 0, 0]);
    // the transaction id
    assert_eq!(&d[12..16], &[0, 0, 0, 7]);
}

#[test]
fn announce_encoding_is_ninety_eight_bytes() {
    let req = sample_announce(9);
    let d = req.encode();
    assert_eq!(d.len(), 98);
    assert_eq!(&d[0..8], &[1, 2, 3, 4, 5, 6, 7, 8]);
    assert_eq!(&d[8..12], &[0, 0, 0, 1]);
    assert_eq!(&d[12..16], &[0, 0, 0, 9]);
    // the twenty-byte legacy digest sits at bytes sixteen to thirty-six
    assert_eq!(&d[16..36], sample_digest().as_slice());
    assert_eq!(&d[36..56], &[0x2d; 20]);
    // downloaded, left, uploaded
    assert_eq!(&d[56..64], &[0, 0, 0, 0, 0, 0, 0, 1]);
    assert_eq!(&d[64..72], &[0, 0, 0, 0, 0, 0, 0, 2]);
    assert_eq!(&d[72..80], &[0, 0, 0, 0, 0, 0, 0, 3]);
    // the started event has wire value two
    assert_eq!(&d[80..84], &[0, 0, 0, 2]);
    assert_eq!(&d[84..88], &[0x7f, 0, 0, 1]);
    assert_eq!(&d[88..92], &[0xde, 0xad, 0xbe, 0xef]);
    // absent num_want encodes as the all-ones default sentinel
    assert_eq!(&d[92..96], &[0xff, 0xff, 0xff, 0xff]);
    assert_eq!(&d[96..98], &[0x1a, 0xe1]);
}

#[test]
fn scrape_encoding_is_thirty_six_bytes() {
    let req = Request {
        txn_id: TxnId(5),
        parts: RequestParts::Scrape {
            conn_id: btproto::tracker::ConnId(11),
            info_hash: InfoHash { hash_fn: HashFn::SHA1, value: sample_digest() },
        },
    };
    let d = req.encode();
    assert_eq!(d.len(), 36);
    assert_eq!(&d[8..12], &[0, 0, 0, 2]);
    assert_eq!(&d[16..36], sample_digest().as_slice());
}

#[test]
fn retry_schedule_makes_nine_transmissions() {
    let req = Request { txn_id: TxnId(7), parts: RequestParts::Connect };
    let mut ex = Exchange::begin(&req);
    assert_eq!(ex.attempt, 1);
    assert_eq!(ex.wait_secs(), 15);
    let mut transmissions = 1u32;
    let mut expected_wait = 30u64;
    for _ in 0..8 {
        match ex.step(&Incoming::Timeout) {
            Step::Retransmit { wait } => {
                transmissions += 1;
                assert_eq!(wait, expected_wait);
                expected_wait *= 2;
            },
            _ => panic!("expected a retransmission"),
        }
    }
    assert_eq!(transmissions, 9);
    // the ninth transmission's timeout exhausts the schedule
    match ex.step(&Incoming::Timeout) {
        Step::Failed(TrackerError::Timeout) => {},
        _ => panic!("expected the schedule to give up"),
    }
}

#[test]
fn foreign_transaction_id_is_ignored() {
    let req = Request { txn_id: TxnId(7), parts: RequestParts::Connect };
    let mut ex = Exchange::begin(&req);
    // a well-shaped connect response, but under a foreign transaction id
    let mut d = vec![0u8; 16];
    d[7] = 8;
    let s = ex.step(&Incoming::Datagram(d));
    assert!(matches!(s, Step::Ignore));
    // the pending request is not completed and its timer is not reset
    assert_eq!(ex.attempt, 1);
    assert_eq!(ex.wait_secs(), 15);
}

#[test]
fn matching_connect_response_completes() {
    let req = Request { txn_id: TxnId(7), parts: RequestParts::Connect };
    let mut ex = Exchange::begin(&req);
    let mut d = vec![0u8; 16];
    d[7] = 7;
    d[8..16].copy_from_slice(&[1, 2, 3, 4, 5, 6, 7, 8]);
    match ex.step(&Incoming::Datagram(d)) {
        Step::Done(Response::Connect(c)) => {
            assert_eq!(c.txn_id.0, 7);
            assert_eq!(c.conn_id.0, 0x0102030405060708);
        },
        _ => panic!("expected completion"),
    }
}

#[test]
fn error_datagram_is_a_rejection() {
    let req = Request { txn_id: TxnId(7), parts: RequestParts::Connect };
    let mut ex = Exchange::begin(&req);
    let mut d = vec![0, 0, 0, 3, 0, 0, 0, 7];
    d.extend_from_slice(b"full");
    match ex.step(&Incoming::Datagram(d)) {
        Step::Failed(TrackerError::Rejected(m)) => assert_eq!(m, b"full".to_vec()),
        _ => panic!("expected a rejection"),
    }
}

#[test]
fn wrong_action_and_short_datagrams_are_ignored() {
    let req = Request { txn_id: TxnId(7), parts: RequestParts::Connect };
    let mut ex = Exchange::begin(&req);
    // an announce-shaped response to a connect request
    let mut d = vec![0u8; 20];
    d[3] = 1;
    d[7] = 7;
    assert!(matches!(ex.step(&Incoming::Datagram(d)), Step::Ignore));
    // too short to carry a header at all
    assert!(matches!(ex.step(&Incoming::Datagram(vec![1, 2, 3])), Step::Ignore));
    // right transaction and action, but too short a body
    let mut short = vec![0u8; 12];
    short[7] = 7;
    assert!(matches!(ex.step(&Incoming::Datagram(short)), Step::Ignore));
    assert_eq!(ex.attempt, 1);
}

#[test]
fn announce_response_decoding() {
    let req = sample_announce(9);
    let mut ex = Exchange::begin(&req);
    let mut d = vec![0u8; 20];
    d[3] = 1;
    d[7] = 9;
    d[8..12].copy_from_slice(&[0, 0, 7, 8]);
    d[12..16].copy_from_slice(&[0, 0, 0, 5]);
    d[16..20].copy_from_slice(&[0, 0, 0, 6]);
    // two peers
    d.extend_from_slice(&[10, 0, 0, 1, 0x1a, 0xe1]);
    d.extend_from_slice(&[10, 0, 0, 2, 0x1a, 0xe2]);
    match ex.step(&Incoming::Datagram(d)) {
        Step::Done(Response::Announce(a)) => {
            assert_eq!(a.interval, 0x0708);
            assert_eq!(a.leechers, 5);
            assert_eq!(a.seeders, 6);
            assert_eq!(a.addrs.len(), 2);
            assert!(matches!(a.addrs[0], SocketAddr::V4(0x0a000001, 6881)));
            assert!(matches!(a.addrs[1], SocketAddr::V4(0x0a000002, 6882)));
        },
        _ => panic!("expected an announce response"),
    }
}

#[test]
fn scrape_response_decoding() {
    let req = Request {
        txn_id: TxnId(5),
        parts: RequestParts::Scrape {
            conn_id: btproto::tracker::ConnId(11),
            info_hash: InfoHash { hash_fn: HashFn::SHA1, value: sample_digest() },
        },
    };
    let mut ex = Exchange::begin(&req);
    let mut d = vec![0, 0, 0, 2, 0, 0, 0, 5];
    d.extend_from_slice(&[0, 0, 0, 3, 0, 0, 0, 9, 0, 0, 0, 4]);
    match ex.step(&Incoming::Datagram(d)) {
        Step::Done(Response::Scrape(sc)) => {
            assert_eq!(sc.entries.len(), 1);
            assert_eq!(sc.entries[0].seeders, 3);
            assert_eq!(sc.entries[0].completed, 9);
            assert_eq!(sc.entries[0].leechers, 4);
        },
        _ => panic!("expected a scrape response"),
    }
}

#[test]
fn credential_reuse_and_expiry() {
    let mut t = Tracker::new();
    let ih = InfoHash { hash_fn: HashFn::SHA1, value: sample_digest() };
    // without a credential, an announce asks for a connect first
    let r = t.announce(
        0,
        ih.clone(),
        PeerId([0x2d; 20]),
        Status { downloaded: 0, left: 0, uploaded: 0 },
        Event::Started,
        SocketAddr::V4(0, 6881),
        1,
        None,
    );
    assert!(matches!(r, Err(TrackerError::NotConnected)));

    let creq = t.connect();
    assert!(matches!(creq.parts, RequestParts::Connect));
    let resp = btproto::tracker::ConnResponse {
        txn_id: TxnId(1),
        conn_id: btproto::tracker::ConnId(99),
    };
    t.complete_connect(&resp, 1000);
    // the credential holds for two minutes from issuance
    let ok = t.announce(
        1000 + 119,
        ih.clone(),
        PeerId([0x2d; 20]),
        Status { downloaded: 0, left: 0, uploaded: 0 },
        Event::Idle,
        SocketAddr::V4(0, 6881),
        1,
        Some(50),
    );
    assert!(ok.is_ok());
    let ok2 = t.scrape(1000 + 119, ih.clone());
    assert!(ok2.is_ok());
    // and expires exactly two minutes in
    let stale = t.scrape(1000 + 120, ih.clone());
    assert!(matches!(stale, Err(TrackerError::NotConnected)));
}

#[test]
fn oversized_digest_is_rejected_not_truncated() {
    let mut t = Tracker::new();
    let resp = btproto::tracker::ConnResponse {
        txn_id: TxnId(1),
        conn_id: btproto::tracker::ConnId(99),
    };
    t.complete_connect(&resp, 0);
    let v2 = InfoHash::parse("1220caf1e1c30e81cb361b9ee167c4aa64228a7fa4fa9f6105232b28ad099f3a302e")
        .unwrap();
    let r = t.scrape(10, v2);
    assert!(matches!(r, Err(TrackerError::UnsupportedHashLength(32))));
}

#[test]
fn drawn_transaction_id_sits_in_last_field() {
    // the constructor draws the transaction id; whatever was drawn,
    // everything before the id field is fixed
    let a = Request::new(RequestParts::Connect);
    let b = Request::new(RequestParts::Connect);
    let da = a.encode();
    let db = b.encode();
    assert_eq!(da.len(), 16);
    assert_eq!(&da[0..12], &db[0..12]);
    assert_eq!(&da[12..16], &a.txn_id.0.to_be_bytes());
}

#[test]
fn metadata_message_tags() {
    assert_eq!(Message::Request.tag(), 0);
    assert_eq!(Message::Data(vec![1, 2, 3]).tag(), 1);
    assert_eq!(Message::Reject.tag(), 2);
}

#[test]
fn socket_addr_fields() {
    let v4 = SocketAddr::V4(0x7f000001, 80);
    let v6 = SocketAddr::V6(1, 443);
    assert_eq!(v4.port(), 80);
    assert_eq!(v6.port(), 443);
    assert_eq!(v4.ip4(), 0x7f000001);
    // an IPv6 address encodes as zero: "use the datagram's source"
    assert_eq!(v6.ip4(), 0);
}
