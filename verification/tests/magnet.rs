use btproto::infohash::HashFn;
use btproto::magnet::{MagnetError, MagnetUri};

#[test]
fn decode() {
    let samples = [
        "magnet:?xt=urn:btih:807646161c8bad88781761dfc759eef870421098&dn=%5BLeopard-Raws%5D%20%E3%81%AB%E3%82%83%E3%82%93%E3%81%93%E3%81%84%EF%BC%81%20%2307%20%28D-TBS%201440x1080%29.rar&tr=http%3A%2F%2Fnyaa.tracker.wf%3A7777%2Fannounce&tr=udp%3A%2F%2Fopen.stealth.si%3A80%2Fannounce&tr=udp%3A%2F%2Ftracker.opentrackr.org%3A1337%2Fannounce&tr=udp%3A%2F%2Fexodus.desync.com%3A6969%2Fannounce&tr=udp%3A%2F%2Ftracker.torrent.eu.org%3A451%2Fannounce",
        "magnet:?xt=urn:btmh:1220caf1e1c30e81cb361b9ee167c4aa64228a7fa4fa9f6105232b28ad099f3a302e&dn=bittorrent-v2-test",
        "magnet:?xt=urn:btih:631a31dd0a46257d5078c0dee4e66e26f73e42ac&xt=urn:btmh:1220d8dd32ac93357c368556af3ac1d95c9d76bd0dff6fa9833ecdac3d53134efabb&dn=bittorrent-v1-v2-hybrid-test",
        "magnet:?xt=urn:btih:6fce7b248f763460060de4698f49f1ebde390e4b&dn=One%20Piece%20%20%20-%20%20%20Volumes%201%20-%2042&tr=http%3A%2F%2Fnyaa.tracker.wf%3A7777%2Fannounce&tr=udp%3A%2F%2Fopen.stealth.si%3A80%2Fannounce&tr=udp%3A%2F%2Ftracker.opentrackr.org%3A1337%2Fannounce&tr=udp%3A%2F%2Fexodus.desync.com%3A6969%2Fannounce&tr=udp%3A%2F%2Ftracker.torrent.eu.org%3A451%2Fannounce",
    ];

    for sample in samples {
        let ok = MagnetUri::parse(sample).unwrap();
        let _ = ok;
    }
}

#[test]
fn wrong_prefix() {
    let r = MagnetUri::parse("not-a-magnet-link");
    assert!(matches!(r, Err(MagnetError::WrongPrefix(_))));
    if let Err(MagnetError::WrongPrefix(p)) = MagnetUri::parse("not-a-magnet-link") {
        assert_eq!(p, "not-a-ma");
    }
}

#[test]
fn missing_identifier() {
    let r = MagnetUri::parse("magnet:?dn=foo");
    assert!(matches!(r, Err(MagnetError::MissingTracker)));
}

#[test]
fn v1_link_fields() {
    let m = MagnetUri::parse(
        "magnet:?xt=urn:btih:807646161c8bad88781761dfc759eef870421098&dn=X&tr=http://t",
    )
    .unwrap();
    assert!(matches!(m.hash.hash_fn, HashFn::SHA1));
    assert_eq!(m.hash.to_hex(), "807646161c8bad88781761dfc759eef870421098");
    assert_eq!(m.name.as_deref(), Some("X"));
    assert_eq!(m.tracker_url.as_deref(), Some("http://t"));
    assert_eq!(m.peer_addr, None);
}

#[test]
fn v2_link_fields() {
    let m = MagnetUri::parse(
        "magnet:?xt=urn:btmh:1220caf1e1c30e81cb361b9ee167c4aa64228a7fa4fa9f6105232b28ad099f3a302e&dn=bittorrent-v2-test",
    )
    .unwrap();
    assert!(matches!(m.hash.hash_fn, HashFn::SHA2_256));
    assert_eq!(m.hash.value.len(), 32);
    assert_eq!(
        m.hash.to_hex(),
        "caf1e1c30e81cb361b9ee167c4aa64228a7fa4fa9f6105232b28ad099f3a302e"
    );
    assert_eq!(m.name.as_deref(), Some("bittorrent-v2-test"));
}

#[test]
fn hybrid_link_takes_first_recognized() {
    let m = MagnetUri::parse(
        "magnet:?xt=urn:btih:631a31dd0a46257d5078c0dee4e66e26f73e42ac&xt=urn:btmh:1220d8dd32ac93357c368556af3ac1d95c9d76bd0dff6fa9833ecdac3d53134efabb&dn=bittorrent-v1-v2-hybrid-test",
    )
    .unwrap();
    assert!(matches!(m.hash.hash_fn, HashFn::SHA1));
    assert_eq!(m.hash.to_hex(), "631a31dd0a46257d5078c0dee4e66e26f73e42ac");
}

#[test]
fn display_name_percent_decoded() {
    let m = MagnetUri::parse(
        "magnet:?xt=urn:btih:807646161c8bad88781761dfc759eef870421098&dn=One%20Piece%21",
    )
    .unwrap();
    assert_eq!(m.name.as_deref(), Some("One Piece!"));
}

#[test]
fn display_name_utf8_decoded() {
    let m = MagnetUri::parse(
        "magnet:?xt=urn:btih:807646161c8bad88781761dfc759eef870421098&dn=%E3%82%B5%E3%82%A4%E3%82%B3%E3%83%91%E3%82%B9",
    )
    .unwrap();
    assert_eq!(m.name.as_deref(), Some("サイコパス"));
}

#[test]
fn display_name_with_bad_escape_kept_raw() {
    let m = MagnetUri::parse(
        "magnet:?xt=urn:btih:807646161c8bad88781761dfc759eef870421098&dn=bad%zzescape",
    )
    .unwrap();
    assert_eq!(m.name.as_deref(), Some("bad%zzescape"));
}

#[test]
fn display_name_percent_literal() {
    let m = MagnetUri::parse(
        "magnet:?xt=urn:btih:807646161c8bad88781761dfc759eef870421098&dn=100%25",
    )
    .unwrap();
    assert_eq!(m.name.as_deref(), Some("100%"));
}

#[test]
fn tracker_url_kept_escaped() {
    let m = MagnetUri::parse(
        "magnet:?xt=urn:btih:807646161c8bad88781761dfc759eef870421098&tr=udp%3A%2F%2Ft%3A451",
    )
    .unwrap();
    assert_eq!(m.tracker_url.as_deref(), Some("udp%3A%2F%2Ft%3A451"));
}

#[test]
fn malformed_v1_digest_propagates() {
    // forty characters after the v1 scheme, but not hexadecimal
    let r = MagnetUri::parse("magnet:?xt=urn:btih:zzzz46161c8bad88781761dfc759eef870421098");
    assert!(matches!(r, Err(MagnetError::InfoHash(_))));
}

#[test]
fn repeated_keys_take_first_occurrence() {
    let m = MagnetUri::parse(
        "magnet:?xt=urn:btih:807646161c8bad88781761dfc759eef870421098&dn=first&dn=second&tr=t1&tr=t2",
    )
    .unwrap();
    assert_eq!(m.name.as_deref(), Some("first"));
    assert_eq!(m.tracker_url.as_deref(), Some("t1"));
}

#[test]
fn pairs_without_equals_are_discarded() {
    let m = MagnetUri::parse(
        "magnet:?junk&xt=urn:btih:807646161c8bad88781761dfc759eef870421098&alsojunk",
    )
    .unwrap();
    assert_eq!(m.hash.to_hex(), "807646161c8bad88781761dfc759eef870421098");
}
