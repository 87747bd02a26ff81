//! Magnet-link parsing: a `magnet:?` URI's query parameters become a
//! structured request — the content identifier (legacy or multihash
//! form), display name, tracker URL, and peer-address hint.

use vstd::prelude::*;
use vstd::string::StrSliceExecFns;
use vstd::string::StringExecFns;
use vstd::utf8::{decode_utf8, valid_utf8};

use crate::hex::{hex_to_bytes, hex_val, is_hex_digit, is_hex_seq};
use crate::infohash::{multihash_wf, parse_error_matches, spec_code_val, HashFn, InfoHash,
    InfoHashError};
use crate::text::{begins_with, find_from, str_eq, string_from_utf8, substr_string};

verus! {

/// Failures of magnet-link parsing.
#[derive(Debug)]
pub enum MagnetError {
    /// No query parameter supplies a usable content identifier.
    MissingTracker,
    /// A tracker parameter that names no usable tracker.
    InvalidTracker(String),
    /// The URI does not open with the literal `magnet:?`.
    WrongPrefix(String),
    /// The content identifier itself failed to parse.
    InfoHash(InfoHashError),
}

/// A parsed magnet link: the content identifier and the optional
/// discovery hints, read-only after parsing.
#[derive(Debug)]
pub struct MagnetUri {
    pub hash: InfoHash,
    pub name: Option<String>,
    pub tracker_url: Option<String>,
    pub peer_addr: Option<String>,
}

/// The least position of `c` in `s` at or after `from`, or the length
/// of `s` where there is none.
pub open spec fn idx_of_from(s: Seq<char>, c: char, from: int) -> int
    decreases s.len() - from,
    when 0 <= from <= s.len()
{
    if from >= s.len() {
        s.len() as int
    } else if s[from] == c {
        from
    } else {
        idx_of_from(s, c, from + 1)
    }
}

/// `idx_of_from` lies between `from` and the length, points at `c`
/// where it found one, and skips no earlier occurrence.
pub proof fn lemma_idx_of_from(s: Seq<char>, c: char, from: int)
    requires
        0 <= from <= s.len(),
    ensures
        from <= idx_of_from(s, c, from) <= s.len(),
        idx_of_from(s, c, from) < s.len() ==> s[idx_of_from(s, c, from)] == c,
        forall|j: int| from <= j < idx_of_from(s, c, from) ==> s[j] != c,
    decreases s.len() - from,
{
    if from < s.len() && s[from] != c {
        lemma_idx_of_from(s, c, from + 1);
    }
}

/// A position with `c` at it and no `c` before it (at or after `from`)
/// is exactly what `idx_of_from` finds; so is the length where no
/// position carries `c`.
pub proof fn lemma_idx_of_from_is(s: Seq<char>, c: char, from: int, k: int)
    requires
        0 <= from <= k <= s.len(),
        forall|j: int| from <= j < k ==> s[j] != c,
        k < s.len() ==> s[k] == c,
    ensures
        idx_of_from(s, c, from) == k,
    decreases k - from,
{
    if from < k {
        lemma_idx_of_from_is(s, c, from + 1, k);
    }
}

/// The `&`-separated segments of `s` from position `from` on.
pub open spec fn spec_segs(s: Seq<char>, from: int) -> Seq<Seq<char>>
    decreases s.len() - from,
    when 0 <= from <= s.len()
    via spec_segs_decreases
{
    let k = idx_of_from(s, '&', from);
    if k == s.len() {
        seq![s.subrange(from, k)]
    } else {
        seq![s.subrange(from, k)] + spec_segs(s, k + 1)
    }
}

#[via_fn]
proof fn spec_segs_decreases(s: Seq<char>, from: int) {
    lemma_idx_of_from(s, '&', from);
}

/// The key/value pair a segment denotes — split on its first `=` — or
/// `None` for a segment without `=`, which is silently discarded.
pub open spec fn seg_pair(seg: Seq<char>) -> Option<(Seq<char>, Seq<char>)> {
    let k = idx_of_from(seg, '=', 0);
    if k == seg.len() {
        None
    } else {
        Some((seg.subrange(0, k), seg.subrange(k + 1, seg.len() as int)))
    }
}

/// The key/value pairs of a segment sequence.
pub open spec fn spec_pairs(segs: Seq<Seq<char>>) -> Seq<(Seq<char>, Seq<char>)>
    decreases segs.len(),
{
    if segs.len() == 0 {
        Seq::empty()
    } else {
        match seg_pair(segs[0]) {
            Some(p) => seq![p] + spec_pairs(segs.skip(1)),
            None => spec_pairs(segs.skip(1)),
        }
    }
}

/// The value of the first pair carrying `key`, if any.
pub open spec fn first_value(ps: Seq<(Seq<char>, Seq<char>)>, key: Seq<char>) -> Option<Seq<char>>
    decreases ps.len(),
{
    if ps.len() == 0 {
        None
    } else if ps[0].0 == key {
        Some(ps[0].1)
    } else {
        first_value(ps.skip(1), key)
    }
}

/// An `xt` value in the legacy form: the v1 scheme followed by exactly
/// forty characters.
pub open spec fn is_v1_xt(v: Seq<char>) -> bool {
    "urn:btih:"@.is_prefix_of(v) && v.len() == 49
}

/// An `xt` value in the self-describing form: the v2 scheme.
pub open spec fn is_v2_xt(v: Seq<char>) -> bool {
    "urn:btmh:"@.is_prefix_of(v)
}

/// An `xt` value of a recognized scheme.
pub open spec fn recognized_xt(v: Seq<char>) -> bool {
    is_v1_xt(v) || is_v2_xt(v)
}

/// The value of the first `xt` pair whose value is of a recognized
/// scheme, if any; later `xt` pairs (a hybrid link) are ignored.
pub open spec fn first_xt(ps: Seq<(Seq<char>, Seq<char>)>) -> Option<Seq<char>>
    decreases ps.len(),
{
    if ps.len() == 0 {
        None
    } else if ps[0].0 == "xt"@ && recognized_xt(ps[0].1) {
        Some(ps[0].1)
    } else {
        first_xt(ps.skip(1))
    }
}

/// What `first_xt` yields is always of a recognized scheme.
pub proof fn lemma_first_xt_recognized(ps: Seq<(Seq<char>, Seq<char>)>)
    ensures
        first_xt(ps) matches Some(v) ==> recognized_xt(v),
    decreases ps.len(),
{
    if ps.len() > 0 && !(ps[0].0 == "xt"@ && recognized_xt(ps[0].1)) {
        lemma_first_xt_recognized(ps.skip(1));
    }
}

/// The key/value pairs of a magnet link's query part.
pub open spec fn magnet_pairs(s: Seq<char>) -> Seq<(Seq<char>, Seq<char>)>
    recommends
        s.len() >= 8,
{
    spec_pairs(spec_segs(s, 8))
}

/// The bytes a percent-encoded ASCII text denotes, or `None` where an
/// escape is malformed or a character is not ASCII.
pub open spec fn pct_bytes(s: Seq<char>) -> Option<Seq<u8>>
    decreases s.len(),
{
    if s.len() == 0 {
        Some(Seq::empty())
    } else if s[0] == '%' {
        if s.len() >= 3 && is_hex_digit(s[1]) && is_hex_digit(s[2]) {
            match pct_bytes(s.skip(3)) {
                Some(rest) => Some(
                    seq![(hex_val(s[1]) * 16 + hex_val(s[2])) as u8] + rest,
                ),
                None => None,
            }
        } else {
            None
        }
    } else if (s[0] as u32) < 128 {
        match pct_bytes(s.skip(1)) {
            Some(rest) => Some(seq![(s[0] as u32) as u8] + rest),
            None => None,
        }
    } else {
        None
    }
}

/// The display name a raw `dn` value denotes: its percent-escapes
/// decoded and the bytes read as UTF-8; where the raw value is not
/// percent-encoded ASCII or the bytes are not UTF-8, the raw value
/// itself.
pub open spec fn spec_display_name(s: Seq<char>) -> Seq<char> {
    match pct_bytes(s) {
        Some(b) => if valid_utf8(b) {
            decode_utf8(b)
        } else {
            s
        },
        None => s,
    }
}

/// The characters of an optional owned string.
pub open spec fn view_opt(o: Option<String>) -> Option<Seq<char>> {
    match o {
        Some(s) => Some(s@),
        None => None,
    }
}

struct ParamState {
    xt: Option<String>,
    dn: Option<String>,
    tr: Option<String>,
    pe: Option<String>,
}

/// What first comes to fill a parameter slot: an already-filled slot
/// keeps its value, an empty one takes what the scan found.
spec fn folded(st0: Option<Seq<char>>, found: Option<Seq<char>>) -> Option<Seq<char>> {
    if st0 is Some {
        st0
    } else {
        found
    }
}

/// Unfolds the pair list of a leading segment before a rest.
proof fn lemma_pairs_cons(seg: Seq<char>, rest: Seq<Seq<char>>)
    ensures
        spec_pairs(seq![seg] + rest) == (match seg_pair(seg) {
            Some(p) => seq![p] + spec_pairs(rest),
            None => spec_pairs(rest),
        }),
{
    assert((seq![seg] + rest)[0] == seg);
    assert((seq![seg] + rest).skip(1) =~= rest);
}

/// Unfolds the first-match lookups over a pair put before a rest.
proof fn lemma_firsts_cons(p: (Seq<char>, Seq<char>), ps: Seq<(Seq<char>, Seq<char>)>)
    ensures
        first_xt(seq![p] + ps) == (if p.0 == "xt"@ && recognized_xt(p.1) {
            Some(p.1)
        } else {
            first_xt(ps)
        }),
        forall|key: Seq<char>|
            #[trigger] first_value(seq![p] + ps, key) == (if p.0 == key {
                Some(p.1)
            } else {
                first_value(ps, key)
            }),
{
    assert((seq![p] + ps)[0] == p);
    assert((seq![p] + ps).skip(1) =~= ps);
    assert forall|key: Seq<char>|
        #[trigger] first_value(seq![p] + ps, key) == (if p.0 == key {
            Some(p.1)
        } else {
            first_value(ps, key)
        }) by {
        assert((seq![p] + ps).skip(1) =~= ps);
    }
}

/// The first-match lookups of the empty pair list find nothing.
proof fn lemma_firsts_empty()
    ensures
        first_xt(Seq::empty()) is None,
        forall|key: Seq<char>| #[trigger] first_value(Seq::empty(), key) is None,
{
}

/// Percent-decodes the tail of `s` from `pos` on, appending the bytes
/// to `out`; `false` exactly where the tail is no percent-encoded
/// ASCII text.
fn pct_decode_tail(s: &str, pos: usize, out: &mut Vec<u8>) -> (ok: bool)
    requires
        pos <= s@.len(),
    ensures
        ok <==> pct_bytes(s@.skip(pos as int)) is Some,
        ok ==> final(out)@ == old(out)@ + pct_bytes(s@.skip(pos as int)).unwrap(),
    decreases s@.len() - pos,
{
    let ghost tail = s@.skip(pos as int);
    let n = s.unicode_len();
    if pos == n {
        proof {
            assert(tail =~= Seq::<char>::empty());
            assert(final(out)@ =~= old(out)@ + pct_bytes(tail).unwrap());
        }
        return true;
    }
    let c = s.get_char(pos);
    proof {
        assert(tail[0] == c);
    }
    if c == '%' {
        if n - pos < 3 {
            return false;
        }
        let h = crate::hex::hex_digit_val(s.get_char(pos + 1));
        let l = crate::hex::hex_digit_val(s.get_char(pos + 2));
        proof {
            assert(tail[1] == s@[pos + 1]);
            assert(tail[2] == s@[pos + 2]);
        }
        match (h, l) {
            (Some(hv), Some(lv)) => {
                out.push(hv * 16 + lv);
                let ok = pct_decode_tail(s, pos + 3, out);
                proof {
                    assert(s@.skip(pos + 3) =~= tail.skip(3));
                    if ok {
                        assert(final(out)@ =~= old(out)@ + pct_bytes(tail).unwrap());
                    }
                }
                ok
            },
            _ => false,
        }
    } else if (c as u32) < 128 {
        out.push(c as u8);
        let ok = pct_decode_tail(s, pos + 1, out);
        proof {
            assert(s@.skip(pos + 1) =~= tail.skip(1));
            if ok {
                assert(final(out)@ =~= old(out)@ + pct_bytes(tail).unwrap());
            }
        }
        ok
    } else {
        false
    }
}

/// The display name a raw `dn` value denotes (see
/// [`spec_display_name`]).
fn decode_display_name(raw: &str) -> (r: String)
    ensures
        r@ == spec_display_name(raw@),
{
    let mut bytes: Vec<u8> = Vec::new();
    let ok = pct_decode_tail(raw, 0, &mut bytes);
    proof {
        assert(raw@.skip(0) =~= raw@);
    }
    if ok {
        match string_from_utf8(bytes) {
            Some(s) => s,
            None => String::from_str(raw),
        }
    } else {
        String::from_str(raw)
    }
}

/// Scans the query parameters from position `pos` on, filling each
/// still-empty slot with the first matching pair.
fn scan_params(uri: &str, pos: usize, st: &mut ParamState)
    requires
        pos <= uri@.len(),
    ensures
        ({
            let ps = spec_pairs(spec_segs(uri@, pos as int));
            &&& view_opt(final(st).xt) == folded(view_opt(old(st).xt), first_xt(ps))
            &&& view_opt(final(st).dn) == folded(view_opt(old(st).dn), first_value(ps, "dn"@))
            &&& view_opt(final(st).tr) == folded(view_opt(old(st).tr), first_value(ps, "tr"@))
            &&& view_opt(final(st).pe) == folded(view_opt(old(st).pe), first_value(ps, "x.pe"@))
        }),
    decreases uri@.len() - pos,
{
    proof {
        reveal_strlit("xt");
        reveal_strlit("dn");
        reveal_strlit("tr");
        reveal_strlit("x.pe");
    }
    let n = uri.unicode_len();
    let k = match find_from(uri, pos, '&') {
        Some(k) => k,
        None => n,
    };
    proof {
        lemma_idx_of_from_is(uri@, '&', pos as int, k as int);
    }
    let ghost seg = uri@.subrange(pos as int, k as int);
    // the key/value pair of the segment [pos, k), if it holds an `=`
    let e_opt = find_from(uri, pos, '=');
    let e = match e_opt {
        Some(e) if e < k => e,
        _ => k,
    };
    proof {
        assert forall|j: int| 0 <= j < e - pos implies seg[j] != '=' by {
            assert(seg[j] == uri@[pos + j]);
        }
        if e < k {
            assert(seg[e - pos as int] == uri@[e as int]);
            lemma_idx_of_from_is(seg, '=', 0, e - pos as int);
        } else {
            lemma_idx_of_from_is(seg, '=', 0, seg.len() as int);
        }
    }
    if e < k {
        let key = substr_string(uri, pos, e);
        let val = substr_string(uri, e + 1, k);
        proof {
            assert(key@ =~= seg.subrange(0, e - pos as int));
            assert(val@ =~= seg.subrange(e - pos as int + 1, seg.len() as int));
        }
        if str_eq(key.as_str(), "xt") {
            if st.xt.is_none() {
                let vs = val.as_str();
                let vn = vs.unicode_len();
                let v1 = begins_with(vs, "urn:btih:") && vn == 49;
                let v2 = begins_with(vs, "urn:btmh:");
                if v1 || v2 {
                    st.xt = Some(val);
                }
            }
        } else if str_eq(key.as_str(), "dn") {
            if st.dn.is_none() {
                st.dn = Some(val);
            }
        } else if str_eq(key.as_str(), "tr") {
            if st.tr.is_none() {
                st.tr = Some(val);
            }
        } else if str_eq(key.as_str(), "x.pe") {
            if st.pe.is_none() {
                st.pe = Some(val);
            }
        }
    }
    if k < n {
        scan_params(uri, k + 1, st);
        proof {
            let rest = spec_segs(uri@, k + 1);
            assert(spec_segs(uri@, pos as int) == seq![seg] + rest);
            lemma_pairs_cons(seg, rest);
            if let Some(p) = seg_pair(seg) {
                lemma_firsts_cons(p, spec_pairs(rest));
            }
        }
    } else {
        proof {
            assert(spec_segs(uri@, pos as int) == seq![seg]);
            assert(seq![seg].skip(1) =~= Seq::<Seq<char>>::empty());
            lemma_pairs_cons(seg, Seq::empty());
            assert(seq![seg] =~= seq![seg] + Seq::<Seq<char>>::empty());
            lemma_firsts_empty();
            if let Some(p) = seg_pair(seg) {
                lemma_firsts_cons(p, spec_pairs(Seq::empty()));
            }
        }
    }
}

impl MagnetUri {
    /// Parses a magnet link: requires the literal `magnet:?` prefix,
    /// reads the first usable `xt` parameter as the content identifier
    /// (legacy forty-character form, or multihash form), and takes the
    /// first `dn` (display name, percent-decoded), `tr` (tracker URL,
    /// kept escaped) and `x.pe` (peer address, kept escaped)
    /// parameters. Pure: no failure leaves any partial result behind.
    pub fn parse(uri: &str) -> (r: Result<MagnetUri, MagnetError>)
        ensures
            !"magnet:?"@.is_prefix_of(uri@) ==> (r matches Err(MagnetError::WrongPrefix(p)) && p@
                == uri@.subrange(
                0,
                if uri@.len() < 8 {
                    uri@.len() as int
                } else {
                    8
                },
            )),
            "magnet:?"@.is_prefix_of(uri@) ==> {
                let ps = magnet_pairs(uri@);
                match first_xt(ps) {
                    None => r == Err::<MagnetUri, MagnetError>(MagnetError::MissingTracker),
                    Some(v) => {
                        let h = v.skip(9);
                        &&& (is_v1_xt(v) && is_hex_seq(h) ==> (r matches Ok(m) && m.hash.hash_fn
                            == HashFn::SHA1 && m.hash.value@ == hex_to_bytes(h)))
                        &&& (is_v1_xt(v) && !is_hex_seq(h) ==> (r matches Err(
                            MagnetError::InfoHash(e),
                        ) && e matches InfoHashError::MalformedHash(a, x) && a == 40 && x == 20))
                        &&& (!is_v1_xt(v) && multihash_wf(h) ==> (r matches Ok(m) && Some(
                            m.hash.hash_fn,
                        ) == HashFn::spec_from_code(spec_code_val(h) as u8) && m.hash.value@
                            == hex_to_bytes(h.subrange(4, h.len() as int))))
                        &&& (!is_v1_xt(v) && !multihash_wf(h) ==> (r matches Err(
                            MagnetError::InfoHash(e),
                        ) && parse_error_matches(h, e)))
                        &&& (r matches Ok(m) ==> {
                            &&& view_opt(m.name) == match first_value(ps, "dn"@) {
                                Some(raw) => Some(spec_display_name(raw)),
                                None => None,
                            }
                            &&& view_opt(m.tracker_url) == first_value(ps, "tr"@)
                            &&& view_opt(m.peer_addr) == first_value(ps, "x.pe"@)
                        })
                    },
                }
            },
    {
        let n = uri.unicode_len();
        if !begins_with(uri, "magnet:?") {
            let take = if n < 8 {
                n
            } else {
                8
            };
            return Err(MagnetError::WrongPrefix(substr_string(uri, 0, take)));
        }
        proof {
            reveal_strlit("magnet:?");
        }
        let mut st = ParamState { xt: None, dn: None, tr: None, pe: None };
        scan_params(uri, 8, &mut st);
        let xt = match st.xt {
            Some(x) => x,
            None => {
                return Err(MagnetError::MissingTracker);
            },
        };
        let xs = xt.as_str();
        let xn = xs.unicode_len();
        proof {
            reveal_strlit("urn:btih:");
            reveal_strlit("urn:btmh:");
            lemma_first_xt_recognized(spec_pairs(spec_segs(uri@, 8)));
            assert(recognized_xt(xs@));
            assert(xs@.subrange(9, xn as int) =~= xs@.skip(9));
        }
        let hash = if begins_with(xs, "urn:btih:") && xn == 49 {
            match InfoHash::from_sha1(xs.substring_char(9, 49)) {
                Ok(h) => h,
                Err(e) => {
                    return Err(MagnetError::InfoHash(e));
                },
            }
        } else {
            match InfoHash::parse(xs.substring_char(9, xn)) {
                Ok(h) => h,
                Err(e) => {
                    return Err(MagnetError::InfoHash(e));
                },
            }
        };
        let name = match st.dn {
            Some(raw) => Some(decode_display_name(raw.as_str())),
            None => None,
        };
        Ok(MagnetUri { hash, name, tracker_url: st.tr, peer_addr: st.pe })
    }
}

} // verus!
