//! Content identifiers: a digest algorithm tag plus the raw digest
//! bytes, with the legacy bare-SHA-1 text form and the self-describing
//! multihash text form.

use vstd::prelude::*;
use vstd::string::StrSliceExecFns;

use crate::hex::{
    bytes_to_hex, decode_hex, encode_hex, hex_to_bytes, hex_val, is_hex_digit, is_hex_seq,
    is_lower_hex_digit, lemma_digit_roundtrip, lemma_hex_lower_roundtrip, lemma_hex_roundtrip,
    lemma_hex_val_bound, to_lower_hex,
};
use crate::text::substr_string;

verus! {

/// Failures of identifier parsing.
#[derive(Debug)]
pub enum InfoHashError {
    /// The multihash text has fewer than five characters.
    TooShort(usize),
    /// The digest text is no hexadecimal byte string.
    TryInto,
    /// The two-digit function code names no registered digest algorithm.
    UnknownCode(String),
    /// The two-digit length field is no hexadecimal byte.
    MalformedLength(String),
    /// The digest length found disagrees with the length expected.
    MalformedHash(usize, u8),
}

/// A registered digest algorithm.
#[derive(Clone, Copy, Debug, PartialEq, Eq, Structural)]
#[allow(non_camel_case_types)]
pub enum HashFn {
    SHA1,
    SHA2_256,
    SHA2_512,
    SHA3,
    BLAKE2b,
    BLAKE2s,
}

impl HashFn {
    /// The registered numeric code of the algorithm.
    pub open spec fn spec_code(self) -> u8 {
        match self {
            HashFn::SHA1 => 0x11,
            HashFn::SHA2_256 => 0x12,
            HashFn::SHA2_512 => 0x13,
            HashFn::SHA3 => 0x14,
            HashFn::BLAKE2b => 0x40,
            HashFn::BLAKE2s => 0x41,
        }
    }

    /// The registered numeric code of the algorithm.
    pub fn code(&self) -> (r: u8)
        ensures
            r == self.spec_code(),
    {
        match self {
            HashFn::SHA1 => 0x11,
            HashFn::SHA2_256 => 0x12,
            HashFn::SHA2_512 => 0x13,
            HashFn::SHA3 => 0x14,
            HashFn::BLAKE2b => 0x40,
            HashFn::BLAKE2s => 0x41,
        }
    }

    /// The algorithm registered under a numeric code, if any.
    pub open spec fn spec_from_code(c: u8) -> Option<HashFn> {
        if c == 0x11 {
            Some(HashFn::SHA1)
        } else if c == 0x12 {
            Some(HashFn::SHA2_256)
        } else if c == 0x13 {
            Some(HashFn::SHA2_512)
        } else if c == 0x14 {
            Some(HashFn::SHA3)
        } else if c == 0x40 {
            Some(HashFn::BLAKE2b)
        } else if c == 0x41 {
            Some(HashFn::BLAKE2s)
        } else {
            None
        }
    }

    /// The algorithm registered under a numeric code, if any.
    pub fn from_code(c: u8) -> (r: Option<HashFn>)
        ensures
            r == Self::spec_from_code(c),
    {
        if c == 0x11 {
            Some(HashFn::SHA1)
        } else if c == 0x12 {
            Some(HashFn::SHA2_256)
        } else if c == 0x13 {
            Some(HashFn::SHA2_512)
        } else if c == 0x14 {
            Some(HashFn::SHA3)
        } else if c == 0x40 {
            Some(HashFn::BLAKE2b)
        } else if c == 0x41 {
            Some(HashFn::BLAKE2s)
        } else {
            None
        }
    }

    /// The byte length of a digest the algorithm produces.
    pub open spec fn spec_digest_len(self) -> nat {
        match self {
            HashFn::SHA1 => 20,
            HashFn::SHA2_256 => 32,
            HashFn::SHA2_512 => 64,
            HashFn::SHA3 => 64,
            HashFn::BLAKE2b => 64,
            HashFn::BLAKE2s => 32,
        }
    }

    /// The byte length of a digest the algorithm produces.
    pub fn digest_len(&self) -> (r: usize)
        ensures
            r == self.spec_digest_len(),
    {
        match self {
            HashFn::SHA1 => 20,
            HashFn::SHA2_256 => 32,
            HashFn::SHA2_512 => 64,
            HashFn::SHA3 => 64,
            HashFn::BLAKE2b => 64,
            HashFn::BLAKE2s => 32,
        }
    }
}

/// A content identifier: a digest algorithm tag and the raw digest
/// bytes, immutable once constructed.
#[derive(Clone, Debug)]
pub struct InfoHash {
    pub hash_fn: HashFn,
    pub value: Vec<u8>,
}

impl PartialEq for InfoHash {
    /// Identifiers are equal exactly when function tag and digest
    /// bytes are.
    fn eq(&self, o: &InfoHash) -> (r: bool) {
        if self.hash_fn != o.hash_fn {
            return false;
        }
        if self.value.len() != o.value.len() {
            return false;
        }
        let n = self.value.len();
        let mut i: usize = 0;
        while i < n
            invariant
                n == self.value@.len() == o.value@.len(),
                i <= n,
                self.hash_fn == o.hash_fn,
                forall|j: int| 0 <= j < i ==> self.value@[j] == o.value@[j],
            decreases n - i,
        {
            if self.value[i] != o.value[i] {
                return false;
            }
            i = i + 1;
        }
        proof {
            assert(self.value@ =~= o.value@);
        }
        true
    }
}

impl vstd::std_specs::cmp::PartialEqSpecImpl for InfoHash {
    open spec fn obeys_eq_spec() -> bool {
        true
    }

    open spec fn eq_spec(&self, o: &InfoHash) -> bool {
        self.hash_fn == o.hash_fn && self.value@ == o.value@
    }
}

/// The numeric value of the two-digit function code of a multihash.
pub open spec fn spec_code_val(s: Seq<char>) -> int {
    hex_val(s[0]) * 16 + hex_val(s[1])
}

/// The digest byte length a multihash declares in its length field.
pub open spec fn spec_declared_len(s: Seq<char>) -> int {
    hex_val(s[2]) * 16 + hex_val(s[3])
}

/// A well-formed multihash text with a registered function code: long
/// enough, hexadecimal throughout, its code registered, and its digest
/// as long as its length field declares.
pub open spec fn multihash_wf(s: Seq<char>) -> bool {
    &&& s.len() >= 5
    &&& is_hex_seq(s)
    &&& HashFn::spec_from_code(spec_code_val(s) as u8) is Some
    &&& s.len() - 4 == 2 * spec_declared_len(s)
}

/// Exactly which error parsing `s` as a multihash reports: too short,
/// then a length field that is no hexadecimal byte, then a digest whose
/// length disagrees with the declared one, then an unregistered (or
/// non-hexadecimal) function code, and last a digest that is no
/// hexadecimal byte string.
pub open spec fn parse_error_matches(s: Seq<char>, e: InfoHashError) -> bool {
    if s.len() < 5 {
        e matches InfoHashError::TooShort(n) && n == s.len()
    } else if !(is_hex_digit(s[2]) && is_hex_digit(s[3])) {
        e matches InfoHashError::MalformedLength(l) && l@ == s.subrange(2, 4)
    } else if s.len() - 4 != 2 * spec_declared_len(s) {
        e matches InfoHashError::MalformedHash(a, x) && a == s.len() - 4 && x == spec_declared_len(
            s,
        )
    } else if !(is_hex_digit(s[0]) && is_hex_digit(s[1]) && HashFn::spec_from_code(
        spec_code_val(s) as u8,
    ) is Some) {
        e matches InfoHashError::UnknownCode(c) && c@ == s.subrange(0, 2)
    } else {
        e matches InfoHashError::TryInto
    }
}

impl InfoHash {
    /// An identifier that can be re-emitted as a multihash: its digest
    /// byte length fits the one-byte length field.
    pub open spec fn wf(self) -> bool {
        self.value@.len() <= 255
    }

    /// Parses the legacy textual form: exactly forty hexadecimal
    /// characters, the bare SHA-1 digest.
    pub fn from_sha1(v: &str) -> (r: Result<InfoHash, InfoHashError>)
        ensures
            r is Ok <==> (v@.len() == 40 && is_hex_seq(v@)),
            r matches Ok(h) ==> h.hash_fn == HashFn::SHA1 && h.value@ == hex_to_bytes(v@) && h.wf(),
            r matches Err(e) ==> e matches InfoHashError::MalformedHash(a, x) && a == v@.len() && x
                == 20,
    {
        let n = v.unicode_len();
        if n != 40 {
            return Err(InfoHashError::MalformedHash(n, 20));
        }
        match decode_hex(v) {
            Some(bytes) => Ok(InfoHash { hash_fn: HashFn::SHA1, value: bytes }),
            None => Err(InfoHashError::MalformedHash(n, 20)),
        }
    }

    /// Parses the self-describing multihash textual form:
    /// two hexadecimal digits of function code, two of declared digest
    /// byte length, then the hexadecimal digest itself.
    pub fn parse(v: &str) -> (r: Result<InfoHash, InfoHashError>)
        ensures
            r is Ok <==> multihash_wf(v@),
            r matches Ok(h) ==> {
                &&& Some(h.hash_fn) == HashFn::spec_from_code(spec_code_val(v@) as u8)
                &&& h.value@ == hex_to_bytes(v@.subrange(4, v@.len() as int))
                &&& h.wf()
            },
            r matches Err(e) ==> parse_error_matches(v@, e),
    {
        let n = v.unicode_len();
        if n < 5 {
            return Err(InfoHashError::TooShort(n));
        }
        let l_hi = crate::hex::hex_digit_val(v.get_char(2));
        let l_lo = crate::hex::hex_digit_val(v.get_char(3));
        let expected: u8 = match (l_hi, l_lo) {
            (Some(h), Some(l)) => h * 16 + l,
            _ => {
                return Err(InfoHashError::MalformedLength(substr_string(v, 2, 4)));
            },
        };
        if n - 4 != 2 * (expected as usize) {
            return Err(InfoHashError::MalformedHash(n - 4, expected));
        }
        let c_hi = crate::hex::hex_digit_val(v.get_char(0));
        let c_lo = crate::hex::hex_digit_val(v.get_char(1));
        let hash_fn = match (c_hi, c_lo) {
            (Some(h), Some(l)) => match HashFn::from_code(h * 16 + l) {
                Some(f) => f,
                None => {
                    return Err(InfoHashError::UnknownCode(substr_string(v, 0, 2)));
                },
            },
            _ => {
                return Err(InfoHashError::UnknownCode(substr_string(v, 0, 2)));
            },
        };
        let digest = v.substring_char(4, n);
        proof {
            assert(digest@.len() % 2 == 0);
            if multihash_wf(v@) {
                assert(is_hex_seq(digest@));
            }
            if is_hex_seq(digest@) {
                assert forall|i: int| 0 <= i < v@.len() implies is_hex_digit(#[trigger] v@[i]) by {
                    if i >= 4 {
                        assert(v@[i] == digest@[i - 4]);
                    }
                }
            }
        }
        match decode_hex(digest) {
            Some(bytes) => Ok(InfoHash { hash_fn, value: bytes }),
            None => Err(InfoHashError::TryInto),
        }
    }

    /// The lowercase hexadecimal text of the raw digest alone — for a
    /// legacy identifier, exactly its original forty-character form.
    pub fn to_hex(&self) -> (r: String)
        ensures
            r@ == bytes_to_hex(self.value@),
    {
        encode_hex(self.value.as_slice())
    }

    /// The multihash text of the identifier: function code, digest byte
    /// length, digest, all in lowercase hexadecimal.
    pub fn to_multihash(&self) -> (r: String)
        requires
            self.wf(),
        ensures
            r@ == bytes_to_hex(seq![self.hash_fn.spec_code(), self.value@.len() as u8]
                + self.value@),
    {
        let mut tagged: Vec<u8> = Vec::new();
        tagged.push(self.hash_fn.code());
        tagged.push(self.value.len() as u8);
        let mut i: usize = 0;
        let m = self.value.len();
        while i < m
            invariant
                m == self.value@.len(),
                i <= m,
                tagged@ == seq![self.hash_fn.spec_code(), self.value@.len() as u8]
                    + self.value@.take(i as int),
            decreases m - i,
        {
            tagged.push(self.value[i]);
            proof {
                assert(tagged@ =~= seq![self.hash_fn.spec_code(), self.value@.len() as u8]
                    + self.value@.take(i + 1));
            }
            i = i + 1;
        }
        proof {
            assert(self.value@.take(m as int) =~= self.value@);
        }
        encode_hex(tagged.as_slice())
    }
}

/// Law: a valid lowercase legacy (bare SHA-1) text decodes, and
/// re-encoding the decoded digest gives back the text unchanged.
pub proof fn lemma_legacy_roundtrip(s: Seq<char>)
    requires
        s.len() == 40,
        is_hex_seq(s),
        forall|i: int| 0 <= i < s.len() ==> is_lower_hex_digit(#[trigger] s[i]),
    ensures
        bytes_to_hex(hex_to_bytes(s)) == s,
{
    lemma_hex_roundtrip(s);
}

/// Law: a well-formed multihash text with a registered function code
/// parses, and re-emitting the parsed identifier as a multihash gives
/// back the text with every digit lowercase.
pub proof fn lemma_multihash_roundtrip(s: Seq<char>)
    requires
        multihash_wf(s),
    ensures
        ({
            let f = HashFn::spec_from_code(spec_code_val(s) as u8).unwrap();
            let d = hex_to_bytes(s.subrange(4, s.len() as int));
            bytes_to_hex(seq![f.spec_code(), d.len() as u8] + d) == s.map_values(
                |c: char| to_lower_hex(c),
            )
        }),
{
    let f = HashFn::spec_from_code(spec_code_val(s) as u8).unwrap();
    let digest = s.subrange(4, s.len() as int);
    let d = hex_to_bytes(digest);
    let full = seq![f.spec_code(), d.len() as u8] + d;
    let out = bytes_to_hex(full);
    let low = s.map_values(|c: char| to_lower_hex(c));
    assert(d.len() == spec_declared_len(s));
    assert(out.len() == low.len());
    lemma_hex_lower_roundtrip(digest);
    assert forall|i: int| 0 <= i < out.len() implies out[i] == low[i] by {
        lemma_hex_val_bound(s[0]);
        lemma_hex_val_bound(s[1]);
        lemma_hex_val_bound(s[2]);
        lemma_hex_val_bound(s[3]);
        if i < 2 {
            assert(full[0] == f.spec_code());
            assert(f.spec_code() as int == spec_code_val(s));
            assert(f.spec_code() / 16 == hex_val(s[0]) && f.spec_code() as int % 16 == hex_val(
                s[1],
            )) by (nonlinear_arith)
                requires
                    f.spec_code() as int == hex_val(s[0]) * 16 + hex_val(s[1]),
                    0 <= hex_val(s[0]) < 16,
                    0 <= hex_val(s[1]) < 16,
            ;
            lemma_digit_roundtrip(s[i]);
        } else if i < 4 {
            assert(full[1] as int == spec_declared_len(s));
            assert(full[1] / 16 == hex_val(s[2]) && full[1] as int % 16 == hex_val(s[3])) by (
            nonlinear_arith)
                requires
                    full[1] as int == hex_val(s[2]) * 16 + hex_val(s[3]),
                    0 <= hex_val(s[2]) < 16,
                    0 <= hex_val(s[3]) < 16,
            ;
            lemma_digit_roundtrip(s[i]);
        } else {
            assert(full[i / 2] == d[i / 2 - 2]);
            assert(out[i] == bytes_to_hex(d)[i - 4]);
            assert(bytes_to_hex(d)[i - 4] == digest.map_values(|c: char| to_lower_hex(c))[i - 4]);
            assert(low[i] == to_lower_hex(s[i]));
            assert(digest[i - 4] == s[i]);
        }
    }
    assert(out =~= low);
}

} // verus!
