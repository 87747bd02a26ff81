//! Hexadecimal text: the character-level model and the executable
//! decoder/encoder that the identifier types are built on.

use vstd::prelude::*;

verus! {

broadcast use vstd::utf8::char_u32_cast;

/// A character that denotes a hexadecimal digit (either case).
pub open spec fn is_hex_digit(c: char) -> bool {
    let v = c as u32;
    (48 <= v && v <= 57) || (97 <= v && v <= 102) || (65 <= v && v <= 70)
}

/// The numeric value of a hexadecimal digit character.
pub open spec fn hex_val(c: char) -> int
    recommends
        is_hex_digit(c),
{
    let v = c as u32;
    if 48 <= v && v <= 57 {
        v - 48
    } else if 97 <= v && v <= 102 {
        v - 87
    } else {
        v - 55
    }
}

/// The lowercase hexadecimal digit character for a value below 16.
pub open spec fn lower_hex_char(n: int) -> char
    recommends
        0 <= n < 16,
{
    if n < 10 {
        ((48 + n) as u32) as char
    } else {
        ((87 + n) as u32) as char
    }
}

/// Every character of `s` is a hexadecimal digit.
pub open spec fn is_hex_seq(s: Seq<char>) -> bool {
    forall|i: int| 0 <= i < s.len() ==> is_hex_digit(#[trigger] s[i])
}

/// The bytes denoted by an even-length hexadecimal string.
pub open spec fn hex_to_bytes(s: Seq<char>) -> Seq<u8>
    recommends
        s.len() % 2 == 0,
        is_hex_seq(s),
{
    Seq::new((s.len() / 2) as nat, |i: int| (hex_val(s[2 * i]) * 16 + hex_val(s[2 * i + 1])) as u8)
}

/// The lowercase hexadecimal rendering of a byte string.
pub open spec fn bytes_to_hex(b: Seq<u8>) -> Seq<char> {
    Seq::new(
        (2 * b.len()) as nat,
        |i: int|
            if i % 2 == 0 {
                lower_hex_char(b[i / 2] as int / 16)
            } else {
                lower_hex_char(b[i / 2] as int % 16)
            },
    )
}

/// A hexadecimal digit written in its canonical (lowercase) form.
pub open spec fn is_lower_hex_digit(c: char) -> bool {
    let v = c as u32;
    (48 <= v && v <= 57) || (97 <= v && v <= 102)
}

/// The lowercase form of a hexadecimal digit character.
pub open spec fn to_lower_hex(c: char) -> char
    recommends
        is_hex_digit(c),
{
    let v = c as u32;
    if 65 <= v && v <= 70 {
        ((v + 32) as u32) as char
    } else {
        c
    }
}

/// Hexadecimal digits are exactly the characters the decoder accepts,
/// and their value is below 16.
pub proof fn lemma_hex_val_bound(c: char)
    requires
        is_hex_digit(c),
    ensures
        0 <= hex_val(c) < 16,
{
}

/// Re-encoding the value of a hexadecimal digit gives back its
/// lowercase form.
pub proof fn lemma_digit_roundtrip(c: char)
    requires
        is_hex_digit(c),
    ensures
        lower_hex_char(hex_val(c)) == to_lower_hex(c),
        is_lower_hex_digit(to_lower_hex(c)),
        hex_val(to_lower_hex(c)) == hex_val(c),
{
    broadcast use vstd::utf8::char_u32_cast;

}

/// The numeric value of a hexadecimal digit character, or `None` where
/// the character is no hexadecimal digit.
pub fn hex_digit_val(c: char) -> (r: Option<u8>)
    ensures
        r is Some <==> is_hex_digit(c),
        r is Some ==> r.unwrap() as int == hex_val(c),
{
    let v = c as u32;
    if 48 <= v && v <= 57 {
        Some((v - 48) as u8)
    } else if 97 <= v && v <= 102 {
        Some((v - 87) as u8)
    } else if 65 <= v && v <= 70 {
        Some((v - 55) as u8)
    } else {
        None
    }
}

/// The lowercase hexadecimal digit character of a value below 16.
pub fn hex_char(n: u8) -> (c: char)
    requires
        n < 16,
    ensures
        c == lower_hex_char(n as int),
{
    let code: u32 = if n < 10 {
        48 + n as u32
    } else {
        87 + n as u32
    };
    let c = (code as u8) as char;
    proof {
        assert(c as u32 == code);
    }
    c
}

/// Decodes an even-length hexadecimal string into its bytes; `None`
/// where the length is odd or a character is no hexadecimal digit.
pub fn decode_hex(s: &str) -> (r: Option<Vec<u8>>)
    ensures
        r is Some <==> (s@.len() % 2 == 0 && is_hex_seq(s@)),
        r is Some ==> r.unwrap()@ == hex_to_bytes(s@),
{
    let n = s.unicode_len();
    if n % 2 != 0 {
        // an odd count of digits denotes no byte string
        proof {
            assert(s@.len() % 2 != 0);
        }
        return None;
    }
    let mut out: Vec<u8> = Vec::new();
    let mut i: usize = 0;
    while i < n
        invariant
            n == s@.len(),
            n % 2 == 0,
            i % 2 == 0,
            i <= n,
            forall|j: int| 0 <= j < i ==> is_hex_digit(#[trigger] s@[j]),
            out@.len() == i / 2,
            forall|j: int|
                0 <= j < i / 2 ==> #[trigger] out@[j] as int == hex_val(s@[2 * j]) * 16 + hex_val(
                    s@[2 * j + 1],
                ),
        decreases n - i,
    {
        let hi = match hex_digit_val(s.get_char(i)) {
            Some(v) => v,
            None => {
                return None;
            },
        };
        let lo = match hex_digit_val(s.get_char(i + 1)) {
            Some(v) => v,
            None => {
                return None;
            },
        };
        out.push(hi * 16 + lo);
        i = i + 2;
    }
    proof {
        assert(out@ =~= hex_to_bytes(s@));
    }
    Some(out)
}

/// Appends one character to a string.
///
/// Relies on `String::push`: appends the given `char` to the end of
/// the string.
#[verifier::external_body]
fn string_push(s: &mut String, c: char)
    ensures
        final(s)@ == old(s)@ + seq![c],
{
    s.push(c);
}

/// Encodes bytes as lowercase hexadecimal text.
pub fn encode_hex(b: &[u8]) -> (r: String)
    ensures
        r@ == bytes_to_hex(b@),
{
    let mut r = String::new();
    let n = b.len();
    let mut i: usize = 0;
    while i < n
        invariant
            n == b@.len(),
            i <= n,
            r@ == bytes_to_hex(b@.take(i as int)),
        decreases n - i,
    {
        let x = b[i];
        string_push(&mut r, hex_char(x / 16));
        string_push(&mut r, hex_char(x % 16));
        i = i + 1;
        proof {
            assert(r@ =~= bytes_to_hex(b@.take(i as int)));
        }
    }
    proof {
        assert(b@.take(n as int) =~= b@);
    }
    r
}

/// Law: decoding hexadecimal text and re-encoding the bytes gives back
/// the text with every digit in its lowercase form.
pub proof fn lemma_hex_lower_roundtrip(s: Seq<char>)
    requires
        s.len() % 2 == 0,
        is_hex_seq(s),
    ensures
        bytes_to_hex(hex_to_bytes(s)) == s.map_values(|c: char| to_lower_hex(c)),
{
    let b = hex_to_bytes(s);
    let t = s.map_values(|c: char| to_lower_hex(c));
    assert forall|i: int| 0 <= i < 2 * b.len() implies bytes_to_hex(b)[i] == t[i] by {
        let j = i / 2;
        lemma_hex_val_bound(s[2 * j]);
        lemma_hex_val_bound(s[2 * j + 1]);
        assert(b[j] as int == hex_val(s[2 * j]) * 16 + hex_val(s[2 * j + 1]));
        assert(b[j] / 16 == hex_val(s[2 * j]) && b[j] as int % 16 == hex_val(s[2 * j + 1])) by (
        nonlinear_arith)
            requires
                b[j] as int == hex_val(s[2 * j]) * 16 + hex_val(s[2 * j + 1]),
                0 <= hex_val(s[2 * j]) < 16,
                0 <= hex_val(s[2 * j + 1]) < 16,
        ;
        lemma_digit_roundtrip(s[i]);
    }
    assert(bytes_to_hex(b) =~= t);
}

/// Law: decoding canonical (lowercase) hexadecimal text and re-encoding
/// the bytes gives back the text unchanged.
pub proof fn lemma_hex_roundtrip(s: Seq<char>)
    requires
        s.len() % 2 == 0,
        is_hex_seq(s),
        forall|i: int| 0 <= i < s.len() ==> is_lower_hex_digit(#[trigger] s[i]),
    ensures
        bytes_to_hex(hex_to_bytes(s)) == s,
{
    lemma_hex_lower_roundtrip(s);
    assert(s.map_values(|c: char| to_lower_hex(c)) =~= s);
}

/// Law: encoding bytes as hexadecimal text and decoding the text gives
/// back the bytes unchanged, and the text is lowercase hexadecimal.
pub proof fn lemma_bytes_roundtrip(b: Seq<u8>)
    ensures
        bytes_to_hex(b).len() == 2 * b.len(),
        is_hex_seq(bytes_to_hex(b)),
        forall|i: int|
            0 <= i < 2 * b.len() ==> is_lower_hex_digit(#[trigger] bytes_to_hex(b)[i]),
        hex_to_bytes(bytes_to_hex(b)) == b,
{
    broadcast use vstd::utf8::char_u32_cast;

    let s = bytes_to_hex(b);
    assert forall|i: int| 0 <= i < s.len() implies is_hex_digit(#[trigger] s[i])
        && is_lower_hex_digit(s[i]) by {
        let j = i / 2;
        assert(0 <= b[j] / 16 < 16 && 0 <= b[j] as int % 16 < 16);
        lemma_lower_hex_char_val(b[j] as int / 16);
        lemma_lower_hex_char_val(b[j] as int % 16);
    }
    assert forall|j: int| 0 <= j < b.len() implies hex_to_bytes(s)[j] == b[j] by {
        lemma_lower_hex_char_val(b[j] as int / 16);
        lemma_lower_hex_char_val(b[j] as int % 16);
        assert(hex_val(s[2 * j]) == b[j] / 16);
        assert(hex_val(s[2 * j + 1]) == b[j] as int % 16);
        assert((b[j] / 16) * 16 + b[j] % 16 == b[j]) by (nonlinear_arith);
    }
    assert(hex_to_bytes(s) =~= b);
}

/// The value written by `lower_hex_char` reads back as itself.
pub proof fn lemma_lower_hex_char_val(n: int)
    requires
        0 <= n < 16,
    ensures
        is_hex_digit(lower_hex_char(n)),
        is_lower_hex_digit(lower_hex_char(n)),
        hex_val(lower_hex_char(n)) == n,
{
    broadcast use vstd::utf8::char_u32_cast;

    if n < 10 {
        assert(lower_hex_char(n) as u32 == 48 + n);
    } else {
        assert(lower_hex_char(n) as u32 == 87 + n);
    }
}

} // verus!
