//! Hexadecimal, base64, SHA-256 and lossy UTF-8: the codecs of the wire format.
//!
//! The codecs themselves come from the `hex`, `base64` and `sha2` crates and
//! from the standard library; this module states what they compute and proves
//! what the rest of the library relies on.

use crate::text;
use base64::Engine;
use sha2::Digest;
use vstd::prelude::*;
use vstd::utf8::*;

verus! {

// ---------------------------------------------------------------------------
// Hexadecimal
// ---------------------------------------------------------------------------

/// The lower case hexadecimal digit of `v`, for `v < 16`.
pub open spec fn hex_digit(v: int) -> char {
    if v < 10 {
        ((48 + v) as u32) as char
    } else {
        ((87 + v) as u32) as char
    }
}

/// The lower case hexadecimal form of `bytes`: two digits per byte, the high
/// one first.
pub open spec fn hex_text(bytes: Seq<u8>) -> Seq<char> {
    Seq::new(
        2 * bytes.len(),
        |i: int|
            if i % 2 == 0 {
                hex_digit(bytes[i / 2] as int / 16)
            } else {
                hex_digit(bytes[i / 2] as int % 16)
            },
    )
}

/// Whether `b` is an ASCII hexadecimal digit, in either case.
pub open spec fn is_hex_byte(b: u8) -> bool {
    ||| 48 <= b <= 57
    ||| 65 <= b <= 70
    ||| 97 <= b <= 102
}

/// The value of an ASCII hexadecimal digit.
pub open spec fn hex_value(b: u8) -> int {
    if b <= 57 {
        b - 48
    } else if b <= 70 {
        b - 55
    } else {
        b - 87
    }
}

/// Whether `ascii` is made of hexadecimal digits only.
pub open spec fn all_hex(ascii: Seq<u8>) -> bool {
    forall|i: int| 0 <= i < ascii.len() ==> is_hex_byte(#[trigger] ascii[i])
}

/// Whether `ascii` is the hexadecimal form of some bytes: an even number of
/// hexadecimal digits.
pub open spec fn is_hex(ascii: Seq<u8>) -> bool {
    ascii.len() % 2 == 0 && all_hex(ascii)
}

/// The bytes that the hexadecimal digits `ascii` stand for.
pub open spec fn unhexed(ascii: Seq<u8>) -> Seq<u8> {
    Seq::new(
        ascii.len() / 2,
        |i: int| (16 * hex_value(ascii[2 * i]) + hex_value(ascii[2 * i + 1])) as u8,
    )
}

/// Why a text is not hexadecimal.
#[derive(Debug, Clone, Copy, PartialEq, Eq)]
pub enum HexError {
    /// The byte at `index` is no hexadecimal digit; `c` is the byte read as a
    /// Latin-1 character.
    InvalidHexCharacter { c: char, index: usize },
    /// The number of digits is odd.
    OddLength,
    /// The text does not fill a container of fixed size.
    InvalidStringLength,
}

/// What decoding the hexadecimal digits `ascii` gives.
pub open spec fn hex_outcome(ascii: Seq<u8>, r: Result<Vec<u8>, HexError>) -> bool {
    match r {
        Ok(bytes) => is_hex(ascii) && bytes@ == unhexed(ascii),
        Err(HexError::OddLength) => ascii.len() % 2 == 1,
        Err(HexError::InvalidHexCharacter { c, index }) => {
            &&& ascii.len() % 2 == 0
            &&& index < ascii.len()
            &&& all_hex(ascii.take(index as int))
            &&& !is_hex_byte(ascii[index as int])
            &&& c == ascii[index as int] as char
        },
        Err(HexError::InvalidStringLength) => false,
    }
}

/// Calls `hex::encode`: every byte becomes two lower case hexadecimal digits.
///
/// The bound keeps the digits within what one allocation can hold.
#[verifier::external_body]
pub(crate) fn hex_encode(bytes: &[u8]) -> (r: String)
    requires
        2 * bytes@.len() <= isize::MAX,
    ensures
        r@ == hex_text(bytes@),
{
    hex::encode(bytes)
}

/// Calls `hex::decode`: an odd number of bytes is refused first, then the
/// first byte that is no hexadecimal digit of either case; otherwise each pair
/// of digits gives one byte.
#[verifier::external_body]
pub(crate) fn hex_decode(ascii: &[u8]) -> (r: Result<Vec<u8>, HexError>)
    ensures
        hex_outcome(ascii@, r),
{
    match hex::decode(ascii) {
        Ok(bytes) => Ok(bytes),
        Err(hex::FromHexError::InvalidHexCharacter { c, index }) => {
            Err(HexError::InvalidHexCharacter { c, index })
        },
        Err(hex::FromHexError::OddLength) => Err(HexError::OddLength),
        Err(hex::FromHexError::InvalidStringLength) => Err(HexError::InvalidStringLength),
    }
}

/// How a character is shown between single quotes in a diagnostic, escaped
/// where it is not printable.
pub uninterp spec fn shown_char(c: char) -> Seq<char>;

/// The diagnostic for a text that is not hexadecimal.
pub open spec fn hex_error_text(e: HexError) -> Seq<char> {
    match e {
        HexError::InvalidHexCharacter { c, index } => "Invalid character "@ + shown_char(c)
            + " at position "@ + text::decimal_text(index as nat),
        HexError::OddLength => "Odd number of digits"@,
        HexError::InvalidStringLength => "Invalid string length"@,
    }
}

/// Calls the `Display` rendering of `hex::FromHexError`. The offending
/// character is shown by the standard library's `Debug` rendering of `char`,
/// which is left as a name.
#[verifier::external_body]
pub(crate) fn hex_error_message(e: HexError) -> (r: String)
    ensures
        e matches HexError::InvalidHexCharacter { c, index } ==> r@ == "Invalid character "@
            + shown_char(c) + " at position "@ + text::decimal_text(index as nat),
        e is OddLength ==> r@ == "Odd number of digits"@,
        e is InvalidStringLength ==> r@ == "Invalid string length"@,
{
    let outside = match e {
        HexError::InvalidHexCharacter { c, index } => {
            hex::FromHexError::InvalidHexCharacter { c, index }
        },
        HexError::OddLength => hex::FromHexError::OddLength,
        HexError::InvalidStringLength => hex::FromHexError::InvalidStringLength,
    };
    outside.to_string()
}

/// The position of the first byte that is no hexadecimal digit, or the length
/// when there is none.
pub open spec fn first_non_hex(ascii: Seq<u8>) -> int
    decreases ascii.len(),
{
    if ascii.len() == 0 || !is_hex_byte(ascii[0]) {
        0
    } else {
        1 + first_non_hex(ascii.drop_first())
    }
}

/// Why `ascii` is not the hexadecimal form of any bytes, in words; `None` when
/// it is.
pub open spec fn hex_refusal(ascii: Seq<u8>) -> Option<Seq<char>> {
    if ascii.len() % 2 == 1 {
        Some(hex_error_text(HexError::OddLength))
    } else if all_hex(ascii) {
        None
    } else {
        let index = first_non_hex(ascii);
        let c = ascii[index] as char;
        Some(hex_error_text(HexError::InvalidHexCharacter { c, index: index as usize }))
    }
}

/// The first byte that is no digit is found where the bytes before it are.
proof fn lemma_first_non_hex(ascii: Seq<u8>, index: int)
    requires
        0 <= index < ascii.len(),
        all_hex(ascii.take(index)),
        !is_hex_byte(ascii[index]),
    ensures
        first_non_hex(ascii) == index,
    decreases index,
{
    if index > 0 {
        let rest = ascii.drop_first();
        assert(ascii.take(index)[0] == ascii[0]);
        assert forall|i: int| 0 <= i < index - 1 implies is_hex_byte(
            #[trigger] rest.take(index - 1)[i],
        ) by {
            assert(rest.take(index - 1)[i] == ascii.take(index)[i + 1]);
        }
        lemma_first_non_hex(rest, index - 1);
    }
}

/// Decodes a hexadecimal text, or says in words why it is none.
pub fn decode_hex(text: &str) -> (r: Result<Vec<u8>, String>)
    ensures
        match r {
            Ok(bytes) => hex_refusal(encode_utf8(text@)) is None && bytes@ == unhexed(
                encode_utf8(text@),
            ),
            Err(why) => hex_refusal(encode_utf8(text@)) == Some(why@),
        },
{
    match hex_decode(text.as_bytes()) {
        Ok(bytes) => Ok(bytes),
        Err(e) => {
            proof {
                if let HexError::InvalidHexCharacter { c, index } = e {
                    lemma_first_non_hex(encode_utf8(text@), index as int);
                }
            }
            Err(hex_error_message(e))
        },
    }
}

/// The UTF-8 form of hexadecimal digits is one byte per digit.
pub proof fn lemma_hex_text_bytes(bytes: Seq<u8>)
    ensures
        encode_utf8(hex_text(bytes)).len() == 2 * bytes.len(),
        forall|i: int|
            0 <= i < 2 * bytes.len() ==> #[trigger] encode_utf8(hex_text(bytes))[i] as char
                == hex_text(bytes)[i],
        all_hex(encode_utf8(hex_text(bytes))),
{
    let text = hex_text(bytes);
    assert(is_ascii_chars(text));
    is_ascii_chars_encode_utf8(text);
}

/// Decoding the hexadecimal form of `bytes` gives `bytes` back.
pub proof fn law_hex_round_trip(bytes: Seq<u8>)
    ensures
        is_hex(encode_utf8(hex_text(bytes))),
        unhexed(encode_utf8(hex_text(bytes))) == bytes,
{
    lemma_hex_text_bytes(bytes);
    let ascii = encode_utf8(hex_text(bytes));
    assert forall|i: int| 0 <= i < bytes.len() implies unhexed(ascii)[i] == bytes[i] by {
        assert(ascii[2 * i] as char == hex_text(bytes)[2 * i]);
        assert(ascii[2 * i + 1] as char == hex_text(bytes)[2 * i + 1]);
        assert((2 * i) / 2 == i && (2 * i + 1) / 2 == i);
        assert((2 * i) % 2 == 0 && (2 * i + 1) % 2 == 1);
    }
    assert(unhexed(ascii) == bytes);
}

/// Lower case hexadecimal digits are what decoding and encoding again gives:
/// the canonical form of a hexadecimal text is the text in lower case.
pub proof fn law_hex_canonical_is_lower_case(s: Seq<char>)
    requires
        is_hex(encode_utf8(s)),
    ensures
        hex_text(unhexed(encode_utf8(s))) == text::lowered(s),
{
    lemma_hex_is_ascii(s);
    let ascii = encode_utf8(s);
    is_ascii_chars_encode_utf8(s);
    let bytes = unhexed(ascii);
    assert forall|i: int| 0 <= i < s.len() implies hex_text(bytes)[i] == text::lower_char(
        s[i],
    ) by {
        let k = i / 2;
        assert(is_hex_byte(ascii[2 * k]) && is_hex_byte(ascii[2 * k + 1]));
        assert(ascii[i] == s[i] as u8);
        assert(bytes[k] as int == 16 * hex_value(ascii[2 * k]) + hex_value(ascii[2 * k + 1]));
        if i % 2 == 0 {
            assert(i == 2 * k);
            assert(bytes[k] as int / 16 == hex_value(ascii[i]));
        } else {
            assert(i == 2 * k + 1);
            assert(bytes[k] as int % 16 == hex_value(ascii[i]));
        }
    }
    assert(hex_text(bytes) == text::lowered(s));
}

/// A text whose UTF-8 form is made of hexadecimal digits is ASCII.
pub proof fn lemma_hex_is_ascii(s: Seq<char>)
    requires
        all_hex(encode_utf8(s)),
    ensures
        is_ascii_chars(s),
    decreases s.len(),
{
    if s.len() > 0 {
        let first = encode_scalar(s[0] as u32);
        let rest = encode_utf8(s.drop_first());
        let whole = encode_utf8(s);
        assert(whole == first + rest);
        assert(first.len() > 0);
        assert(whole[0] == first[0]);
        assert(is_hex_byte(first[0]));
        let c = s[0] as u32;
        char_is_scalar(s[0]);
        char_u32_cast(s[0], c);
        assert(leading_byte_width_2(c) >= 0xc0 && leading_byte_width_3(c) >= 0xc0
            && leading_byte_width_4(c) >= 0xc0) by (bit_vector);
        assert(has_width_1_encoding(c));
        assert forall|i: int| 0 <= i < rest.len() implies is_hex_byte(#[trigger] rest[i]) by {
            assert(whole[first.len() + i] == rest[i]);
        }
        lemma_hex_is_ascii(s.drop_first());
        assert forall|i: int| 0 <= i < s.len() implies '\0' <= #[trigger] s[i] <= '\u{7f}' by {
            if i > 0 {
                assert(s.drop_first()[i - 1] == s[i]);
            }
        }
    }
}

// ---------------------------------------------------------------------------
// Base64
// ---------------------------------------------------------------------------

/// The base64 symbol of `v`, for `v < 64`.
pub open spec fn base64_symbol(v: int) -> char {
    if v < 26 {
        ((65 + v) as u32) as char
    } else if v < 52 {
        ((71 + v) as u32) as char
    } else if v < 62 {
        ((v - 4) as u32) as char
    } else if v == 62 {
        '+'
    } else {
        '/'
    }
}

/// The padded standard base64 form of `bytes`: four symbols for every three
/// bytes, with `=` in place of the symbols that a short last group lacks.
pub open spec fn base64_text(bytes: Seq<u8>) -> Seq<char>
    decreases bytes.len(),
{
    let b0 = bytes[0] as int;
    let b1 = bytes[1] as int;
    let b2 = bytes[2] as int;
    let s0 = base64_symbol(b0 / 4);
    if bytes.len() == 0 {
        Seq::empty()
    } else if bytes.len() == 1 {
        seq![s0, base64_symbol(b0 % 4 * 16), '=', '=']
    } else if bytes.len() == 2 {
        seq![s0, base64_symbol(b0 % 4 * 16 + b1 / 16), base64_symbol(b1 % 16 * 4), '=']
    } else {
        seq![
            s0,
            base64_symbol(b0 % 4 * 16 + b1 / 16),
            base64_symbol(b1 % 16 * 4 + b2 / 64),
            base64_symbol(b2 % 64),
        ] + base64_text(bytes.skip(3))
    }
}

/// Calls `encode` of the `base64` crate's `STANDARD` engine.
///
/// The bound keeps the symbols within what one allocation can hold.
#[verifier::external_body]
pub(crate) fn base64_encode(bytes: &[u8]) -> (r: String)
    requires
        2 * bytes@.len() <= isize::MAX,
    ensures
        r@ == base64_text(bytes@),
{
    base64::engine::general_purpose::STANDARD.encode(bytes)
}

/// Calls `decode` of the `base64` crate's `STANDARD` engine, which takes
/// canonical texts only: the padding must be complete and the unused bits of
/// the last symbol zero. So it accepts exactly what encoding produces.
#[verifier::external_body]
pub(crate) fn base64_decode(text: &str) -> (r: Option<Vec<u8>>)
    ensures
        r matches Some(bytes) ==> base64_text(bytes@) == text@,
        r is None ==> forall|bytes: Seq<u8>| base64_text(bytes) != text@,
{
    base64::engine::general_purpose::STANDARD.decode(text).ok()
}

/// Different values have different symbols, and none of them is the padding.
proof fn lemma_base64_symbol(v: int, w: int)
    requires
        0 <= v < 64,
        0 <= w < 64,
    ensures
        base64_symbol(v) == base64_symbol(w) ==> v == w,
        base64_symbol(v) != '=',
{
}

/// Different bytes have different base64 forms, so decoding gives back what
/// was encoded.
pub proof fn law_base64_round_trip(a: Seq<u8>, b: Seq<u8>)
    requires
        base64_text(a) == base64_text(b),
    ensures
        a == b,
    decreases a.len(),
{
    let x = base64_text(a);
    let y = base64_text(b);
    if a.len() == 0 || b.len() == 0 {
        assert(a.len() > 0 ==> x.len() >= 4);
        assert(b.len() > 0 ==> y.len() >= 4);
        assert(a == b);
    } else {
        let (a0, b0) = (a[0] as int, b[0] as int);
        let (a1, b1) = (
            if a.len() > 1 {
                a[1] as int
            } else {
                0
            },
            if b.len() > 1 {
                b[1] as int
            } else {
                0
            },
        );
        let (a2, b2) = (
            if a.len() > 2 {
                a[2] as int
            } else {
                0
            },
            if b.len() > 2 {
                b[2] as int
            } else {
                0
            },
        );
        assert(x[0] == y[0] && x[1] == y[1] && x[2] == y[2] && x[3] == y[3]);
        lemma_base64_symbol(a0 / 4, b0 / 4);
        lemma_base64_symbol(a0 % 4 * 16 + a1 / 16, b0 % 4 * 16 + b1 / 16);
        lemma_base64_symbol(a1 % 16 * 4 + a2 / 64, b1 % 16 * 4 + b2 / 64);
        lemma_base64_symbol(a2 % 64, b2 % 64);
        if a.len() >= 3 {
            assert(x[0] == base64_symbol(a0 / 4));
            assert(x[1] == base64_symbol(a0 % 4 * 16 + a1 / 16));
            assert(x[2] == base64_symbol(a1 % 16 * 4 + a2 / 64));
            assert(x[3] == base64_symbol(a2 % 64));
            assert(x[3] != '=');
            assert(b.len() >= 3);
            assert(x.skip(4) == base64_text(a.skip(3)));
            assert(y.skip(4) == base64_text(b.skip(3)));
            law_base64_round_trip(a.skip(3), b.skip(3));
            assert(y[0] == base64_symbol(b0 / 4));
            assert(y[1] == base64_symbol(b0 % 4 * 16 + b1 / 16));
            assert(y[2] == base64_symbol(b1 % 16 * 4 + b2 / 64));
            assert(y[3] == base64_symbol(b2 % 64));
            assert(a0 == b0 && a1 == b1 && a2 == b2);
            assert(a == a.take(3) + a.skip(3));
            assert(b == b.take(3) + b.skip(3));
            assert(a.take(3) == b.take(3));
        } else {
            assert(x.len() == 4);
            assert(b.len() < 3) by {
                if b.len() >= 3 {
                    assert(y[3] != '=');
                }
            }
            assert(a.len() == b.len());
            assert(a == b);
        }
    }
}

/// The bytes whose base64 form `text` is, if it is one.
pub open spec fn unbased64(text: Seq<char>) -> Option<Seq<u8>> {
    if exists|bytes: Seq<u8>| #[trigger] base64_text(bytes) == text {
        Some(choose|bytes: Seq<u8>| #[trigger] base64_text(bytes) == text)
    } else {
        None
    }
}

/// Encoding and decoding give back what was encoded.
pub proof fn law_base64_decodes(bytes: Seq<u8>)
    ensures
        unbased64(base64_text(bytes)) == Some(bytes),
{
    law_base64_round_trip(unbased64(base64_text(bytes))->0, bytes);
}

/// How a blob is written in a response: `base64(hex(bytes))`.
pub open spec fn blob_text(bytes: Seq<u8>) -> Seq<char> {
    base64_text(encode_utf8(hex_text(bytes)))
}

/// The bytes that a blob in a response stands for, if it is well-formed.
pub open spec fn unblobbed(text: Seq<char>) -> Option<Seq<u8>> {
    match unbased64(text) {
        Some(ascii) => if is_hex(ascii) {
            Some(unhexed(ascii))
        } else {
            None
        },
        None => None,
    }
}

/// Whether `bytes` are few enough for their blob to fit one allocation.
pub open spec fn is_encodable(bytes: Seq<u8>) -> bool {
    4 * bytes.len() <= isize::MAX
}

/// Writes bytes as a blob.
pub fn encode_blob(bytes: &[u8]) -> (r: String)
    requires
        is_encodable(bytes@),
    ensures
        r@ == blob_text(bytes@),
{
    let digits = hex_encode(bytes);
    proof {
        lemma_hex_text_bytes(bytes@);
    }
    base64_encode(digits.as_str().as_bytes())
}

/// Reads a blob.
pub fn decode_blob(text: &str) -> (r: Option<Vec<u8>>)
    ensures
        match r {
            Some(bytes) => unblobbed(text@) == Some(bytes@),
            None => unblobbed(text@) is None,
        },
{
    match base64_decode(text) {
        None => None,
        Some(ascii) => {
            proof {
                law_base64_decodes(ascii@);
            }
            match hex_decode(ascii.as_slice()) {
                Ok(bytes) => Some(bytes),
                Err(_) => None,
            }
        },
    }
}

/// What is written as a blob is read back from it.
pub proof fn law_blob_round_trip(bytes: Seq<u8>)
    ensures
        unblobbed(blob_text(bytes)) == Some(bytes),
{
    law_base64_decodes(encode_utf8(hex_text(bytes)));
    law_hex_round_trip(bytes);
}

// ---------------------------------------------------------------------------
// Little-endian integers
// ---------------------------------------------------------------------------

/// The number that `bytes` denote, least significant byte first.
pub open spec fn le_value(bytes: Seq<u8>) -> nat
    decreases bytes.len(),
{
    if bytes.len() == 0 {
        0
    } else {
        bytes[0] as nat + 256 * le_value(bytes.drop_first())
    }
}

/// The `width` low bytes of `n`, least significant byte first.
pub open spec fn le_bytes(n: nat, width: nat) -> Seq<u8>
    decreases width,
{
    if width == 0 {
        Seq::empty()
    } else {
        seq![(n % 256) as u8] + le_bytes(n / 256, (width - 1) as nat)
    }
}

/// Reads eight bytes as a little-endian number.
pub fn u64_from_le(bytes: &[u8]) -> (r: u64)
    requires
        bytes@.len() == 8,
    ensures
        r as nat == le_value(bytes@),
{
    let low: u64 = bytes[0] as u64 + bytes[1] as u64 * 0x100 + bytes[2] as u64 * 0x1_0000 + bytes[3]
        as u64 * 0x100_0000;
    let high: u64 = bytes[4] as u64 + bytes[5] as u64 * 0x100 + bytes[6] as u64 * 0x1_0000
        + bytes[7] as u64 * 0x100_0000;
    proof {
        reveal_with_fuel(le_value, 9);
    }
    low + high * 0x1_0000_0000
}

/// Writes a number as eight little-endian bytes.
pub fn u64_to_le(n: u64) -> (r: Vec<u8>)
    ensures
        r@ == le_bytes(n as nat, 8),
{
    let mut out: Vec<u8> = Vec::new();
    let mut rest: u64 = n;
    let mut i: usize = 0;
    assert(out@ + le_bytes(n as nat, 8) == le_bytes(n as nat, 8));
    while i < 8
        invariant
            i <= 8,
            out@ + le_bytes(rest as nat, (8 - i) as nat) == le_bytes(n as nat, 8),
        decreases 8 - i,
    {
        let ghost before = out@;
        let low: u8 = (rest % 256) as u8;
        out.push(low);
        proof {
            let tail = le_bytes(rest as nat / 256, (8 - i - 1) as nat);
            assert(le_bytes(rest as nat, (8 - i) as nat) == seq![low] + tail);
            assert(before + (seq![low] + tail) == before.push(low) + tail);
        }
        rest = rest / 256;
        i = i + 1;
    }
    assert(out@ + le_bytes(rest as nat, 0) == out@);
    out
}

/// Numbers of 64 bits are read back from their eight bytes.
pub proof fn law_le_round_trip(n: nat)
    requires
        n <= u64::MAX,
    ensures
        le_bytes(n, 8).len() == 8,
        le_value(le_bytes(n, 8)) == n,
{
    assert(vstd::arithmetic::power::pow(256, 8) == 0x1_0000_0000_0000_0000) by {
        reveal_with_fuel(vstd::arithmetic::power::pow, 9);
    }
    lemma_le_round_trip(n, 8);
}

/// A number that `width` bytes can hold is read back from them.
proof fn lemma_le_round_trip(n: nat, width: nat)
    requires
        n < vstd::arithmetic::power::pow(256, width),
    ensures
        le_bytes(n, width).len() == width,
        le_value(le_bytes(n, width)) == n,
    decreases width,
{
    reveal_with_fuel(vstd::arithmetic::power::pow, 2);
    if width > 0 {
        let rest = (width - 1) as nat;
        assert(n < 256 * vstd::arithmetic::power::pow(256, rest));
        lemma_le_round_trip(n / 256, rest);
        assert(le_bytes(n, width).drop_first() == le_bytes(n / 256, rest));
    }
}

// ---------------------------------------------------------------------------
// SHA-256
// ---------------------------------------------------------------------------

/// The SHA-256 digest of `data`.
pub uninterp spec fn sha256(data: Seq<u8>) -> Seq<u8>;

/// The number of bytes that SHA-256 can take: its length field counts bits in
/// 64 bits.
pub const SHA256_LIMIT: u64 = 0x1fff_ffff_ffff_ffff;

/// Calls `Sha256::digest` of the `sha2` crate: the 32-byte digest of `data`.
/// The digest function itself is left as a name.
#[verifier::external_body]
pub(crate) fn sha256_digest(data: &[u8]) -> (r: Vec<u8>)
    requires
        data@.len() <= SHA256_LIMIT,
    ensures
        r@ == sha256(data@),
        r@.len() == 32,
{
    sha2::Sha256::digest(data).to_vec()
}

// ---------------------------------------------------------------------------
// Lossy UTF-8
// ---------------------------------------------------------------------------

/// `bytes` read as UTF-8, with replacement characters for what is not UTF-8.
pub uninterp spec fn lossy_text(bytes: Seq<u8>) -> Seq<char>;

/// Whether `bytes` that are UTF-8 are read as the text that they are.
pub open spec fn keeps_text(bytes: Seq<u8>) -> bool {
    valid_utf8(bytes) ==> lossy_text(bytes) == decode_utf8(bytes)
}

/// Calls `String::from_utf8_lossy`. Valid UTF-8 is decoded as it is; where the
/// replacement characters stand otherwise is left as a name.
#[verifier::external_body]
pub(crate) fn lossy_string(bytes: &[u8]) -> (r: String)
    ensures
        r@ == lossy_text(bytes@),
        valid_utf8(bytes@) ==> r@ == decode_utf8(bytes@),
{
    String::from_utf8_lossy(bytes).into_owned()
}

// ---------------------------------------------------------------------------
// Laws
// ---------------------------------------------------------------------------

/// Every byte is written as two lower case digits, the high one first.
pub proof fn law_hex_digit_pairs(bytes: Seq<u8>, i: int)
    requires
        0 <= i < bytes.len(),
    ensures
        hex_text(bytes).len() == 2 * bytes.len(),
        hex_text(bytes)[2 * i] == "0123456789abcdef"@[bytes[i] as int / 16],
        hex_text(bytes)[2 * i + 1] == "0123456789abcdef"@[bytes[i] as int % 16],
{
    reveal_strlit("0123456789abcdef");
    assert((2 * i) / 2 == i && (2 * i + 1) / 2 == i);
    assert((2 * i) % 2 == 0 && (2 * i + 1) % 2 == 1);
}

/// Two digits with the values `high` and `low`, in either case, are read as the
/// byte `16 * high + low`.
pub proof fn law_hex_digit_values(ascii: Seq<u8>, i: int, high: int, low: int)
    requires
        0 <= i < ascii.len() / 2,
        0 <= high < 16,
        0 <= low < 16,
        ascii[2 * i] as char == "0123456789abcdef"@[high] || ascii[2 * i] as char
            == "0123456789ABCDEF"@[high],
        ascii[2 * i + 1] as char == "0123456789abcdef"@[low] || ascii[2 * i + 1] as char
            == "0123456789ABCDEF"@[low],
    ensures
        unhexed(ascii).len() == ascii.len() / 2,
        unhexed(ascii)[i] as int == 16 * high + low,
{
    reveal_strlit("0123456789abcdef");
    reveal_strlit("0123456789ABCDEF");
}

/// A text is taken as hexadecimal exactly when it has an even number of
/// characters and each of them is one of `0` to `9`, `a` to `f` and `A` to `F`.
pub proof fn law_hex_texts(ascii: Seq<u8>)
    ensures
        hex_refusal(ascii) is None <==> ascii.len() % 2 == 0 && forall|i: int|
            0 <= i < ascii.len() ==> {
                let c = #[trigger] ascii[i] as char;
                '0' <= c && c <= '9' || 'a' <= c && c <= 'f' || 'A' <= c && c <= 'F'
            },
        is_hex(ascii) <==> hex_refusal(ascii) is None,
{
    let accepted = ascii.len() % 2 == 0 && forall|i: int|
        0 <= i < ascii.len() ==> {
            let c = #[trigger] ascii[i] as char;
            '0' <= c && c <= '9' || 'a' <= c && c <= 'f' || 'A' <= c && c <= 'F'
        };
    if accepted {
        assert forall|i: int| 0 <= i < ascii.len() implies is_hex_byte(#[trigger] ascii[i]) by {
            let c = ascii[i] as char;
            assert('0' <= c && c <= '9' || 'a' <= c && c <= 'f' || 'A' <= c && c <= 'F');
        }
    }
    if is_hex(ascii) {
        assert forall|i: int| 0 <= i < ascii.len() implies ({
            let c = #[trigger] ascii[i] as char;
            '0' <= c && c <= '9' || 'a' <= c && c <= 'f' || 'A' <= c && c <= 'F'
        }) by {
            assert(is_hex_byte(ascii[i]));
        }
    }
}

/// What is said of a text that is not hexadecimal: that the number of digits is
/// odd or, if it is even, which the first wrong character is and where it
/// stands.
pub proof fn law_hex_complaints(ascii: Seq<u8>, at: int)
    requires
        0 <= at < ascii.len(),
        forall|i: int| 0 <= i < at ==> is_hex_byte(#[trigger] ascii[i]),
        !is_hex_byte(ascii[at]),
        ascii.len() <= usize::MAX,
    ensures
        ascii.len() % 2 == 1 ==> hex_refusal(ascii) == Some("Odd number of digits"@),
        ascii.len() % 2 == 0 ==> hex_refusal(ascii) == Some(
            "Invalid character "@ + shown_char(ascii[at] as char) + " at position "@
                + text::decimal_text(at as nat),
        ),
{
    assert forall|i: int| 0 <= i < at implies is_hex_byte(#[trigger] ascii.take(at)[i]) by {
        assert(ascii.take(at)[i] == ascii[i]);
    }
    lemma_first_non_hex(ascii, at);
}

/// Base64 writes three bytes as four symbols of six bits each, the high bits
/// first; what is left over is filled up with zero bits, and the missing symbols
/// with equals signs.
pub proof fn law_base64_groups(a: u8, b: u8, c: u8, rest: Seq<u8>)
    ensures
        ({
            let symbols = "ABCDEFGHIJKLMNOPQRSTUVWXYZabcdefghijklmnopqrstuvwxyz0123456789+/"@;
            let three = 0x1_0000 * (a as int) + 0x100 * (b as int) + c as int;
            let two = 4 * (0x100 * (a as int) + b as int);
            let one = 16 * (a as int);
            &&& base64_text(Seq::empty()) == Seq::<char>::empty()
            &&& base64_text(seq![a, b, c] + rest) == seq![
                symbols[three / 0x4_0000],
                symbols[three / 0x1000 % 64],
                symbols[three / 64 % 64],
                symbols[three % 64],
            ] + base64_text(rest)
            &&& base64_text(seq![a, b]) == seq![
                symbols[two / 0x1000],
                symbols[two / 64 % 64],
                symbols[two % 64],
                '=',
            ]
            &&& base64_text(seq![a]) == seq![symbols[one / 64], symbols[one % 64], '=', '=']
        }),
{
    let (x, y, z) = (a as int, b as int, c as int);
    lemma_six_bits(x, y, z);
    lemma_base64_alphabet(x / 4);
    lemma_base64_alphabet(x % 4 * 16 + y / 16);
    lemma_base64_alphabet(y % 16 * 4 + z / 64);
    lemma_base64_alphabet(z % 64);
    lemma_base64_alphabet(y % 16 * 4);
    lemma_base64_alphabet(x % 4 * 16);
    assert((seq![a, b, c] + rest).skip(3) == rest);
}

/// Three bytes, two bytes and one byte, cut into pieces of six bits.
#[verifier::spinoff_prover]
proof fn lemma_six_bits(x: int, y: int, z: int)
    requires
        0 <= x < 256,
        0 <= y < 256,
        0 <= z < 256,
    ensures
        ({
            let three = 0x1_0000 * x + 0x100 * y + z;
            let two = 4 * (0x100 * x + y);
            let one = 16 * x;
            &&& three / 0x4_0000 == x / 4
            &&& three / 0x1000 % 64 == x % 4 * 16 + y / 16
            &&& three / 64 % 64 == y % 16 * 4 + z / 64
            &&& three % 64 == z % 64
            &&& two / 0x1000 == x / 4
            &&& two / 64 % 64 == x % 4 * 16 + y / 16
            &&& two % 64 == y % 16 * 4
            &&& one / 64 == x / 4
            &&& one % 64 == x % 4 * 16
        }),
{
}

/// The symbols of base64, in order.
#[verifier::spinoff_prover]
proof fn lemma_base64_alphabet(v: int)
    requires
        0 <= v < 64,
    ensures
        "ABCDEFGHIJKLMNOPQRSTUVWXYZabcdefghijklmnopqrstuvwxyz0123456789+/"@[v] == base64_symbol(v),
{
    reveal_strlit("ABCDEFGHIJKLMNOPQRSTUVWXYZabcdefghijklmnopqrstuvwxyz0123456789+/");
}

/// A blob is hexadecimal digits in base64, and nothing else is read as a blob:
/// base64 that does not hold hexadecimal digits stands for no bytes, and neither
/// does what is no base64.
pub proof fn law_blobs_are_hexadecimal_in_base64(bytes: Seq<u8>, ascii: Seq<u8>, text: Seq<char>)
    ensures
        unbased64(blob_text(bytes)) == Some(encode_utf8(hex_text(bytes))),
        hex_refusal(ascii) is None ==> unblobbed(base64_text(ascii)) == Some(unhexed(ascii)),
        hex_refusal(ascii) is Some ==> unblobbed(base64_text(ascii)) is None,
        unblobbed(text) is Some ==> exists|digits: Seq<u8>| #[trigger] base64_text(digits) == text,
{
    law_base64_decodes(encode_utf8(hex_text(bytes)));
    law_base64_decodes(ascii);
    law_hex_texts(ascii);
}

/// Numbers are read from eight bytes with the least significant one first.
pub proof fn law_little_endian(b: Seq<u8>)
    requires
        b.len() == 8,
    ensures
        le_value(b) == b[0] as nat + 0x100 * (b[1] as nat) + 0x1_0000 * (b[2] as nat) + 0x100_0000
            * (b[3] as nat) + 0x1_0000_0000 * (b[4] as nat) + 0x100_0000_0000 * (b[5] as nat)
            + 0x1_0000_0000_0000 * (b[6] as nat) + 0x100_0000_0000_0000 * (b[7] as nat),
        le_bytes(le_value(b), 8) == b,
{
    reveal_with_fuel(le_value, 9);
    lemma_le_bytes_undo(b);
}

/// What was read from bytes is written as the same bytes.
pub proof fn lemma_le_bytes_undo(b: Seq<u8>)
    ensures
        le_bytes(le_value(b), b.len()) == b,
    decreases b.len(),
{
    if b.len() > 0 {
        let rest = b.drop_first();
        lemma_le_bytes_undo(rest);
        let n = le_value(b);
        assert(n / 256 == le_value(rest) && n % 256 == b[0] as nat);
        assert(seq![b[0]] + rest == b);
    } else {
        assert(b == Seq::<u8>::empty());
    }
}

/// Base64 is ASCII.
pub proof fn lemma_base64_is_ascii(bytes: Seq<u8>)
    ensures
        is_ascii_chars(base64_text(bytes)),
    decreases bytes.len(),
{
    let all = base64_text(bytes);
    if bytes.len() >= 3 {
        lemma_base64_is_ascii(bytes.skip(3));
        let rest = base64_text(bytes.skip(3));
        assert forall|i: int| 0 <= i < all.len() implies '\0' <= #[trigger] all[i] <= '\u{7f}' by {
            if i >= 4 {
                assert(all[i] == rest[i - 4]);
            }
        }
    }
}

} // verus!
