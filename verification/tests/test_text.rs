//! Text, calendars and codecs.

use base64::engine::general_purpose::STANDARD;
use base64::Engine;

use tdx_attestation_server::calendar::{civil_from_days, clock_string, date_string};
use tdx_attestation_server::encoding::{
    decode_blob, decode_hex, encode_blob, u64_from_le, u64_to_le,
};
use tdx_attestation_server::text::{
    chars_of, contains, decimal, is_white_space, lines, padded, parse_u32, starts_with, text_of,
    to_lower, trim,
};

#[test]
fn white_space_is_that_of_unicode() {
    for code in 0..=0x10ffffu32 {
        if let Some(c) = char::from_u32(code) {
            assert_eq!(is_white_space(c), c.is_whitespace(), "U+{code:04X}");
        }
    }
}

#[test]
fn text_primitives_agree_with_the_standard_library() {
    let samples = [
        "",
        " ",
        "a",
        " a b ",
        "\u{3000}x\u{85}",
        "ERROR: X\r\nwarn\n\nlast",
        "\n",
        "a\r",
        "\r\n\r\n",
        "ÄÖ ABC xyz",
        "one\ntwo\n",
    ];
    for s in samples {
        assert_eq!(trim(s), s.trim());
        assert_eq!(to_lower(s), s.to_ascii_lowercase());
        assert_eq!(lines(s), s.lines().map(str::to_string).collect::<Vec<String>>());
        assert_eq!(chars_of(s), s.chars().collect::<Vec<char>>());
        for needle in samples {
            assert_eq!(contains(s, needle), s.contains(needle), "{s:?} {needle:?}");
            assert_eq!(starts_with(s, needle), s.starts_with(needle), "{s:?} {needle:?}");
        }
    }
    assert_eq!(text_of(&vec!['a', 'b', 'c'], 1, 3), "bc");
}

#[test]
fn numbers_are_rendered_and_read() {
    for n in [0u128, 7, 10, 99, 100, 65_535, u64::MAX as u128, u128::MAX] {
        assert_eq!(decimal(n), n.to_string());
    }
    assert_eq!(padded(7, 4), "0007");
    assert_eq!(padded(12345, 4), "12345");
    for s in ["0", "16", "+16", "00016", "4294967295", "4294967296", "", "+", "-1", "1a", "++1", "１"] {
        assert_eq!(parse_u32(s), s.parse::<u32>().ok(), "{s:?}");
    }
}

#[test]
fn dates_follow_the_calendar() {
    // Every day from 1600 to 2400, counted by hand.
    let mut days: i64 = -135_140;
    for year in 1600..2400i64 {
        let leap = year % 4 == 0 && (year % 100 != 0 || year % 400 == 0);
        let lengths = [31, if leap { 29 } else { 28 }, 31, 30, 31, 30, 31, 31, 30, 31, 30, 31];
        for (month, length) in lengths.iter().enumerate() {
            for day in 1..=*length {
                assert_eq!(civil_from_days(days), (year, month as u32 + 1, day));
                days += 1;
            }
        }
    }
    assert_eq!(date_string(86_400 * 365, '/'), "1971/01/01");
    assert_eq!(clock_string(3_661), "01:01:01");
}

#[test]
fn hex_is_decoded_or_refused() {
    let bytes: Vec<u8> = (0..=255).collect();
    assert_eq!(decode_hex(&hex::encode(&bytes)).unwrap(), bytes);
    assert_eq!(decode_hex(&hex::encode_upper(&bytes)).unwrap(), bytes);
    assert_eq!(decode_hex("").unwrap(), Vec::<u8>::new());
    assert_eq!(decode_hex("a").unwrap_err(), "Odd number of digits");
    assert_eq!(decode_hex("0g").unwrap_err(), "Invalid character 'g' at position 1");
    assert_eq!(decode_hex("00\n0").unwrap_err(), "Invalid character '\\n' at position 2");
    assert_eq!(decode_hex("0'").unwrap_err(), "Invalid character '\\'' at position 1");
}

#[test]
fn blobs_are_base64_of_hex() {
    for bytes in [&b""[..], b"a", b"ab", b"abc", b"\x00\xff\x10"] {
        let blob = encode_blob(bytes);
        assert_eq!(blob, STANDARD.encode(hex::encode(bytes)));
        assert_eq!(decode_blob(&blob).unwrap(), bytes);
    }
    assert_eq!(decode_blob("NzM2OTY3").unwrap(), b"sig");
    assert_eq!(decode_blob("Nz"), None);
    assert_eq!(decode_blob("Nw=="), None, "an odd number of digits");
    assert_eq!(decode_blob("Nw="), None);
    assert_eq!(decode_blob("enp6eg=="), None, "no hex digits");
    assert_eq!(decode_blob("NzN="), None, "unused bits must be zero");
    assert_eq!(decode_blob("N zM"), None);
}

#[test]
fn little_endian_numbers() {
    for n in [0u64, 1, 256, 0x0102_0304_0506_0708, u64::MAX] {
        assert_eq!(u64_to_le(n), n.to_le_bytes().to_vec());
        assert_eq!(u64_from_le(&n.to_le_bytes()), n);
    }
}
