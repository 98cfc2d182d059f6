//! The challenge (nonce) that a quote is bound to.

use crate::encoding;
use crate::text;
use crate::tpm::config::MAX_QUALIFYING_DATA_LEN;
use crate::tpm::error::{TpmError, TpmFault};
use crate::tpm::payload::QuoteTpmRequest;
use vstd::prelude::*;
use vstd::utf8::*;

verus! {

/// The bytes that the hex encoded challenge `nonce` stands for.
pub open spec fn nonce_bytes(nonce: Seq<char>) -> Seq<u8> {
    encoding::unhexed(encode_utf8(text::trimmed(nonce)))
}

/// Why `nonce` is no usable challenge, in words; `None` when it is one.
pub open spec fn nonce_refusal(nonce: Seq<char>) -> Option<Seq<char>> {
    let bare = text::trimmed(nonce);
    let ascii = encode_utf8(bare);
    if bare.len() == 0 {
        Some("the nonce must not be empty"@)
    } else if ascii.len() % 2 != 0 {
        Some(
            "the nonce must have an even number of hex characters, got "@ + text::decimal_text(
                ascii.len(),
            ),
        )
    } else {
        match encoding::hex_refusal(ascii) {
            Some(why) => Some("the nonce is not valid hex: "@ + why),
            None => if ascii.len() / 2 > MAX_QUALIFYING_DATA_LEN {
                Some(
                    "the nonce is "@ + text::decimal_text(ascii.len() / 2)
                        + " bytes, but TPM qualifying data holds at most "@ + text::decimal_text(
                        MAX_QUALIFYING_DATA_LEN as nat,
                    ),
                )
            } else {
                None
            },
        }
    }
}

/// The canonical form of a challenge: lower case hexadecimal digits.
pub open spec fn canonical_nonce(nonce: Seq<char>) -> Seq<char> {
    encoding::hex_text(nonce_bytes(nonce))
}

/// Validates a hex encoded challenge and returns it canonicalised (lowercase),
/// with its length in bytes. White space around it is ignored.
///
/// # Errors
///
/// * [`TpmError::InvalidInput`] - empty, odd length, non-hex, or longer than
///   [`MAX_QUALIFYING_DATA_LEN`] bytes.
pub fn normalize_nonce(nonce_hex: &str) -> (r: Result<(String, usize), TpmError>)
    ensures
        match r {
            Ok((nonce, size)) => {
                &&& nonce_refusal(nonce_hex@) is None
                &&& nonce@ == canonical_nonce(nonce_hex@)
                &&& size == nonce_bytes(nonce_hex@).len()
            },
            Err(e) => nonce_refusal(nonce_hex@) matches Some(why) && e@ == TpmFault::InvalidInput(
                why,
            ),
        },
{
    let trimmed = text::trim(nonce_hex);
    if trimmed.as_str().unicode_len() == 0 {
        return Err(TpmError::InvalidInput("the nonce must not be empty".to_string()));
    }
    let digits = trimmed.as_str().as_bytes().len();
    if digits % 2 != 0 {
        let mut message = "the nonce must have an even number of hex characters, got ".to_string();
        message.append(text::decimal(digits as u128).as_str());
        return Err(TpmError::InvalidInput(message));
    }
    let bytes = match encoding::decode_hex(trimmed.as_str()) {
        Ok(bytes) => bytes,
        Err(why) => {
            let mut message = "the nonce is not valid hex: ".to_string();
            message.append(why.as_str());
            return Err(TpmError::InvalidInput(message));
        },
    };
    if bytes.len() > MAX_QUALIFYING_DATA_LEN {
        let mut message = "the nonce is ".to_string();
        message.append(text::decimal(bytes.len() as u128).as_str());
        message.append(" bytes, but TPM qualifying data holds at most ");
        message.append(text::decimal(MAX_QUALIFYING_DATA_LEN as u128).as_str());
        return Err(TpmError::InvalidInput(message));
    }
    Ok((encoding::hex_encode(bytes.as_slice()), bytes.len()))
}

/// The bytes of a hex encoded challenge.
///
/// # Errors
///
/// [`TpmError::InvalidInput`] when the challenge is not usable.
pub fn challenge_bytes(nonce_hex: &str) -> (r: Result<Vec<u8>, TpmError>)
    ensures
        match r {
            Ok(bytes) => nonce_refusal(nonce_hex@) is None && bytes@ == nonce_bytes(nonce_hex@),
            Err(e) => nonce_refusal(nonce_hex@) matches Some(why) && e@ == TpmFault::InvalidInput(
                why,
            ),
        },
{
    match normalize_nonce(nonce_hex) {
        Ok((normalized, _)) => {
            proof {
                encoding::law_hex_round_trip(nonce_bytes(nonce_hex@));
            }
            match encoding::decode_hex(normalized.as_str()) {
                Ok(bytes) => Ok(bytes),
                Err(why) => Err(TpmError::InvalidInput(why)),
            }
        },
        Err(e) => Err(e),
    }
}

/// Whether the two fields of a request name different challenges.
pub open spec fn conflicting(a: Seq<char>, b: Seq<char>) -> bool {
    text::lowered(text::trimmed(a)) != text::lowered(text::trimmed(b))
}

/// What a request gives as the challenge, or why it gives none.
pub open spec fn chosen_nonce(request: QuoteTpmRequest) -> Result<Seq<char>, Seq<char>> {
    match (request.nonce, request.challenge) {
        (Some(a), Some(b)) => if conflicting(a@, b@) {
            Err("'nonce' and 'challenge' are both present but differ"@)
        } else {
            Ok(a@)
        },
        (Some(a), None) => Ok(a@),
        (None, Some(b)) => Ok(b@),
        (None, None) => Err("missing required field 'nonce' (alias: 'challenge')"@),
    }
}

/// Why a request names no usable challenge, in words; `None` when it does.
pub open spec fn request_refusal(request: QuoteTpmRequest) -> Option<Seq<char>> {
    match chosen_nonce(request) {
        Ok(nonce) => nonce_refusal(nonce),
        Err(why) => Some(why),
    }
}

/// The challenge of a request that names a usable one, in canonical form.
pub open spec fn request_nonce(request: QuoteTpmRequest) -> Seq<char> {
    match chosen_nonce(request) {
        Ok(nonce) => canonical_nonce(nonce),
        Err(_) => Seq::empty(),
    }
}

impl QuoteTpmRequest {
    /// Returns the challenge to bind to the quote, validating the hex encoding.
    ///
    /// # Errors
    ///
    /// [`TpmError::InvalidInput`] when neither field is there, when the two
    /// differ, or when the challenge is not usable.
    pub fn resolved_nonce(&self) -> (r: Result<String, TpmError>)
        ensures
            match r {
                Ok(nonce) => request_refusal(*self) is None && nonce@ == request_nonce(*self),
                Err(e) => request_refusal(*self) matches Some(why) && e@ == TpmFault::InvalidInput(
                    why,
                ),
            },
    {
        let value: &String = match (&self.nonce, &self.challenge) {
            (Some(a), Some(b)) => {
                let left = text::to_lower(text::trim(a.as_str()).as_str());
                let right = text::to_lower(text::trim(b.as_str()).as_str());
                if left != right {
                    return Err(
                        TpmError::InvalidInput(
                            "'nonce' and 'challenge' are both present but differ".to_string(),
                        ),
                    );
                }
                a
            },
            (Some(a), None) => a,
            (None, Some(b)) => b,
            (None, None) => {
                return Err(
                    TpmError::InvalidInput(
                        "missing required field 'nonce' (alias: 'challenge')".to_string(),
                    ),
                );
            },
        };
        match normalize_nonce(value.as_str()) {
            Ok((normalized, _)) => Ok(normalized),
            Err(e) => Err(e),
        }
    }
}

// ---------------------------------------------------------------------------
// Laws
// ---------------------------------------------------------------------------

/// Text without white space at its ends is not changed by trimming.
proof fn lemma_trim_keeps(s: Seq<char>)
    requires
        s.len() > 0 ==> !text::white_space(s[0]) && !text::white_space(s.last()),
    ensures
        text::trimmed(s) == s,
{
}

/// Every challenge of 1 to 64 bytes is accepted in its canonical form, and
/// stands for the same bytes there.
pub proof fn law_canonical_nonce_is_accepted(bytes: Seq<u8>)
    requires
        0 < bytes.len() <= MAX_QUALIFYING_DATA_LEN,
    ensures
        nonce_refusal(encoding::hex_text(bytes)) is None,
        nonce_bytes(encoding::hex_text(bytes)) == bytes,
{
    lemma_trim_keeps(encoding::hex_text(bytes));
    encoding::law_hex_round_trip(bytes);
    encoding::lemma_hex_text_bytes(bytes);
}

/// Normalising twice is normalising once: the canonical form of a usable
/// challenge is itself usable, and is its own canonical form.
pub proof fn law_normalize_nonce_is_idempotent(nonce: Seq<char>)
    requires
        nonce_refusal(nonce) is None,
    ensures
        nonce_refusal(canonical_nonce(nonce)) is None,
        canonical_nonce(canonical_nonce(nonce)) == canonical_nonce(nonce),
        nonce_bytes(canonical_nonce(nonce)) == nonce_bytes(nonce),
{
    lemma_usable_nonce(nonce);
    law_canonical_nonce_is_accepted(nonce_bytes(nonce));
}

/// A usable challenge has 1 to 64 bytes.
pub proof fn lemma_usable_nonce(nonce: Seq<char>)
    requires
        nonce_refusal(nonce) is None,
    ensures
        0 < nonce_bytes(nonce).len() <= MAX_QUALIFYING_DATA_LEN,
        encoding::is_hex(encode_utf8(text::trimmed(nonce))),
{
    let bare = text::trimmed(nonce);
    let ascii = encode_utf8(bare);
    assert(encoding::all_hex(ascii));
    encoding::lemma_hex_is_ascii(bare);
    is_ascii_chars_encode_utf8(bare);
}

/// The canonical form of a usable challenge is the challenge without the white
/// space around it, in lower case.
pub proof fn law_canonical_nonce_is_lower_case(nonce: Seq<char>)
    requires
        nonce_refusal(nonce) is None,
    ensures
        canonical_nonce(nonce) == text::lowered(text::trimmed(nonce)),
{
    lemma_usable_nonce(nonce);
    encoding::law_hex_canonical_is_lower_case(text::trimmed(nonce));
}

/// Challenges that agree up to white space around them and letter case are
/// the same challenge, so a request may repeat its `nonce` as `challenge`.
pub proof fn law_agreeing_fields_are_one_challenge(a: Seq<char>, b: Seq<char>)
    requires
        nonce_refusal(a) is None,
        nonce_refusal(b) is None,
    ensures
        conflicting(a, b) <==> nonce_bytes(a) != nonce_bytes(b),
{
    law_canonical_nonce_is_lower_case(a);
    law_canonical_nonce_is_lower_case(b);
    if nonce_bytes(a) != nonce_bytes(b) && canonical_nonce(a) == canonical_nonce(b) {
        encoding::law_hex_round_trip(nonce_bytes(a));
        encoding::law_hex_round_trip(nonce_bytes(b));
    }
}

/// Whether `c` is a hexadecimal digit of either case.
pub open spec fn is_hex_char(c: char) -> bool {
    '0' <= c && c <= '9' || 'a' <= c && c <= 'f' || 'A' <= c && c <= 'F'
}

/// A challenge is usable exactly when, without the white space around it, it is
/// made of hexadecimal digits only, an even number of them, at least two and at
/// most 128. It stands for half as many bytes as it has digits.
pub proof fn law_usable_challenges(nonce: Seq<char>)
    ensures
        nonce_refusal(nonce) is None <==> {
            let bare = text::trimmed(nonce);
            &&& 2 <= bare.len() <= 128
            &&& bare.len() % 2 == 0
            &&& forall|i: int| 0 <= i < bare.len() ==> is_hex_char(#[trigger] bare[i])
        },
        nonce_refusal(nonce) is None ==> 2 * nonce_bytes(nonce).len() == text::trimmed(nonce).len(),
{
    let bare = text::trimmed(nonce);
    let ascii = encode_utf8(bare);
    encoding::law_hex_texts(ascii);
    if nonce_refusal(nonce) is None {
        lemma_usable_nonce(nonce);
        encoding::lemma_hex_is_ascii(bare);
        is_ascii_chars_encode_utf8(bare);
        assert forall|i: int| 0 <= i < bare.len() implies is_hex_char(#[trigger] bare[i]) by {
            assert(encoding::is_hex_byte(ascii[i]));
            assert(ascii[i] == bare[i] as u8);
        }
    }
    if 2 <= bare.len() <= 128 && bare.len() % 2 == 0 && (forall|i: int|
        0 <= i < bare.len() ==> is_hex_char(#[trigger] bare[i])) {
        assert(is_ascii_chars(bare)) by {
            assert forall|i: int| 0 <= i < bare.len() implies '\0' <= #[trigger] bare[i] <= '\u{7f}' by {
                assert(is_hex_char(bare[i]));
            }
        }
        is_ascii_chars_encode_utf8(bare);
        assert forall|i: int| 0 <= i < ascii.len() implies encoding::is_hex_byte(
            #[trigger] ascii[i],
        ) by {
            assert(is_hex_char(bare[i]));
            assert(ascii[i] == bare[i] as u8);
        }
    }
}

/// Why a challenge is refused: it is empty; it has an odd number of characters,
/// which is given; it is not hexadecimal, for the reason given; or it has too
/// many bytes, of which the number is given with the limit of 64.
pub proof fn law_challenge_complaints(nonce: Seq<char>)
    ensures
        text::trimmed(nonce).len() == 0 ==> nonce_refusal(nonce) == Some(
            "the nonce must not be empty"@,
        ),
        ({
            let count = encode_utf8(text::trimmed(nonce)).len();
            &&& text::trimmed(nonce).len() > 0 && count % 2 == 1 ==> nonce_refusal(nonce) == Some(
                "the nonce must have an even number of hex characters, got "@ + text::decimal_text(
                    count,
                ),
            )
            &&& text::trimmed(nonce).len() > 0 && count % 2 == 0 && !encoding::is_hex(
                encode_utf8(text::trimmed(nonce)),
            ) ==> nonce_refusal(nonce) == Some(
                "the nonce is not valid hex: "@ + encoding::hex_refusal(
                    encode_utf8(text::trimmed(nonce)),
                )->0,
            )
            &&& encoding::is_hex(encode_utf8(text::trimmed(nonce))) && count > 128
                ==> nonce_refusal(nonce) == Some(
                "the nonce is "@ + text::decimal_text(count / 2)
                    + " bytes, but TPM qualifying data holds at most "@ + text::decimal_text(64),
            )
        }),
{
    if text::trimmed(nonce).len() == 0 {
        assert(text::trimmed(nonce) == Seq::<char>::empty());
    }
}

/// Every hexadecimal digit of a usable challenge counts: byte by byte, the
/// canonical form is the digits of the challenge in lower case, all of them.
pub proof fn law_canonical_nonce_keeps_every_byte(nonce: Seq<char>, i: int)
    requires
        nonce_refusal(nonce) is None,
        0 <= i < text::trimmed(nonce).len(),
    ensures
        canonical_nonce(nonce).len() == text::trimmed(nonce).len(),
        canonical_nonce(nonce)[i] == text::lower_char(text::trimmed(nonce)[i]),
        encoding::hex_text(nonce_bytes(nonce)) == canonical_nonce(nonce),
{
    law_canonical_nonce_is_lower_case(nonce);
}

/// The challenge of a request is the whole of its `nonce` or, without one, the
/// whole of its `challenge`: it is usable exactly when that field is and the two
/// fields do not differ, it stands for exactly the bytes of that field, and it
/// is written with the digits of that field in lower case. Nothing else in the
/// request counts.
pub proof fn law_requested_challenge_is_the_whole_field(request: QuoteTpmRequest)
    ensures
        match (request.nonce, request.challenge) {
            (None, None) => request_refusal(request) == Some(
                "missing required field 'nonce' (alias: 'challenge')"@,
            ),
            (Some(a), None) => {
                &&& request_refusal(request) == nonce_refusal(a@)
                &&& nonce_refusal(a@) is None ==> names(request, a@)
            },
            (None, Some(b)) => {
                &&& request_refusal(request) == nonce_refusal(b@)
                &&& nonce_refusal(b@) is None ==> names(request, b@)
            },
            (Some(a), Some(b)) => if text::lowered(text::trimmed(a@)) == text::lowered(
                text::trimmed(b@),
            ) {
                &&& request_refusal(request) == nonce_refusal(a@)
                &&& nonce_refusal(a@) is None ==> names(request, a@) && nonce_bytes(b@)
                    == nonce_bytes(a@)
            } else {
                request_refusal(request) == Some(
                    "'nonce' and 'challenge' are both present but differ"@,
                )
            },
        },
{
    if let Some(a) = request.nonce {
        if nonce_refusal(a@) is None {
            law_canonical_nonce_is_lower_case(a@);
            law_normalize_nonce_is_idempotent(a@);
            law_usable_challenges(a@);
            if let Some(b) = request.challenge {
                if text::lowered(text::trimmed(a@)) == text::lowered(text::trimmed(b@)) {
                    lemma_letter_case_keeps_usability(a@, b@);
                    law_agreeing_fields_are_one_challenge(a@, b@);
                }
            }
        }
    }
    if let Some(b) = request.challenge {
        if nonce_refusal(b@) is None {
            law_canonical_nonce_is_lower_case(b@);
            law_normalize_nonce_is_idempotent(b@);
            law_usable_challenges(b@);
        }
    }
}

/// Whether the challenge that is taken from a request is `field`: it stands for
/// the same bytes, and is written with the same digits in lower case.
pub open spec fn names(request: QuoteTpmRequest, field: Seq<char>) -> bool {
    &&& request_nonce(request) == text::lowered(text::trimmed(field))
    &&& nonce_bytes(request_nonce(request)) == nonce_bytes(field)
    &&& request_nonce(request).len() == 2 * nonce_bytes(field).len()
}

/// What agrees with a usable challenge up to letter case is usable.
proof fn lemma_letter_case_keeps_usability(a: Seq<char>, b: Seq<char>)
    requires
        nonce_refusal(a) is None,
        text::lowered(text::trimmed(a)) == text::lowered(text::trimmed(b)),
    ensures
        nonce_refusal(b) is None,
{
    let (x, y) = (text::trimmed(a), text::trimmed(b));
    law_usable_challenges(a);
    law_usable_challenges(b);
    assert(x.len() == text::lowered(x).len() && y.len() == text::lowered(y).len());
    assert forall|i: int| 0 <= i < y.len() implies is_hex_char(#[trigger] y[i]) by {
        assert(is_hex_char(x[i]));
        assert(text::lowered(x)[i] == text::lowered(y)[i]);
    }
}

/// `nonce_size` and `mask` are accepted and ignored: requests that agree in
/// `nonce` and `challenge` are refused alike, and ask for the same challenge.
pub proof fn law_size_and_mask_are_ignored(a: QuoteTpmRequest, b: QuoteTpmRequest)
    requires
        text::optional_view(a.nonce) == text::optional_view(b.nonce),
        text::optional_view(a.challenge) == text::optional_view(b.challenge),
    ensures
        request_refusal(a) == request_refusal(b),
        request_nonce(a) == request_nonce(b),
{
}

} // verus!
