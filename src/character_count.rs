use vstd::arithmetic::power2::{lemma2_to64, lemma_pow2_strictly_increases, lemma_pow2_unfold, pow2};
use vstd::prelude::*;

use crate::bits::{bit_chars, bits_of, bits_to_string, chars_of, push_bits};
use crate::encoding::{byte_mode_bytes_of, unit_count};
use crate::tables::cci_width;
use crate::types::{EncodingMode, QrError, Version};

verus! {

/// Width of the character-count indicator for this mode and version.
pub fn calculate_binary_indicator_bit_length(encoding_mode: &EncodingMode, version: &Version) -> (r:
    usize)
    requires
        version.wf(),
    ensures
        r == cci_width(*encoding_mode, version.number()),
{
    let version = version.version();

    if version >= 1 && version <= 9 {
        match encoding_mode {
            EncodingMode::Numeric => 10,
            EncodingMode::Alphanumeric => 9,
            EncodingMode::Byte => 8,
            EncodingMode::Kanji => 8,
        }
    } else if version >= 10 && version <= 26 {
        match encoding_mode {
            EncodingMode::Numeric => 12,
            EncodingMode::Alphanumeric => 11,
            EncodingMode::Byte => 16,
            EncodingMode::Kanji => 10,
        }
    } else {
        match encoding_mode {
            EncodingMode::Numeric => 14,
            EncodingMode::Alphanumeric => 13,
            EncodingMode::Byte => 16,
            EncodingMode::Kanji => 12,
        }
    }
}

/// `count` in `width` bits, most significant first, or `None` where it does not fit.
pub fn count_indicator_bits(count: usize, width: usize) -> (r: Option<Vec<bool>>)
    requires
        width <= 16,
    ensures
        r is Some <==> count < pow2(width as nat),
        r matches Some(b) ==> b@ == bits_of(count as u32, width as nat),
{
    let mut limit: usize = 1;
    let mut i: usize = 0;
    proof {
        lemma2_to64();
    }
    while i < width
        invariant
            i <= width <= 16,
            limit == pow2(i as nat),
            limit <= 0x8000 || i == 16,
            pow2(16) == 0x10000,
            pow2(15) == 0x8000,
        decreases width - i,
    {
        proof {
            lemma_pow2_unfold((i + 1) as nat);
            if i + 1 < 15 {
                lemma_pow2_strictly_increases((i + 1) as nat, 15);
            }
        }
        limit = limit * 2;
        i += 1;
    }
    if count >= limit {
        return None;
    }
    let mut bits: Vec<bool> = Vec::new();
    push_bits(&mut bits, count as u32, width);
    Some(bits)
}

/// The character-count indicator of `data` in this mode and version: its length in
/// the mode's units, in the mode's indicator width.
pub fn create_character_count_indicator(
    data: &str,
    encoding_mode: &EncodingMode,
    version: &Version,
) -> (r: Result<String, QrError>)
    requires
        version.wf(),
    ensures
        r is Ok <==> unit_count(*encoding_mode, data@) < pow2(
            cci_width(*encoding_mode, version.number()) as nat,
        ),
        r matches Ok(s) ==> s@ == bit_chars(
            bits_of(
                unit_count(*encoding_mode, data@) as u32,
                cci_width(*encoding_mode, version.number()) as nat,
            ),
        ),
        r matches Err(e) ==> e == QrError::InternalInvariantViolation,
{
    let width = calculate_binary_indicator_bit_length(encoding_mode, version);
    let count = match encoding_mode {
        EncodingMode::Byte => byte_mode_bytes_of(data).len(),
        _ => chars_of(data).len(),
    };
    match count_indicator_bits(count, width) {
        Some(bits) => Ok(bits_to_string(&bits)),
        None => Err(QrError::InternalInvariantViolation),
    }
}

} // verus!
