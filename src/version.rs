use vstd::prelude::*;

use crate::tables::{capacity, capacity_bits, capacity_of, cci_width, data_codewords_of};
use crate::types::{EncodingMode, ErrorCorrectionLevel, QrError, Version};

verus! {

/// Bits that `n` characters take once encoded in `mode`, without indicators.
pub open spec fn segment_data_bits(mode: EncodingMode, n: int) -> int {
    match mode {
        EncodingMode::Numeric => 10 * (n / 3) + if n % 3 == 2 {
            7int
        } else if n % 3 == 1 {
            4int
        } else {
            0int
        },
        EncodingMode::Alphanumeric => 11 * (n / 2) + 6 * (n % 2),
        EncodingMode::Byte => 8 * n,
        EncodingMode::Kanji => 13 * n,
    }
}

/// Bits of a whole segment of `n` characters in version `v`: mode indicator,
/// count indicator and data.
pub open spec fn segment_bits(mode: EncodingMode, v: int, n: int) -> int {
    4 + cci_width(mode, v) + segment_data_bits(mode, n)
}

/// `x` as a `u64`, or `u64::MAX` where it is larger.
pub open spec fn saturate(x: int) -> u64 {
    if x > u64::MAX {
        u64::MAX
    } else {
        x as u64
    }
}

/// `v` is the smallest version whose capacity holds `n` characters.
pub open spec fn is_optimal_version(
    mode: EncodingMode,
    level: ErrorCorrectionLevel,
    n: int,
    v: int,
) -> bool {
    &&& 1 <= v <= 40
    &&& n <= capacity(mode, level, v)
    &&& forall|u: int| 1 <= u < v ==> capacity(mode, level, u) < n
}

/// Picks the smallest version whose capacity, for this mode and level, holds
/// `character_count` characters.
pub fn determine_optimal_qr_code_version(
    encoding_mode: &EncodingMode,
    error_correction_level: &ErrorCorrectionLevel,
    character_count: usize,
) -> (r: Result<Version, QrError>)
    ensures
        r matches Ok(v) ==> is_optimal_version(
            *encoding_mode,
            *error_correction_level,
            character_count as int,
            v.number(),
        ),
        r is Err <==> forall|u: int|
            1 <= u <= 40 ==> capacity(*encoding_mode, *error_correction_level, u)
                < character_count,
        r matches Err(e) ==> e == (QrError::DataTooLarge {
            required_bits: saturate(segment_bits(*encoding_mode, 40, character_count as int)),
            capacity_bits: capacity_bits(*error_correction_level, 40) as u64,
        }),
{
    let mut v: usize = 1;
    while v <= 40
        invariant
            1 <= v <= 41,
            forall|u: int|
                1 <= u < v ==> capacity(*encoding_mode, *error_correction_level, u)
                    < character_count,
        decreases 41 - v,
    {
        if character_count <= capacity_of(*encoding_mode, *error_correction_level, v) as usize {
            return Ok(Version::Normal(v as i16));
        }
        v += 1;
    }
    let n = character_count as u128;
    let required: u64 = {
        let data_bits: u128 = match encoding_mode {
            EncodingMode::Numeric => 10 * (n / 3) + if n % 3 == 2 {
                7
            } else if n % 3 == 1 {
                4
            } else {
                0
            },
            EncodingMode::Alphanumeric => 11 * (n / 2) + 6 * (n % 2),
            EncodingMode::Byte => 8 * n,
            EncodingMode::Kanji => 13 * n,
        };
        let cci: u128 = match encoding_mode {
            EncodingMode::Numeric => 14,
            EncodingMode::Alphanumeric => 13,
            EncodingMode::Byte => 16,
            EncodingMode::Kanji => 12,
        };
        let total = 4 + cci + data_bits;
        if total > u64::MAX as u128 {
            u64::MAX
        } else {
            total as u64
        }
    };
    Err(
        QrError::DataTooLarge {
            required_bits: required,
            capacity_bits: 8 * data_codewords_of(*error_correction_level, 40) as u64,
        },
    )
}

/// Data bits that a symbol of this version and level holds.
pub fn determine_data_bits_required_for_version(
    version: &Version,
    error_correction_level: &ErrorCorrectionLevel,
) -> (r: Result<u32, QrError>)
    ensures
        version.wf() ==> r == Ok::<u32, QrError>(
            capacity_bits(*error_correction_level, version.number()) as u32,
        ),
        !version.wf() ==> r == Err::<u32, QrError>(
            QrError::LayoutError { version: version.number() as i16, level: *error_correction_level },
        ),
{
    let v = version.version();
    if v < 1 || v > 40 {
        return Err(QrError::LayoutError { version: v, level: *error_correction_level });
    }
    Ok(8 * data_codewords_of(*error_correction_level, v as usize) as u32)
}

} // verus!
