use vstd::arithmetic::power2::pow2;
use vstd::prelude::*;

use crate::assemble::{assemble, assembled};
use crate::bits::{bit_chars, bits_of, bits_to_string, push_bits};
use crate::character_count::{calculate_binary_indicator_bit_length, count_indicator_bits};
use crate::encoding::{
    all_valid, byte_mode_bytes_of, char_error, encode_bits, first_invalid, is_first_char_error,
    mode_bits, unit_count, valid_char,
};
use crate::error_correction::{
    bytes_of_bits, data_bits_to_byte_blocks, final_codewords, generate_error_correction,
    layout_holds,
};
use crate::names::mode_indicator_value;
use crate::tables::{capacity, capacity_bits, cci_width};
use crate::types::{mode_indicator, EncodingMode, ErrorCorrectionLevel, QrError, Version};
use crate::version::{
    determine_data_bits_required_for_version, determine_optimal_qr_code_version,
    is_optimal_version, saturate, segment_bits,
};

verus! {

/// An encoded symbol's data: what was asked for, the version chosen, and the codewords
/// that a renderer places in the matrix.
pub struct QrCode {
    pub encoding_mode: EncodingMode,
    pub error_correction_level: ErrorCorrectionLevel,
    pub version: Version,
    pub data: String,
    /// The mode-encoded data bits, as a string of `'0'` and `'1'`.
    pub encoded_data: String,
    /// The assembled bit stream cut into codewords, before interleaving.
    pub data_codewords: Vec<u8>,
    /// Data and error-correction codewords in their final interleaved order.
    pub codewords: Vec<u8>,
}

/// Mode indicator, count indicator and mode-encoded bits of `s` in version `v`.
pub open spec fn segment(mode: EncodingMode, s: Seq<char>, v: int) -> Seq<bool> {
    bits_of(mode_indicator(mode), 4) + bits_of(unit_count(mode, s) as u32, cci_width(mode, v) as nat)
        + mode_bits(mode, s)
}

/// What encoding `s` gives once version `v`, the smallest that holds it, is chosen.
pub open spec fn outcome_at_version(
    mode: EncodingMode,
    level: ErrorCorrectionLevel,
    s: Seq<char>,
    v: int,
    r: Result<QrCode, QrError>,
) -> bool {
    let n = unit_count(mode, s);
    let cap = capacity_bits(level, v);
    let seg = segment(mode, s, v);
    if n >= pow2(cci_width(mode, v) as nat) {
        r == Err::<QrCode, QrError>(QrError::InternalInvariantViolation)
    } else if seg.len() > cap {
        r == Err::<QrCode, QrError>(
            QrError::DataTooLarge { required_bits: seg.len() as u64, capacity_bits: cap as u64 },
        )
    } else {
        let data = bytes_of_bits(assembled(seg, cap));
        if !layout_holds(level, v, data.len() as int) {
            r == Err::<QrCode, QrError>(QrError::InternalInvariantViolation)
        } else {
            &&& r is Ok
            &&& r->Ok_0.version.number() == v
            &&& r->Ok_0.encoding_mode == mode
            &&& r->Ok_0.error_correction_level == level
            &&& r->Ok_0.data@ == s
            &&& r->Ok_0.encoded_data@ == bit_chars(mode_bits(mode, s))
            &&& r->Ok_0.data_codewords@ == data
            &&& r->Ok_0.codewords@ == final_codewords(data, level, v)
        }
    }
}

/// What encoding the text `s` gives: the error for its first invalid character, an
/// error where no version holds it, else the outcome at the smallest version that does.
pub open spec fn create_outcome(
    s: Seq<char>,
    mode: EncodingMode,
    level: ErrorCorrectionLevel,
    r: Result<QrCode, QrError>,
) -> bool {
    let n = unit_count(mode, s);
    &&& !all_valid(mode, s) ==> (r matches Err(e) && is_first_char_error(mode, s, e))
    &&& all_valid(mode, s) && (forall|u: int| 1 <= u <= 40 ==> capacity(mode, level, u) < n)
        ==> r == Err::<QrCode, QrError>(
        QrError::DataTooLarge {
            required_bits: saturate(segment_bits(mode, 40, n)),
            capacity_bits: capacity_bits(level, 40) as u64,
        },
    )
    &&& forall|v: int|
        all_valid(mode, s) && is_optimal_version(mode, level, n, v) ==> outcome_at_version(
            mode,
            level,
            s,
            v,
            r,
        )
}

/// Where some version holds `n` characters, a smallest one does.
proof fn lemma_optimal_exists(mode: EncodingMode, level: ErrorCorrectionLevel, n: int, k: int)
    requires
        1 <= k <= 40,
        n <= capacity(mode, level, k),
    ensures
        exists|v: int| is_optimal_version(mode, level, n, v),
    decreases k,
{
    if forall|u: int| 1 <= u < k ==> capacity(mode, level, u) < n {
        assert(is_optimal_version(mode, level, n, k));
    } else {
        let u = choose|u: int| 1 <= u < k && !(capacity(mode, level, u) < n);
        lemma_optimal_exists(mode, level, n, u);
    }
}

/// Encoding depends on its inputs alone: two encodings of the same text in the same mode
/// and level both succeed, with the same version and the same codewords, or both fail
/// with the same error.
pub proof fn lemma_create_deterministic(
    s: Seq<char>,
    mode: EncodingMode,
    level: ErrorCorrectionLevel,
    r1: Result<QrCode, QrError>,
    r2: Result<QrCode, QrError>,
)
    requires
        create_outcome(s, mode, level, r1),
        create_outcome(s, mode, level, r2),
    ensures
        r1 is Ok <==> r2 is Ok,
        r1 is Ok ==> r1->Ok_0.version == r2->Ok_0.version && r1->Ok_0.data_codewords@
            == r2->Ok_0.data_codewords@ && r1->Ok_0.codewords@ == r2->Ok_0.codewords@,
        r1 is Err ==> r1->Err_0 == r2->Err_0,
{
    let n = unit_count(mode, s);
    if !all_valid(mode, s) {
        let e1 = r1->Err_0;
        let e2 = r2->Err_0;
        let i = choose|i: int| first_invalid(mode, s, i) && e1 == char_error(mode, s[i], i);
        let j = choose|j: int| first_invalid(mode, s, j) && e2 == char_error(mode, s[j], j);
        if i < j {
            assert(valid_char(mode, s[i]));
        } else if j < i {
            assert(valid_char(mode, s[j]));
        }
    } else if !(forall|u: int| 1 <= u <= 40 ==> capacity(mode, level, u) < n) {
        let k = choose|k: int| 1 <= k <= 40 && !(capacity(mode, level, k) < n);
        lemma_optimal_exists(mode, level, n, k);
        let v = choose|v: int| is_optimal_version(mode, level, n, v);
        assert(outcome_at_version(mode, level, s, v, r1));
        assert(outcome_at_version(mode, level, s, v, r2));
        if r1 is Ok && r2 is Ok {
            let x1 = r1->Ok_0.version;
            let x2 = r2->Ok_0.version;
            match (x1, x2) {
                (Version::Normal(a), Version::Normal(b)) => {
                    assert(a == b);
                },
            }
        }
    }
}

impl QrCode {
    /// Encodes `data` in `encoding_mode` at `error_correction_level`: checks the alphabet,
    /// picks the smallest version that holds the data, assembles the bit stream, and
    /// computes and interleaves the error-correction codewords.
    pub fn create(
        data: String,
        encoding_mode: EncodingMode,
        error_correction_level: ErrorCorrectionLevel,
    ) -> (r: Result<QrCode, QrError>)
        ensures
            create_outcome(data@, encoding_mode, error_correction_level, r),
    {
        let bits = match encode_bits(data.as_str(), encoding_mode) {
            Ok(b) => b,
            Err(e) => return Err(e),
        };
        let count = match encoding_mode {
            EncodingMode::Byte => byte_mode_bytes_of(data.as_str()).len(),
            _ => crate::bits::chars_of(data.as_str()).len(),
        };
        let version = match determine_optimal_qr_code_version(
            &encoding_mode,
            &error_correction_level,
            count,
        ) {
            Ok(v) => v,
            Err(e) => return Err(e),
        };
        let ghost v = version.number();
        assert forall|u: int|
            is_optimal_version(encoding_mode, error_correction_level, count as int, u) implies u
            == v by {
            if u < v {
                assert(capacity(encoding_mode, error_correction_level, u) < count);
            } else if u > v {
                assert(capacity(encoding_mode, error_correction_level, v) < count);
            }
        }
        let width = calculate_binary_indicator_bit_length(&encoding_mode, &version);
        let indicator = match count_indicator_bits(count, width) {
            Some(b) => b,
            None => return Err(QrError::InternalInvariantViolation),
        };
        let cap = match determine_data_bits_required_for_version(&version, &error_correction_level) {
            Ok(c) => c,
            Err(e) => return Err(e),
        };
        let mut seg: Vec<bool> = Vec::new();
        push_bits(&mut seg, mode_indicator_value(encoding_mode), 4);
        let mut indicator = indicator;
        seg.append(&mut indicator);
        let encoded_data = bits_to_string(&bits);
        let mut data_bits = bits;
        seg.append(&mut data_bits);
        assert(seg@ == segment(encoding_mode, data@, v));
        let stream = match assemble(seg, cap as usize) {
            Ok(b) => b,
            Err(e) => return Err(e),
        };
        let data_codewords = match data_bits_to_byte_blocks(&stream) {
            Ok(b) => b,
            Err(e) => return Err(e),
        };
        let codewords = match generate_error_correction(&stream, &error_correction_level, &version) {
            Ok(c) => c,
            Err(e) => return Err(e),
        };
        Ok(
            QrCode {
                encoding_mode,
                error_correction_level,
                version,
                data,
                encoded_data,
                data_codewords,
                codewords,
            },
        )
    }
}

} // verus!
