use vstd::prelude::*;

use crate::bits::{
    bit_at, bit_chars, bits_of, bits_of_chars, bits_to_string, is_bit_string, push_bits,
    string_to_bits,
};
use crate::types::QrError;

verus! {

/// Zero bits of the terminator: four, or fewer where less room is left.
pub open spec fn terminator_len(len: int, cap: int) -> int {
    if cap - len < 4 {
        cap - len
    } else {
        4
    }
}

/// Zero bits appended after the segment: the terminator, then up to the next byte boundary.
pub open spec fn zero_fill_len(len: int, cap: int) -> int {
    let a = len + terminator_len(len, cap);
    terminator_len(len, cap) + if a % 8 == 0 {
        0
    } else {
        8 - a % 8
    }
}

/// The `k`-th pad codeword: 0xEC, 0x11, 0xEC, ...
pub open spec fn pad_codeword(k: int) -> u32 {
    if k % 2 == 0 {
        0xEC
    } else {
        0x11
    }
}

/// The first `n` bits of the pad codewords.
pub open spec fn pad_bits(n: int) -> Seq<bool> {
    Seq::new(n as nat, |i: int| bit_at(pad_codeword(i / 8), 7 - i % 8))
}

/// The bit stream of a symbol of `cap` data bits that carries `segment`: the segment,
/// the terminator, zeros to a byte boundary, then pad codewords up to the capacity.
pub open spec fn assembled(segment: Seq<bool>, cap: int) -> Seq<bool> {
    let z = zero_fill_len(segment.len() as int, cap);
    segment + Seq::new(z as nat, |i: int| false) + pad_bits(cap - segment.len() - z)
}

/// Whatever segment fits, the assembled stream is exactly as long as the capacity, and
/// so a whole number of codewords.
pub proof fn lemma_assembled_length(segment: Seq<bool>, cap: int)
    requires
        segment.len() <= cap,
        cap % 8 == 0,
    ensures
        assembled(segment, cap).len() == cap,
        assembled(segment, cap).len() % 8 == 0,
{
    let len = segment.len() as int;
    let z = zero_fill_len(len, cap);
    assert(0 <= z <= cap - len);
}

/// Completes a segment to exactly `cap` bits; fails where the segment is longer.
pub fn assemble(segment: Vec<bool>, cap: usize) -> (r: Result<Vec<bool>, QrError>)
    requires
        cap % 8 == 0,
    ensures
        r is Ok <==> segment.len() <= cap,
        r matches Ok(b) ==> b@ == assembled(segment@, cap as int) && b@.len() == cap,
        r matches Err(e) ==> e == (QrError::DataTooLarge {
            required_bits: segment.len() as u64,
            capacity_bits: cap as u64,
        }),
{
    let len = segment.len();
    if len > cap {
        return Err(QrError::DataTooLarge { required_bits: len as u64, capacity_bits: cap as u64 });
    }
    let ghost z = zero_fill_len(len as int, cap as int);
    let term: usize = if cap - len < 4 {
        cap - len
    } else {
        4
    };
    let a = len + term;
    let fill: usize = term + if a % 8 == 0 {
        0
    } else {
        8 - a % 8
    };
    assert(fill == z);
    let mut bits = segment;
    let mut i: usize = 0;
    while i < fill
        invariant
            i <= fill,
            fill == z,
            len + fill <= cap,
            bits@ == segment@ + Seq::new(i as nat, |j: int| false),
        decreases fill - i,
    {
        bits.push(false);
        i += 1;
        assert(bits@ =~= segment@ + Seq::new(i as nat, |j: int| false));
    }
    let ghost head = bits@;
    let mut k: usize = 0;
    while bits.len() < cap
        invariant
            head == segment@ + Seq::new(z as nat, |j: int| false),
            head.len() == len + z,
            (cap - head.len()) % 8 == 0,
            head.len() <= bits.len() <= cap,
            bits.len() == head.len() + 8 * k,
            bits@ == head + pad_bits(8 * k),
            cap % 8 == 0,
        decreases cap - bits.len(),
    {
        let v: u32 = if k % 2 == 0 {
            0xEC
        } else {
            0x11
        };
        let ghost before = bits@;
        push_bits(&mut bits, v, 8);
        assert(pad_bits(8 * (k + 1)) =~= pad_bits(8 * k) + bits_of(v, 8));
        k += 1;
        assert(bits@ =~= head + pad_bits(8 * k));
    }
    assert(bits@ =~= assembled(segment@, cap as int));
    Ok(bits)
}

/// Joins the mode indicator, the count indicator and the data bits, all written as strings
/// of `'0'` and `'1'`, and completes them to `data_bits_required_for_version` bits.
pub fn construct_data(
    encoding_mode_bits: &str,
    character_count_indicator_bits: &str,
    encoded_data_bits: &str,
    data_bits_required_for_version: i32,
) -> (r: Result<String, QrError>)
    requires
        is_bit_string(encoding_mode_bits@),
        is_bit_string(character_count_indicator_bits@),
        is_bit_string(encoded_data_bits@),
        data_bits_required_for_version >= 0,
        data_bits_required_for_version % 8 == 0,
    ensures
        ({
            let segment = bits_of_chars(
                encoding_mode_bits@ + character_count_indicator_bits@ + encoded_data_bits@,
            );
            &&& r is Ok <==> segment.len() <= data_bits_required_for_version
            &&& r matches Ok(s) ==> s@ == bit_chars(
                assembled(segment, data_bits_required_for_version as int),
            )
            &&& r matches Err(e) ==> e == (QrError::DataTooLarge {
                required_bits: segment.len() as u64,
                capacity_bits: data_bits_required_for_version as u64,
            })
        }),
{
    let mut bits = string_to_bits(encoding_mode_bits);
    let mut count = string_to_bits(character_count_indicator_bits);
    let mut data = string_to_bits(encoded_data_bits);
    bits.append(&mut count);
    bits.append(&mut data);
    assert(bits@ =~= bits_of_chars(
        encoding_mode_bits@ + character_count_indicator_bits@ + encoded_data_bits@,
    ));
    match assemble(bits, data_bits_required_for_version as usize) {
        Ok(b) => Ok(bits_to_string(&b)),
        Err(e) => Err(e),
    }
}

} // verus!
