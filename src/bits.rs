use vstd::arithmetic::power2::{lemma2_to64, lemma_pow2_unfold, pow2};
use vstd::prelude::*;
use vstd::string::StringExecFns;

verus! {

/// Bit `k` of `v`, counting from the least significant bit.
pub open spec fn bit_at(v: u32, k: int) -> bool {
    (v >> (k as u32)) & 1 == 1
}

/// The `w` low bits of `v`, most significant first.
pub open spec fn bits_of(v: u32, w: nat) -> Seq<bool> {
    Seq::new(w, |i: int| bit_at(v, w - 1 - i))
}

/// The unsigned number that a sequence of bits spells, most significant first.
pub open spec fn bits_value(bits: Seq<bool>) -> nat
    decreases bits.len(),
{
    if bits.len() == 0 {
        0
    } else {
        2 * bits_value(bits.drop_last()) + if bits.last() {
            1nat
        } else {
            0nat
        }
    }
}

pub open spec fn bit_char(b: bool) -> char {
    if b {
        '1'
    } else {
        '0'
    }
}

/// A bit sequence written as a string of `'0'` and `'1'`.
pub open spec fn bit_chars(bits: Seq<bool>) -> Seq<char> {
    bits.map_values(|b: bool| bit_char(b))
}

/// The string is made of `'0'` and `'1'` only.
pub open spec fn is_bit_string(s: Seq<char>) -> bool {
    forall|i: int| 0 <= i < s.len() ==> s[i] == '0' || s[i] == '1'
}

/// The bits that a string of `'0'` and `'1'` spells.
pub open spec fn bits_of_chars(s: Seq<char>) -> Seq<bool> {
    s.map_values(|c: char| c == '1')
}

/// Appends the `w` low bits of `v` to `buf`, most significant first.
pub fn push_bits(buf: &mut Vec<bool>, v: u32, w: usize)
    requires
        w <= 32,
    ensures
        final(buf)@ == old(buf)@ + bits_of(v, w as nat),
{
    let ghost start = buf@;
    let mut i: usize = 0;
    while i < w
        invariant
            i <= w <= 32,
            buf@ == start + bits_of(v, w as nat).take(i as int),
        decreases w - i,
    {
        let k: u32 = (w - 1 - i) as u32;
        let b = (v >> k) & 1 == 1;
        buf.push(b);
        i += 1;
        assert(buf@ =~= start + bits_of(v, w as nat).take(i as int));
    }
    assert(bits_of(v, w as nat).take(w as int) =~= bits_of(v, w as nat));
}

/// Writes bits as a string of `'0'` and `'1'`.
pub fn bits_to_string(bits: &Vec<bool>) -> (r: String)
    ensures
        r@ == bit_chars(bits@),
{
    let mut s = String::new();
    let mut i: usize = 0;
    while i < bits.len()
        invariant
            i <= bits.len(),
            s@ == bit_chars(bits@.take(i as int)),
        decreases bits.len() - i,
    {
        proof {
            reveal_strlit("0");
            reveal_strlit("1");
        }
        if bits[i] {
            s.append("1");
        } else {
            s.append("0");
        }
        i += 1;
        assert(s@ =~= bit_chars(bits@.take(i as int)));
    }
    assert(bits@.take(i as int) =~= bits@);
    s
}

/// Reads a string of `'0'` and `'1'` as bits.
pub fn string_to_bits(s: &str) -> (r: Vec<bool>)
    ensures
        r@ == bits_of_chars(s@),
{
    let chars = chars_of(s);
    let mut r: Vec<bool> = Vec::new();
    let mut i: usize = 0;
    while i < chars.len()
        invariant
            i <= chars.len(),
            chars@ == s@,
            r@ == bits_of_chars(s@.take(i as int)),
        decreases chars.len() - i,
    {
        r.push(chars[i] == '1');
        i += 1;
        assert(r@ =~= bits_of_chars(s@.take(i as int)));
    }
    assert(s@.take(i as int) =~= s@);
    r
}

/// The characters of a string, in order.
pub fn chars_of(s: &str) -> (r: Vec<char>)
    ensures
        r@ == s@,
{
    let mut out: Vec<char> = Vec::new();
    for c in it: s.chars()
        invariant
            out@ == it.seq().take(it.index() as int),
    {
        out.push(c);
    }
    assert(out@ =~= s@);
    out
}


proof fn lemma_shift_bit(v: u32, k: u32)
    requires
        k < 31,
    ensures
        ((v >> 1u32) >> k) & 1 == (v >> (k + 1) as u32) & 1,
{
    assert(((v >> 1u32) >> k) & 1 == (v >> (k + 1) as u32) & 1) by (bit_vector)
        requires
            k < 31,
    ;
}

proof fn lemma_low_bit(v: u32)
    ensures
        ((v >> 0u32) & 1 == 1) == (v % 2 == 1),
        v >> 1u32 == v / 2,
{
    assert(((v >> 0u32) & 1 == 1) == (v % 2 == 1)) by (bit_vector);
    assert(v >> 1u32 == v / 2) by (bit_vector);
}

/// Writing a number below `2^w` in `w` bits and reading the bits back gives the number.
pub proof fn lemma_bits_value(v: u32, w: nat)
    requires
        w <= 32,
        (v as nat) < pow2(w),
    ensures
        bits_value(bits_of(v, w)) == v,
    decreases w,
{
    let s = bits_of(v, w);
    if w == 0 {
        lemma2_to64();
        assert(s.len() == 0);
    } else {
        let h = v >> 1u32;
        lemma_low_bit(v);
        lemma_pow2_unfold(w);
        assert(s.drop_last() =~= bits_of(h, (w - 1) as nat)) by {
            assert forall|i: int| 0 <= i < w - 1 implies #[trigger] s.drop_last()[i] == bits_of(
                h,
                (w - 1) as nat,
            )[i] by {
                lemma_shift_bit(v, (w - 2 - i) as u32);
            }
        }
        lemma_bits_value(h, (w - 1) as nat);
        assert(s.last() == (v % 2 == 1));
    }
}

} // verus!
