use vstd::prelude::*;
use vstd::string::StringExecFns;

verus! {

/// `s` repeated `p` times.
pub open spec fn repeat(s: Seq<char>, p: nat) -> Seq<char>
    decreases p,
{
    if p == 0 {
        Seq::empty()
    } else {
        repeat(s, (p - 1) as nat) + s
    }
}

/// How many copies of a pad of `k` characters bring a length `len` to at least `length`.
pub open spec fn pad_count(len: int, length: int, k: int) -> nat
    decreases (if length > len {
        length - len
    } else {
        0
    }),
{
    if k <= 0 || length <= len {
        0
    } else {
        1 + pad_count(len + k, length, k)
    }
}

/// Copies of `pad` put before `string` until it is at least `length` characters long.
pub fn left_pad(string: &str, length: i32, pad: &str) -> (r: String)
    requires
        pad@.len() >= 1,
    ensures
        r@ == repeat(pad@, pad_count(string@.len() as int, length as int, pad@.len() as int))
            + string@,
{
    let ghost k = pad@.len() as int;
    let ghost start = string@.len() as int;
    let total = string.unicode_len() as u128;
    let step = pad.unicode_len() as u128;
    let mut prefix = String::new();
    let mut added: u128 = 0;
    let mut p: u128 = 0;
    while length > 0 && (length as u128) > total + added
        invariant
            k == step >= 1,
            start == total,
            added == p * k,
            p <= added,
            added <= 0x8000_0000 + step,
            step <= usize::MAX,
            total <= usize::MAX,
            prefix@ == repeat(pad@, p as nat),
            pad_count(start, length as int, k) == p + pad_count(start + added, length as int, k),
        decreases 0x8000_0000 + usize::MAX - added,
    {
        prefix.append(pad);
        assert(prefix@ =~= repeat(pad@, (p + 1) as nat));
        assert((p + 1) * k == p * k + k) by (nonlinear_arith);
        added = added + step;
        p = p + 1;
    }
    prefix.append(string);
    prefix
}

/// Copies of `pad` put after `string` until it is at least `length` characters long.
pub fn right_pad(string: &str, length: i32, pad: &str) -> (r: String)
    requires
        pad@.len() >= 1,
    ensures
        r@ == string@ + repeat(pad@, pad_count(string@.len() as int, length as int, pad@.len() as int)),
{
    let ghost k = pad@.len() as int;
    let ghost start = string@.len() as int;
    let total = string.unicode_len() as u128;
    let step = pad.unicode_len() as u128;
    let mut padded = String::from_str(string);
    let mut added: u128 = 0;
    let mut p: u128 = 0;
    while length > 0 && (length as u128) > total + added
        invariant
            k == step >= 1,
            start == total,
            added == p * k,
            p <= added,
            added <= 0x8000_0000 + step,
            step <= usize::MAX,
            total <= usize::MAX,
            padded@ == string@ + repeat(pad@, p as nat),
            pad_count(start, length as int, k) == p + pad_count(start + added, length as int, k),
        decreases 0x8000_0000 + usize::MAX - added,
    {
        padded.append(pad);
        assert(padded@ =~= string@ + repeat(pad@, (p + 1) as nat));
        assert((p + 1) * k == p * k + k) by (nonlinear_arith);
        added = added + step;
        p = p + 1;
    }
    padded
}

/// Four binary digits of a hexadecimal digit (`0`-`9`, `A`-`F`); nothing for any other character.
pub open spec fn hex_digit_bits(c: char) -> Seq<char> {
    if c == '0' {
        "0000"@
    } else if c == '1' {
        "0001"@
    } else if c == '2' {
        "0010"@
    } else if c == '3' {
        "0011"@
    } else if c == '4' {
        "0100"@
    } else if c == '5' {
        "0101"@
    } else if c == '6' {
        "0110"@
    } else if c == '7' {
        "0111"@
    } else if c == '8' {
        "1000"@
    } else if c == '9' {
        "1001"@
    } else if c == 'A' {
        "1010"@
    } else if c == 'B' {
        "1011"@
    } else if c == 'C' {
        "1100"@
    } else if c == 'D' {
        "1101"@
    } else if c == 'E' {
        "1110"@
    } else if c == 'F' {
        "1111"@
    } else {
        Seq::empty()
    }
}

/// Binary digits of a hexadecimal string, four per digit.
pub open spec fn hex_bits(s: Seq<char>) -> Seq<char>
    decreases s.len(),
{
    if s.len() == 0 {
        Seq::empty()
    } else {
        hex_bits(s.drop_last()) + hex_digit_bits(s.last())
    }
}

fn to_binary(c: char) -> (r: &'static str)
    ensures
        r@ == hex_digit_bits(c),
{
    proof {
        reveal_strlit("");
        reveal_strlit("0000");
        reveal_strlit("0001");
        reveal_strlit("0010");
        reveal_strlit("0011");
        reveal_strlit("0100");
        reveal_strlit("0101");
        reveal_strlit("0110");
        reveal_strlit("0111");
        reveal_strlit("1000");
        reveal_strlit("1001");
        reveal_strlit("1010");
        reveal_strlit("1011");
        reveal_strlit("1100");
        reveal_strlit("1101");
        reveal_strlit("1110");
        reveal_strlit("1111");
    }
    if c == '0' {
        "0000"
    } else if c == '1' {
        "0001"
    } else if c == '2' {
        "0010"
    } else if c == '3' {
        "0011"
    } else if c == '4' {
        "0100"
    } else if c == '5' {
        "0101"
    } else if c == '6' {
        "0110"
    } else if c == '7' {
        "0111"
    } else if c == '8' {
        "1000"
    } else if c == '9' {
        "1001"
    } else if c == 'A' {
        "1010"
    } else if c == 'B' {
        "1011"
    } else if c == 'C' {
        "1100"
    } else if c == 'D' {
        "1101"
    } else if c == 'E' {
        "1110"
    } else if c == 'F' {
        "1111"
    } else {
        ""
    }
}

/// Writes a hexadecimal string in binary, four digits per hexadecimal digit.
pub fn convert_hex_to_binary(hex: &str) -> (r: String)
    ensures
        r@ == hex_bits(hex@),
{
    let chars = crate::bits::chars_of(hex);
    let mut out = String::new();
    let mut i: usize = 0;
    while i < chars.len()
        invariant
            i <= chars.len(),
            chars@ == hex@,
            out@ == hex_bits(hex@.take(i as int)),
        decreases chars.len() - i,
    {
        assert(hex@.take(i + 1).drop_last() =~= hex@.take(i as int));
        out.append(to_binary(chars[i]));
        i += 1;
    }
    assert(hex@.take(i as int) =~= hex@);
    out
}

} // verus!
