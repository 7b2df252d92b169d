use vstd::prelude::*;

use crate::bits::{
    bit_chars, bits_of, bits_to_string, bits_value, chars_of, lemma_bits_value, push_bits,
};
use vstd::arithmetic::power2::lemma2_to64;
use crate::types::{EncodingMode, QrError};
use crate::version::segment_data_bits;

verus! {

// ---------------------------------------------------------------------------
// Alphabets
// ---------------------------------------------------------------------------

pub open spec fn is_digit(c: char) -> bool {
    ('0' as u32) <= (c as u32) <= ('9' as u32)
}

pub open spec fn digit_value(c: char) -> u32 {
    ((c as u32) - ('0' as u32)) as u32
}

/// Code of a character in the 45-symbol alphanumeric table.
pub open spec fn alphanumeric_code(c: char) -> Option<u32> {
    if is_digit(c) {
        Some(digit_value(c))
    } else if ('A' as u32) <= (c as u32) <= ('Z' as u32) {
        Some(((c as u32) - ('A' as u32) + 10) as u32)
    } else if c == ' ' {
        Some(36)
    } else if c == '$' {
        Some(37)
    } else if c == '%' {
        Some(38)
    } else if c == '*' {
        Some(39)
    } else if c == '+' {
        Some(40)
    } else if c == '-' {
        Some(41)
    } else if c == '.' {
        Some(42)
    } else if c == '/' {
        Some(43)
    } else if c == ':' {
        Some(44)
    } else {
        None
    }
}

/// A character has a one-byte ISO-8859-1 representation.
pub open spec fn is_latin1(c: char) -> bool {
    (c as u32) <= 0xFF
}

/// The bytes of a byte-mode segment: ISO-8859-1 where every character has it, else UTF-8.
pub open spec fn byte_mode_bytes(s: Seq<char>) -> Seq<u8> {
    if forall|i: int| 0 <= i < s.len() ==> is_latin1(#[trigger] s[i]) {
        s.map_values(|c: char| (c as u32) as u8)
    } else {
        vstd::utf8::encode_utf8(s)
    }
}

/// The Shift_JIS bytes of a character, as the conversion library gives them.
pub uninterp spec fn shift_jis_of(c: char) -> Seq<u8>;

/// The 13-bit kanji value of a double-byte Shift_JIS code, if the code lies in a kanji range.
pub open spec fn kanji_value(code: u16) -> Option<u16> {
    if 0x8140 <= code <= 0x9FFC {
        let adjusted = (code - 0x8140) as u16;
        Some(((adjusted >> 8u16) * 0xC0 + (adjusted & 0xFF)) as u16)
    } else if 0xE040 <= code <= 0xEBBF {
        let adjusted = (code - 0xC140) as u16;
        Some(((adjusted >> 8u16) * 0xC0 + (adjusted & 0xFF)) as u16)
    } else {
        None
    }
}

/// The kanji value of a Shift_JIS byte sequence: it must be one double-byte code in range.
pub open spec fn kanji_value_of_bytes(b: Seq<u8>) -> Option<u16> {
    if b.len() == 2 {
        kanji_value((b[0] as u16 * 256 + b[1] as u16) as u16)
    } else {
        None
    }
}

pub open spec fn kanji_code(c: char) -> Option<u16> {
    kanji_value_of_bytes(shift_jis_of(c))
}

/// A character belongs to the alphabet of `mode`.
pub open spec fn valid_char(mode: EncodingMode, c: char) -> bool {
    match mode {
        EncodingMode::Numeric => is_digit(c),
        EncodingMode::Alphanumeric => alphanumeric_code(c) is Some,
        EncodingMode::Byte => true,
        EncodingMode::Kanji => kanji_code(c) is Some,
    }
}

pub open spec fn all_valid(mode: EncodingMode, s: Seq<char>) -> bool {
    forall|i: int| 0 <= i < s.len() ==> valid_char(mode, #[trigger] s[i])
}

/// `i` is the position of the first character of `s` outside the alphabet of `mode`.
pub open spec fn first_invalid(mode: EncodingMode, s: Seq<char>, i: int) -> bool {
    &&& 0 <= i < s.len()
    &&& !valid_char(mode, s[i])
    &&& forall|j: int| 0 <= j < i ==> valid_char(mode, #[trigger] s[j])
}

/// The error reported for the character `c` at position `i`.
pub open spec fn char_error(mode: EncodingMode, c: char, i: int) -> QrError {
    match mode {
        EncodingMode::Kanji => QrError::UnsupportedCharacter { character: c },
        _ => QrError::InvalidCharacter { character: c, position: i as usize, mode },
    }
}

// ---------------------------------------------------------------------------
// Bit layouts of the four modes
// ---------------------------------------------------------------------------

/// Decimal value of a digit string.
pub open spec fn decimal_value(g: Seq<char>) -> nat
    decreases g.len(),
{
    if g.len() == 0 {
        0
    } else {
        (10 * decimal_value(g.drop_last()) + digit_value(g.last())) as nat
    }
}

/// Bit width of a numeric group of `n` digits.
pub open spec fn numeric_group_width(n: int) -> nat {
    if n == 3 {
        10
    } else if n == 2 {
        7
    } else {
        4
    }
}

/// Bits of one numeric group of one to three digits.
pub open spec fn numeric_group_bits(g: Seq<char>) -> Seq<bool> {
    bits_of(decimal_value(g) as u32, numeric_group_width(g.len() as int))
}

/// Group `k` of size `n`, counted from the front; the last may be shorter.
pub open spec fn group(s: Seq<char>, n: int, k: int) -> Seq<char> {
    let end = if n * (k + 1) < s.len() {
        n * (k + 1)
    } else {
        s.len() as int
    };
    s.subrange(n * k, end)
}

pub open spec fn group_count(len: int, n: int) -> int {
    (len + n - 1) / n
}

/// Bits of the first `k` groups of three digits.
pub open spec fn numeric_prefix(s: Seq<char>, k: int) -> Seq<bool>
    decreases k,
{
    if k <= 0 {
        Seq::empty()
    } else {
        numeric_prefix(s, k - 1) + numeric_group_bits(group(s, 3, k - 1))
    }
}

/// Numeric-mode bits of a digit string.
pub open spec fn numeric_bits(s: Seq<char>) -> Seq<bool> {
    numeric_prefix(s, group_count(s.len() as int, 3))
}

/// Bits of one alphanumeric pair, or of a lone last character.
pub open spec fn alphanumeric_pair_bits(p: Seq<char>) -> Seq<bool> {
    if p.len() == 2 {
        bits_of(
            (45 * alphanumeric_code(p[0])->0 + alphanumeric_code(p[1])->0) as u32,
            11,
        )
    } else {
        bits_of(alphanumeric_code(p[0])->0, 6)
    }
}

pub open spec fn alphanumeric_prefix(s: Seq<char>, k: int) -> Seq<bool>
    decreases k,
{
    if k <= 0 {
        Seq::empty()
    } else {
        alphanumeric_prefix(s, k - 1) + alphanumeric_pair_bits(group(s, 2, k - 1))
    }
}

/// Alphanumeric-mode bits of a string of the 45-symbol alphabet.
pub open spec fn alphanumeric_bits(s: Seq<char>) -> Seq<bool> {
    alphanumeric_prefix(s, group_count(s.len() as int, 2))
}

/// Eight bits for each byte, in order.
pub open spec fn byte_bits(b: Seq<u8>) -> Seq<bool>
    decreases b.len(),
{
    if b.len() == 0 {
        Seq::empty()
    } else {
        byte_bits(b.drop_last()) + bits_of(b.last() as u32, 8)
    }
}

/// Thirteen bits for each kanji character, in order.
pub open spec fn kanji_bits(s: Seq<char>) -> Seq<bool>
    decreases s.len(),
{
    if s.len() == 0 {
        Seq::empty()
    } else {
        kanji_bits(s.drop_last()) + bits_of(kanji_code(s.last())->0 as u32, 13)
    }
}

/// The mode-encoded bits of a string whose characters are all valid for `mode`.
pub open spec fn mode_bits(mode: EncodingMode, s: Seq<char>) -> Seq<bool> {
    match mode {
        EncodingMode::Numeric => numeric_bits(s),
        EncodingMode::Alphanumeric => alphanumeric_bits(s),
        EncodingMode::Byte => byte_bits(byte_mode_bytes(s)),
        EncodingMode::Kanji => kanji_bits(s),
    }
}

/// Length of the input in the units that the capacity tables count.
pub open spec fn unit_count(mode: EncodingMode, s: Seq<char>) -> int {
    match mode {
        EncodingMode::Byte => byte_mode_bytes(s).len() as int,
        _ => s.len() as int,
    }
}

/// `e` is the error for the first character of `s` outside the alphabet of `mode`.
pub open spec fn is_first_char_error(mode: EncodingMode, s: Seq<char>, e: QrError) -> bool {
    exists|i: int| first_invalid(mode, s, i) && e == char_error(mode, s[i], i)
}

/// What encoding `s` in `mode` gives: its bits, or the error for the first invalid character.
pub open spec fn encoding_outcome(mode: EncodingMode, s: Seq<char>, r: Result<Vec<bool>, QrError>) -> bool {
    match r {
        Ok(b) => all_valid(mode, s) && b@ == mode_bits(mode, s),
        Err(e) => !all_valid(mode, s) && is_first_char_error(mode, s, e),
    }
}

// ---------------------------------------------------------------------------
// Character classification
// ---------------------------------------------------------------------------

/// Relies on encoding_rs's `SHIFT_JIS.encode`: the Shift_JIS bytes of a one-character string,
/// which depend on the character alone.
#[verifier::external_body]
fn shift_jis_bytes(c: char) -> (r: Vec<u8>)
    ensures
        r@ == shift_jis_of(c),
{
    let mut buf = [0u8; 4];
    encoding_rs::SHIFT_JIS.encode(c.encode_utf8(&mut buf)).0.into_owned()
}

/// Kanji value of a code in 0x8140..=0x9FFC.
fn method_one(bytes: u16) -> (r: u16)
    requires
        0x8140 <= bytes <= 0x9FFC,
    ensures
        kanji_value(bytes) == Some(r),
        r < 0x2000,
{
    let adjusted = bytes - 0x8140;
    assert((adjusted & 0xFF00) >> 8 == adjusted >> 8u16 && adjusted >> 8u16 <= 0x1E && adjusted & 0xFF
        <= 0xFF) by (bit_vector)
        requires
            adjusted <= 0x1EBC,
    ;
    let msb = (adjusted & 0xFF00) >> 8;
    let lsb = adjusted & 0x00FF;
    (msb * 0xC0) + lsb
}

/// Kanji value of a code in 0xE040..=0xEBBF.
fn method_two(bytes: u16) -> (r: u16)
    requires
        0xE040 <= bytes <= 0xEBBF,
    ensures
        kanji_value(bytes) == Some(r),
        r < 0x2000,
{
    let adjusted = bytes - 0xC140;
    assert((adjusted & 0xFF00) >> 8 == adjusted >> 8u16 && adjusted >> 8u16 <= 0x2A && adjusted & 0xFF
        <= 0xFF && (adjusted >> 8u16 == 0x2A ==> adjusted & 0xFF <= 0x7F)) by (bit_vector)
        requires
            0x1F00 <= adjusted <= 0x2A7F,
    ;
    let msb = (adjusted & 0xFF00) >> 8;
    let lsb = adjusted & 0x00FF;
    (msb * 0xC0) + lsb
}

/// The kanji value of a Shift_JIS byte sequence, or `None` where it is not one
/// double-byte code of the kanji ranges.
pub fn kanji_code_value(sjis: &Vec<u8>) -> (r: Option<u16>)
    ensures
        r == kanji_value_of_bytes(sjis@),
        r matches Some(v) ==> v < 0x2000,
{
    if sjis.len() != 2 {
        return None;
    }
    let code: u16 = (sjis[0] as u16) * 256 + (sjis[1] as u16);
    if 0x8140 <= code && code <= 0x9FFC {
        Some(method_one(code))
    } else if 0xE040 <= code && code <= 0xEBBF {
        Some(method_two(code))
    } else {
        None
    }
}

/// The kanji value of a character, through its Shift_JIS code.
fn kanji_code_of(c: char) -> (r: Option<u16>)
    ensures
        r == kanji_code(c),
        r matches Some(v) ==> v < 0x2000,
{
    kanji_code_value(&shift_jis_bytes(c))
}

/// Looks up a character in the 45-symbol alphanumeric table.
pub fn alphanumeric_value(c: char) -> (r: Option<u32>)
    ensures
        r == alphanumeric_code(c),
        r matches Some(v) ==> v < 45,
{
    let u = c as u32;
    if ('0' as u32) <= u && u <= ('9' as u32) {
        Some(u - ('0' as u32))
    } else if ('A' as u32) <= u && u <= ('Z' as u32) {
        Some(u - ('A' as u32) + 10)
    } else if c == ' ' {
        Some(36)
    } else if c == '$' {
        Some(37)
    } else if c == '%' {
        Some(38)
    } else if c == '*' {
        Some(39)
    } else if c == '+' {
        Some(40)
    } else if c == '-' {
        Some(41)
    } else if c == '.' {
        Some(42)
    } else if c == '/' {
        Some(43)
    } else if c == ':' {
        Some(44)
    } else {
        None
    }
}

/// Tells whether `c` belongs to the alphabet of `mode`.
pub fn is_valid_char(mode: EncodingMode, c: char) -> (r: bool)
    ensures
        r == valid_char(mode, c),
{
    match mode {
        EncodingMode::Numeric => ('0' as u32) <= (c as u32) && (c as u32) <= ('9' as u32),
        EncodingMode::Alphanumeric => alphanumeric_value(c).is_some(),
        EncodingMode::Byte => true,
        EncodingMode::Kanji => kanji_code_of(c).is_some(),
    }
}

/// The position of the first character outside the alphabet of `mode`, if any.
pub fn find_invalid(mode: EncodingMode, chars: &Vec<char>) -> (r: Option<usize>)
    ensures
        r is None <==> all_valid(mode, chars@),
        r matches Some(i) ==> first_invalid(mode, chars@, i as int),
{
    let mut i: usize = 0;
    while i < chars.len()
        invariant
            i <= chars.len(),
            forall|j: int| 0 <= j < i ==> valid_char(mode, #[trigger] chars@[j]),
        decreases chars.len() - i,
    {
        if !is_valid_char(mode, chars[i]) {
            return Some(i);
        }
        i += 1;
    }
    None
}

// ---------------------------------------------------------------------------
// The four encoders
// ---------------------------------------------------------------------------

/// Numeric-mode bits of a string of digits.
fn numeric_bits_of(chars: &Vec<char>) -> (r: Vec<bool>)
    requires
        all_valid(EncodingMode::Numeric, chars@),
    ensures
        r@ == numeric_bits(chars@),
{
    let n = chars.len();
    let groups = n / 3 + if n % 3 == 0 {
        0
    } else {
        1
    };
    assert(groups == group_count(n as int, 3));
    let mut bits: Vec<bool> = Vec::new();
    let mut k: usize = 0;
    while k < groups
        invariant
            n == chars.len(),
            groups == group_count(n as int, 3),
            k <= groups,
            all_valid(EncodingMode::Numeric, chars@),
            bits@ == numeric_prefix(chars@, k as int),
        decreases groups - k,
    {
        let start = 3 * k;
        let end = if start + 3 < n {
            start + 3
        } else {
            n
        };
        let ghost g = group(chars@, 3, k as int);
        let mut v: u32 = 0;
        let mut j = start;
        while j < end
            invariant
                start <= j <= end <= n,
                end - start <= 3,
                n == chars.len(),
                all_valid(EncodingMode::Numeric, chars@),
                v == decimal_value(chars@.subrange(start as int, j as int)),
                j - start <= 1 ==> v < 10,
                j - start <= 2 ==> v < 100,
                v < 1000,
            decreases end - j,
        {
            assert(valid_char(EncodingMode::Numeric, chars@[j as int]));
            let d = (chars[j] as u32) - ('0' as u32);
            assert(chars@.subrange(start as int, j + 1).drop_last() =~= chars@.subrange(
                start as int,
                j as int,
            ));
            v = v * 10 + d;
            j += 1;
        }
        assert(g =~= chars@.subrange(start as int, end as int));
        let w: usize = if end - start == 3 {
            10
        } else if end - start == 2 {
            7
        } else {
            4
        };
        push_bits(&mut bits, v, w);
        k += 1;
    }
    bits
}

/// Alphanumeric-mode bits of a string of the 45-symbol alphabet.
fn alphanumeric_bits_of(chars: &Vec<char>) -> (r: Vec<bool>)
    requires
        all_valid(EncodingMode::Alphanumeric, chars@),
    ensures
        r@ == alphanumeric_bits(chars@),
{
    let n = chars.len();
    let pairs = n / 2 + n % 2;
    assert(pairs == group_count(n as int, 2));
    let mut bits: Vec<bool> = Vec::new();
    let mut k: usize = 0;
    while k < pairs
        invariant
            n == chars.len(),
            pairs == group_count(n as int, 2),
            k <= pairs,
            all_valid(EncodingMode::Alphanumeric, chars@),
            bits@ == alphanumeric_prefix(chars@, k as int),
        decreases pairs - k,
    {
        let start = 2 * k;
        let ghost p = group(chars@, 2, k as int);
        assert(valid_char(EncodingMode::Alphanumeric, chars@[start as int]));
        let first = alphanumeric_value(chars[start]).unwrap();
        if start + 1 < n {
            assert(valid_char(EncodingMode::Alphanumeric, chars@[start + 1]));
            let second = alphanumeric_value(chars[start + 1]).unwrap();
            assert(p =~= seq![chars@[start as int], chars@[start + 1]]);
            push_bits(&mut bits, 45 * first + second, 11);
        } else {
            assert(p =~= seq![chars@[start as int]]);
            push_bits(&mut bits, first, 6);
        }
        k += 1;
    }
    bits
}

/// The bytes of a byte-mode segment: ISO-8859-1 where every character has it, else UTF-8.
pub fn byte_mode_bytes_of(data: &str) -> (r: Vec<u8>)
    ensures
        r@ == byte_mode_bytes(data@),
{
    let chars = chars_of(data);
    let mut latin1: Vec<u8> = Vec::new();
    let mut i: usize = 0;
    while i < chars.len()
        invariant
            i <= chars.len(),
            chars@ == data@,
            forall|j: int| 0 <= j < i ==> is_latin1(#[trigger] chars@[j]),
            latin1@ == chars@.take(i as int).map_values(|c: char| (c as u32) as u8),
        decreases chars.len() - i,
    {
        if (chars[i] as u32) > 0xFF {
            assert(!is_latin1(data@[i as int]));
            let bytes = data.as_bytes();
            let mut out: Vec<u8> = Vec::new();
            let mut j: usize = 0;
            while j < bytes.len()
                invariant
                    j <= bytes@.len(),
                    bytes@ == vstd::utf8::encode_utf8(data@),
                    out@ == bytes@.take(j as int),
                decreases bytes@.len() - j,
            {
                out.push(bytes[j]);
                j += 1;
                assert(out@ =~= bytes@.take(j as int));
            }
            assert(out@ =~= bytes@);
            return out;
        }
        latin1.push((chars[i] as u32) as u8);
        i += 1;
        assert(latin1@ =~= chars@.take(i as int).map_values(|c: char| (c as u32) as u8));
    }
    assert(chars@.take(i as int) =~= chars@);
    latin1
}

/// Eight bits for each byte.
fn byte_bits_of(bytes: &Vec<u8>) -> (r: Vec<bool>)
    ensures
        r@ == byte_bits(bytes@),
{
    let mut bits: Vec<bool> = Vec::new();
    let mut i: usize = 0;
    while i < bytes.len()
        invariant
            i <= bytes.len(),
            bits@ == byte_bits(bytes@.take(i as int)),
        decreases bytes.len() - i,
    {
        assert(bytes@.take(i + 1).drop_last() =~= bytes@.take(i as int));
        push_bits(&mut bits, bytes[i] as u32, 8);
        i += 1;
    }
    assert(bytes@.take(i as int) =~= bytes@);
    bits
}

/// Thirteen bits for each kanji character.
fn kanji_bits_of(chars: &Vec<char>) -> (r: Vec<bool>)
    requires
        all_valid(EncodingMode::Kanji, chars@),
    ensures
        r@ == kanji_bits(chars@),
{
    let mut bits: Vec<bool> = Vec::new();
    let mut i: usize = 0;
    while i < chars.len()
        invariant
            i <= chars.len(),
            all_valid(EncodingMode::Kanji, chars@),
            bits@ == kanji_bits(chars@.take(i as int)),
        decreases chars.len() - i,
    {
        assert(valid_char(EncodingMode::Kanji, chars@[i as int]));
        let v = kanji_code_of(chars[i]).unwrap();
        assert(chars@.take(i + 1).drop_last() =~= chars@.take(i as int));
        push_bits(&mut bits, v as u32, 13);
        i += 1;
    }
    assert(chars@.take(i as int) =~= chars@);
    bits
}

/// Encodes a string in a mode, returning the bits; fails on the first character
/// outside the mode's alphabet.
pub fn encode_bits(data: &str, mode: EncodingMode) -> (r: Result<Vec<bool>, QrError>)
    ensures
        encoding_outcome(mode, data@, r),
{
    let chars = chars_of(data);
    match find_invalid(mode, &chars) {
        Some(i) => {
            let c = chars[i];
            let e = match mode {
                EncodingMode::Kanji => QrError::UnsupportedCharacter { character: c },
                _ => QrError::InvalidCharacter { character: c, position: i, mode },
            };
            assert(first_invalid(mode, data@, i as int));
            Err(e)
        },
        None => Ok(
            match mode {
                EncodingMode::Numeric => numeric_bits_of(&chars),
                EncodingMode::Alphanumeric => alphanumeric_bits_of(&chars),
                EncodingMode::Byte => byte_bits_of(&byte_mode_bytes_of(data)),
                EncodingMode::Kanji => kanji_bits_of(&chars),
            },
        ),
    }
}

/// Numeric mode: groups of three digits as 10 bits, a last group of two as 7, of one as 4.
pub fn numeric_encoding(data: &str) -> (r: Result<Vec<bool>, QrError>)
    ensures
        encoding_outcome(EncodingMode::Numeric, data@, r),
{
    encode_bits(data, EncodingMode::Numeric)
}

/// Alphanumeric mode: pairs as `45 * first + second` in 11 bits, a lone last character in 6.
pub fn alphanumeric_encoding(data: &str) -> (r: Result<Vec<bool>, QrError>)
    ensures
        encoding_outcome(EncodingMode::Alphanumeric, data@, r),
{
    encode_bits(data, EncodingMode::Alphanumeric)
}

/// Byte mode: eight bits for each byte of the text; never fails.
pub fn byte_encoding(data: &str) -> (r: Result<Vec<bool>, QrError>)
    ensures
        r matches Ok(b) && b@ == byte_bits(byte_mode_bytes(data@)),
{
    encode_bits(data, EncodingMode::Byte)
}

/// Kanji mode: thirteen bits for each character, from its Shift_JIS code.
pub fn kanji_encoding(data: &str) -> (r: Result<Vec<bool>, QrError>)
    ensures
        encoding_outcome(EncodingMode::Kanji, data@, r),
{
    encode_bits(data, EncodingMode::Kanji)
}

/// Encodes a string in a mode and writes the bits as a string of `'0'` and `'1'`.
pub fn encode(data: &str, mode: &EncodingMode) -> (r: Result<String, QrError>)
    ensures
        r is Ok <==> all_valid(*mode, data@),
        r matches Ok(s) ==> s@ == bit_chars(mode_bits(*mode, data@)),
        r matches Err(e) ==> is_first_char_error(*mode, data@, e),
{
    match encode_bits(data, *mode) {
        Ok(bits) => Ok(bits_to_string(&bits)),
        Err(e) => Err(e),
    }
}


// ---------------------------------------------------------------------------
// Laws
// ---------------------------------------------------------------------------

/// A string of `n` digits has a decimal value below `10^n`.
proof fn lemma_decimal_bound(g: Seq<char>)
    requires
        forall|i: int| 0 <= i < g.len() ==> is_digit(#[trigger] g[i]),
    ensures
        decimal_value(g) < vstd::arithmetic::power::pow(10, g.len()),
    decreases g.len(),
{
    reveal_with_fuel(vstd::arithmetic::power::pow, 2);
    if g.len() > 0 {
        let d = g.drop_last();
        assert(is_digit(g[g.len() - 1]));
        assert forall|i: int| 0 <= i < d.len() implies is_digit(#[trigger] d[i]) by {
            assert(d[i] == g[i]);
        }
        lemma_decimal_bound(d);
        let p = vstd::arithmetic::power::pow(10, d.len());
        let x = decimal_value(d) as int;
        let y = digit_value(g.last()) as int;
        assert(10 * x + y < 10 * p) by (nonlinear_arith)
            requires
                x < p,
                0 <= y <= 9,
        ;
    }
}

/// A numeric group of three, two or one digits is written in ten, seven or four bits,
/// and those bits read back as the group's decimal value.
pub proof fn lemma_numeric_group_value(g: Seq<char>)
    requires
        1 <= g.len() <= 3,
        forall|i: int| 0 <= i < g.len() ==> is_digit(#[trigger] g[i]),
    ensures
        numeric_group_bits(g).len() == numeric_group_width(g.len() as int),
        bits_value(numeric_group_bits(g)) == decimal_value(g),
{
    lemma2_to64();
    lemma_decimal_bound(g);
    reveal_with_fuel(vstd::arithmetic::power::pow, 4);
    lemma_bits_value(decimal_value(g) as u32, numeric_group_width(g.len() as int));
}


proof fn lemma_numeric_prefix_len(s: Seq<char>, k: int)
    requires
        0 <= k,
        3 * k <= s.len(),
    ensures
        numeric_prefix(s, k).len() == 10 * k,
    decreases k,
{
    if k > 0 {
        lemma_numeric_prefix_len(s, k - 1);
        assert(group(s, 3, k - 1).len() == 3);
    }
}

proof fn lemma_alphanumeric_prefix_len(s: Seq<char>, k: int)
    requires
        0 <= k,
        2 * k <= s.len(),
    ensures
        alphanumeric_prefix(s, k).len() == 11 * k,
    decreases k,
{
    if k > 0 {
        lemma_alphanumeric_prefix_len(s, k - 1);
        assert(group(s, 2, k - 1).len() == 2);
    }
}

proof fn lemma_byte_bits_len(b: Seq<u8>)
    ensures
        byte_bits(b).len() == 8 * b.len(),
    decreases b.len(),
{
    if b.len() > 0 {
        lemma_byte_bits_len(b.drop_last());
    }
}

proof fn lemma_kanji_bits_len(s: Seq<char>)
    ensures
        kanji_bits(s).len() == 13 * s.len(),
    decreases s.len(),
{
    if s.len() > 0 {
        lemma_kanji_bits_len(s.drop_last());
    }
}

/// The mode-encoded bits of `n` characters (bytes in byte mode) take
/// `segment_data_bits(mode, n)` bits: 10 per three digits with 7 or 4 for a shorter last
/// group, 11 per pair with 6 for a lone last character, 8 per byte, 13 per kanji.
pub proof fn lemma_mode_bits_length(mode: EncodingMode, s: Seq<char>)
    ensures
        mode_bits(mode, s).len() == segment_data_bits(mode, unit_count(mode, s)),
{
    let n = s.len() as int;
    match mode {
        EncodingMode::Numeric => {
            let full = n / 3;
            lemma_numeric_prefix_len(s, full);
            if n % 3 != 0 {
                assert(group_count(n, 3) == full + 1);
                assert(group(s, 3, full).len() == n % 3);
            } else {
                assert(group_count(n, 3) == full);
            }
        },
        EncodingMode::Alphanumeric => {
            let full = n / 2;
            lemma_alphanumeric_prefix_len(s, full);
            if n % 2 != 0 {
                assert(group_count(n, 2) == full + 1);
                assert(group(s, 2, full).len() == 1);
            } else {
                assert(group_count(n, 2) == full);
            }
        },
        EncodingMode::Byte => {
            lemma_byte_bits_len(byte_mode_bytes(s));
        },
        EncodingMode::Kanji => {
            lemma_kanji_bits_len(s);
        },
    }
}

} // verus!
