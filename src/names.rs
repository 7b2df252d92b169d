use vstd::prelude::*;
use vstd::string::StringExecFns;

use crate::bits::{bit_chars, bits_of, bits_to_string, push_bits};
use crate::types::{mode_indicator, EncodingMode, ErrorCorrectionLevel, Version};

verus! {

pub open spec fn mode_name(mode: EncodingMode) -> Seq<char> {
    match mode {
        EncodingMode::Numeric => "Numeric"@,
        EncodingMode::Alphanumeric => "Alphanumeric"@,
        EncodingMode::Byte => "Byte"@,
        EncodingMode::Kanji => "Kanji"@,
    }
}

pub open spec fn level_name(level: ErrorCorrectionLevel) -> Seq<char> {
    match level {
        ErrorCorrectionLevel::Low => "Low"@,
        ErrorCorrectionLevel::Medium => "Medium"@,
        ErrorCorrectionLevel::Quartile => "Quartile"@,
        ErrorCorrectionLevel::High => "High"@,
    }
}

pub open spec fn digit_char(d: int) -> char {
    (('0' as u32) + d) as char
}

/// Decimal digits of a number from 0 to 99.
pub open spec fn decimal_chars(n: int) -> Seq<char> {
    if n < 10 {
        seq![digit_char(n)]
    } else {
        seq![digit_char(n / 10), digit_char(n % 10)]
    }
}

/// The one-character string of a decimal digit.
fn digit_str(d: i16) -> (r: &'static str)
    requires
        0 <= d <= 9,
    ensures
        r@ == seq![digit_char(d as int)],
{
    proof {
        reveal_strlit("0");
        reveal_strlit("1");
        reveal_strlit("2");
        reveal_strlit("3");
        reveal_strlit("4");
        reveal_strlit("5");
        reveal_strlit("6");
        reveal_strlit("7");
        reveal_strlit("8");
        reveal_strlit("9");
    }
    let r = match d {
        0 => "0",
        1 => "1",
        2 => "2",
        3 => "3",
        4 => "4",
        5 => "5",
        6 => "6",
        7 => "7",
        8 => "8",
        _ => "9",
    };
    assert(r@ =~= seq![digit_char(d as int)]);
    r
}

/// The mode indicator as a number.
pub fn mode_indicator_value(mode: EncodingMode) -> (r: u32)
    ensures
        r == mode_indicator(mode),
{
    match mode {
        EncodingMode::Numeric => 1,
        EncodingMode::Alphanumeric => 2,
        EncodingMode::Byte => 4,
        EncodingMode::Kanji => 8,
    }
}

impl EncodingMode {
    /// The four-bit mode indicator, as a string of `'0'` and `'1'`.
    pub fn to_bits(&self) -> (r: String)
        ensures
            r@ == bit_chars(bits_of(mode_indicator(*self), 4)),
    {
        let mut bits: Vec<bool> = Vec::new();
        push_bits(&mut bits, mode_indicator_value(*self), 4);
        assert(bits@ =~= bits_of(mode_indicator(*self), 4));
        bits_to_string(&bits)
    }

    /// The name of the mode.
    pub fn to_string(&self) -> (r: String)
        ensures
            r@ == mode_name(*self),
    {
        match self {
            EncodingMode::Numeric => String::from_str("Numeric"),
            EncodingMode::Alphanumeric => String::from_str("Alphanumeric"),
            EncodingMode::Byte => String::from_str("Byte"),
            EncodingMode::Kanji => String::from_str("Kanji"),
        }
    }
}

impl ErrorCorrectionLevel {
    /// The name of the level.
    pub fn to_string(&self) -> (r: String)
        ensures
            r@ == level_name(*self),
    {
        match self {
            ErrorCorrectionLevel::Low => String::from_str("Low"),
            ErrorCorrectionLevel::Medium => String::from_str("Medium"),
            ErrorCorrectionLevel::Quartile => String::from_str("Quartile"),
            ErrorCorrectionLevel::High => String::from_str("High"),
        }
    }
}

impl Version {
    /// `"Version "` followed by the version number.
    pub fn to_string(&self) -> (r: String)
        requires
            self.wf(),
        ensures
            r@ == "Version "@ + decimal_chars(self.number()),
    {
        let v = self.version();
        let mut s = String::from_str("Version ");
        if v >= 10 {
            s.append(digit_str(v / 10));
            s.append(digit_str(v % 10));
        } else {
            s.append(digit_str(v));
        }
        assert(s@ =~= "Version "@ + decimal_chars(self.number()));
        s
    }
}

} // verus!
