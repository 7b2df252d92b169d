use vstd::prelude::*;

verus! {

/// The encoding mode of the single data segment.
#[derive(Clone, Copy, Debug, PartialEq, Eq, Structural)]
pub enum EncodingMode {
    Numeric,
    Alphanumeric,
    Byte,
    Kanji,
}

/// The error-correction level, from least to most redundancy.
#[derive(Clone, Copy, Debug, PartialEq, Eq, Structural)]
pub enum ErrorCorrectionLevel {
    Low,
    Medium,
    Quartile,
    High,
}

/// A symbol version; `Normal(v)` is meaningful for `1 <= v <= 40`.
#[derive(Clone, Copy, Debug, PartialEq, Eq, Structural)]
pub enum Version {
    Normal(i16),
}

/// Everything that can stop an encoding.
#[derive(Clone, Copy, Debug, PartialEq, Eq, Structural)]
pub enum QrError {
    /// A character outside the alphabet of the requested mode.
    InvalidCharacter { character: char, position: usize, mode: EncodingMode },
    /// The segment does not fit in the symbol.
    DataTooLarge { required_bits: u64, capacity_bits: u64 },
    /// A character that has no double-byte Shift_JIS code in the kanji ranges.
    UnsupportedCharacter { character: char },
    /// No block layout is known for this version and level.
    LayoutError { version: i16, level: ErrorCorrectionLevel },
    /// Codeword counts disagree with the layout tables.
    InternalInvariantViolation,
}

/// The four bits that name a mode at the start of the bit stream, most significant first.
pub open spec fn mode_indicator(mode: EncodingMode) -> u32 {
    match mode {
        EncodingMode::Numeric => 1,
        EncodingMode::Alphanumeric => 2,
        EncodingMode::Byte => 4,
        EncodingMode::Kanji => 8,
    }
}

/// Position of a level in the tables.
pub open spec fn level_index(level: ErrorCorrectionLevel) -> int {
    match level {
        ErrorCorrectionLevel::Low => 0,
        ErrorCorrectionLevel::Medium => 1,
        ErrorCorrectionLevel::Quartile => 2,
        ErrorCorrectionLevel::High => 3,
    }
}

impl Version {
    pub open spec fn number(self) -> int {
        match self {
            Version::Normal(v) => v as int,
        }
    }

    pub open spec fn wf(self) -> bool {
        1 <= self.number() <= 40
    }

    /// Modules per side of the symbol.
    pub fn size(&self) -> (r: i16)
        requires
            self.wf(),
        ensures
            r == 4 * self.number() + 17,
    {
        match self {
            Version::Normal(version) => version * 4 + 17,
        }
    }

    /// The version number.
    pub fn version(&self) -> (r: i16)
        ensures
            r == self.number(),
    {
        match self {
            Version::Normal(version) => *version,
        }
    }
}

} // verus!
