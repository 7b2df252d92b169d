//! Data and error-correction codeword generation for QR Code symbols: mode encoders,
//! version selection, bit-stream assembly, block layout, Reed–Solomon and interleaving.
pub mod assemble;
pub mod bits;
pub mod character_count;
pub mod encoding;
pub mod error_correction;
pub mod names;
pub mod qr;
pub mod reed_solomon;
pub mod tables;
pub mod types;
pub mod utils;
pub mod version;

pub use assemble::construct_data;
pub use character_count::create_character_count_indicator;
pub use encoding::{alphanumeric_encoding, byte_encoding, encode, kanji_encoding, numeric_encoding};
pub use error_correction::{
    generate_code_words, generate_error_correction, ErrorCorrectionGroups, GroupConfig,
};
pub use qr::QrCode;
pub use types::{EncodingMode, ErrorCorrectionLevel, QrError, Version};
pub use utils::{convert_hex_to_binary, left_pad, right_pad};
pub use version::{determine_data_bits_required_for_version, determine_optimal_qr_code_version};
