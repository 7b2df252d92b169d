use qr_code::encoding::{byte_mode_bytes_of, kanji_code_value};
use qr_code::error_correction::{data_bits_to_byte_blocks, get_group_layout, interleave_blocks};
use qr_code::reed_solomon::{gf_multiply, reed_solomon_remainder};
use qr_code::{
    alphanumeric_encoding, construct_data, convert_hex_to_binary, create_character_count_indicator,
    determine_data_bits_required_for_version, determine_optimal_qr_code_version, encode,
    generate_code_words, generate_error_correction, kanji_encoding, left_pad, right_pad,
    EncodingMode, ErrorCorrectionLevel, QrCode, QrError, Version,
};

fn bits_from(s: &str) -> Vec<bool> {
    s.chars().map(|c| c == '1').collect()
}

#[test]
fn alphanumeric_pair_value() {
    assert_eq!(encode("HE", &EncodingMode::Alphanumeric).unwrap(), "01100001011");
    assert_eq!(encode("H", &EncodingMode::Alphanumeric).unwrap(), "010001");
    assert_eq!(alphanumeric_encoding("HE").unwrap(), bits_from("01100001011"));
}

#[test]
fn numeric_groups_match_binary_values() {
    // 012 is read as the number 12 in ten bits; 34 in seven bits; 5 in four bits.
    assert_eq!(encode("01234", &EncodingMode::Numeric).unwrap(), "00000011000100010");
    assert_eq!(encode("5", &EncodingMode::Numeric).unwrap(), "0101");
    assert_eq!(encode("", &EncodingMode::Numeric).unwrap(), "");
}

#[test]
fn invalid_character_reports_first_position() {
    assert_eq!(
        encode("12a4b", &EncodingMode::Numeric),
        Err(QrError::InvalidCharacter { character: 'a', position: 2, mode: EncodingMode::Numeric })
    );
    assert_eq!(
        encode("AB#c", &EncodingMode::Alphanumeric),
        Err(QrError::InvalidCharacter {
            character: '#',
            position: 2,
            mode: EncodingMode::Alphanumeric
        })
    );
}

#[test]
fn byte_mode_prefers_latin1() {
    assert_eq!(byte_mode_bytes_of("é"), vec![0xE9]);
    assert_eq!(encode("é", &EncodingMode::Byte).unwrap(), "11101001");
    assert_eq!(byte_mode_bytes_of("a€"), vec![0x61, 0xE2, 0x82, 0xAC]);
}

#[test]
fn kanji_values() {
    assert_eq!(kanji_code_value(&vec![0x89, 0xD7]), Some(0x697));
    assert_eq!(kanji_code_value(&vec![0xE4, 0xAA]), Some(0x1AAA));
    assert_eq!(kanji_code_value(&vec![0xA0, 0x00]), None);
    assert_eq!(kanji_code_value(&vec![0x41]), None);
}

#[test]
fn kanji_encoding_through_shift_jis() {
    let bits: String = kanji_encoding("茗荷")
        .unwrap()
        .iter()
        .map(|b| if *b { '1' } else { '0' })
        .collect();
    assert_eq!(bits, "11010101010100011010010111");
    assert_eq!(
        kanji_encoding("茗a"),
        Err(QrError::UnsupportedCharacter { character: 'a' })
    );
}

#[test]
fn character_count_indicator_widths() {
    let v1 = Version::Normal(1);
    assert_eq!(
        create_character_count_indicator("HELLO WORLD", &EncodingMode::Alphanumeric, &v1).unwrap(),
        "000001011"
    );
    let v10 = Version::Normal(10);
    assert_eq!(
        create_character_count_indicator("ab", &EncodingMode::Byte, &v10).unwrap(),
        "0000000000000010"
    );
}

#[test]
fn version_selection_boundaries() {
    let n = &EncodingMode::Numeric;
    let low = &ErrorCorrectionLevel::Low;
    assert_eq!(determine_optimal_qr_code_version(n, low, 41), Ok(Version::Normal(1)));
    assert_eq!(determine_optimal_qr_code_version(n, low, 42), Ok(Version::Normal(2)));
    assert_eq!(determine_optimal_qr_code_version(n, low, 7089), Ok(Version::Normal(40)));
    assert_eq!(
        determine_optimal_qr_code_version(n, low, 7090),
        Err(QrError::DataTooLarge { required_bits: 4 + 14 + 23634, capacity_bits: 2956 * 8 })
    );
    let k = &EncodingMode::Kanji;
    let high = &ErrorCorrectionLevel::High;
    assert_eq!(determine_optimal_qr_code_version(k, high, 4), Ok(Version::Normal(1)));
    assert_eq!(determine_optimal_qr_code_version(k, high, 5), Ok(Version::Normal(2)));
}

#[test]
fn data_bits_per_version() {
    let q = &ErrorCorrectionLevel::Quartile;
    assert_eq!(determine_data_bits_required_for_version(&Version::Normal(1), q), Ok(104));
    assert_eq!(
        determine_data_bits_required_for_version(&Version::Normal(40), &ErrorCorrectionLevel::Low),
        Ok(23648)
    );
    assert_eq!(
        determine_data_bits_required_for_version(&Version::Normal(41), q),
        Err(QrError::LayoutError { version: 41, level: ErrorCorrectionLevel::Quartile })
    );
}

#[test]
fn assembler_fills_capacity_exactly() {
    // Room for only two terminator bits.
    let r = construct_data("0010", "000001011", "", 16).unwrap();
    assert_eq!(r, "0010000001011000");
    // Exactly full: no terminator.
    let r = construct_data("00100000", "", "", 8).unwrap();
    assert_eq!(r, "00100000");
    // Padding alternates 0xEC and 0x11.
    let r = construct_data("0100", "", "", 32).unwrap();
    assert_eq!(r, "01000000111011000001000111101100");
    assert_eq!(
        construct_data("0010", "000001011", "11111", 16),
        Err(QrError::DataTooLarge { required_bits: 18, capacity_bits: 16 })
    );
}

#[test]
fn reed_solomon_reference_vector() {
    // The published block: "HELLO WORLD" at version 1, level Medium, sixteen data codewords.
    let data = vec![32, 91, 11, 120, 209, 114, 220, 77, 67, 64, 236, 17, 236, 17, 236, 17];
    assert_eq!(
        reed_solomon_remainder(&data, 10),
        vec![196, 35, 39, 119, 235, 215, 231, 226, 93, 23]
    );
    let code = QrCode::create(
        "HELLO WORLD".to_string(),
        EncodingMode::Alphanumeric,
        ErrorCorrectionLevel::Medium,
    )
    .unwrap();
    assert_eq!(code.data_codewords, data);
    assert_eq!(&code.codewords[16..], &[196, 35, 39, 119, 235, 215, 231, 226, 93, 23]);
}

#[test]
fn galois_field_products() {
    assert_eq!(gf_multiply(2, 128), 0x1D);
    assert_eq!(gf_multiply(0, 77), 0);
    assert_eq!(gf_multiply(1, 77), 77);
    assert_eq!(gf_multiply(3, 7), 9);
}

#[test]
fn hello_world_quartile_end_to_end() {
    let code = QrCode::create(
        "HELLO WORLD".to_string(),
        EncodingMode::Alphanumeric,
        ErrorCorrectionLevel::Quartile,
    )
    .unwrap();
    assert_eq!(code.version, Version::Normal(1));
    assert_eq!(code.encoding_mode.to_bits(), "0010");
    assert_eq!(code.encoded_data, "0110000101101111000110100010111001011011100010011010100001101");
    assert_eq!(code.data_codewords.len() * 8, 104);
    assert_eq!(
        code.data_codewords,
        vec![32, 91, 11, 120, 209, 114, 220, 77, 67, 64, 236, 17, 236]
    );
    assert_eq!(
        code.codewords,
        vec![
            32, 91, 11, 120, 209, 114, 220, 77, 67, 64, 236, 17, 236, 168, 72, 22, 82, 217, 54,
            156, 0, 46, 15, 180, 122, 16
        ]
    );
}

#[test]
fn repeated_encoding_is_identical() {
    let a = QrCode::create("0123456789".to_string(), EncodingMode::Numeric, ErrorCorrectionLevel::High)
        .unwrap();
    let b = QrCode::create("0123456789".to_string(), EncodingMode::Numeric, ErrorCorrectionLevel::High)
        .unwrap();
    assert_eq!(a.codewords, b.codewords);
    assert_eq!(a.version, b.version);
}

#[test]
fn create_reports_errors() {
    assert_eq!(
        QrCode::create("AB1c".to_string(), EncodingMode::Alphanumeric, ErrorCorrectionLevel::Low)
            .err(),
        Some(QrError::InvalidCharacter {
            character: 'c',
            position: 3,
            mode: EncodingMode::Alphanumeric
        })
    );
    let long = "1".repeat(7090);
    assert_eq!(
        QrCode::create(long, EncodingMode::Numeric, ErrorCorrectionLevel::Low).err(),
        Some(QrError::DataTooLarge { required_bits: 4 + 14 + 23634, capacity_bits: 23648 })
    );
}

#[test]
fn two_group_interleaving() {
    // Version 5 at Quartile: two blocks of 15 codewords, then two of 16.
    let layout = get_group_layout(&ErrorCorrectionLevel::Quartile, &Version::Normal(5)).unwrap();
    assert_eq!(
        (
            layout.blocks_in_group_one,
            layout.code_words_in_group_one_blocks,
            layout.blocks_in_group_two,
            layout.code_words_in_group_two_blocks
        ),
        (2, 15, 2, 16)
    );
    let data: Vec<u8> = (0..62).collect();
    let mut bits = Vec::new();
    for byte in &data {
        for k in (0..8).rev() {
            bits.push((byte >> k) & 1 == 1);
        }
    }
    let groups =
        generate_code_words(&bits, &ErrorCorrectionLevel::Quartile, &Version::Normal(5)).unwrap();
    assert_eq!(groups.data_blocks.len(), 4);
    assert_eq!(groups.data_blocks[2], (30..46).collect::<Vec<u8>>());
    assert!(groups.ec_blocks.iter().all(|b| b.len() == 18));
    let interleaved = interleave_blocks(&groups.data_blocks);
    assert_eq!(interleaved.len(), 2 * 15 + 2 * 16);
    let mut expected = Vec::new();
    for i in 0..16u8 {
        if i < 15 {
            expected.push(i);
            expected.push(15 + i);
        }
        expected.push(30 + i);
        expected.push(46 + i);
    }
    assert_eq!(interleaved, expected);
    let all = generate_error_correction(&bits, &ErrorCorrectionLevel::Quartile, &Version::Normal(5))
        .unwrap();
    assert_eq!(all.len(), 62 + 4 * 18);
    assert_eq!(&all[..62], &expected[..]);
    assert_eq!(all[62], groups.ec_blocks[0][0]);
    assert_eq!(all[63], groups.ec_blocks[1][0]);
}

#[test]
fn bits_to_codewords() {
    assert_eq!(data_bits_to_byte_blocks(&bits_from("0000000111111111")), Ok(vec![1, 255]));
    assert_eq!(
        data_bits_to_byte_blocks(&bits_from("1010101")),
        Err(QrError::InternalInvariantViolation)
    );
}

#[test]
fn padding_helpers() {
    assert_eq!(left_pad("101", 8, "0"), "00000101");
    assert_eq!(left_pad("10101010", 4, "0"), "10101010");
    assert_eq!(right_pad("1", 4, "0"), "1000");
    assert_eq!(convert_hex_to_binary("0B"), "00001011");
    assert_eq!(convert_hex_to_binary("F"), "1111");
}

#[test]
fn version_and_names() {
    assert_eq!(Version::Normal(1).size(), 21);
    assert_eq!(Version::Normal(40).size(), 177);
    assert_eq!(Version::Normal(7).version(), 7);
    assert_eq!(Version::Normal(1).to_string(), "Version 1");
    assert_eq!(Version::Normal(40).to_string(), "Version 40");
    assert_eq!(EncodingMode::Kanji.to_bits(), "1000");
    assert_eq!(EncodingMode::Byte.to_string(), "Byte");
    assert_eq!(ErrorCorrectionLevel::Quartile.to_string(), "Quartile");
}

#[test]
fn empty_input_fills_version_one() {
    let code = QrCode::create(String::new(), EncodingMode::Byte, ErrorCorrectionLevel::Low).unwrap();
    assert_eq!(code.version, Version::Normal(1));
    assert_eq!(code.data_codewords.len(), 19);
    // Mode 0100, count 00000000, terminator, then 0xEC 0x11 ...
    assert_eq!(&code.data_codewords[..4], &[0x40, 0x00, 0xEC, 0x11]);
    assert_eq!(code.codewords.len(), 26);
}

#[test]
fn kanji_end_to_end() {
    let code = QrCode::create("茗荷".to_string(), EncodingMode::Kanji, ErrorCorrectionLevel::High)
        .unwrap();
    assert_eq!(code.version, Version::Normal(1));
    assert_eq!(code.encoded_data, "11010101010100011010010111");
    // 1000, count 00000010 in eight bits, then the two 13-bit values.
    assert_eq!(&code.data_codewords[..3], &[0x80, 0x2D, 0x55]);
    assert_eq!(code.codewords.len(), 26);
}
