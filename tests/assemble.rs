use qr_code::construct_data;

#[test]
fn test_data_construct() {
    let encoding_mode_bits = "0010";
    let character_count_indicator_bits = "000001011";
    let encoded_data_bits = "0110000101101111000110100010111001011011100010011010100001101";

    let constructed_data = construct_data(
        encoding_mode_bits,
        character_count_indicator_bits,
        encoded_data_bits,
        104,
    );

    assert!(constructed_data.is_ok(), "Failed to construct data");

    let constructed_data = constructed_data.unwrap();

    assert_eq!(
        constructed_data, "00100000010110110000101101111000110100010111001011011100010011010100001101000000111011000001000111101100",
        "Construced data did not match expected result"
    )
}
