use cargo_project_finder::hex::to_hex;

#[test]
fn no_bytes_give_no_digits() {
    assert_eq!(to_hex(&[]), "");
}

#[test]
fn each_byte_gives_two_digits_high_one_first() {
    assert_eq!(to_hex(&[0x00]), "00");
    assert_eq!(to_hex(&[0x0f]), "0f");
    assert_eq!(to_hex(&[0xf0]), "f0");
    assert_eq!(to_hex(&[0xff]), "ff");
    assert_eq!(to_hex(&[0x01, 0x23, 0x45, 0x67, 0x89, 0xab, 0xcd, 0xef]), "0123456789abcdef");
}

#[test]
fn every_byte_is_written_as_std_formats_it() {
    for byte in 0..=255u8 {
        assert_eq!(to_hex(&[byte]), format!("{:02x}", byte));
    }
}
