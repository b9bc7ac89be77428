use vt_utils::hex_to_rgb::{hex_to_rgb, HexToRgbError};

#[test]
fn test_success_hex_conversion() {
    assert!(matches!(hex_to_rgb("424242"), Ok([66, 66, 66])));
    assert!(matches!(hex_to_rgb("#424242"), Ok([66, 66, 66])));
    assert!(matches!(hex_to_rgb("#ffFFff"), Ok([255, 255, 255])));
}

#[test]
fn test_error_hex_conversion() {
    assert!(matches!(
        hex_to_rgb("42424"),
        Err(HexToRgbError::ConversionError)
    ));
    assert!(matches!(
        hex_to_rgb("42424t"),
        Err(HexToRgbError::ConversionError)
    ));
}

#[test]
fn test_hex_conversion_more_cases() {
    assert!(matches!(hex_to_rgb("9f1200"), Ok([159, 18, 0])));
    assert!(matches!(hex_to_rgb("000000"), Ok([0, 0, 0])));
    assert!(matches!(hex_to_rgb(""), Err(HexToRgbError::ConversionError)));
    assert!(matches!(
        hex_to_rgb("#"),
        Err(HexToRgbError::ConversionError)
    ));
    // every leading `#` is stripped before the six digits are read
    assert!(matches!(hex_to_rgb("##424242"), Ok([66, 66, 66])));
    // eight digits are a wrong length, not a longer color
    assert!(matches!(
        hex_to_rgb("40404040"),
        Err(HexToRgbError::ConversionError)
    ));
}
