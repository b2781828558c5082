use adbgadget::usb::{adb_descriptor_v2, adb_strings};

#[test]
fn descriptor_image_is_byte_identical_across_builds() {
    let a = adb_descriptor_v2().as_bytes();
    let b = adb_descriptor_v2().as_bytes();
    assert_eq!(a, b);
    let s1 = adb_strings().as_bytes();
    let s2 = adb_strings().as_bytes();
    assert_eq!(s1, s2);
}

#[test]
fn descriptor_image_matches_the_functionfs_layout() {
    let image = adb_descriptor_v2().as_bytes();
    let expected: Vec<u8> = vec![
        0x03, 0x00, 0x00, 0x00, 0xe4, 0x00, 0x00, 0x00, 0x0f, 0x00, 0x00, 0x00,
        0x03, 0x00, 0x00, 0x00, 0x03, 0x00, 0x00, 0x00, 0x05, 0x00, 0x00, 0x00,
        0x02, 0x00, 0x00, 0x00, 0x09, 0x04, 0x00, 0x00, 0x02, 0xff, 0x42, 0x01,
        0x01, 0x07, 0x05, 0x01, 0x02, 0x40, 0x00, 0x00, 0x07, 0x05, 0x82, 0x02,
        0x40, 0x00, 0x00, 0x09, 0x04, 0x00, 0x00, 0x02, 0xff, 0x42, 0x01, 0x01,
        0x07, 0x05, 0x01, 0x02, 0x00, 0x02, 0x00, 0x07, 0x05, 0x82, 0x02, 0x00,
        0x02, 0x00, 0x09, 0x04, 0x00, 0x00, 0x02, 0xff, 0x42, 0x01, 0x01, 0x07,
        0x05, 0x01, 0x02, 0x00, 0x04, 0x00, 0x06, 0x30, 0x04, 0x00, 0x00, 0x00,
        0x07, 0x05, 0x82, 0x02, 0x00, 0x04, 0x00, 0x06, 0x30, 0x04, 0x00, 0x00,
        0x00, 0x00, 0x23, 0x00, 0x00, 0x00, 0x01, 0x00, 0x04, 0x00, 0x01, 0x00,
        0x00, 0x01, 0x57, 0x49, 0x4e, 0x55, 0x53, 0x42, 0x00, 0x00, 0x00, 0x00,
        0x00, 0x00, 0x00, 0x00, 0x00, 0x00, 0x00, 0x00, 0x00, 0x00, 0x00, 0x00,
        0x00, 0x54, 0x00, 0x00, 0x00, 0x01, 0x00, 0x05, 0x00, 0x01, 0x00, 0x49,
        0x00, 0x00, 0x00, 0x01, 0x00, 0x00, 0x00, 0x14, 0x00, 0x44, 0x65, 0x76,
        0x69, 0x63, 0x65, 0x49, 0x6e, 0x74, 0x65, 0x72, 0x66, 0x61, 0x63, 0x65,
        0x47, 0x55, 0x49, 0x44, 0x00, 0x27, 0x00, 0x00, 0x00, 0x7b, 0x46, 0x37,
        0x32, 0x46, 0x45, 0x30, 0x44, 0x34, 0x2d, 0x43, 0x42, 0x43, 0x42, 0x2d,
        0x34, 0x30, 0x37, 0x44, 0x2d, 0x38, 0x38, 0x31, 0x34, 0x2d, 0x39, 0x45,
        0x44, 0x36, 0x37, 0x33, 0x44, 0x30, 0x44, 0x44, 0x36, 0x42, 0x7d, 0x00,
    ];
    assert_eq!(image.len(), 228);
    assert_eq!(image, expected);
}

#[test]
fn string_table_matches_the_functionfs_layout() {
    let image = adb_strings().as_bytes();
    let expected: Vec<u8> = vec![
        0x02, 0x00, 0x00, 0x00, 0x20, 0x00, 0x00, 0x00, 0x01, 0x00, 0x00, 0x00,
        0x01, 0x00, 0x00, 0x00, 0x09, 0x04, 0x41, 0x44, 0x42, 0x20, 0x49, 0x6e,
        0x74, 0x65, 0x72, 0x66, 0x61, 0x63, 0x65, 0x00,
    ];
    assert_eq!(image.len(), 32);
    assert_eq!(image, expected);
}
