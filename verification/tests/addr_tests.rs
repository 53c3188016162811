use binproto::addr::{dec_str_i16, dec_str_u32, format_ipv4, format_ipv6, hex_str_u16};

#[test]
fn decimal_rendering() {
    assert_eq!(dec_str_u32(0), "0");
    assert_eq!(dec_str_u32(7), "7");
    assert_eq!(dec_str_u32(10), "10");
    assert_eq!(dec_str_u32(255), "255");
    assert_eq!(dec_str_u32(4294967295), "4294967295");
}

#[test]
fn signed_decimal_rendering() {
    assert_eq!(dec_str_i16(0), "0");
    assert_eq!(dec_str_i16(24), "24");
    assert_eq!(dec_str_i16(-1), "-1");
    assert_eq!(dec_str_i16(i16::MIN), "-32768");
    assert_eq!(dec_str_i16(i16::MAX), "32767");
}

#[test]
fn hex_rendering() {
    assert_eq!(hex_str_u16(0), "0");
    assert_eq!(hex_str_u16(8), "8");
    assert_eq!(hex_str_u16(0x1a), "1a");
    assert_eq!(hex_str_u16(0xffff), "ffff");
    assert_eq!(hex_str_u16(0x0102), "102");
}

#[test]
fn ipv4_rendering() {
    assert_eq!(format_ipv4(10, 0, 0, 1), "10.0.0.1");
    assert_eq!(format_ipv4(255, 255, 255, 255), "255.255.255.255");
    assert_eq!(format_ipv4(0, 0, 0, 0), "0.0.0.0");
}

#[test]
fn ipv6_rendering_canonical_eight_groups() {
    // 00 01 00 02 ... 00 08 renders as the colon-separated hextets
    let octets: Vec<u8> = (1u8..=8).flat_map(|g| [0u8, g]).collect();
    assert_eq!(format_ipv6(&octets), "1:2:3:4:5:6:7:8");

    let mixed: Vec<u8> = vec![
        0x20, 0x01, 0x0d, 0xb8, 0x00, 0x00, 0x00, 0x00, 0x00, 0x00, 0xff, 0x00, 0x00, 0x42, 0x83,
        0x29,
    ];
    assert_eq!(format_ipv6(&mixed), "2001:db8:0:0:0:ff00:42:8329");
}
