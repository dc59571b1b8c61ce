use cmux::checksum::{checksum_ui, checksum_uih};
use cmux::fields::{Address, Control, FrameType};
use cmux::frame::{BuildError, DecodeError, Frame, FrameBuilder, VerifyError};

#[test]
fn test_packet_builder() {
    let p = FrameBuilder::default()
        .with_content("AT+CMUX?".to_string())
        .build()
        .unwrap();
    assert_eq!(p.header, 0xF9);
    assert_eq!(p.address, Address::default());
    assert_eq!(p.control, Control::default());
    assert_eq!(p.length, 0x15);
    assert_eq!(p.content.0, "AT+CMUX?\r\n");
    assert_eq!(p.checksum, 0x2C);
    assert_eq!(p.footer, 0xF9);
}

#[test]
fn test_packet_builder_very_long() {
    let content = "ABCDEFGHIJKLMNOPQRSTUVWXYZ0123456789"
        .to_string()
        .repeat(10);
    let len = (content.len() + 2) * 2; // more than 128, so bit 1 is set zero
    let p = FrameBuilder::default()
        .with_address(Address::default())
        .with_content(content)
        .build()
        .unwrap();
    assert_eq!(p.length, len as u16);
}

#[test]
fn test_packet_to_bytes() {
    let p = FrameBuilder::default()
        .with_address(Address::default())
        .with_content("AT+CMUX?".to_string())
        .build()
        .unwrap();
    let data = p.to_hex_string();
    assert_eq!(data, "f907ef1541542b434d55583f0d0a2cf9".to_string());
}

#[test]
fn test_packet_from_bytes() {
    let content = "AT+CMUX?".to_string();
    let len = (content.len() + 2) * 2 + 1; // less than 128, so bit 1 is set 1
    let p = FrameBuilder::default()
        .with_address(Address::default())
        .with_content("AT+CMUX?".to_string())
        .build()
        .unwrap();
    let d = Frame::from_bytes(p.to_bytes()).unwrap();
    assert_eq!(p, d);
    assert_eq!(d.length, len as u16);
    assert_eq!(d.address, Address::default());
}

#[test]
fn test_packet_from_bytes_very_long() {
    let content = "ABCDEFGHIJKLMNOPQRSTUVWXYZ0123456789"
        .to_string()
        .repeat(10);
    let len = (content.len() + 2) * 2; // more than 128, so bit 1 is set zero
    let p = FrameBuilder::default()
        .with_address(Address::default())
        .with_content(content)
        .build()
        .unwrap();
    let d = Frame::from_bytes(p.to_bytes()).unwrap();
    assert_eq!(p, d);
    assert_eq!(d.length, len as u16);
    assert!(d.verify().is_ok());
}

#[test]
fn test_packet_checksum() {
    let p = FrameBuilder::default()
        .with_address(Address::default())
        .with_content("AT+CMUX?".to_string())
        .build()
        .unwrap();
    let ori = p.checksum;
    let exp = checksum_uih(p.address.into_bits(), p.control.into_bits(), p.length);
    assert_eq!(ori, exp);

    let p = FrameBuilder::default()
        .with_address(Address::default())
        .with_content("AT+CMUX?".to_string())
        .with_control(Control::default().with_frame_type(FrameType::UI))
        .build()
        .unwrap();
    let ori = p.checksum;
    let exp = checksum_ui(
        p.address.into_bits(),
        p.control.into_bits(),
        p.length,
        p.content.as_str(),
    );
    assert_eq!(ori, exp);
}

fn build(address: Address, control: Control, content: &str) -> Frame {
    FrameBuilder::default()
        .with_address(address)
        .with_control(control)
        .with_content(content.to_string())
        .build()
        .unwrap()
}

#[test]
fn scenario_at_cmux_frame_fields() {
    let p = build(Address::from_bits(0x07), Control::from_bits(0xEF), "AT+CMUX?");
    assert_eq!(p.to_hex_string(), "f907ef1541542b434d55583f0d0a2cf9");
    assert_eq!(p.length, 0x15);
    assert_eq!(p.checksum, 0x2C);
    assert_eq!(
        p.to_bytes(),
        vec![0xF9, 0x07, 0xEF, 0x15, 0x41, 0x54, 0x2B, 0x43, 0x4D, 0x55, 0x58, 0x3F, 0x0D, 0x0A, 0x2C, 0xF9]
    );
}

#[test]
fn long_content_uses_two_length_octets_and_verifies() {
    let content = "ABCDEFGHIJKLMNOPQRSTUVWXYZ0123456789".repeat(10);
    let p = build(Address::default(), Control::default(), &content);
    let n = 362u16;
    assert_eq!(p.length, n << 1);
    let bytes = p.to_bytes();
    assert_eq!(bytes[3], ((n << 1) >> 8) as u8);
    assert_eq!(bytes[4], ((n << 1) & 0xFF) as u8);
    assert_eq!(bytes.len(), 3 + 2 + 362 + 2);
    let d = Frame::from_bytes(bytes).unwrap();
    assert_eq!(d, p);
    assert_eq!(d.verify(), Ok(()));
}

#[test]
fn payload_of_127_bytes_has_one_length_octet() {
    let content = "A".repeat(125);
    let p = build(Address::default(), Control::default(), &content);
    assert_eq!(p.length, 255);
    let bytes = p.to_bytes();
    assert_eq!(bytes[3], 0xFF);
    assert_eq!(bytes.len(), 3 + 1 + 127 + 2);
    assert_eq!(Frame::from_bytes(bytes).unwrap(), p);
}

#[test]
fn payload_of_128_bytes_has_two_length_octets() {
    let content = "A".repeat(126);
    let p = build(Address::default(), Control::default(), &content);
    assert_eq!(p.length, 256);
    let bytes = p.to_bytes();
    assert_eq!(bytes[3], 0x01);
    assert_eq!(bytes[4], 0x00);
    assert_eq!(bytes.len(), 3 + 2 + 128 + 2);
    // The first length octet is odd, so a decoder reads a one-octet indicator.
    let d = Frame::from_bytes(bytes).unwrap();
    assert_eq!(d.length, 1);
    assert_ne!(d, p);
}

#[test]
fn payload_of_256_bytes_round_trips() {
    let content = "B".repeat(254);
    let p = build(Address::default(), Control::default(), &content);
    assert_eq!(p.length, 512);
    let d = Frame::from_bytes(p.to_bytes()).unwrap();
    assert_eq!(d, p);
    assert_eq!(d.verify(), Ok(()));
}

#[test]
fn ui_frame_round_trips_and_verifies() {
    let control = Control::default().with_frame_type(FrameType::UI);
    let p = build(Address::default().with_cr(false), control, "hello");
    let d = Frame::from_bytes(p.to_bytes()).unwrap();
    assert_eq!(d, p);
    assert_eq!(d.verify(), Ok(()));
    assert_eq!(
        p.checksum,
        checksum_ui(p.address.into_bits(), p.control.into_bits(), p.length, "hello\r\n")
    );
}

#[test]
fn non_ascii_content_round_trips() {
    let p = build(Address::default(), Control::default(), "grüße");
    assert_eq!(p.length, ((("grüße".len() + 2) << 1) | 1) as u16);
    let d = Frame::from_bytes(p.to_bytes()).unwrap();
    assert_eq!(d, p);
}

#[test]
fn content_crlf_is_appended_once() {
    let b = FrameBuilder::default().with_content("AT".to_string());
    assert_eq!(b.content.as_deref(), Some("AT\r\n"));
    let again = FrameBuilder::default().with_content(b.content.clone().unwrap());
    assert_eq!(again.content, b.content);
    let kept = FrameBuilder::default().with_content("AT\r\n".to_string());
    assert_eq!(kept.content.as_deref(), Some("AT\r\n"));
    let bare_cr = FrameBuilder::default().with_content("AT\r".to_string());
    assert_eq!(bare_cr.content.as_deref(), Some("AT\r\r\n"));
    let empty = FrameBuilder::default().with_content(String::new());
    assert_eq!(empty.content.as_deref(), Some("\r\n"));
}

#[test]
fn build_without_content_fails() {
    assert_eq!(FrameBuilder::default().build(), Err(BuildError::MissingContent));
}

#[test]
fn build_with_too_long_content_fails() {
    let b = FrameBuilder::default().with_content("x".repeat(32766));
    assert_eq!(b.build(), Err(BuildError::ContentTooLong));
    let b = FrameBuilder::default().with_content("x".repeat(32765));
    assert_eq!(b.build().unwrap().length, 65534);
}

#[test]
fn decode_rejects_short_buffers() {
    assert_eq!(Frame::from_bytes(vec![]), Err(DecodeError::TooShort));
    assert_eq!(Frame::from_bytes(vec![0xF9, 0x07, 0xEF]), Err(DecodeError::TooShort));
    assert_eq!(Frame::from_bytes(vec![0xF9, 0x07, 0xEF, 0x01, 0x00]), Err(DecodeError::TooShort));
    // An even first length octet announces a second one.
    assert_eq!(
        Frame::from_bytes(vec![0xF9, 0x07, 0xEF, 0x02, 0x00, 0xF9]),
        Err(DecodeError::TooShort)
    );
    let f = Frame::from_bytes(vec![0xF9, 0x07, 0xEF, 0x01, 0x00, 0xF9]).unwrap();
    assert_eq!(f.content.0, "");
    assert_eq!(f.checksum, 0x00);
}

#[test]
fn decode_rejects_invalid_utf8_payload() {
    let bytes = vec![0xF9, 0x07, 0xEF, 0x03, 0xFF, 0x00, 0xF9];
    assert_eq!(Frame::from_bytes(bytes), Err(DecodeError::InvalidUtf8));
}

#[test]
fn verify_reports_length_mismatch_alone() {
    let mut f = build(Address::default(), Control::default(), "AT+CMUX?");
    f.length = 0x17;
    f.checksum = checksum_uih(f.address.into_bits(), f.control.into_bits(), f.length);
    assert_eq!(f.verify(), Err(VerifyError::LengthMismatch));
}

#[test]
fn verify_reports_checksum_mismatch_alone() {
    let control = Control::default().with_frame_type(FrameType::UI);
    let f = build(Address::default(), control, "AT+CMUX?");
    let mut bytes = f.to_bytes();
    bytes[5] = b'X';
    let g = Frame::from_bytes(bytes).unwrap();
    assert_eq!(g.content.0, "AX+CMUX?\r\n");
    assert_eq!(g.verify(), Err(VerifyError::ChecksumMismatch));
}

#[test]
fn verify_reports_both_mismatches() {
    let mut f = build(Address::default(), Control::default(), "AT+CMUX?");
    f.length = 0x17;
    assert_eq!(f.verify(), Err(VerifyError::LengthAndChecksumMismatch));
}

#[test]
fn uih_checksum_ignores_content() {
    let f = build(Address::default(), Control::default(), "AT+CMUX?");
    let mut bytes = f.to_bytes();
    bytes[5] = b'X';
    let g = Frame::from_bytes(bytes).unwrap();
    assert_eq!(g.verify(), Ok(()));
}

#[test]
fn checksums_are_deterministic_and_sensitive() {
    let base = checksum_uih(0x07, 0xEF, 0x15);
    assert_eq!(base, 0x2C);
    assert_eq!(checksum_uih(0x07, 0xEF, 0x15), base);
    assert_ne!(checksum_uih(0x05, 0xEF, 0x15), base);
    assert_ne!(checksum_uih(0x07, 0xFF, 0x15), base);
    assert_ne!(checksum_uih(0x07, 0xEF, 0x17), base);

    let ui = checksum_ui(0x07, 0x03, 0x15, "AT+CMUX?\r\n");
    assert_eq!(checksum_ui(0x07, 0x03, 0x15, "AT+CMUX?\r\n"), ui);
    assert_ne!(checksum_ui(0x05, 0x03, 0x15, "AT+CMUX?\r\n"), ui);
    assert_ne!(checksum_ui(0x07, 0x13, 0x15, "AT+CMUX?\r\n"), ui);
    assert_ne!(checksum_ui(0x07, 0x03, 0x17, "AT+CMUX?\r\n"), ui);
    assert_ne!(checksum_ui(0x07, 0x03, 0x15, "AT+CMUX!\r\n"), ui);
}

#[test]
fn hex_string_is_lowercase_pairs() {
    let f = Frame::from_bytes(vec![0xF9, 0xAB, 0x0C, 0x01, 0x5E, 0xF9]).unwrap();
    assert_eq!(f.to_hex_string(), "f9ab0c015ef9");
}
