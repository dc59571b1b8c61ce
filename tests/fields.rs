use cmux::bits::bit_set_to;
use cmux::fields::{Address, Control, FrameType, DLCI};

#[test]
fn bit_set_to_sets_and_clears_one_bit() {
    assert_eq!(bit_set_to(0b0000_0000, 0, true), 0b0000_0001);
    assert_eq!(bit_set_to(0b1111_1111, 4, false), 0b1110_1111);
    assert_eq!(bit_set_to(0b1010_1010, 7, true), 0b1010_1010);
    assert_eq!(bit_set_to(0b1010_1010, 1, false), 0b1010_1000);
    assert_eq!(bit_set_to(0x5A, 8, true), 0x5A);
    assert_eq!(bit_set_to(0x5A, 200, false), 0x5A);
}

#[test]
fn address_sub_fields() {
    let addr = Address::default();
    assert_eq!(addr.into_bits(), 0b111);
    assert!(addr.ea());
    assert!(addr.cr());
    assert_eq!(addr.dlci(), DLCI::AT);

    let addr = addr.with_cr(false);
    assert_eq!(addr.into_bits(), 0b101);
    assert!(!addr.cr());

    let addr = addr.with_dlci(DLCI::DATA);
    assert_eq!(addr.into_bits(), 0b10101);
    assert_eq!(addr.dlci(), DLCI::DATA);

    let addr = addr.with_dlci(DLCI::OTHER(9));
    assert_eq!(addr.into_bits(), (9 << 2) | 0b01);
    assert_eq!(addr.dlci(), DLCI::OTHER(9));

    let addr = Address::from_bits(0x0F);
    assert_eq!(addr.dlci(), DLCI::SMS);
    assert_eq!(Address::from_bits(0x13).dlci(), DLCI::VOICE);
}

#[test]
fn dlci_numbers() {
    assert_eq!(DLCI::from_bits(1), DLCI::AT);
    assert_eq!(DLCI::from_bits(2), DLCI::OTHER(2));
    assert_eq!(DLCI::SMS.into_bits(), 3);
    assert_eq!(DLCI::OTHER(63).into_bits(), 63);
}

#[test]
fn control_sub_fields() {
    let control = Control::default();
    assert_eq!(control.into_bits(), 0b11101111);
    assert_eq!(control.frame_type(), FrameType::UIH);
    assert!(!control.pf());

    let control = control.with_pf(true);
    assert!(control.pf());
    assert_eq!(control.into_bits(), 0xFF);

    let control = control.with_frame_type(FrameType::UA);
    assert_eq!(control.frame_type(), FrameType::UA);
    assert!(control.pf());
    assert_eq!(control.into_bits(), 0b0111_0011);

    let mut c = Control::new();
    c.set_frame_type(FrameType::SABM);
    assert_eq!(c.into_bits(), 0b0010_1111);
    c.set_pf(true);
    assert_eq!(c.into_bits(), 0b0011_1111);
    assert_eq!(c.frame_type(), FrameType::SABM);
}

#[test]
fn control_frame_types() {
    assert_eq!(Control::from_bits(0x2F).frame_type(), FrameType::SABM);
    assert_eq!(Control::from_bits(0x63).frame_type(), FrameType::UA);
    assert_eq!(Control::from_bits(0x0F).frame_type(), FrameType::DM);
    assert_eq!(Control::from_bits(0x43).frame_type(), FrameType::DISC);
    assert_eq!(Control::from_bits(0xEF).frame_type(), FrameType::UIH);
    assert_eq!(Control::from_bits(0x03).frame_type(), FrameType::UI);
    assert_eq!(Control::from_bits(0x53).frame_type(), FrameType::DISC);
    // An unknown pattern reads as UI.
    assert_eq!(Control::from_bits(0x00).frame_type(), FrameType::UI);
    assert_eq!(FrameType::UIH.into_bits(), 0xEF);
    assert_eq!(FrameType::from_bits(0x63), FrameType::UA);
}

#[test]
fn control_from_and_into_octets() {
    let c: Control = Control::from(0x3Fu8);
    assert_eq!(c, Control::from_bits(0x3F));
    let v: u8 = u8::from(c);
    assert_eq!(v, 0x3F);
}
