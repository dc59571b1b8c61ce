//! The address and control octets of a frame and their sub-fields.

use vstd::prelude::*;
use crate::bits::{bit_of, bit_set_to, with_bit};
use vstd::std_specs::convert::FromSpecImpl;

verus! {

/// Data link connection identifier: the 6-bit logical channel carried in the
/// address octet. Channels 1, 3, 4 and 5 are named; any other number is
/// carried as it is by `OTHER`.
#[derive(Debug, Clone, Copy, PartialEq, Eq, Structural)]
pub enum DLCI {
    AT,
    SMS,
    VOICE,
    DATA,
    OTHER(u8),
}

impl DLCI {
    /// The channel number that a channel identifier stands for.
    pub open spec fn spec_into_bits(self) -> u8 {
        match self {
            DLCI::AT => 1,
            DLCI::SMS => 3,
            DLCI::VOICE => 4,
            DLCI::DATA => 5,
            DLCI::OTHER(v) => v,
        }
    }

    /// The channel identifier of a channel number.
    pub open spec fn spec_from_bits(v: u8) -> DLCI {
        if v == 1 {
            DLCI::AT
        } else if v == 3 {
            DLCI::SMS
        } else if v == 4 {
            DLCI::VOICE
        } else if v == 5 {
            DLCI::DATA
        } else {
            DLCI::OTHER(v)
        }
    }

    pub fn into_bits(self) -> (r: u8)
        ensures
            r == self.spec_into_bits(),
    {
        match self {
            DLCI::AT => 0x1,
            DLCI::SMS => 0x3,
            DLCI::VOICE => 0x4,
            DLCI::DATA => 0x5,
            DLCI::OTHER(value) => value,
        }
    }

    pub fn from_bits(value: u8) -> (r: DLCI)
        ensures
            r == DLCI::spec_from_bits(value),
            r.spec_into_bits() == value,
    {
        match value {
            0x1 => DLCI::AT,
            0x3 => DLCI::SMS,
            0x4 => DLCI::VOICE,
            0x5 => DLCI::DATA,
            _ => DLCI::OTHER(value),
        }
    }
}

/// The channel number held in bits 2 to 7 of an address octet.
pub open spec fn channel_of(v: u8) -> u8 {
    v >> 2u8
}

/// Address octet of a frame.
///
/// Bit 0 is the extension bit (always 1 in this protocol generation), bit 1
/// the command/response bit, and bits 2 to 7 the channel identifier.
#[derive(Debug, Clone, Copy, PartialEq, Eq, Structural)]
pub struct Address(u8);

impl View for Address {
    type V = u8;

    closed spec fn view(&self) -> u8 {
        self.0
    }
}

impl Address {
    /// Wraps a raw octet as it is: every octet is a legal address on decode.
    pub fn from_bits(value: u8) -> (r: Address)
        ensures
            r@ == value,
    {
        Address(value)
    }

    pub fn into_bits(self) -> (r: u8)
        ensures
            r == self@,
    {
        self.0
    }

    /// The extension bit.
    pub fn ea(&self) -> (r: bool)
        ensures
            r == bit_of(self@, 0),
    {
        (self.0 >> 0u8) & 1u8 == 1u8
    }

    /// The command/response bit.
    pub fn cr(&self) -> (r: bool)
        ensures
            r == bit_of(self@, 1),
    {
        (self.0 >> 1u8) & 1u8 == 1u8
    }

    /// The channel identifier.
    pub fn dlci(&self) -> (r: DLCI)
        ensures
            r == DLCI::spec_from_bits(channel_of(self@)),
    {
        DLCI::from_bits(self.0 >> 2u8)
    }

    /// This address with the command/response bit set to `cr`.
    pub fn with_cr(self, cr: bool) -> (r: Address)
        ensures
            r@ == with_bit(self@, 1, cr),
            bit_of(r@, 1) == cr,
            bit_of(r@, 0) == bit_of(self@, 0),
            channel_of(r@) == channel_of(self@),
    {
        let v = bit_set_to(self.0, 1, cr);
        let old_v = self.0;
        assert(((old_v | (1u8 << 1u8)) >> 2u8 == old_v >> 2u8) && ((old_v & !(1u8 << 1u8)) >> 2u8
            == old_v >> 2u8)) by (bit_vector);
        Address(v)
    }

    /// This address with its channel bits replaced by the low six bits of the
    /// channel number of `dlci`; the extension and command/response bits are kept.
    pub fn with_dlci(self, dlci: DLCI) -> (r: Address)
        ensures
            r@ & 3u8 == self@ & 3u8,
            channel_of(r@) == dlci.spec_into_bits() & 0x3fu8,
    {
        let d = dlci.into_bits();
        let v = (self.0 & 0b11u8) | ((d & 0x3fu8) << 2u8);
        let s = self.0;
        assert(v & 3u8 == s & 3u8 && v >> 2u8 == d & 0x3fu8) by (bit_vector)
            requires
                v == (s & 0b11u8) | ((d & 0x3fu8) << 2u8),
        ;
        Address(v)
    }
}

impl Default for Address {
    /// Extension bit 1, command/response bit 1, channel 1 (signalling).
    fn default() -> (r: Address)
        ensures
            r@ == 0b111u8,
    {
        Address(0b111u8)
    }
}

/// Frame type selected by the control octet.
#[derive(Debug, Clone, Copy, PartialEq, Eq, Structural)]
pub enum FrameType {
    SABM,
    UA,
    DM,
    DISC,
    UIH,
    UI,
}

/// Mask that clears the poll/final bit of a control octet.
pub const FRAME_TYPE_MASK: u8 = 0b1110_1111;

impl FrameType {
    /// The control octet pattern of a frame type, poll/final bit clear.
    pub open spec fn spec_into_bits(self) -> u8 {
        match self {
            FrameType::SABM => 0b0010_1111,
            FrameType::UA => 0b0110_0011,
            FrameType::DM => 0b0000_1111,
            FrameType::DISC => 0b0100_0011,
            FrameType::UIH => 0b1110_1111,
            FrameType::UI => 0b0000_0011,
        }
    }

    /// The frame type of a pattern; a pattern that matches none of the six
    /// falls back to `UI`.
    pub open spec fn spec_from_bits(v: u8) -> FrameType {
        if v == 0b0010_1111 {
            FrameType::SABM
        } else if v == 0b0110_0011 {
            FrameType::UA
        } else if v == 0b0000_1111 {
            FrameType::DM
        } else if v == 0b0100_0011 {
            FrameType::DISC
        } else if v == 0b1110_1111 {
            FrameType::UIH
        } else {
            FrameType::UI
        }
    }

    pub fn into_bits(self) -> (r: u8)
        ensures
            r == self.spec_into_bits(),
    {
        match self {
            FrameType::SABM => 0b0010_1111,
            FrameType::UA => 0b0110_0011,
            FrameType::DM => 0b0000_1111,
            FrameType::DISC => 0b0100_0011,
            FrameType::UIH => 0b1110_1111,
            FrameType::UI => 0b0000_0011,
        }
    }

    pub fn from_bits(value: u8) -> (r: FrameType)
        ensures
            r == FrameType::spec_from_bits(value),
    {
        match value {
            0b0010_1111 => FrameType::SABM,
            0b0110_0011 => FrameType::UA,
            0b0000_1111 => FrameType::DM,
            0b0100_0011 => FrameType::DISC,
            0b1110_1111 => FrameType::UIH,
            _ => FrameType::UI,
        }
    }
}

/// The frame type that a control octet selects.
pub open spec fn frame_type_of(v: u8) -> FrameType {
    FrameType::spec_from_bits(v & FRAME_TYPE_MASK)
}

/// The poll/final bit of a control octet.
pub open spec fn poll_final_of(v: u8) -> bool {
    bit_of(v, 4)
}

/// The control octet of frame type `t` with poll/final bit `pf`.
pub open spec fn control_bits(t: FrameType, pf: bool) -> u8 {
    with_bit(t.spec_into_bits(), 4, pf)
}

/// Each frame type pattern has its poll/final bit clear, so that setting or
/// clearing that bit leaves the frame type as it was.
pub proof fn lemma_control_bits(t: FrameType, pf: bool)
    ensures
        frame_type_of(control_bits(t, pf)) == t,
        poll_final_of(control_bits(t, pf)) == pf,
{
    let b = t.spec_into_bits();
    assert(b & 0x10u8 == 0u8) by (bit_vector)
        requires
            b == 0x2fu8 || b == 0x63u8 || b == 0x0fu8 || b == 0x43u8 || b == 0xefu8 || b == 0x03u8,
    ;
    assert(b & 0x10u8 == 0u8 ==> ((b | (1u8 << 4u8)) & 0xefu8 == b) && ((b & !(1u8 << 4u8)) & 0xefu8
        == b)) by (bit_vector);
    assert((((b | (1u8 << 4u8)) >> 4u8) & 1u8 == 1u8) && (((b & !(1u8 << 4u8)) >> 4u8) & 1u8
        == 0u8)) by (bit_vector);
}

/// Control octet of a frame: bit 4 is the poll/final bit, the other bits
/// select the frame type.
#[derive(Debug, Clone, Copy, PartialEq, Eq, Structural)]
pub struct Control(u8);

impl View for Control {
    type V = u8;

    closed spec fn view(&self) -> u8 {
        self.0
    }
}

impl Control {
    /// The all-zero control octet.
    pub fn new() -> (r: Control)
        ensures
            r@ == 0,
    {
        Control(0)
    }

    /// This control octet with frame type `frame_type`; the poll/final bit is kept.
    pub fn with_frame_type(self, frame_type: FrameType) -> (r: Control)
        ensures
            r@ == control_bits(frame_type, poll_final_of(self@)),
            frame_type_of(r@) == frame_type,
            poll_final_of(r@) == poll_final_of(self@),
    {
        proof {
            lemma_control_bits(frame_type, poll_final_of(self@));
        }
        let pf = self.pf();
        let control = Control(frame_type.into_bits());
        control.with_pf(pf)
    }

    /// The frame type; an unknown pattern reads as `UI`.
    pub fn frame_type(&self) -> (r: FrameType)
        ensures
            r == frame_type_of(self@),
    {
        FrameType::from_bits(self.0 & FRAME_TYPE_MASK)
    }

    /// Replaces the frame type in place; the poll/final bit is kept.
    pub fn set_frame_type(&mut self, frame_type: FrameType)
        ensures
            final(self)@ == control_bits(frame_type, poll_final_of(old(self)@)),
            frame_type_of(final(self)@) == frame_type,
            poll_final_of(final(self)@) == poll_final_of(old(self)@),
    {
        self.0 = self.with_frame_type(frame_type).0;
    }

    /// This control octet with the poll/final bit set to `pf`.
    pub fn with_pf(self, pf: bool) -> (r: Control)
        ensures
            r@ == with_bit(self@, 4, pf),
            poll_final_of(r@) == pf,
    {
        let value = bit_set_to(self.0, 4, pf);
        Control(value)
    }

    /// The poll/final bit.
    pub fn pf(&self) -> (r: bool)
        ensures
            r == poll_final_of(self@),
    {
        let v = self.0;
        assert((v & (1u8 << 4u8) == (1u8 << 4u8)) == ((v >> 4u8) & 1u8 == 1u8)) by (bit_vector);
        (self.0 & (1u8 << 4u8)) == (1u8 << 4u8)
    }

    /// Sets the poll/final bit in place.
    pub fn set_pf(&mut self, pf: bool)
        ensures
            final(self)@ == with_bit(old(self)@, 4, pf),
            poll_final_of(final(self)@) == pf,
    {
        self.0 = self.with_pf(pf).0;
    }

    pub fn into_bits(self) -> (r: u8)
        ensures
            r == self@,
    {
        self.0
    }

    /// Wraps a raw octet as it is.
    pub fn from_bits(value: u8) -> (r: Control)
        ensures
            r@ == value,
    {
        Control(value)
    }
}

impl From<u8> for Control {
    fn from(value: u8) -> (r: Control) {
        Control(value)
    }
}

impl FromSpecImpl<u8> for Control {
    open spec fn obeys_from_spec() -> bool {
        true
    }

    closed spec fn from_spec(v: u8) -> Control {
        Control(v)
    }
}

impl From<Control> for u8 {
    fn from(value: Control) -> (r: u8) {
        value.0
    }
}

impl FromSpecImpl<Control> for u8 {
    open spec fn obeys_from_spec() -> bool {
        true
    }

    closed spec fn from_spec(v: Control) -> u8 {
        v.0
    }
}

impl Default for Control {
    /// Frame type UIH with the poll/final bit clear.
    fn default() -> (r: Control)
        ensures
            r@ == 0b1110_1111u8,
            frame_type_of(r@) == FrameType::UIH,
            !poll_final_of(r@),
    {
        let c = Control::new().with_pf(false).with_frame_type(FrameType::UIH);
        assert(with_bit(0xefu8, 4, false) == 0xefu8) by (bit_vector);
        c
    }
}

} // verus!
