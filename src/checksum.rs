//! Length-indicator octets and the frame check sequence.

use vstd::prelude::*;
use vstd::utf8::encode_utf8;

verus! {

/// CRC-8/ROHC (polynomial 0x07, initial value 0xff, reflected input and
/// output, no final xor) of a byte sequence.
pub uninterp spec fn crc8_rohc(data: Seq<u8>) -> u8;

/// Relies on `crc::Crc::<u8>::checksum` with `crc::CRC_8_ROHC` from crc's
/// catalogue: the checksum is a function of the bytes alone.
#[verifier::external_body]
fn crc8_rohc_of(data: &[u8]) -> (r: u8)
    ensures
        r == crc8_rohc(data@),
{
    crc::Crc::<u8>::new(&crc::CRC_8_ROHC).checksum(data)
}

/// Whether a length indicator travels in one octet: its low bit (the
/// extension bit) is set and it fits in eight bits.
pub open spec fn is_single_octet(length: u16) -> bool {
    length % 2 == 1 && length < 256
}

/// The octets of a length indicator on the wire: one octet in the single-octet
/// form, otherwise two octets, most significant first.
pub open spec fn length_octets(length: u16) -> Seq<u8> {
    if is_single_octet(length) {
        seq![length as u8]
    } else {
        seq![(length / 256) as u8, (length % 256) as u8]
    }
}

/// Frame check sequence that covers address, control and length indicator.
pub open spec fn uih_checksum(addr: u8, control: u8, length: u16) -> u8 {
    !crc8_rohc(seq![addr, control] + length_octets(length))
}

/// Frame check sequence that also covers the information bytes.
pub open spec fn ui_checksum(addr: u8, control: u8, length: u16, info: Seq<u8>) -> u8 {
    !crc8_rohc(seq![addr, control] + length_octets(length) + info)
}

/// Appends the octets of a length indicator.
pub(crate) fn push_length(data: &mut Vec<u8>, length: u16)
    ensures
        final(data)@ == old(data)@ + length_octets(length),
{
    if length % 2 == 1 && length < 256 {
        data.push(length as u8);
    } else {
        data.push((length / 256) as u8);
        data.push((length % 256) as u8);
    }
    assert(final(data)@ =~= old(data)@ + length_octets(length));
}

/// Appends all of `bytes`.
pub(crate) fn push_all(data: &mut Vec<u8>, bytes: &[u8])
    ensures
        final(data)@ == old(data)@ + bytes@,
{
    let ghost start = data@;
    let mut i: usize = 0;
    while i < bytes.len()
        invariant
            i <= bytes@.len(),
            data@ == start + bytes@.subrange(0, i as int),
        decreases bytes@.len() - i,
    {
        data.push(bytes[i]);
        i = i + 1;
        assert(data@ =~= start + bytes@.subrange(0, i as int));
    }
    assert(bytes@.subrange(0, i as int) =~= bytes@);
}

/// Checksum of a frame whose check sequence covers address, control and the
/// octets of the length indicator: the complement of their CRC-8/ROHC.
pub fn checksum_uih(addr: u8, control: u8, length: u16) -> (r: u8)
    ensures
        r == uih_checksum(addr, control, length),
{
    let mut data: Vec<u8> = vec![addr, control];
    push_length(&mut data, length);
    assert(data@ =~= seq![addr, control] + length_octets(length));
    let crc_value = crc8_rohc_of(data.as_slice());
    !crc_value
}

/// Checksum of a frame whose check sequence also covers the information
/// bytes: the complement of the CRC-8/ROHC of address, control, the octets of
/// the length indicator and the UTF-8 bytes of `content`.
pub fn checksum_ui(addr: u8, control: u8, length: u16, content: &str) -> (r: u8)
    ensures
        r == ui_checksum(addr, control, length, encode_utf8(content@)),
{
    let mut data: Vec<u8> = vec![addr, control];
    push_length(&mut data, length);
    push_all(&mut data, content.as_bytes());
    assert(data@ =~= seq![addr, control] + length_octets(length) + encode_utf8(content@));
    let crc_value = crc8_rohc_of(data.as_slice());
    !crc_value
}

} // verus!
