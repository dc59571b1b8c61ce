//! Frame codec for the multiplexer framing protocol used over serial and
//! modem links: bit-field packing of the address and control octets, the
//! variable-width length indicator, the frame-type dependent checksum, and
//! extraction of frames from delimited hexadecimal text.

pub mod bits;
pub mod checksum;
pub mod fields;
pub mod frame;
pub mod text;
