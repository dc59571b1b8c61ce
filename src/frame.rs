//! Frames: building, encoding to bytes, decoding from bytes and verifying.

use vstd::prelude::*;
use vstd::utf8::{decode_utf8, encode_utf8, valid_utf8};
use crate::checksum::{
    checksum_ui, checksum_uih, length_octets, push_all, push_length, ui_checksum, uih_checksum,
};
use crate::fields::{frame_type_of, Address, Control, FrameType};

verus! {

/// Opening and closing flag octet of every frame.
pub const FLAG: u8 = 0xF9;

/// Longest payload whose length indicator fits in one octet.
pub const MAX_SINGLE_OCTET_PAYLOAD: usize = 127;

/// Longest payload that a two-octet length indicator can describe.
pub const MAX_PAYLOAD: usize = 32767;

/// Length indicator of a payload of `n` bytes: `(n << 1) | 1` up to 127
/// bytes, `n << 1` beyond.
pub open spec fn length_indicator(n: nat) -> u16
    recommends
        n <= MAX_PAYLOAD,
{
    if n <= MAX_SINGLE_OCTET_PAYLOAD {
        (2 * n + 1) as u16
    } else {
        (2 * n) as u16
    }
}

/// Whether text ends with carriage return and line feed.
pub open spec fn ends_with_crlf(s: Seq<char>) -> bool {
    s.len() >= 2 && s[s.len() - 2] == '\r' && s[s.len() - 1] == '\n'
}

/// Text terminated by carriage return and line feed: left as it is when it
/// already ends so, otherwise with the two characters appended.
pub open spec fn with_crlf(s: Seq<char>) -> Seq<char> {
    if ends_with_crlf(s) {
        s
    } else {
        s + seq!['\r', '\n']
    }
}

/// Terminating text with CRLF a second time changes nothing.
pub proof fn lemma_crlf_idempotent(s: Seq<char>)
    ensures
        with_crlf(with_crlf(s)) == with_crlf(s),
{
    let t = s + seq!['\r', '\n'];
    assert(t[t.len() - 2] == '\r' && t[t.len() - 1] == '\n');
}

/// Check sequence of a frame: UI frames cover the information bytes too,
/// every other frame type only address, control and length indicator.
pub open spec fn frame_checksum(address: u8, control: u8, length: u16, info: Seq<u8>) -> u8 {
    if frame_type_of(control) == FrameType::UI {
        ui_checksum(address, control, length, info)
    } else {
        uih_checksum(address, control, length)
    }
}

/// Failure of `FrameBuilder::build`.
#[derive(Debug, Clone, Copy, PartialEq, Eq, Structural)]
pub enum BuildError {
    /// No content was supplied.
    MissingContent,
    /// The content is longer than a length indicator can describe.
    ContentTooLong,
}

/// Failure of `Frame::from_bytes`.
#[derive(Debug, Clone, Copy, PartialEq, Eq, Structural)]
pub enum DecodeError {
    /// The buffer is shorter than the fields its length indicator announces.
    TooShort,
    /// The information bytes are not valid UTF-8.
    InvalidUtf8,
}

/// Failure of `Frame::verify`.
#[derive(Debug, Clone, Copy, PartialEq, Eq, Structural)]
pub enum VerifyError {
    /// The length indicator does not describe the content.
    LengthMismatch,
    /// The check sequence differs from the one computed from the fields.
    ChecksumMismatch,
    /// Both of the above.
    LengthAndChecksumMismatch,
}

/// Text carried in a frame's information field.
#[derive(Debug, Clone, PartialEq, Eq)]
pub struct ContentStr(pub String);

impl View for ContentStr {
    type V = Seq<char>;

    open spec fn view(&self) -> Seq<char> {
        self.0@
    }
}

impl ContentStr {
    pub fn as_str(&self) -> (r: &str)
        ensures
            r@ == self@,
    {
        self.0.as_str()
    }
}

/// Mathematical value of a frame.
pub struct FrameView {
    pub header: u8,
    pub address: u8,
    pub control: u8,
    pub length: u16,
    pub content: Seq<char>,
    pub checksum: u8,
    pub footer: u8,
}

/// The frame that the builder makes of address, control and (terminated)
/// content.
pub open spec fn built_frame(address: u8, control: u8, content: Seq<char>) -> FrameView {
    let info = encode_utf8(content);
    let length = length_indicator(info.len());
    FrameView {
        header: FLAG,
        address,
        control,
        length,
        content,
        checksum: frame_checksum(address, control, length, info),
        footer: FLAG,
    }
}

/// The bytes of a frame on the wire.
pub open spec fn frame_bytes(f: FrameView) -> Seq<u8> {
    seq![f.header, f.address, f.control] + length_octets(f.length) + encode_utf8(f.content) + seq![
        f.checksum,
        f.footer,
    ]
}

/// Number of length-indicator octets that a decoder reads: two when the
/// extension bit of the first one is clear, one otherwise.
pub open spec fn length_width(b: Seq<u8>) -> int
    recommends
        b.len() >= 4,
{
    if b[3] % 2 == 0 {
        2
    } else {
        1
    }
}

/// Positional decoding of a frame: flag, address, control, one or two
/// length octets, information bytes up to the last two, check sequence, flag.
pub open spec fn decode_frame(b: Seq<u8>) -> Result<FrameView, DecodeError> {
    if b.len() < 4 || b.len() < 5 + length_width(b) {
        Err(DecodeError::TooShort)
    } else {
        let w = length_width(b);
        let info = b.subrange(3 + w, b.len() - 2);
        if !valid_utf8(info) {
            Err(DecodeError::InvalidUtf8)
        } else {
            Ok(
                FrameView {
                    header: b[0],
                    address: b[1],
                    control: b[2],
                    length: if w == 2 {
                        (b[3] * 256 + b[4]) as u16
                    } else {
                        b[3] as u16
                    },
                    content: decode_utf8(info),
                    checksum: b[b.len() - 2],
                    footer: b[b.len() - 1],
                },
            )
        }
    }
}

/// Whether the length indicator describes the content.
pub open spec fn length_consistent(f: FrameView) -> bool {
    let n = encode_utf8(f.content).len();
    n <= MAX_PAYLOAD && f.length == length_indicator(n)
}

/// Whether the check sequence is the one computed from the fields.
pub open spec fn checksum_consistent(f: FrameView) -> bool {
    f.checksum == frame_checksum(f.address, f.control, f.length, encode_utf8(f.content))
}

/// Outcome of verifying a frame; both checks are made and both failures reported.
pub open spec fn verify_result(f: FrameView) -> Result<(), VerifyError> {
    let l = length_consistent(f);
    let c = checksum_consistent(f);
    if l && c {
        Ok(())
    } else if c {
        Err(VerifyError::LengthMismatch)
    } else if l {
        Err(VerifyError::ChecksumMismatch)
    } else {
        Err(VerifyError::LengthAndChecksumMismatch)
    }
}

/// Check sequence of a frame with the given fields.
fn checksum_for(address: Address, control: Control, length: u16, content: &str) -> (r: u8)
    ensures
        r == frame_checksum(address@, control@, length, encode_utf8(content@)),
{
    if control.frame_type() == FrameType::UI {
        checksum_ui(address.into_bits(), control.into_bits(), length, content)
    } else {
        checksum_uih(address.into_bits(), control.into_bits(), length)
    }
}

/// Relies on `String::from_utf8`: it succeeds exactly on valid UTF-8, and the
/// string then holds those very bytes.
#[verifier::external_body]
fn utf8_string(bytes: Vec<u8>) -> (r: Option<String>)
    ensures
        r.is_some() == valid_utf8(bytes@),
        r matches Some(s) ==> encode_utf8(s@) == bytes@,
{
    String::from_utf8(bytes).ok()
}

/// Copy of `data[from..to]`.
pub(crate) fn copy_range<T: Copy>(data: &Vec<T>, from: usize, to: usize) -> (r: Vec<T>)
    requires
        from <= to <= data@.len(),
    ensures
        r@ == data@.subrange(from as int, to as int),
{
    let mut r: Vec<T> = Vec::new();
    let mut i: usize = from;
    while i < to
        invariant
            from <= i <= to <= data@.len(),
            r@ == data@.subrange(from as int, i as int),
        decreases to - i,
    {
        r.push(data[i]);
        i = i + 1;
        assert(r@ =~= data@.subrange(from as int, i as int));
    }
    r
}

/// A frame: flag, address, control, length indicator, information text,
/// check sequence, flag.
#[derive(Debug, PartialEq, Eq)]
pub struct Frame {
    pub header: u8,
    pub address: Address,
    pub control: Control,
    pub length: u16,
    pub content: ContentStr,
    pub checksum: u8,
    pub footer: u8,
}

impl View for Frame {
    type V = FrameView;

    open spec fn view(&self) -> FrameView {
        FrameView {
            header: self.header,
            address: self.address@,
            control: self.control@,
            length: self.length,
            content: self.content@,
            checksum: self.checksum,
            footer: self.footer,
        }
    }
}

impl Frame {
    /// The bytes of the frame on the wire.
    pub fn to_bytes(&self) -> (r: Vec<u8>)
        ensures
            r@ == frame_bytes(self@),
    {
        let mut data: Vec<u8> = vec![
            self.header,
            self.address.into_bits(),
            self.control.into_bits(),
        ];
        push_length(&mut data, self.length);
        push_all(&mut data, self.content.as_str().as_bytes());
        data.push(self.checksum);
        data.push(self.footer);
        assert(data@ =~= frame_bytes(self@));
        data
    }

    /// Lowercase hexadecimal text of the bytes of the frame.
    pub fn to_hex_string(&self) -> (r: String)
        ensures
            r@ == crate::text::hex_lower(frame_bytes(self@)),
    {
        crate::text::hex_encode(self.to_bytes().as_slice())
    }

    /// Decodes a frame by position. The low bit of the first length octet
    /// tells whether a second one follows (clear) or not (set). The
    /// information bytes must be valid UTF-8 (strict decoding); nothing is
    /// checked of flags, length indicator or check sequence here: that is
    /// what `verify` does.
    pub fn from_bytes(data: Vec<u8>) -> (r: Result<Frame, DecodeError>)
        ensures
            match r {
                Ok(f) => decode_frame(data@) == Ok::<FrameView, DecodeError>(f@),
                Err(e) => decode_frame(data@) == Err::<FrameView, DecodeError>(e),
            },
    {
        let len = data.len();
        if len < 4 {
            return Err(DecodeError::TooShort);
        }
        let two = data[3] % 2 == 0;
        let w: usize = if two {
            2
        } else {
            1
        };
        if len < 5 + w {
            return Err(DecodeError::TooShort);
        }
        let length: u16 = if two {
            (data[3] as u16) * 256 + (data[4] as u16)
        } else {
            data[3] as u16
        };
        let info = copy_range(&data, 3 + w, len - 2);
        match utf8_string(info) {
            None => Err(DecodeError::InvalidUtf8),
            Some(s) => {
                proof {
                    vstd::utf8::encode_utf8_decode_utf8(s@);
                }
                Ok(
                    Frame {
                        header: data[0],
                        address: Address::from_bits(data[1]),
                        control: Control::from_bits(data[2]),
                        length,
                        content: ContentStr(s),
                        checksum: data[len - 2],
                        footer: data[len - 1],
                    },
                )
            },
        }
    }

    /// Checks the length indicator against the content and the check
    /// sequence against the fields; both checks are always made.
    pub fn verify(&self) -> (r: Result<(), VerifyError>)
        ensures
            r == verify_result(self@),
    {
        let content = self.content.as_str();
        let n = content.as_bytes().len();
        let length_ok = if n > MAX_PAYLOAD {
            false
        } else if n > MAX_SINGLE_OCTET_PAYLOAD {
            self.length == (n as u16) * 2
        } else {
            self.length == (n as u16) * 2 + 1
        };
        let expected = checksum_for(self.address, self.control, self.length, content);
        let checksum_ok = expected == self.checksum;
        if length_ok && checksum_ok {
            Ok(())
        } else if checksum_ok {
            Err(VerifyError::LengthMismatch)
        } else if length_ok {
            Err(VerifyError::ChecksumMismatch)
        } else {
            Err(VerifyError::LengthAndChecksumMismatch)
        }
    }
}

/// Accumulates the fields of a frame; `build` computes length indicator and
/// check sequence. Address and control default to `Address::default()` and
/// `Control::default()`; content has no default.
#[derive(Debug)]
pub struct FrameBuilder {
    pub address: Address,
    pub control: Control,
    pub content: Option<String>,
}

impl Default for FrameBuilder {
    fn default() -> (r: FrameBuilder)
        ensures
            r.address@ == 0b111u8,
            r.control@ == 0b1110_1111u8,
            r.content is None,
    {
        FrameBuilder { address: Address::default(), control: Control::default(), content: None }
    }
}

impl FrameBuilder {
    /// Length indicator of the content.
    fn length(&self) -> (r: Result<u16, BuildError>)
        ensures
            match self.content {
                None => r == Err::<u16, BuildError>(BuildError::MissingContent),
                Some(c) => if encode_utf8(c@).len() > MAX_PAYLOAD {
                    r == Err::<u16, BuildError>(BuildError::ContentTooLong)
                } else {
                    r == Ok::<u16, BuildError>(length_indicator(encode_utf8(c@).len()))
                },
            },
    {
        match &self.content {
            Some(content) => {
                let len = content.as_str().as_bytes().len();
                if len > MAX_PAYLOAD {
                    Err(BuildError::ContentTooLong)
                } else if len > MAX_SINGLE_OCTET_PAYLOAD {
                    Ok((len as u16) * 2)
                } else {
                    Ok((len as u16) * 2 + 1)
                }
            },
            None => Err(BuildError::MissingContent),
        }
    }

    /// Check sequence of the frame that `build` makes.
    fn checksum(&self) -> (r: Result<u8, BuildError>)
        ensures
            match self.content {
                None => r == Err::<u8, BuildError>(BuildError::MissingContent),
                Some(c) => if encode_utf8(c@).len() > MAX_PAYLOAD {
                    r == Err::<u8, BuildError>(BuildError::ContentTooLong)
                } else {
                    r == Ok::<u8, BuildError>(
                        built_frame(self.address@, self.control@, c@).checksum,
                    )
                },
            },
    {
        let length = match self.length() {
            Ok(l) => l,
            Err(e) => return Err(e),
        };
        match &self.content {
            Some(content) => Ok(checksum_for(self.address, self.control, length, content.as_str())),
            None => Err(BuildError::MissingContent),
        }
    }

    /// Sets the address.
    pub fn with_address(self, address: Address) -> (r: FrameBuilder)
        ensures
            r.address == address,
            r.control == self.control,
            r.content == self.content,
    {
        FrameBuilder { address, ..self }
    }

    /// Sets the content, terminated by CRLF: appended when absent, so that
    /// content that already ends with CRLF is kept as it is.
    pub fn with_content(self, content: String) -> (r: FrameBuilder)
        ensures
            r.address == self.address,
            r.control == self.control,
            r.content matches Some(c) && c@ == with_crlf(content@),
    {
        let mut content = content;
        let ghost before = content@;
        let n = content.as_str().unicode_len();
        let terminated = n >= 2 && content.as_str().get_char(n - 2) == '\r'
            && content.as_str().get_char(n - 1) == '\n';
        if !terminated {
            proof {
                reveal_strlit("\r\n");
            }
            content.append("\r\n");
            assert(content@ =~= with_crlf(before));
        }
        FrameBuilder { content: Some(content), ..self }
    }

    /// Sets the control octet.
    pub fn with_control(self, control: Control) -> (r: FrameBuilder)
        ensures
            r.address == self.address,
            r.control == control,
            r.content == self.content,
    {
        FrameBuilder { control, ..self }
    }

    /// Builds the frame. Fails when no content was supplied, or when the
    /// content is longer than a length indicator can describe.
    pub fn build(&self) -> (r: Result<Frame, BuildError>)
        ensures
            match self.content {
                None => r == Err::<Frame, BuildError>(BuildError::MissingContent),
                Some(c) => if encode_utf8(c@).len() > MAX_PAYLOAD {
                    r == Err::<Frame, BuildError>(BuildError::ContentTooLong)
                } else {
                    r matches Ok(f) && f@ == built_frame(self.address@, self.control@, c@)
                },
            },
    {
        let length = match self.length() {
            Ok(l) => l,
            Err(e) => return Err(e),
        };
        let checksum = match self.checksum() {
            Ok(c) => c,
            Err(e) => return Err(e),
        };
        match &self.content {
            Some(content) => Ok(
                Frame {
                    header: FLAG,
                    address: self.address,
                    control: self.control,
                    length,
                    content: ContentStr(content.clone()),
                    checksum,
                    footer: FLAG,
                },
            ),
            None => Err(BuildError::MissingContent),
        }
    }
}

/// Whether a decoder reads the length indicator of an `n`-byte payload in the
/// form it was written: the first octet on the wire carries the extension bit
/// that the decoder inspects, set in the one-octet form and, in the two-octet
/// form, clear only when `n / 128` is even.
pub open spec fn indicator_readable(n: nat) -> bool {
    n <= MAX_SINGLE_OCTET_PAYLOAD || (n / 128) % 2 == 0
}

/// Round trip: decoding the bytes of a built frame gives that frame back, and
/// the frame verifies. Holds for every address and control octet and every
/// content whose length indicator a decoder reads back as it was written.
pub proof fn lemma_round_trip(address: u8, control: u8, content: Seq<char>)
    requires
        encode_utf8(content).len() <= MAX_PAYLOAD,
        indicator_readable(encode_utf8(content).len()),
    ensures
        decode_frame(frame_bytes(built_frame(address, control, content))) == Ok::<
            FrameView,
            DecodeError,
        >(built_frame(address, control, content)),
        verify_result(built_frame(address, control, content)) == Ok::<(), VerifyError>(()),
{
    let f = built_frame(address, control, content);
    let info = encode_utf8(content);
    let n = info.len();
    let b = frame_bytes(f);
    let w: int = if n <= MAX_SINGLE_OCTET_PAYLOAD {
        1
    } else {
        2
    };
    if n <= MAX_SINGLE_OCTET_PAYLOAD {
        assert(f.length == 2 * n + 1);
        assert(length_octets(f.length) =~= seq![f.length as u8]);
        assert(b[3] == f.length);
    } else {
        assert(f.length == 2 * n);
        assert((2 * n) / 256 == n / 128);
        assert(length_octets(f.length) =~= seq![(f.length / 256) as u8, (f.length % 256) as u8]);
        assert(b[3] == f.length / 256);
        assert(b[4] == f.length % 256);
    }
    assert(length_width(b) == w);
    assert(b.subrange(3 + w, b.len() - 2) =~= info);
    vstd::utf8::encode_utf8_valid_utf8(content);
    vstd::utf8::encode_utf8_decode_utf8(content);
}

} // verus!
