//! Hexadecimal text: encoding frames for display and reading delimited
//! frames back from text.

use vstd::prelude::*;
use vstd::utf8::encode_utf8;
use crate::frame::{
    built_frame, copy_range, decode_frame, with_crlf, BuildError, Frame, FrameBuilder, FrameView,
    MAX_PAYLOAD,
};
use crate::fields::{Address, Control};

verus! {

/// Lowercase hexadecimal digit of a value below 16.
pub open spec fn hex_digit(n: u8) -> char {
    if n < 10 {
        (('0' as u8) + n) as char
    } else {
        (('a' as u8) + n - 10) as char
    }
}

/// Lowercase hexadecimal text of bytes: two digits per byte, most
/// significant digit first.
pub open spec fn hex_lower(b: Seq<u8>) -> Seq<char>
    decreases b.len(),
{
    if b.len() == 0 {
        Seq::empty()
    } else {
        seq![hex_digit(b[0] / 16), hex_digit(b[0] % 16)] + hex_lower(b.drop_first())
    }
}

/// Relies on `hex::encode`: lowercase digits, two per byte, most significant
/// first.
#[verifier::external_body]
pub(crate) fn hex_encode(b: &[u8]) -> (r: String)
    ensures
        r@ == hex_lower(b@),
{
    hex::encode(b)
}

/// Whether `d` occurs in `s` starting at index `k`.
pub open spec fn occurs_at(s: Seq<char>, d: Seq<char>, k: int) -> bool {
    0 <= k && k + d.len() <= s.len() && s.subrange(k, k + d.len()) == d
}

/// Index of the first occurrence of `d` in `s` at or after `from`.
pub open spec fn find_from(s: Seq<char>, d: Seq<char>, from: int) -> Option<int>
    decreases s.len() + 1 - from,
{
    if from + d.len() > s.len() {
        None
    } else if occurs_at(s, d, from) {
        Some(from)
    } else {
        find_from(s, d, from + 1)
    }
}

/// What `find_from` returns is an occurrence at or after `from`.
pub proof fn lemma_find_from(s: Seq<char>, d: Seq<char>, from: int)
    ensures
        find_from(s, d, from) matches Some(k) ==> from <= k && occurs_at(s, d, k),
    decreases s.len() + 1 - from,
{
    if from + d.len() <= s.len() && !occurs_at(s, d, from) {
        lemma_find_from(s, d, from + 1);
    }
}

/// The first frame candidate of `s` with delimiter `d`, and the text after
/// it: from the first occurrence of `d` through the end of the next
/// occurrence that starts after it.
pub open spec fn eat(s: Seq<char>, d: Seq<char>) -> Option<(Seq<char>, Seq<char>)> {
    match find_from(s, d, 0) {
        None => None,
        Some(i) => match find_from(s, d, i + d.len()) {
            None => None,
            Some(j) => Some((s.subrange(i, j + d.len()), s.subrange(j + d.len(), s.len() as int))),
        },
    }
}

/// The characters of `s`.
pub(crate) fn chars_of(s: &str) -> (r: Vec<char>)
    ensures
        r@ == s@,
{
    let n = s.unicode_len();
    let mut r: Vec<char> = Vec::new();
    let mut i: usize = 0;
    while i < n
        invariant
            n == s@.len(),
            i <= n,
            r@ == s@.subrange(0, i as int),
        decreases n - i,
    {
        r.push(s.get_char(i));
        i = i + 1;
        assert(r@ =~= s@.subrange(0, i as int));
    }
    assert(r@ =~= s@);
    r
}

/// Whether `d` occurs in `s` at index `k`.
fn occurs_at_index(s: &Vec<char>, d: &Vec<char>, k: usize) -> (r: bool)
    requires
        k + d@.len() <= s@.len(),
    ensures
        r == occurs_at(s@, d@, k as int),
{
    let m = d.len();
    let n = s.len();
    let mut t: usize = 0;
    while t < m
        invariant
            m == d@.len(),
            n == s@.len(),
            k + m <= s@.len(),
            t <= m,
            forall|u: int| 0 <= u < t ==> s@[k + u] == d@[u],
        decreases m - t,
    {
        if s[k + t] != d[t] {
            assert(s@.subrange(k as int, k + m)[t as int] != d@[t as int]);
            return false;
        }
        t = t + 1;
    }
    assert(s@.subrange(k as int, k + m) =~= d@);
    true
}

/// Index of the first occurrence of `d` in `s` at or after `from`.
pub(crate) fn find_chars(s: &Vec<char>, d: &Vec<char>, from: usize) -> (r: Option<usize>)
    ensures
        match r {
            None => find_from(s@, d@, from as int) is None,
            Some(k) => find_from(s@, d@, from as int) == Some(k as int),
        },
{
    let n = s.len();
    let m = d.len();
    let mut k: usize = from;
    while k <= n && m <= n - k
        invariant
            n == s@.len(),
            m == d@.len(),
            from <= k,
            find_from(s@, d@, from as int) == find_from(s@, d@, k as int),
        decreases n + 1 - k,
    {
        if occurs_at_index(s, d, k) {
            return Some(k);
        }
        if k == n {
            assert(find_from(s@, d@, k + 1) is None);
            return None;
        }
        k = k + 1;
    }
    None
}

/// Splits off the first frame candidate: from the first occurrence of `d`
/// through the end of the next occurrence of `d` after it, together with the
/// rest of the text. `None` when `d` does not occur twice. A delimiter that
/// appears inside a payload is taken for a frame boundary: the delimiter is
/// not escaped in the text.
pub fn string_eater<'a>(ori: &'a str, d: &str) -> (r: Option<(&'a str, &'a str)>)
    ensures
        match r {
            None => eat(ori@, d@) is None,
            Some((cur, rest)) => eat(ori@, d@) == Some((cur@, rest@)),
        },
{
    let s = chars_of(ori);
    let dv = chars_of(d);
    let n = s.len();
    let m = dv.len();
    match find_chars(&s, &dv, 0) {
        None => None,
        Some(i) => {
            proof {
                lemma_find_from(s@, dv@, 0);
            }
            match find_chars(&s, &dv, i + m) {
                None => None,
                Some(j) => {
                    proof {
                        lemma_find_from(s@, dv@, (i + m) as int);
                    }
                    Some((ori.substring_char(i, j + m), ori.substring_char(j + m, n)))
                },
            }
        },
    }
}

/// Value of a hexadecimal digit of either case.
pub open spec fn hex_value(c: char) -> Option<u8> {
    if '0' <= c && c <= '9' {
        Some((c as u32 - '0' as u32) as u8)
    } else if 'a' <= c && c <= 'f' {
        Some((c as u32 - 'a' as u32 + 10) as u8)
    } else if 'A' <= c && c <= 'F' {
        Some((c as u32 - 'A' as u32 + 10) as u8)
    } else {
        None
    }
}

/// Whether a character is a separator between digits: space or line feed.
pub open spec fn is_blank(c: char) -> bool {
    c == ' ' || c == '\n'
}

/// Text with its separators removed.
pub open spec fn strip_blanks(s: Seq<char>) -> Seq<char>
    decreases s.len(),
{
    if s.len() == 0 {
        s
    } else if is_blank(s.last()) {
        strip_blanks(s.drop_last())
    } else {
        strip_blanks(s.drop_last()).push(s.last())
    }
}

/// Whether `s` holds the prefix `0x` (or `0X`) at index `k`.
pub open spec fn prefix_at(s: Seq<char>, k: int) -> bool {
    0 <= k && k + 1 < s.len() && s[k] == '0' && (s[k + 1] == 'x' || s[k + 1] == 'X')
}

/// Text with each `0x` (or `0X`) removed, scanning from the left.
pub open spec fn strip_prefixes(s: Seq<char>) -> Seq<char>
    decreases s.len(),
{
    if s.len() == 0 {
        s
    } else if prefix_at(s, 0) {
        strip_prefixes(s.subrange(2, s.len() as int))
    } else {
        seq![s[0]] + strip_prefixes(s.drop_first())
    }
}

/// Bytes of a run of hexadecimal digits, two digits per byte; a last lone
/// digit makes a byte of its own. `None` when a character is not a digit.
pub open spec fn bytes_of_digits(t: Seq<char>) -> Option<Seq<u8>>
    decreases t.len(),
{
    if t.len() == 0 {
        Some(Seq::empty())
    } else if t.len() == 1 {
        match hex_value(t[0]) {
            Some(v) => Some(seq![v]),
            None => None,
        }
    } else {
        match (hex_value(t[0]), hex_value(t[1]), bytes_of_digits(t.subrange(2, t.len() as int))) {
            (Some(h), Some(l), Some(rest)) => Some(seq![(h * 16 + l) as u8] + rest),
            _ => None,
        }
    }
}

/// Bytes of hexadecimal text that may hold spaces, line feeds and `0x`
/// prefixes.
pub open spec fn hex_bytes(s: Seq<char>) -> Option<Seq<u8>> {
    bytes_of_digits(strip_prefixes(strip_blanks(s)))
}

/// Value of a hexadecimal digit, if `c` is one.
fn hex_value_of(c: char) -> (r: Option<u8>)
    ensures
        r == hex_value(c),
{
    if '0' <= c && c <= '9' {
        Some((c as u32 - '0' as u32) as u8)
    } else if 'a' <= c && c <= 'f' {
        Some((c as u32 - 'a' as u32 + 10) as u8)
    } else if 'A' <= c && c <= 'F' {
        Some((c as u32 - 'A' as u32 + 10) as u8)
    } else {
        None
    }
}

/// `s` without separators.
fn strip_blanks_of(s: &Vec<char>) -> (r: Vec<char>)
    ensures
        r@ == strip_blanks(s@),
{
    let mut r: Vec<char> = Vec::new();
    let mut i: usize = 0;
    while i < s.len()
        invariant
            i <= s@.len(),
            r@ == strip_blanks(s@.subrange(0, i as int)),
        decreases s@.len() - i,
    {
        let c = s[i];
        assert(s@.subrange(0, i + 1).drop_last() =~= s@.subrange(0, i as int));
        if c != ' ' && c != '\n' {
            r.push(c);
        }
        i = i + 1;
    }
    assert(s@.subrange(0, i as int) =~= s@);
    r
}

/// `s` without `0x` prefixes.
fn strip_prefixes_of(s: &Vec<char>) -> (r: Vec<char>)
    ensures
        r@ == strip_prefixes(s@),
{
    let n = s.len();
    let mut r: Vec<char> = Vec::new();
    let mut i: usize = 0;
    assert(s@.subrange(0, n as int) =~= s@);
    assert(r@ + strip_prefixes(s@) =~= strip_prefixes(s@));
    while i < n
        invariant
            n == s@.len(),
            i <= n,
            r@ + strip_prefixes(s@.subrange(i as int, n as int)) == strip_prefixes(s@),
        decreases n - i,
    {
        let ghost rest = s@.subrange(i as int, n as int);
        if i + 1 < n && s[i] == '0' && (s[i + 1] == 'x' || s[i + 1] == 'X') {
            assert(rest.subrange(2, rest.len() as int) =~= s@.subrange(i + 2, n as int));
            i = i + 2;
        } else {
            assert(rest.drop_first() =~= s@.subrange(i + 1, n as int));
            assert(r@.push(s@[i as int]) + strip_prefixes(s@.subrange(i + 1, n as int)) =~= r@ + (
            seq![s@[i as int]] + strip_prefixes(s@.subrange(i + 1, n as int))));
            r.push(s[i]);
            i = i + 1;
        }
    }
    assert(strip_prefixes(s@.subrange(n as int, n as int)) =~= Seq::<char>::empty());
    assert(r@ + Seq::<char>::empty() =~= r@);
    r
}

/// Bytes of a run of hexadecimal digits.
fn bytes_of_digits_of(t: &Vec<char>) -> (r: Option<Vec<u8>>)
    ensures
        match r {
            None => bytes_of_digits(t@) is None,
            Some(v) => bytes_of_digits(t@) == Some(v@),
        },
{
    let n = t.len();
    let mut r: Vec<u8> = Vec::new();
    let mut i: usize = 0;
    assert(t@.subrange(0, n as int) =~= t@);
    assert forall|x: Seq<u8>| #![auto] r@ + x == x by {
        assert(r@ + x =~= x);
    }
    while i < n
        invariant
            n == t@.len(),
            i <= n,
            bytes_of_digits(t@) == match bytes_of_digits(t@.subrange(i as int, n as int)) {
                Some(rest) => Some(r@ + rest),
                None => None,
            },
        decreases n - i,
    {
        let ghost rest = t@.subrange(i as int, n as int);
        let h = match hex_value_of(t[i]) {
            Some(v) => v,
            None => {
                return None;
            },
        };
        if i + 1 == n {
            assert(bytes_of_digits(rest) == Some(seq![h]));
            r.push(h);
            assert(bytes_of_digits(t@.subrange(n as int, n as int)) == Some(Seq::<u8>::empty()));
            assert(r@ + Seq::<u8>::empty() =~= r@);
            return Some(r);
        }
        let l = match hex_value_of(t[i + 1]) {
            Some(v) => v,
            None => {
                return None;
            },
        };
        assert(rest.subrange(2, rest.len() as int) =~= t@.subrange(i + 2, n as int));
        let ghost before = r@;
        r.push(h * 16 + l);
        assert forall|x: Seq<u8>| #![auto] before + (seq![(h * 16 + l) as u8] + x) == r@ + x by {
            assert(before + (seq![(h * 16 + l) as u8] + x) =~= r@ + x);
        }
        i = i + 2;
    }
    assert(bytes_of_digits(t@.subrange(n as int, n as int)) == Some(Seq::<u8>::empty()));
    assert(r@ + Seq::<u8>::empty() =~= r@);
    Some(r)
}

/// Bytes of hexadecimal text such as `"F9 01 02"`, `"0xF9 0x01"` or
/// `"f90102"`: spaces, line feeds and `0x` prefixes are dropped, then each
/// two digits make a byte (a last lone digit makes one too). `None` when
/// something else than a digit is left.
pub fn hexstring_to_bytes(hexstring: &str) -> (r: Option<Vec<u8>>)
    ensures
        match r {
            None => hex_bytes(hexstring@) is None,
            Some(v) => hex_bytes(hexstring@) == Some(v@),
        },
{
    let chars = chars_of(hexstring);
    hex_bytes_of(&chars)
}

/// Bytes of hexadecimal text held as characters.
fn hex_bytes_of(chars: &Vec<char>) -> (r: Option<Vec<u8>>)
    ensures
        match r {
            None => hex_bytes(chars@) is None,
            Some(v) => hex_bytes(chars@) == Some(v@),
        },
{
    let digits = strip_prefixes_of(&strip_blanks_of(chars));
    bytes_of_digits_of(&digits)
}

/// Value of a run of hexadecimal digits; `None` when a character is not one.
pub open spec fn digits_value(t: Seq<char>) -> Option<nat>
    decreases t.len(),
{
    if t.len() == 0 {
        Some(0)
    } else {
        match (digits_value(t.drop_last()), hex_value(t.last())) {
            (Some(v), Some(d)) => Some((v * 16 + d) as nat),
            _ => None,
        }
    }
}

/// The octet that hexadecimal text such as `"EF"` or `"0x7"` stands for:
/// `0x` prefixes are dropped, and what is left must be one or more digits
/// whose value is below 256.
pub open spec fn hex_byte(s: Seq<char>) -> Option<u8> {
    let t = strip_prefixes(s);
    if t.len() == 0 {
        None
    } else {
        match digits_value(t) {
            Some(v) => if v < 256 {
                Some(v as u8)
            } else {
                None
            },
            None => None,
        }
    }
}

/// Reads one octet written in hexadecimal, with or without `0x` prefix.
pub fn hexbyte_to_bytes(hexbyte: &str) -> (r: Option<u8>)
    ensures
        r == hex_byte(hexbyte@),
{
    let t = strip_prefixes_of(&chars_of(hexbyte));
    let n = t.len();
    if n == 0 {
        return None;
    }
    let mut valid = true;
    let mut acc: u32 = 0;
    let mut i: usize = 0;
    assert(t@.subrange(0, 0) =~= Seq::<char>::empty());
    while i < n
        invariant
            n == t@.len(),
            i <= n,
            valid == digits_value(t@.subrange(0, i as int)) is Some,
            valid ==> (digits_value(t@.subrange(0, i as int)) matches Some(v) && acc as nat == if v
                < 256 {
                v
            } else {
                256
            }),
        decreases n - i,
    {
        assert(t@.subrange(0, i + 1).drop_last() =~= t@.subrange(0, i as int));
        assert(t@.subrange(0, i + 1).last() == t@[i as int]);
        match hex_value_of(t[i]) {
            Some(d) => {
                if valid {
                    acc = if acc >= 256 {
                        256
                    } else {
                        let next = acc * 16 + d as u32;
                        if next >= 256 {
                            256
                        } else {
                            next
                        }
                    };
                }
            },
            None => {
                valid = false;
            },
        }
        i = i + 1;
    }
    assert(t@.subrange(0, n as int) =~= t@);
    if valid && acc < 256 {
        Some(acc as u8)
    } else {
        None
    }
}

/// Uppercase of an ASCII letter; any other character is left as it is.
pub open spec fn to_upper(c: char) -> char {
    if 'a' <= c && c <= 'z' {
        ((c as u32 - 32) as u8) as char
    } else {
        c
    }
}

/// Text with its ASCII letters in upper case.
pub open spec fn upper_ascii(s: Seq<char>) -> Seq<char> {
    s.map_values(|c: char| to_upper(c))
}

/// `s` with its ASCII letters in upper case.
fn upper_ascii_of(s: &Vec<char>) -> (r: Vec<char>)
    ensures
        r@ == upper_ascii(s@),
{
    let mut r: Vec<char> = Vec::new();
    let mut i: usize = 0;
    while i < s.len()
        invariant
            i <= s@.len(),
            r@ == upper_ascii(s@.subrange(0, i as int)),
        decreases s@.len() - i,
    {
        let c = s[i];
        let u = if 'a' <= c && c <= 'z' {
            ((c as u32 - 32) as u8) as char
        } else {
            c
        };
        r.push(u);
        i = i + 1;
        assert(r@ =~= upper_ascii(s@.subrange(0, i as int)));
    }
    assert(s@.subrange(0, i as int) =~= s@);
    r
}

/// Delimiter of frames in hexadecimal text: the flag octet's two digits.
pub open spec fn delimiter() -> Seq<char> {
    seq!['F', '9']
}

/// The frame that a candidate stands for, if it is hexadecimal text of one.
pub open spec fn candidate_frames(cur: Seq<char>) -> Seq<FrameView> {
    match hex_bytes(cur) {
        Some(b) => match decode_frame(b) {
            Ok(f) => seq![f],
            Err(_) => Seq::empty(),
        },
        None => Seq::empty(),
    }
}

/// The frames of the candidates of `s` from index `pos` on, in order; a
/// candidate that is not the hexadecimal text of a frame is skipped.
pub open spec fn frames_from(s: Seq<char>, pos: int) -> Seq<FrameView>
    decreases s.len() - pos,
{
    if pos < 0 || pos > s.len() {
        Seq::empty()
    } else {
        match find_from(s, delimiter(), pos) {
            None => Seq::empty(),
            Some(i) => match find_from(s, delimiter(), i + 2) {
                None => Seq::empty(),
                Some(j) => {
                    proof {
                        lemma_find_from(s, delimiter(), pos);
                        lemma_find_from(s, delimiter(), i + 2);
                    }
                    candidate_frames(s.subrange(i, j + 2)) + frames_from(s, j + 2)
                },
            },
        }
    }
}

/// Splits hexadecimal text into frame candidates delimited by `F9` (after
/// upper-casing) and decodes each; candidates that are not the text of a
/// frame are dropped.
pub fn parse(hexstring: String) -> (r: Vec<Frame>)
    ensures
        r@.map_values(|f: Frame| f@) == frames_from(upper_ascii(hexstring@), 0),
{
    let text = upper_ascii_of(&chars_of(hexstring.as_str()));
    let delim: Vec<char> = vec!['F', '9'];
    assert(delim@ =~= delimiter());
    let n = text.len();
    let mut frames: Vec<Frame> = Vec::new();
    let mut pos: usize = 0;
    let ghost total = frames_from(text@, 0);
    while pos <= n
        invariant
            n == text@.len(),
            delim@ == delimiter(),
            total == frames_from(text@, 0),
            pos <= n,
            frames@.map_values(|f: Frame| f@) + frames_from(text@, pos as int) == total,
        ensures
            frames@.map_values(|f: Frame| f@) == total,
        decreases n - pos,
    {
        let ghost done = frames@.map_values(|f: Frame| f@);
        let i = match find_chars(&text, &delim, pos) {
            Some(i) => i,
            None => {
                assert(done + Seq::<FrameView>::empty() =~= done);
                break;
            },
        };
        proof {
            lemma_find_from(text@, delimiter(), pos as int);
        }
        let j = match find_chars(&text, &delim, i + 2) {
            Some(j) => j,
            None => {
                assert(done + Seq::<FrameView>::empty() =~= done);
                break;
            },
        };
        proof {
            lemma_find_from(text@, delimiter(), i + 2);
        }
        let ghost cands = candidate_frames(text@.subrange(i as int, j + 2));
        let cur = copy_range(&text, i, j + 2);
        match hex_bytes_of(&cur) {
            Some(b) => match Frame::from_bytes(b) {
                Ok(f) => {
                    frames.push(f);
                    assert(frames@.map_values(|f: Frame| f@) =~= done + cands);
                },
                Err(_) => {
                    assert(frames@.map_values(|f: Frame| f@) =~= done + cands);
                },
            },
            None => {
                assert(frames@.map_values(|f: Frame| f@) =~= done + cands);
            },
        }
        assert(done + cands + frames_from(text@, j + 2) =~= done + (cands + frames_from(
            text@,
            j + 2,
        )));
        pos = j + 2;
    }
    frames
}

/// Failure of `generate`.
#[derive(Debug, Clone, Copy, PartialEq, Eq, Structural)]
pub enum GenerateError {
    /// The address is not the hexadecimal text of an octet.
    InvalidAddress,
    /// The control field is not the hexadecimal text of an octet.
    InvalidControl,
    /// The frame could not be built.
    Build(BuildError),
}

/// Builds the frame of an address and a control octet given as hexadecimal
/// text, and of a content.
pub fn generate(address: &str, control: &str, content: String) -> (r: Result<Frame, GenerateError>)
    ensures
        match (hex_byte(address@), hex_byte(control@)) {
            (None, _) => r == Err::<Frame, GenerateError>(GenerateError::InvalidAddress),
            (Some(_), None) => r == Err::<Frame, GenerateError>(GenerateError::InvalidControl),
            (Some(a), Some(c)) => if encode_utf8(with_crlf(content@)).len() > MAX_PAYLOAD {
                r == Err::<Frame, GenerateError>(GenerateError::Build(BuildError::ContentTooLong))
            } else {
                r matches Ok(f) && f@ == built_frame(a, c, with_crlf(content@))
            },
        },
{
    let address = match hexbyte_to_bytes(address) {
        Some(a) => Address::from_bits(a),
        None => return Err(GenerateError::InvalidAddress),
    };
    let control = match hexbyte_to_bytes(control) {
        Some(c) => Control::from_bits(c),
        None => return Err(GenerateError::InvalidControl),
    };
    let builder = FrameBuilder::default().with_address(address).with_control(control).with_content(
        content,
    );
    match builder.build() {
        Ok(f) => Ok(f),
        Err(e) => Err(GenerateError::Build(e)),
    }
}

} // verus!
