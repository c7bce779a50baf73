//! Display and Debug rendering of `char`s.
use vstd::prelude::*;
use vstd::utf8::encode_scalar;

use crate::escape::{hex_as_ascii, hex_digit};
use crate::fmt::{FmtArg, FmtKind};
use crate::panic_val::{PanicVal, PanicVariant, Piece};

verus! {

/// What a character shows between its quotes in Debug formatting: tab,
/// carriage return, newline, backslash and single quote as a backslash and a
/// letter; other control characters as `\xNN`; anything else as its UTF-8
/// encoding (a double quote included).
pub open spec fn char_escape(c: char) -> Seq<u8> {
    let u = c as u32;
    if u == 9 {
        seq![92u8, 116u8]
    } else if u == 13 {
        seq![92u8, 114u8]
    } else if u == 10 {
        seq![92u8, 110u8]
    } else if u == 92 {
        seq![92u8, 92u8]
    } else if u == 39 {
        seq![92u8, 39u8]
    } else if u < 32 {
        seq![92u8, 120u8, hex_digit((u / 16) as u8), hex_digit((u % 16) as u8)]
    } else {
        encode_scalar(u)
    }
}

/// The Debug text of a character, quotes included.
pub open spec fn char_debug_text(c: char) -> Seq<u8> {
    seq![39u8] + char_escape(c) + seq![39u8]
}

/// The UTF-8 encoding of a character, in the first `len` bytes of an array.
pub fn char_to_utf8(c: char) -> (r: ([u8; 4], usize))
    ensures
        1 <= r.1 <= 4,
        r.0@.take(r.1 as int) == encode_scalar(c as u32),
        forall|i: int| r.1 <= i < 4 ==> r.0@[i] == 0,
{
    let u = c as u32;
    proof { vstd::utf8::char_is_scalar(c); }
    if u <= 0x7F {
        let r = ([(u & 0x7F) as u8, 0, 0, 0], 1usize);
        assert(r.0@.take(1) =~= encode_scalar(u));
        r
    } else if u <= 0x7FF {
        let b0 = 0xC0u8 | ((u >> 6) & 0x1F) as u8;
        let b1 = 0x80u8 | (u & 0x3F) as u8;
        let r = ([b0, b1, 0, 0], 2usize);
        assert(r.0@.take(2) =~= encode_scalar(u));
        r
    } else if u <= 0xFFFF {
        let b0 = 0xE0u8 | ((u >> 12) & 0x0F) as u8;
        let b1 = 0x80u8 | ((u >> 6) & 0x3F) as u8;
        let b2 = 0x80u8 | (u & 0x3F) as u8;
        let r = ([b0, b1, b2, 0], 3usize);
        assert(r.0@.take(3) =~= encode_scalar(u));
        r
    } else {
        let b0 = 0xF0u8 | ((u >> 18) & 0x7) as u8;
        let b1 = 0x80u8 | ((u >> 12) & 0x3F) as u8;
        let b2 = 0x80u8 | ((u >> 6) & 0x3F) as u8;
        let b3 = 0x80u8 | (u & 0x3F) as u8;
        let r = ([b0, b1, b2, b3], 4usize);
        assert(r.0@.take(4) =~= encode_scalar(u));
        r
    }
}

/// The length of the Debug text of a character, quotes included.
pub fn char_debug_len(c: char) -> (r: usize)
    ensures
        r == char_debug_text(c).len(),
{
    let (_, n) = char_to_debug_inner(c);
    n + 2
}

/// A character rendered into a small buffer: the first `len` bytes count.
#[derive(Debug, Copy, Clone)]
pub struct FmtChar {
    encoded: [u8; 12],
    len: u8,
}

impl View for FmtChar {
    type V = Seq<u8>;

    closed spec fn view(&self) -> Seq<u8> {
        self.encoded@.take(if self.len <= 12 { self.len as int } else { 12 })
    }
}

/// The text `t` in a 12-byte buffer, followed by zeros.
pub open spec fn zero_padded(t: Seq<u8>) -> Seq<u8> {
    t + Seq::new((12 - t.len()) as nat, |i: int| 0u8)
}

impl FmtChar {
    /// The whole 12-byte buffer.
    pub closed spec fn buffer(&self) -> Seq<u8> {
        self.encoded@
    }

    /// The buffer, of which the first `len()` bytes are the text.
    pub fn encoded(&self) -> (r: &[u8; 12])
        ensures
            r@.take(self@.len() as int) == self@,
            r@ == self.buffer(),
    {
        assert(self.encoded@.take(12) =~= self.encoded@);
        &self.encoded
    }

    /// The length of the text.
    pub fn len(&self) -> (r: usize)
        ensures
            r == self@.len(),
    {
        if self.len <= 12 {
            self.len as usize
        } else {
            12
        }
    }
}

/// The UTF-8 encoding of a character, for Display formatting.
pub fn char_to_display(c: char) -> (r: FmtChar)
    ensures
        r@ == encode_scalar(c as u32),
        r.buffer() == zero_padded(r@),
{
    let (a, len) = char_to_utf8(c);
    let r = FmtChar { encoded: [a[0], a[1], a[2], a[3], 0, 0, 0, 0, 0, 0, 0, 0], len: len as u8 };
    assert(r@ =~= a@.take(len as int));
    assert(r.buffer() =~= zero_padded(r@));
    r
}

fn char_to_debug_inner(c: char) -> (r: ([u8; 4], usize))
    ensures
        1 <= r.1 <= 4,
        r.0@.take(r.1 as int) == char_escape(c),
{
    let u = c as u32;
    if u == 9 {
        let r = ([92u8, 116u8, 32u8, 32u8], 2usize);
        assert(r.0@.take(2) =~= char_escape(c));
        r
    } else if u == 13 {
        let r = ([92u8, 114u8, 32u8, 32u8], 2usize);
        assert(r.0@.take(2) =~= char_escape(c));
        r
    } else if u == 10 {
        let r = ([92u8, 110u8, 32u8, 32u8], 2usize);
        assert(r.0@.take(2) =~= char_escape(c));
        r
    } else if u == 92 {
        let r = ([92u8, 92u8, 32u8, 32u8], 2usize);
        assert(r.0@.take(2) =~= char_escape(c));
        r
    } else if u == 39 {
        let r = ([92u8, 39u8, 32u8, 32u8], 2usize);
        assert(r.0@.take(2) =~= char_escape(c));
        r
    } else if u < 32 {
        let n = u as u8;
        let r = ([92u8, 120u8, hex_as_ascii(n / 16), hex_as_ascii(n % 16)], 4usize);
        assert(r.0@.take(4) =~= char_escape(c));
        r
    } else {
        char_to_utf8(c)
    }
}

/// The Debug text of a character, in single quotes.
pub fn char_to_debug(c: char) -> (r: FmtChar)
    ensures
        r@ == char_debug_text(c),
        r.buffer() == zero_padded(r@),
{
    let (a, len) = char_to_debug_inner(c);
    let encoded: [u8; 12] = if len == 1 {
        [39, a[0], 39, 0, 0, 0, 0, 0, 0, 0, 0, 0]
    } else if len == 2 {
        [39, a[0], a[1], 39, 0, 0, 0, 0, 0, 0, 0, 0]
    } else if len == 3 {
        [39, a[0], a[1], a[2], 39, 0, 0, 0, 0, 0, 0, 0]
    } else {
        [39, a[0], a[1], a[2], a[3], 39, 0, 0, 0, 0, 0, 0]
    };
    let r = FmtChar { encoded, len: (len + 2) as u8 };
    assert(r@ =~= seq![39u8] + a@.take(len as int) + seq![39u8]);
    assert(r.buffer() =~= zero_padded(r@));
    r
}

impl PanicVal {
    /// A character, as its UTF-8 encoding (Display) or quoted and escaped
    /// (Debug).
    pub fn from_char(c: char, fmtarg: FmtArg) -> (r: PanicVal)
        ensures
            r.is_prefmt(if fmtarg.fmt_kind == FmtKind::Display {
                encode_scalar(c as u32)
            } else {
                char_debug_text(c)
            }),
            r.wf(),
    {
        let fc = match fmtarg.fmt_kind {
            FmtKind::Display => char_to_display(c),
            FmtKind::Debug => char_to_debug(c),
        };
        let n = fc.len();
        let enc = fc.encoded();
        let mut bytes: Vec<u8> = Vec::new();
        let mut i: usize = 0;
        while i < n
            invariant
                i <= n <= 12,
                n == fc@.len(),
                enc@.take(n as int) == fc@,
                bytes@ == enc@.take(i as int),
            decreases n - i,
        {
            bytes.push(enc[i]);
            i = i + 1;
            assert(bytes@ =~= enc@.take(i as int));
        }
        PanicVal { var: PanicVariant::Single(Piece::PreFmt(bytes)) }
    }
}

} // verus!
