//! The values that the library knows how to render, with their formatting
//! metadata.
use vstd::prelude::*;
use vstd::string::StringSliceAdditionalSpecFns;
use vstd::math::abs;

use crate::fmt::{FmtArg, FmtKind, NumberFmt};
use crate::int_fmt::{Sign, int_text, compute_decimal_len, radix_len, apply_mask, fmt_decimal,
    fmt_binary, fmt_hexadecimal};

verus! {

/// Padding and Display/Debug choice of a string value.
#[derive(Debug, Copy, Clone, PartialEq, Eq, Structural)]
pub struct StrFmt {
    pub leftpad: u8,
    pub rightpad: u8,
    pub fmt_kind: FmtKind,
}

impl StrFmt {
    /// No padding, Display formatting.
    pub open spec fn display_spec() -> StrFmt {
        StrFmt { leftpad: 0, rightpad: 0, fmt_kind: FmtKind::Display }
    }

    /// No padding, Display formatting.
    pub fn display() -> (r: StrFmt)
        ensures
            r == StrFmt::display_spec(),
    {
        StrFmt { leftpad: 0, rightpad: 0, fmt_kind: FmtKind::Display }
    }

    /// No padding, with the Display/Debug choice of `fmtarg`.
    pub fn new(fmtarg: FmtArg) -> (r: StrFmt)
        ensures
            r == (StrFmt { leftpad: 0, rightpad: 0, fmt_kind: fmtarg.fmt_kind }),
    {
        StrFmt { leftpad: 0, rightpad: 0, fmt_kind: fmtarg.fmt_kind }
    }
}

/// An integer waiting to be rendered: its sign and magnitude, width in bits,
/// base, alternate flag, and the length of its text.
#[derive(Debug, Copy, Clone, PartialEq, Eq, Structural)]
pub struct IntVal {
    pub sign: Sign,
    pub number_fmt: NumberFmt,
    pub is_alternate: bool,
    pub bits: u8,
    pub len: u8,
    pub value: u128,
}

/// The length of an integer's text, from closed forms: digit-count
/// thresholds for decimal, digit counts of the bit pattern otherwise.
pub fn compute_len(sign: Sign, n: u128, bits: u8, fmt: FmtArg) -> (r: usize)
    requires
        fmt.number_fmt != NumberFmt::Decimal ==> 1 <= bits <= 128,
    ensures
        r == int_text(sign, n as nat, bits as nat, fmt.number_fmt, fmt.is_alternate).len(),
        r <= 130,
{
    match fmt.number_fmt {
        NumberFmt::Decimal => compute_decimal_len(sign, n),
        NumberFmt::Hexadecimal => {
            let with_0x: usize = if fmt.is_alternate { 2 } else { 0 };
            radix_len(apply_mask(sign, n, bits), 16) + with_0x
        },
        NumberFmt::Binary => {
            let with_0b: usize = if fmt.is_alternate { 2 } else { 0 };
            radix_len(apply_mask(sign, n, bits), 2) + with_0b
        },
    }
}

impl IntVal {
    /// The text this integer renders to.
    pub open spec fn text(self) -> Seq<u8> {
        int_text(self.sign, self.value as nat, self.bits as nat, self.number_fmt, self.is_alternate)
    }

    /// The stored length is the length of the text.
    pub open spec fn wf(self) -> bool {
        &&& 1 <= self.bits <= 128
        &&& self.len as nat == self.text().len()
    }

    /// An integer of `bits` bits, to be rendered as `fmtarg` says.
    pub fn new(sign: Sign, n: u128, bits: u8, fmtarg: FmtArg) -> (r: IntVal)
        requires
            1 <= bits <= 128,
        ensures
            r.wf(),
            r.sign == sign,
            r.value == n,
            r.bits == bits,
            r.number_fmt == fmtarg.number_fmt,
            r.is_alternate == fmtarg.is_alternate,
    {
        let len = compute_len(sign, n, bits, fmtarg);
        IntVal {
            sign,
            number_fmt: fmtarg.number_fmt,
            is_alternate: fmtarg.is_alternate,
            bits,
            len: len as u8,
            value: n,
        }
    }

    /// Whether the width is supported and the stored length is right.
    pub fn is_well_formed(&self) -> (r: bool)
        ensures
            r == self.wf(),
    {
        if self.bits < 1 || self.bits > 128 {
            return false;
        }
        let fmtarg = FmtArg {
            indentation: 0,
            is_alternate: self.is_alternate,
            fmt_kind: FmtKind::Display,
            number_fmt: self.number_fmt,
        };
        compute_len(self.sign, self.value, self.bits, fmtarg) == self.len as usize
    }

    /// Renders the integer.
    pub fn fmt(&self) -> (r: Vec<u8>)
        requires
            self.wf(),
        ensures
            r@ == self.text(),
    {
        match self.number_fmt {
            NumberFmt::Decimal => fmt_decimal(self.sign, self.value),
            NumberFmt::Binary => fmt_binary(apply_mask(self.sign, self.value, self.bits), self.is_alternate),
            NumberFmt::Hexadecimal => fmt_hexadecimal(apply_mask(self.sign, self.value, self.bits), self.is_alternate),
        }
    }

    /// The length of the rendered integer.
    pub fn len(&self) -> (r: usize)
        requires
            self.wf(),
        ensures
            r == self.text().len(),
    {
        self.len as usize
    }
}

/// One unit of output: a string (verbatim or escaped, with padding), bytes
/// already formatted, or an integer.
#[derive(Debug, Clone)]
pub enum Piece {
    Str(StrFmt, Vec<u8>),
    PreFmt(Vec<u8>),
    Int(IntVal),
}

/// A string piece with this format and these bytes.
pub open spec fn is_str_piece(p: Piece, strfmt: StrFmt, s: Seq<u8>) -> bool {
    match p {
        Piece::Str(f, b) => f == strfmt && b@ == s,
        _ => false,
    }
}

/// A piece of already formatted bytes.
pub open spec fn is_prefmt_piece(p: Piece, s: Seq<u8>) -> bool {
    match p {
        Piece::PreFmt(b) => b@ == s,
        _ => false,
    }
}

/// An integer piece.
pub open spec fn is_int_piece(p: Piece, sign: Sign, n: nat, bits: nat, f: FmtArg) -> bool {
    match p {
        Piece::Int(i) => i.wf() && i.sign == sign && i.value == n && i.bits == bits
            && i.number_fmt == f.number_fmt && i.is_alternate == f.is_alternate,
        _ => false,
    }
}

impl Piece {
    /// Integers carry consistent lengths.
    pub open spec fn wf(self) -> bool {
        match self {
            Piece::Int(i) => i.wf(),
            _ => true,
        }
    }

    /// The two pieces hold the same contents.
    pub open spec fn same(self, o: Piece) -> bool {
        match (self, o) {
            (Piece::Str(f, b), Piece::Str(g, c)) => f == g && b@ == c@,
            (Piece::PreFmt(b), Piece::PreFmt(c)) => b@ == c@,
            (Piece::Int(i), Piece::Int(j)) => i == j,
            _ => false,
        }
    }

    /// A piece with the same contents.
    pub fn copy(&self) -> (r: Piece)
        ensures
            r.same(*self),
            self.wf() ==> r.wf(),
    {
        match self {
            Piece::Str(f, b) => Piece::Str(*f, vstd::slice::slice_to_vec(b.as_slice())),
            Piece::PreFmt(b) => Piece::PreFmt(vstd::slice::slice_to_vec(b.as_slice())),
            Piece::Int(i) => Piece::Int(*i),
        }
    }
}

/// What a value holds: one piece, or the pieces of a bracketed list.
#[derive(Debug, Clone)]
pub enum PanicVariant {
    Single(Piece),
    Slice(Vec<Piece>),
}

/// A value that the library knows how to render, along with its formatting
/// metadata.
#[derive(Debug, Clone)]
pub struct PanicVal {
    pub var: PanicVariant,
}

impl PanicVal {
    /// The pieces that this value renders as, in order.
    pub open spec fn pieces(self) -> Seq<Piece> {
        match self.var {
            PanicVariant::Single(p) => seq![p],
            PanicVariant::Slice(v) => v@,
        }
    }

    /// The two values hold pieces with the same contents, in the same order.
    pub open spec fn same(self, o: PanicVal) -> bool {
        &&& self.var is Single <==> o.var is Single
        &&& self.pieces().len() == o.pieces().len()
        &&& forall|i: int| 0 <= i < self.pieces().len() ==> (#[trigger] self.pieces()[i]).same(o.pieces()[i])
    }

    /// Whether every integer piece of this value carries the right length.
    pub fn is_well_formed(&self) -> (r: bool)
        ensures
            r == self.wf(),
    {
        match &self.var {
            PanicVariant::Single(p) => {
                let ok = match p {
                    Piece::Int(i) => i.is_well_formed(),
                    _ => true,
                };
                assert(self.pieces()[0] == *p);
                ok
            },
            PanicVariant::Slice(ps) => {
                let mut i: usize = 0;
                while i < ps.len()
                    invariant
                        i <= ps@.len(),
                        self.pieces() == ps@,
                        forall|j: int| 0 <= j < i ==> (#[trigger] ps@[j]).wf(),
                    decreases ps@.len() - i,
                {
                    let ok = match &ps[i] {
                        Piece::Int(iv) => iv.is_well_formed(),
                        _ => true,
                    };
                    if !ok {
                        return false;
                    }
                    i = i + 1;
                }
                true
            },
        }
    }

    /// A value with the same contents.
    pub fn copy(&self) -> (r: PanicVal)
        ensures
            r.same(*self),
            self.wf() ==> r.wf(),
    {
        match &self.var {
            PanicVariant::Single(p) => PanicVal { var: PanicVariant::Single(p.copy()) },
            PanicVariant::Slice(ps) => {
                let mut out: Vec<Piece> = Vec::new();
                let mut i: usize = 0;
                while i < ps.len()
                    invariant
                        i <= ps@.len(),
                        self.pieces() == ps@,
                        out@.len() == i,
                        forall|j: int| 0 <= j < i ==> (#[trigger] out@[j]).same(ps@[j]),
                        self.wf() ==> forall|j: int| 0 <= j < i ==> (#[trigger] out@[j]).wf(),
                    decreases ps@.len() - i,
                {
                    proof { if self.wf() { assert(self.pieces()[i as int].wf()); } }
                    out.push(ps[i].copy());
                    i = i + 1;
                }
                PanicVal { var: PanicVariant::Slice(out) }
            },
        }
    }

    /// Every piece is well formed.
    pub open spec fn wf(self) -> bool {
        forall|i: int| 0 <= i < self.pieces().len() ==> (#[trigger] self.pieces()[i]).wf()
    }

    /// A single string piece.
    pub open spec fn is_str(self, strfmt: StrFmt, s: Seq<u8>) -> bool {
        match self.var {
            PanicVariant::Single(p) => is_str_piece(p, strfmt, s),
            _ => false,
        }
    }

    /// A single piece of already formatted bytes.
    pub open spec fn is_prefmt(self, s: Seq<u8>) -> bool {
        match self.var {
            PanicVariant::Single(p) => is_prefmt_piece(p, s),
            _ => false,
        }
    }

    /// A single integer piece.
    pub open spec fn is_int(self, sign: Sign, n: nat, bits: nat, f: FmtArg) -> bool {
        match self.var {
            PanicVariant::Single(p) => is_int_piece(p, sign, n, bits, f),
            _ => false,
        }
    }

    /// The piece of a single-piece value.
    pub fn into_piece(self) -> (r: Piece)
        requires
            self.var is Single,
        ensures
            self.var == PanicVariant::Single(r),
    {
        match self.var {
            PanicVariant::Single(p) => p,
            PanicVariant::Slice(_) => Piece::PreFmt(Vec::new()),
        }
    }

    /// A value that renders to nothing.
    pub fn empty() -> (r: PanicVal)
        ensures
            r.is_str(StrFmt::display_spec(), Seq::empty()),
            r.wf(),
    {
        PanicVal { var: PanicVariant::Single(Piece::Str(StrFmt::display(), Vec::new())) }
    }

    /// A value that outputs `string` verbatim.
    pub fn write_str(string: &str) -> (r: PanicVal)
        ensures
            r.is_str(StrFmt::display_spec(), string.spec_bytes()),
            r.wf(),
    {
        let bytes = vstd::slice::slice_to_vec(string.as_bytes());
        PanicVal { var: PanicVariant::Single(Piece::Str(StrFmt::display(), bytes)) }
    }

    /// A value that renders `this` in the Display or Debug style of `f`.
    pub fn from_str(this: &str, f: FmtArg) -> (r: PanicVal)
        ensures
            r.is_str(StrFmt::new_spec(f), this.spec_bytes()),
            r.wf(),
    {
        let bytes = vstd::slice::slice_to_vec(this.as_bytes());
        PanicVal { var: PanicVariant::Single(Piece::Str(StrFmt::new(f), bytes)) }
    }

    /// A string value holding `bytes`, formatted as `strfmt` says.
    pub fn from_bytes(bytes: Vec<u8>, strfmt: StrFmt) -> (r: PanicVal)
        ensures
            r.is_str(strfmt, bytes@),
            r.wf(),
    {
        PanicVal { var: PanicVariant::Single(Piece::Str(strfmt, bytes)) }
    }

    /// A value holding `string` verbatim.
    pub fn write_short_str(string: crate::array_string::ArrayString<16>) -> (r: PanicVal)
        ensures
            r.is_str(StrFmt::display_spec(), string@),
            r.wf(),
    {
        PanicVal::from_bytes(vstd::slice::slice_to_vec(string.as_bytes()), StrFmt::display())
    }

    /// `true` or `false`.
    pub fn from_bool(this: bool, f: FmtArg) -> (r: PanicVal)
        ensures
            r.is_str(StrFmt::display_spec(), if this { "true".spec_bytes() } else { "false".spec_bytes() }),
            r.wf(),
    {
        PanicVal::write_str(if this { "true" } else { "false" })
    }

    /// An unsigned integer of `bits` bits.
    pub fn from_unsigned(n: u128, bits: u8, f: FmtArg) -> (r: PanicVal)
        requires
            1 <= bits <= 128,
        ensures
            r.is_int(Sign::Positive, n as nat, bits as nat, f),
            r.wf(),
    {
        PanicVal { var: PanicVariant::Single(Piece::Int(IntVal::new(Sign::Positive, n, bits, f))) }
    }

    /// A signed integer of `bits` bits.
    pub fn from_signed(n: i128, bits: u8, f: FmtArg) -> (r: PanicVal)
        requires
            1 <= bits <= 128,
        ensures
            r.is_int(if n < 0 { Sign::Negative } else { Sign::Positive }, abs(n as int) as nat, bits as nat, f),
            r.wf(),
    {
        let sign = if n < 0 { Sign::Negative } else { Sign::Positive };
        let m: u128 = if n < 0 {
            if n == i128::MIN { (i128::MAX as u128) + 1 } else { (-n) as u128 }
        } else {
            n as u128
        };
        PanicVal { var: PanicVariant::Single(Piece::Int(IntVal::new(sign, m, bits, f))) }
    }

    /// A `u8`.
    pub fn from_u8(this: u8, f: FmtArg) -> (r: PanicVal)
        ensures r.is_int(Sign::Positive, this as nat, 8, f), r.wf(),
    {
        PanicVal::from_unsigned(this as u128, 8, f)
    }

    /// A `u16`.
    pub fn from_u16(this: u16, f: FmtArg) -> (r: PanicVal)
        ensures r.is_int(Sign::Positive, this as nat, 16, f), r.wf(),
    {
        PanicVal::from_unsigned(this as u128, 16, f)
    }

    /// A `u32`.
    pub fn from_u32(this: u32, f: FmtArg) -> (r: PanicVal)
        ensures r.is_int(Sign::Positive, this as nat, 32, f), r.wf(),
    {
        PanicVal::from_unsigned(this as u128, 32, f)
    }

    /// A `u64`.
    pub fn from_u64(this: u64, f: FmtArg) -> (r: PanicVal)
        ensures r.is_int(Sign::Positive, this as nat, 64, f), r.wf(),
    {
        PanicVal::from_unsigned(this as u128, 64, f)
    }

    /// A `u128`.
    pub fn from_u128(this: u128, f: FmtArg) -> (r: PanicVal)
        ensures r.is_int(Sign::Positive, this as nat, 128, f), r.wf(),
    {
        PanicVal::from_unsigned(this, 128, f)
    }

    /// A `usize`.
    pub fn from_usize(this: usize, f: FmtArg) -> (r: PanicVal)
        ensures r.is_int(Sign::Positive, this as nat, usize::BITS as nat, f), r.wf(),
    {
        PanicVal::from_unsigned(this as u128, usize::BITS as u8, f)
    }

    /// An `i8`.
    pub fn from_i8(this: i8, f: FmtArg) -> (r: PanicVal)
        ensures r.is_int(if this < 0 { Sign::Negative } else { Sign::Positive }, abs(this as int) as nat, 8, f), r.wf(),
    {
        PanicVal::from_signed(this as i128, 8, f)
    }

    /// An `i16`.
    pub fn from_i16(this: i16, f: FmtArg) -> (r: PanicVal)
        ensures r.is_int(if this < 0 { Sign::Negative } else { Sign::Positive }, abs(this as int) as nat, 16, f), r.wf(),
    {
        PanicVal::from_signed(this as i128, 16, f)
    }

    /// An `i32`.
    pub fn from_i32(this: i32, f: FmtArg) -> (r: PanicVal)
        ensures r.is_int(if this < 0 { Sign::Negative } else { Sign::Positive }, abs(this as int) as nat, 32, f), r.wf(),
    {
        PanicVal::from_signed(this as i128, 32, f)
    }

    /// An `i64`.
    pub fn from_i64(this: i64, f: FmtArg) -> (r: PanicVal)
        ensures r.is_int(if this < 0 { Sign::Negative } else { Sign::Positive }, abs(this as int) as nat, 64, f), r.wf(),
    {
        PanicVal::from_signed(this as i128, 64, f)
    }

    /// An `i128`.
    pub fn from_i128(this: i128, f: FmtArg) -> (r: PanicVal)
        ensures r.is_int(if this < 0 { Sign::Negative } else { Sign::Positive }, abs(this as int) as nat, 128, f), r.wf(),
    {
        PanicVal::from_signed(this, 128, f)
    }

    /// An `isize`.
    pub fn from_isize(this: isize, f: FmtArg) -> (r: PanicVal)
        ensures r.is_int(if this < 0 { Sign::Negative } else { Sign::Positive }, abs(this as int) as nat, isize::BITS as nat, f), r.wf(),
    {
        PanicVal::from_signed(this as i128, isize::BITS as u8, f)
    }
}

impl StrFmt {
    /// No padding, with the Display/Debug choice of `fmtarg`.
    pub open spec fn new_spec(fmtarg: FmtArg) -> StrFmt {
        StrFmt { leftpad: 0, rightpad: 0, fmt_kind: fmtarg.fmt_kind }
    }
}

} // verus!
