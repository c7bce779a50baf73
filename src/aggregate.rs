//! The structural tokens of aggregate rendering: delimiters, separators,
//! padding, the value-count formula, and lists.
use vstd::prelude::*;
use vstd::string::StringSliceAdditionalSpecFns;
use vstd::utf8::encode_scalar;

use crate::char_fmt::char_debug_text;
use crate::fmt::{FmtArg, FmtKind};
use crate::int_fmt::Sign;
use crate::panic_val::{PanicVal, PanicVariant, Piece, StrFmt, is_str_piece, is_int_piece, is_prefmt_piece};

verus! {

/// An opening or closing delimiter, or the space between a type name and
/// its braces.
#[derive(Debug, Copy, Clone, PartialEq, Eq, Structural)]
pub enum Delimiter {
    OpenParen,
    CloseParen,
    OpenBracket,
    CloseBracket,
    OpenBrace,
    CloseBrace,
    Empty,
}

/// The text of a delimiter, compact or in alternate mode.
pub open spec fn delim_text(d: Delimiter, alternate: bool) -> Seq<u8> {
    if !alternate {
        match d {
            Delimiter::OpenParen => "(".spec_bytes(),
            Delimiter::CloseParen => ")".spec_bytes(),
            Delimiter::OpenBracket => "[".spec_bytes(),
            Delimiter::CloseBracket => "]".spec_bytes(),
            Delimiter::OpenBrace => " { ".spec_bytes(),
            Delimiter::CloseBrace => " }".spec_bytes(),
            Delimiter::Empty => " ".spec_bytes(),
        }
    } else {
        match d {
            Delimiter::OpenParen => "(\n".spec_bytes(),
            Delimiter::CloseParen => ")".spec_bytes(),
            Delimiter::OpenBracket => "[\n".spec_bytes(),
            Delimiter::CloseBracket => "]".spec_bytes(),
            Delimiter::OpenBrace => " {\n".spec_bytes(),
            Delimiter::CloseBrace => "}".spec_bytes(),
            Delimiter::Empty => "\n".spec_bytes(),
        }
    }
}

/// The padding of a delimiter: in alternate mode an opening one is followed
/// by the indentation and a closing one preceded by it.
pub open spec fn delim_fmt(d: Delimiter, f: FmtArg) -> StrFmt {
    if !f.is_alternate {
        StrFmt::display_spec()
    } else {
        match d {
            Delimiter::CloseParen | Delimiter::CloseBracket | Delimiter::CloseBrace =>
                StrFmt { leftpad: f.indentation, rightpad: 0, fmt_kind: FmtKind::Display },
            _ => StrFmt { leftpad: 0, rightpad: f.indentation, fmt_kind: FmtKind::Display },
        }
    }
}

impl Delimiter {
    /// This delimiter as a value.
    pub fn to_panicval(self, f: FmtArg) -> (r: PanicVal)
        ensures
            r.is_str(delim_fmt(self, f), delim_text(self, f.is_alternate)),
            r.wf(),
    {
        if !f.is_alternate {
            match self {
                Delimiter::OpenParen => PanicVal::write_str("("),
                Delimiter::CloseParen => PanicVal::write_str(")"),
                Delimiter::OpenBracket => PanicVal::write_str("["),
                Delimiter::CloseBracket => PanicVal::write_str("]"),
                Delimiter::OpenBrace => PanicVal::write_str(" { "),
                Delimiter::CloseBrace => PanicVal::write_str(" }"),
                Delimiter::Empty => PanicVal::write_str(" "),
            }
        } else {
            match self {
                Delimiter::OpenParen => PanicVal::write_str("(\n").with_rightpad(f),
                Delimiter::CloseParen => PanicVal::write_str(")").with_leftpad(f),
                Delimiter::OpenBracket => PanicVal::write_str("[\n").with_rightpad(f),
                Delimiter::CloseBracket => PanicVal::write_str("]").with_leftpad(f),
                Delimiter::OpenBrace => PanicVal::write_str(" {\n").with_rightpad(f),
                Delimiter::CloseBrace => PanicVal::write_str("}").with_leftpad(f),
                Delimiter::Empty => PanicVal::write_str("\n").with_rightpad(f),
            }
        }
    }

    /// This delimiter as a single-value array.
    pub fn to_panicvals(self, f: FmtArg) -> (r: [PanicVal; 1])
        ensures
            r[0].is_str(delim_fmt(self, f), delim_text(self, f.is_alternate)),
            r[0].wf(),
    {
        [self.to_panicval(f)]
    }
}

/// Whether the fields of an aggregate are positional or named.
#[derive(Debug, Copy, Clone, PartialEq, Eq, Structural)]
pub enum TypeDelim {
    Tupled,
    Braced,
}

impl TypeDelim {
    /// The opening and closing delimiters of this kind of aggregate.
    pub fn get_open_and_close(self) -> (r: (Delimiter, Delimiter))
        ensures
            self == TypeDelim::Tupled ==> r == (Delimiter::OpenParen, Delimiter::CloseParen),
            self == TypeDelim::Braced ==> r == (Delimiter::OpenBrace, Delimiter::CloseBrace),
    {
        match self {
            TypeDelim::Tupled => (Delimiter::OpenParen, Delimiter::CloseParen),
            TypeDelim::Braced => (Delimiter::OpenBrace, Delimiter::CloseBrace),
        }
    }
}

/// The number of values that an aggregate renders as: its name alone when it
/// has no fields, else the name, two delimiters, one separator per field
/// (and a name per field when braced) and the fields' own values.
pub open spec fn pv_count(field_amount: nat, summed_pv_count: nat, delimiter: TypeDelim) -> nat {
    if field_amount == 0 {
        1
    } else {
        3 + (if delimiter == TypeDelim::Tupled { field_amount } else { 2 * field_amount }) + summed_pv_count
    }
}

/// The inputs of the value-count formula of an aggregate.
#[derive(Debug, Copy, Clone, PartialEq, Eq, Structural)]
pub struct ComputePvCount {
    pub field_amount: usize,
    pub summed_pv_count: usize,
    pub delimiter: TypeDelim,
}

impl ComputePvCount {
    /// The number of values the aggregate renders as.
    pub fn call(&self) -> (r: usize)
        requires
            pv_count(self.field_amount as nat, self.summed_pv_count as nat, self.delimiter) <= usize::MAX,
        ensures
            r == pv_count(self.field_amount as nat, self.summed_pv_count as nat, self.delimiter),
    {
        if self.field_amount == 0 {
            return 1;
        }
        let field_tokens = match self.delimiter {
            TypeDelim::Tupled => self.field_amount,
            TypeDelim::Braced => 2 * self.field_amount,
        };
        3 + field_tokens + self.summed_pv_count
    }
}

/// Whether a separator follows the last field or element.
#[derive(Debug, Copy, Clone, PartialEq, Eq, Structural)]
pub enum IsLast {
    Yes,
    No,
}

/// The text of a separator: followed by a space between compact fields,
/// left out after the last compact field, followed by a newline in
/// alternate mode.
pub open spec fn sep_text(sep: Seq<u8>, is_last: IsLast, alternate: bool) -> Seq<u8> {
    if !alternate {
        if is_last == IsLast::No {
            sep + " ".spec_bytes()
        } else {
            Seq::empty()
        }
    } else {
        sep + "\n".spec_bytes()
    }
}

/// The padding after a separator: the indentation of the next field in
/// alternate mode.
pub open spec fn sep_fmt(is_last: IsLast, f: FmtArg) -> StrFmt {
    StrFmt {
        leftpad: 0,
        rightpad: if f.is_alternate && is_last == IsLast::No { f.indentation } else { 0 },
        fmt_kind: FmtKind::Display,
    }
}

/// A separator between fields or elements: a short string and whether it
/// follows the last one.
#[derive(Debug, Clone)]
pub struct Separator {
    sep: Vec<u8>,
    is_last: IsLast,
}

impl View for Separator {
    type V = (Seq<u8>, IsLast);

    closed spec fn view(&self) -> (Seq<u8>, IsLast) {
        (self.sep@, self.is_last)
    }
}

impl Separator {
    /// A separator of at most 12 bytes.
    pub fn new(string: &str, is_last_field: IsLast) -> (r: Separator)
        requires
            string.spec_bytes().len() <= 12,
        ensures
            r@ == (string.spec_bytes(), is_last_field),
    {
        Separator { sep: vstd::slice::slice_to_vec(string.as_bytes()), is_last: is_last_field }
    }

    /// `,` between elements.
    pub fn comma_sep() -> (r: Separator)
        ensures
            r@ == (",".spec_bytes(), IsLast::No),
    {
        proof { reveal_strlit(","); vstd::string::is_ascii_spec_bytes(","); }
        Separator::new(",", IsLast::No)
    }

    /// `,` after the last element.
    pub fn comma_term() -> (r: Separator)
        ensures
            r@ == (",".spec_bytes(), IsLast::Yes),
    {
        proof { reveal_strlit(","); vstd::string::is_ascii_spec_bytes(","); }
        Separator::new(",", IsLast::Yes)
    }

    /// This separator as a value.
    pub fn to_panicval(self, f: FmtArg) -> (r: PanicVal)
        ensures
            r.is_str(sep_fmt(self@.1, f), sep_text(self@.0, self@.1, f.is_alternate)),
            r.wf(),
    {
        let p = separator_piece(self.sep.as_slice(), self.is_last, f);
        PanicVal { var: PanicVariant::Single(p) }
    }

    /// This separator as a single-value array.
    pub fn to_panicvals(self, f: FmtArg) -> (r: [PanicVal; 1])
        ensures
            r[0].is_str(sep_fmt(self@.1, f), sep_text(self@.0, self@.1, f.is_alternate)),
            r[0].wf(),
    {
        [self.to_panicval(f)]
    }
}

fn separator_piece(sep: &[u8], is_last: IsLast, f: FmtArg) -> (r: Piece)
    ensures
        is_str_piece(r, sep_fmt(is_last, f), sep_text(sep@, is_last, f.is_alternate)),
{
    proof {
        reveal_strlit(" ");
        reveal_strlit("\n");
        vstd::string::is_ascii_spec_bytes(" ");
        vstd::string::is_ascii_spec_bytes("\n");
    }
    let mut bytes: Vec<u8> = Vec::new();
    let strfmt = StrFmt {
        leftpad: 0,
        rightpad: if f.is_alternate && is_last == IsLast::No { f.indentation } else { 0 },
        fmt_kind: FmtKind::Display,
    };
    if !f.is_alternate && is_last == IsLast::Yes {
        assert(bytes@ =~= sep_text(sep@, is_last, f.is_alternate));
        return Piece::Str(strfmt, bytes);
    }
    let mut i: usize = 0;
    while i < sep.len()
        invariant
            i <= sep@.len(),
            bytes@ == sep@.take(i as int),
        decreases sep@.len() - i,
    {
        bytes.push(sep[i]);
        i = i + 1;
        assert(bytes@ =~= sep@.take(i as int));
    }
    assert(sep@.take(i as int) =~= sep@);
    if f.is_alternate {
        bytes.push(10);
    } else {
        bytes.push(32);
    }
    assert(bytes@ =~= sep_text(sep@, is_last, f.is_alternate));
    Piece::Str(strfmt, bytes)
}

impl PanicVal {
    /// How many spaces are printed before this value.
    pub fn leftpad(&self) -> (r: u8)
        ensures
            r == match self.var {
                PanicVariant::Single(Piece::Str(f, _)) => f.leftpad,
                _ => 0u8,
            },
    {
        match &self.var {
            PanicVariant::Single(Piece::Str(f, _)) => f.leftpad,
            _ => 0,
        }
    }

    /// How many spaces are printed after this value.
    pub fn rightpad(&self) -> (r: u8)
        ensures
            r == match self.var {
                PanicVariant::Single(Piece::Str(f, _)) => f.rightpad,
                _ => 0u8,
            },
    {
        match &self.var {
            PanicVariant::Single(Piece::Str(f, _)) => f.rightpad,
            _ => 0,
        }
    }

    /// Sets the spaces printed before a string value to `fmtarg.indentation`;
    /// other values are returned unchanged.
    pub fn with_leftpad(self, fmtarg: FmtArg) -> (r: PanicVal)
        ensures
            forall|f: StrFmt, s: Seq<u8>| self.is_str(f, s) ==> r.is_str(StrFmt { leftpad: fmtarg.indentation, ..f }, s),
            !(self.var is Single && self.var->Single_0 is Str) ==> r == self,
            self.wf() ==> r.wf(),
    {
        match self.var {
            PanicVariant::Single(Piece::Str(f, b)) =>
                PanicVal { var: PanicVariant::Single(Piece::Str(StrFmt { leftpad: fmtarg.indentation, ..f }, b)) },
            var => PanicVal { var },
        }
    }

    /// Sets the spaces printed after a string value to `fmtarg.indentation`;
    /// other values are returned unchanged.
    pub fn with_rightpad(self, fmtarg: FmtArg) -> (r: PanicVal)
        ensures
            forall|f: StrFmt, s: Seq<u8>| self.is_str(f, s) ==> r.is_str(StrFmt { rightpad: fmtarg.indentation, ..f }, s),
            !(self.var is Single && self.var->Single_0 is Str) ==> r == self,
            self.wf() ==> r.wf(),
    {
        match self.var {
            PanicVariant::Single(Piece::Str(f, b)) =>
                PanicVal { var: PanicVariant::Single(Piece::Str(StrFmt { rightpad: fmtarg.indentation, ..f }, b)) },
            var => PanicVal { var },
        }
    }

    /// A separator between fields or elements, as a value.
    pub fn from_element_separator(separator: &str, is_last_field: IsLast, fmtarg: FmtArg) -> (r: PanicVal)
        ensures
            r.is_str(sep_fmt(is_last_field, fmtarg), sep_text(separator.spec_bytes(), is_last_field, fmtarg.is_alternate)),
            r.wf(),
    {
        PanicVal { var: PanicVariant::Single(separator_piece(separator.as_bytes(), is_last_field, fmtarg)) }
    }

    /// A copy of this value, in a single-value array.
    pub fn to_panicvals(&self, f: FmtArg) -> (r: [PanicVal; 1])
        ensures
            r[0].same(*self),
            self.wf() ==> r[0].wf(),
    {
        [self.copy()]
    }

    /// A copy of this value.
    pub fn to_panicval(&self, f: FmtArg) -> (r: PanicVal)
        ensures
            r.same(*self),
            self.wf() ==> r.wf(),
    {
        self.copy()
    }
}

/// The configuration of the elements of a list of `n` elements: one level
/// deeper, and compact when the list is empty.
pub open spec fn slice_fmt(fmtarg: FmtArg, n: nat) -> FmtArg {
    FmtArg {
        is_alternate: if n == 0 { false } else { fmtarg.is_alternate },
        ..fmtarg.indent_spec()
    }
}

/// `ps` is the layout of a list of `n` elements as far as its first `i`
/// elements: an opening bracket, then each element followed by its
/// separator.
pub open spec fn slice_prefix(ps: Seq<Piece>, i: nat, n: nat, fmtarg: FmtArg) -> bool {
    let f = slice_fmt(fmtarg, n);
    &&& ps.len() == 1 + 2 * i
    &&& is_str_piece(ps[0], delim_fmt(Delimiter::OpenBracket, f), delim_text(Delimiter::OpenBracket, f.is_alternate))
    &&& forall|j: int| 0 <= j < i ==> is_str_piece(#[trigger] ps[2 * j + 2],
            sep_fmt(if j == n - 1 { IsLast::Yes } else { IsLast::No }, f),
            sep_text(",".spec_bytes(), if j == n - 1 { IsLast::Yes } else { IsLast::No }, f.is_alternate))
}

/// `r` is a list of `n` elements: an opening bracket, each element followed
/// by a comma separator (a terminating one after the last), and a closing
/// bracket one level less deep.
pub open spec fn is_slice_val(r: PanicVal, n: nat, fmtarg: FmtArg) -> bool {
    let f = slice_fmt(fmtarg, n);
    let ps = r.pieces();
    &&& r.var is Slice
    &&& slice_prefix(ps.take((2 * n + 1) as int), n, n, fmtarg)
    &&& ps.len() == 2 * n + 2
    &&& is_str_piece(ps[(2 * n + 1) as int], delim_fmt(Delimiter::CloseBracket, f.unindent_spec()),
            delim_text(Delimiter::CloseBracket, f.is_alternate))
}

fn slice_fmt_exec(fmtarg: FmtArg, n: usize) -> (r: FmtArg)
    ensures
        r == slice_fmt(fmtarg, n as nat),
{
    let f = fmtarg.indent();
    if n == 0 {
        f.set_alternate(false)
    } else {
        f
    }
}

fn slice_start(f: FmtArg) -> (r: Vec<Piece>)
    ensures
        r@.len() == 1,
        is_str_piece(r@[0], delim_fmt(Delimiter::OpenBracket, f), delim_text(Delimiter::OpenBracket, f.is_alternate)),
{
    let mut v: Vec<Piece> = Vec::new();
    v.push(Delimiter::OpenBracket.to_panicval(f).into_piece());
    v
}

fn slice_push(out: &mut Vec<Piece>, e: Piece, i: usize, n: usize, fmtarg: FmtArg, f: FmtArg)
    requires
        i < n,
        f == slice_fmt(fmtarg, n as nat),
        slice_prefix(old(out)@, i as nat, n as nat, fmtarg),
    ensures
        final(out)@ == old(out)@.push(e).push(final(out)@[2 * i + 2]),
        slice_prefix(final(out)@, (i + 1) as nat, n as nat, fmtarg),
{
    out.push(e);
    let sep = if i + 1 == n { Separator::comma_term() } else { Separator::comma_sep() };
    out.push(sep.to_panicval(f).into_piece());
    assert forall|j: int| 0 <= j < i + 1 implies is_str_piece(#[trigger] out@[2 * j + 2],
            sep_fmt(if j == n - 1 { IsLast::Yes } else { IsLast::No }, f),
            sep_text(",".spec_bytes(), if j == n - 1 { IsLast::Yes } else { IsLast::No }, f.is_alternate)) by {
        if j < i {
            assert(old(out)@[2 * j + 2] == out@[2 * j + 2]);
        }
    }
}

fn slice_finish(out: Vec<Piece>, n: usize, fmtarg: FmtArg, f: FmtArg) -> (r: PanicVal)
    requires
        f == slice_fmt(fmtarg, n as nat),
        slice_prefix(out@, n as nat, n as nat, fmtarg),
        forall|j: int| 0 <= j < out@.len() ==> (#[trigger] out@[j]).wf(),
    ensures
        is_slice_val(r, n as nat, fmtarg),
        r.pieces().take(2 * n + 1) == out@,
        r.wf(),
{
    let mut out = out;
    let ghost before = out@;
    out.push(Delimiter::CloseBracket.to_panicval(f.unindent()).into_piece());
    assert(out@.take(2 * n + 1) =~= before);
    assert forall|j: int| 0 <= j < out@.len() implies (#[trigger] out@[j]).wf() by {
        if j < before.len() {
            assert(before[j] == out@[j]);
        }
    }
    PanicVal { var: PanicVariant::Slice(out) }
}

impl PanicVal {
    /// A list of `u8` elements, each rendered as `fmtarg` says one level deeper.
    pub fn from_slice_u8(this: &[u8], fmtarg: FmtArg) -> (r: PanicVal)
        ensures
            is_slice_val(r, this@.len(), fmtarg),
            r.wf(),
            forall|i: int| 0 <= i < this@.len() ==> is_int_piece(#[trigger] r.pieces()[2 * i + 1], Sign::Positive, this@[i] as nat, 8 as nat, slice_fmt(fmtarg, this@.len())),
    {
        let n = this.len();
        let f = slice_fmt_exec(fmtarg, n);
        let mut out = slice_start(f);
        let mut i: usize = 0;
        while i < n
            invariant
                n == this@.len(),
                i <= n,
                f == slice_fmt(fmtarg, n as nat),
                slice_prefix(out@, i as nat, n as nat, fmtarg),
                forall|j: int| 0 <= j < i ==> is_int_piece(#[trigger] out@[2 * j + 1], Sign::Positive, this@[j] as nat, 8 as nat, slice_fmt(fmtarg, this@.len())),
                forall|j: int| 0 <= j < out@.len() ==> (#[trigger] out@[j]).wf(),
            decreases n - i,
        {
            let e = PanicVal::from_u8(this[i], f).into_piece();
            let ghost before = out@;
            slice_push(&mut out, e, i, n, fmtarg, f);
            assert forall|j: int| 0 <= j < i + 1 implies is_int_piece(#[trigger] out@[2 * j + 1], Sign::Positive, this@[j] as nat, 8 as nat, slice_fmt(fmtarg, this@.len())) by {
                if j < i {
                    assert(before[2 * j + 1] == out@[2 * j + 1]);
                }
            }
            assert forall|j: int| 0 <= j < out@.len() implies (#[trigger] out@[j]).wf() by {
                if j < before.len() {
                    assert(before[j] == out@[j]);
                }
            }
            i = i + 1;
        }
        let r = slice_finish(out, n, fmtarg, f);
        proof {
            assert forall|j: int| 0 <= j < n implies is_int_piece(#[trigger] r.pieces()[2 * j + 1], Sign::Positive, this@[j] as nat, 8 as nat, slice_fmt(fmtarg, this@.len())) by {
                assert(r.pieces().take(2 * n + 1)[2 * j + 1] == r.pieces()[2 * j + 1]);
            }
        }
        r
    }

    /// A list of `u16` elements, each rendered as `fmtarg` says one level deeper.
    pub fn from_slice_u16(this: &[u16], fmtarg: FmtArg) -> (r: PanicVal)
        ensures
            is_slice_val(r, this@.len(), fmtarg),
            r.wf(),
            forall|i: int| 0 <= i < this@.len() ==> is_int_piece(#[trigger] r.pieces()[2 * i + 1], Sign::Positive, this@[i] as nat, 16 as nat, slice_fmt(fmtarg, this@.len())),
    {
        let n = this.len();
        let f = slice_fmt_exec(fmtarg, n);
        let mut out = slice_start(f);
        let mut i: usize = 0;
        while i < n
            invariant
                n == this@.len(),
                i <= n,
                f == slice_fmt(fmtarg, n as nat),
                slice_prefix(out@, i as nat, n as nat, fmtarg),
                forall|j: int| 0 <= j < i ==> is_int_piece(#[trigger] out@[2 * j + 1], Sign::Positive, this@[j] as nat, 16 as nat, slice_fmt(fmtarg, this@.len())),
                forall|j: int| 0 <= j < out@.len() ==> (#[trigger] out@[j]).wf(),
            decreases n - i,
        {
            let e = PanicVal::from_u16(this[i], f).into_piece();
            let ghost before = out@;
            slice_push(&mut out, e, i, n, fmtarg, f);
            assert forall|j: int| 0 <= j < i + 1 implies is_int_piece(#[trigger] out@[2 * j + 1], Sign::Positive, this@[j] as nat, 16 as nat, slice_fmt(fmtarg, this@.len())) by {
                if j < i {
                    assert(before[2 * j + 1] == out@[2 * j + 1]);
                }
            }
            assert forall|j: int| 0 <= j < out@.len() implies (#[trigger] out@[j]).wf() by {
                if j < before.len() {
                    assert(before[j] == out@[j]);
                }
            }
            i = i + 1;
        }
        let r = slice_finish(out, n, fmtarg, f);
        proof {
            assert forall|j: int| 0 <= j < n implies is_int_piece(#[trigger] r.pieces()[2 * j + 1], Sign::Positive, this@[j] as nat, 16 as nat, slice_fmt(fmtarg, this@.len())) by {
                assert(r.pieces().take(2 * n + 1)[2 * j + 1] == r.pieces()[2 * j + 1]);
            }
        }
        r
    }

    /// A list of `u32` elements, each rendered as `fmtarg` says one level deeper.
    pub fn from_slice_u32(this: &[u32], fmtarg: FmtArg) -> (r: PanicVal)
        ensures
            is_slice_val(r, this@.len(), fmtarg),
            r.wf(),
            forall|i: int| 0 <= i < this@.len() ==> is_int_piece(#[trigger] r.pieces()[2 * i + 1], Sign::Positive, this@[i] as nat, 32 as nat, slice_fmt(fmtarg, this@.len())),
    {
        let n = this.len();
        let f = slice_fmt_exec(fmtarg, n);
        let mut out = slice_start(f);
        let mut i: usize = 0;
        while i < n
            invariant
                n == this@.len(),
                i <= n,
                f == slice_fmt(fmtarg, n as nat),
                slice_prefix(out@, i as nat, n as nat, fmtarg),
                forall|j: int| 0 <= j < i ==> is_int_piece(#[trigger] out@[2 * j + 1], Sign::Positive, this@[j] as nat, 32 as nat, slice_fmt(fmtarg, this@.len())),
                forall|j: int| 0 <= j < out@.len() ==> (#[trigger] out@[j]).wf(),
            decreases n - i,
        {
            let e = PanicVal::from_u32(this[i], f).into_piece();
            let ghost before = out@;
            slice_push(&mut out, e, i, n, fmtarg, f);
            assert forall|j: int| 0 <= j < i + 1 implies is_int_piece(#[trigger] out@[2 * j + 1], Sign::Positive, this@[j] as nat, 32 as nat, slice_fmt(fmtarg, this@.len())) by {
                if j < i {
                    assert(before[2 * j + 1] == out@[2 * j + 1]);
                }
            }
            assert forall|j: int| 0 <= j < out@.len() implies (#[trigger] out@[j]).wf() by {
                if j < before.len() {
                    assert(before[j] == out@[j]);
                }
            }
            i = i + 1;
        }
        let r = slice_finish(out, n, fmtarg, f);
        proof {
            assert forall|j: int| 0 <= j < n implies is_int_piece(#[trigger] r.pieces()[2 * j + 1], Sign::Positive, this@[j] as nat, 32 as nat, slice_fmt(fmtarg, this@.len())) by {
                assert(r.pieces().take(2 * n + 1)[2 * j + 1] == r.pieces()[2 * j + 1]);
            }
        }
        r
    }

    /// A list of `u64` elements, each rendered as `fmtarg` says one level deeper.
    pub fn from_slice_u64(this: &[u64], fmtarg: FmtArg) -> (r: PanicVal)
        ensures
            is_slice_val(r, this@.len(), fmtarg),
            r.wf(),
            forall|i: int| 0 <= i < this@.len() ==> is_int_piece(#[trigger] r.pieces()[2 * i + 1], Sign::Positive, this@[i] as nat, 64 as nat, slice_fmt(fmtarg, this@.len())),
    {
        let n = this.len();
        let f = slice_fmt_exec(fmtarg, n);
        let mut out = slice_start(f);
        let mut i: usize = 0;
        while i < n
            invariant
                n == this@.len(),
                i <= n,
                f == slice_fmt(fmtarg, n as nat),
                slice_prefix(out@, i as nat, n as nat, fmtarg),
                forall|j: int| 0 <= j < i ==> is_int_piece(#[trigger] out@[2 * j + 1], Sign::Positive, this@[j] as nat, 64 as nat, slice_fmt(fmtarg, this@.len())),
                forall|j: int| 0 <= j < out@.len() ==> (#[trigger] out@[j]).wf(),
            decreases n - i,
        {
            let e = PanicVal::from_u64(this[i], f).into_piece();
            let ghost before = out@;
            slice_push(&mut out, e, i, n, fmtarg, f);
            assert forall|j: int| 0 <= j < i + 1 implies is_int_piece(#[trigger] out@[2 * j + 1], Sign::Positive, this@[j] as nat, 64 as nat, slice_fmt(fmtarg, this@.len())) by {
                if j < i {
                    assert(before[2 * j + 1] == out@[2 * j + 1]);
                }
            }
            assert forall|j: int| 0 <= j < out@.len() implies (#[trigger] out@[j]).wf() by {
                if j < before.len() {
                    assert(before[j] == out@[j]);
                }
            }
            i = i + 1;
        }
        let r = slice_finish(out, n, fmtarg, f);
        proof {
            assert forall|j: int| 0 <= j < n implies is_int_piece(#[trigger] r.pieces()[2 * j + 1], Sign::Positive, this@[j] as nat, 64 as nat, slice_fmt(fmtarg, this@.len())) by {
                assert(r.pieces().take(2 * n + 1)[2 * j + 1] == r.pieces()[2 * j + 1]);
            }
        }
        r
    }

    /// A list of `u128` elements, each rendered as `fmtarg` says one level deeper.
    pub fn from_slice_u128(this: &[u128], fmtarg: FmtArg) -> (r: PanicVal)
        ensures
            is_slice_val(r, this@.len(), fmtarg),
            r.wf(),
            forall|i: int| 0 <= i < this@.len() ==> is_int_piece(#[trigger] r.pieces()[2 * i + 1], Sign::Positive, this@[i] as nat, 128 as nat, slice_fmt(fmtarg, this@.len())),
    {
        let n = this.len();
        let f = slice_fmt_exec(fmtarg, n);
        let mut out = slice_start(f);
        let mut i: usize = 0;
        while i < n
            invariant
                n == this@.len(),
                i <= n,
                f == slice_fmt(fmtarg, n as nat),
                slice_prefix(out@, i as nat, n as nat, fmtarg),
                forall|j: int| 0 <= j < i ==> is_int_piece(#[trigger] out@[2 * j + 1], Sign::Positive, this@[j] as nat, 128 as nat, slice_fmt(fmtarg, this@.len())),
                forall|j: int| 0 <= j < out@.len() ==> (#[trigger] out@[j]).wf(),
            decreases n - i,
        {
            let e = PanicVal::from_u128(this[i], f).into_piece();
            let ghost before = out@;
            slice_push(&mut out, e, i, n, fmtarg, f);
            assert forall|j: int| 0 <= j < i + 1 implies is_int_piece(#[trigger] out@[2 * j + 1], Sign::Positive, this@[j] as nat, 128 as nat, slice_fmt(fmtarg, this@.len())) by {
                if j < i {
                    assert(before[2 * j + 1] == out@[2 * j + 1]);
                }
            }
            assert forall|j: int| 0 <= j < out@.len() implies (#[trigger] out@[j]).wf() by {
                if j < before.len() {
                    assert(before[j] == out@[j]);
                }
            }
            i = i + 1;
        }
        let r = slice_finish(out, n, fmtarg, f);
        proof {
            assert forall|j: int| 0 <= j < n implies is_int_piece(#[trigger] r.pieces()[2 * j + 1], Sign::Positive, this@[j] as nat, 128 as nat, slice_fmt(fmtarg, this@.len())) by {
                assert(r.pieces().take(2 * n + 1)[2 * j + 1] == r.pieces()[2 * j + 1]);
            }
        }
        r
    }

    /// A list of `usize` elements, each rendered as `fmtarg` says one level deeper.
    pub fn from_slice_usize(this: &[usize], fmtarg: FmtArg) -> (r: PanicVal)
        ensures
            is_slice_val(r, this@.len(), fmtarg),
            r.wf(),
            forall|i: int| 0 <= i < this@.len() ==> is_int_piece(#[trigger] r.pieces()[2 * i + 1], Sign::Positive, this@[i] as nat, usize::BITS as nat, slice_fmt(fmtarg, this@.len())),
    {
        let n = this.len();
        let f = slice_fmt_exec(fmtarg, n);
        let mut out = slice_start(f);
        let mut i: usize = 0;
        while i < n
            invariant
                n == this@.len(),
                i <= n,
                f == slice_fmt(fmtarg, n as nat),
                slice_prefix(out@, i as nat, n as nat, fmtarg),
                forall|j: int| 0 <= j < i ==> is_int_piece(#[trigger] out@[2 * j + 1], Sign::Positive, this@[j] as nat, usize::BITS as nat, slice_fmt(fmtarg, this@.len())),
                forall|j: int| 0 <= j < out@.len() ==> (#[trigger] out@[j]).wf(),
            decreases n - i,
        {
            let e = PanicVal::from_usize(this[i], f).into_piece();
            let ghost before = out@;
            slice_push(&mut out, e, i, n, fmtarg, f);
            assert forall|j: int| 0 <= j < i + 1 implies is_int_piece(#[trigger] out@[2 * j + 1], Sign::Positive, this@[j] as nat, usize::BITS as nat, slice_fmt(fmtarg, this@.len())) by {
                if j < i {
                    assert(before[2 * j + 1] == out@[2 * j + 1]);
                }
            }
            assert forall|j: int| 0 <= j < out@.len() implies (#[trigger] out@[j]).wf() by {
                if j < before.len() {
                    assert(before[j] == out@[j]);
                }
            }
            i = i + 1;
        }
        let r = slice_finish(out, n, fmtarg, f);
        proof {
            assert forall|j: int| 0 <= j < n implies is_int_piece(#[trigger] r.pieces()[2 * j + 1], Sign::Positive, this@[j] as nat, usize::BITS as nat, slice_fmt(fmtarg, this@.len())) by {
                assert(r.pieces().take(2 * n + 1)[2 * j + 1] == r.pieces()[2 * j + 1]);
            }
        }
        r
    }

    /// A list of `i8` elements, each rendered as `fmtarg` says one level deeper.
    pub fn from_slice_i8(this: &[i8], fmtarg: FmtArg) -> (r: PanicVal)
        ensures
            is_slice_val(r, this@.len(), fmtarg),
            r.wf(),
            forall|i: int| 0 <= i < this@.len() ==> is_int_piece(#[trigger] r.pieces()[2 * i + 1], if this@[i] < 0 { Sign::Negative } else { Sign::Positive }, vstd::math::abs(this@[i] as int) as nat, 8 as nat, slice_fmt(fmtarg, this@.len())),
    {
        let n = this.len();
        let f = slice_fmt_exec(fmtarg, n);
        let mut out = slice_start(f);
        let mut i: usize = 0;
        while i < n
            invariant
                n == this@.len(),
                i <= n,
                f == slice_fmt(fmtarg, n as nat),
                slice_prefix(out@, i as nat, n as nat, fmtarg),
                forall|j: int| 0 <= j < i ==> is_int_piece(#[trigger] out@[2 * j + 1], if this@[j] < 0 { Sign::Negative } else { Sign::Positive }, vstd::math::abs(this@[j] as int) as nat, 8 as nat, slice_fmt(fmtarg, this@.len())),
                forall|j: int| 0 <= j < out@.len() ==> (#[trigger] out@[j]).wf(),
            decreases n - i,
        {
            let e = PanicVal::from_i8(this[i], f).into_piece();
            let ghost before = out@;
            slice_push(&mut out, e, i, n, fmtarg, f);
            assert forall|j: int| 0 <= j < i + 1 implies is_int_piece(#[trigger] out@[2 * j + 1], if this@[j] < 0 { Sign::Negative } else { Sign::Positive }, vstd::math::abs(this@[j] as int) as nat, 8 as nat, slice_fmt(fmtarg, this@.len())) by {
                if j < i {
                    assert(before[2 * j + 1] == out@[2 * j + 1]);
                }
            }
            assert forall|j: int| 0 <= j < out@.len() implies (#[trigger] out@[j]).wf() by {
                if j < before.len() {
                    assert(before[j] == out@[j]);
                }
            }
            i = i + 1;
        }
        let r = slice_finish(out, n, fmtarg, f);
        proof {
            assert forall|j: int| 0 <= j < n implies is_int_piece(#[trigger] r.pieces()[2 * j + 1], if this@[j] < 0 { Sign::Negative } else { Sign::Positive }, vstd::math::abs(this@[j] as int) as nat, 8 as nat, slice_fmt(fmtarg, this@.len())) by {
                assert(r.pieces().take(2 * n + 1)[2 * j + 1] == r.pieces()[2 * j + 1]);
            }
        }
        r
    }

    /// A list of `i16` elements, each rendered as `fmtarg` says one level deeper.
    pub fn from_slice_i16(this: &[i16], fmtarg: FmtArg) -> (r: PanicVal)
        ensures
            is_slice_val(r, this@.len(), fmtarg),
            r.wf(),
            forall|i: int| 0 <= i < this@.len() ==> is_int_piece(#[trigger] r.pieces()[2 * i + 1], if this@[i] < 0 { Sign::Negative } else { Sign::Positive }, vstd::math::abs(this@[i] as int) as nat, 16 as nat, slice_fmt(fmtarg, this@.len())),
    {
        let n = this.len();
        let f = slice_fmt_exec(fmtarg, n);
        let mut out = slice_start(f);
        let mut i: usize = 0;
        while i < n
            invariant
                n == this@.len(),
                i <= n,
                f == slice_fmt(fmtarg, n as nat),
                slice_prefix(out@, i as nat, n as nat, fmtarg),
                forall|j: int| 0 <= j < i ==> is_int_piece(#[trigger] out@[2 * j + 1], if this@[j] < 0 { Sign::Negative } else { Sign::Positive }, vstd::math::abs(this@[j] as int) as nat, 16 as nat, slice_fmt(fmtarg, this@.len())),
                forall|j: int| 0 <= j < out@.len() ==> (#[trigger] out@[j]).wf(),
            decreases n - i,
        {
            let e = PanicVal::from_i16(this[i], f).into_piece();
            let ghost before = out@;
            slice_push(&mut out, e, i, n, fmtarg, f);
            assert forall|j: int| 0 <= j < i + 1 implies is_int_piece(#[trigger] out@[2 * j + 1], if this@[j] < 0 { Sign::Negative } else { Sign::Positive }, vstd::math::abs(this@[j] as int) as nat, 16 as nat, slice_fmt(fmtarg, this@.len())) by {
                if j < i {
                    assert(before[2 * j + 1] == out@[2 * j + 1]);
                }
            }
            assert forall|j: int| 0 <= j < out@.len() implies (#[trigger] out@[j]).wf() by {
                if j < before.len() {
                    assert(before[j] == out@[j]);
                }
            }
            i = i + 1;
        }
        let r = slice_finish(out, n, fmtarg, f);
        proof {
            assert forall|j: int| 0 <= j < n implies is_int_piece(#[trigger] r.pieces()[2 * j + 1], if this@[j] < 0 { Sign::Negative } else { Sign::Positive }, vstd::math::abs(this@[j] as int) as nat, 16 as nat, slice_fmt(fmtarg, this@.len())) by {
                assert(r.pieces().take(2 * n + 1)[2 * j + 1] == r.pieces()[2 * j + 1]);
            }
        }
        r
    }

    /// A list of `i32` elements, each rendered as `fmtarg` says one level deeper.
    pub fn from_slice_i32(this: &[i32], fmtarg: FmtArg) -> (r: PanicVal)
        ensures
            is_slice_val(r, this@.len(), fmtarg),
            r.wf(),
            forall|i: int| 0 <= i < this@.len() ==> is_int_piece(#[trigger] r.pieces()[2 * i + 1], if this@[i] < 0 { Sign::Negative } else { Sign::Positive }, vstd::math::abs(this@[i] as int) as nat, 32 as nat, slice_fmt(fmtarg, this@.len())),
    {
        let n = this.len();
        let f = slice_fmt_exec(fmtarg, n);
        let mut out = slice_start(f);
        let mut i: usize = 0;
        while i < n
            invariant
                n == this@.len(),
                i <= n,
                f == slice_fmt(fmtarg, n as nat),
                slice_prefix(out@, i as nat, n as nat, fmtarg),
                forall|j: int| 0 <= j < i ==> is_int_piece(#[trigger] out@[2 * j + 1], if this@[j] < 0 { Sign::Negative } else { Sign::Positive }, vstd::math::abs(this@[j] as int) as nat, 32 as nat, slice_fmt(fmtarg, this@.len())),
                forall|j: int| 0 <= j < out@.len() ==> (#[trigger] out@[j]).wf(),
            decreases n - i,
        {
            let e = PanicVal::from_i32(this[i], f).into_piece();
            let ghost before = out@;
            slice_push(&mut out, e, i, n, fmtarg, f);
            assert forall|j: int| 0 <= j < i + 1 implies is_int_piece(#[trigger] out@[2 * j + 1], if this@[j] < 0 { Sign::Negative } else { Sign::Positive }, vstd::math::abs(this@[j] as int) as nat, 32 as nat, slice_fmt(fmtarg, this@.len())) by {
                if j < i {
                    assert(before[2 * j + 1] == out@[2 * j + 1]);
                }
            }
            assert forall|j: int| 0 <= j < out@.len() implies (#[trigger] out@[j]).wf() by {
                if j < before.len() {
                    assert(before[j] == out@[j]);
                }
            }
            i = i + 1;
        }
        let r = slice_finish(out, n, fmtarg, f);
        proof {
            assert forall|j: int| 0 <= j < n implies is_int_piece(#[trigger] r.pieces()[2 * j + 1], if this@[j] < 0 { Sign::Negative } else { Sign::Positive }, vstd::math::abs(this@[j] as int) as nat, 32 as nat, slice_fmt(fmtarg, this@.len())) by {
                assert(r.pieces().take(2 * n + 1)[2 * j + 1] == r.pieces()[2 * j + 1]);
            }
        }
        r
    }

    /// A list of `i64` elements, each rendered as `fmtarg` says one level deeper.
    pub fn from_slice_i64(this: &[i64], fmtarg: FmtArg) -> (r: PanicVal)
        ensures
            is_slice_val(r, this@.len(), fmtarg),
            r.wf(),
            forall|i: int| 0 <= i < this@.len() ==> is_int_piece(#[trigger] r.pieces()[2 * i + 1], if this@[i] < 0 { Sign::Negative } else { Sign::Positive }, vstd::math::abs(this@[i] as int) as nat, 64 as nat, slice_fmt(fmtarg, this@.len())),
    {
        let n = this.len();
        let f = slice_fmt_exec(fmtarg, n);
        let mut out = slice_start(f);
        let mut i: usize = 0;
        while i < n
            invariant
                n == this@.len(),
                i <= n,
                f == slice_fmt(fmtarg, n as nat),
                slice_prefix(out@, i as nat, n as nat, fmtarg),
                forall|j: int| 0 <= j < i ==> is_int_piece(#[trigger] out@[2 * j + 1], if this@[j] < 0 { Sign::Negative } else { Sign::Positive }, vstd::math::abs(this@[j] as int) as nat, 64 as nat, slice_fmt(fmtarg, this@.len())),
                forall|j: int| 0 <= j < out@.len() ==> (#[trigger] out@[j]).wf(),
            decreases n - i,
        {
            let e = PanicVal::from_i64(this[i], f).into_piece();
            let ghost before = out@;
            slice_push(&mut out, e, i, n, fmtarg, f);
            assert forall|j: int| 0 <= j < i + 1 implies is_int_piece(#[trigger] out@[2 * j + 1], if this@[j] < 0 { Sign::Negative } else { Sign::Positive }, vstd::math::abs(this@[j] as int) as nat, 64 as nat, slice_fmt(fmtarg, this@.len())) by {
                if j < i {
                    assert(before[2 * j + 1] == out@[2 * j + 1]);
                }
            }
            assert forall|j: int| 0 <= j < out@.len() implies (#[trigger] out@[j]).wf() by {
                if j < before.len() {
                    assert(before[j] == out@[j]);
                }
            }
            i = i + 1;
        }
        let r = slice_finish(out, n, fmtarg, f);
        proof {
            assert forall|j: int| 0 <= j < n implies is_int_piece(#[trigger] r.pieces()[2 * j + 1], if this@[j] < 0 { Sign::Negative } else { Sign::Positive }, vstd::math::abs(this@[j] as int) as nat, 64 as nat, slice_fmt(fmtarg, this@.len())) by {
                assert(r.pieces().take(2 * n + 1)[2 * j + 1] == r.pieces()[2 * j + 1]);
            }
        }
        r
    }

    /// A list of `i128` elements, each rendered as `fmtarg` says one level deeper.
    pub fn from_slice_i128(this: &[i128], fmtarg: FmtArg) -> (r: PanicVal)
        ensures
            is_slice_val(r, this@.len(), fmtarg),
            r.wf(),
            forall|i: int| 0 <= i < this@.len() ==> is_int_piece(#[trigger] r.pieces()[2 * i + 1], if this@[i] < 0 { Sign::Negative } else { Sign::Positive }, vstd::math::abs(this@[i] as int) as nat, 128 as nat, slice_fmt(fmtarg, this@.len())),
    {
        let n = this.len();
        let f = slice_fmt_exec(fmtarg, n);
        let mut out = slice_start(f);
        let mut i: usize = 0;
        while i < n
            invariant
                n == this@.len(),
                i <= n,
                f == slice_fmt(fmtarg, n as nat),
                slice_prefix(out@, i as nat, n as nat, fmtarg),
                forall|j: int| 0 <= j < i ==> is_int_piece(#[trigger] out@[2 * j + 1], if this@[j] < 0 { Sign::Negative } else { Sign::Positive }, vstd::math::abs(this@[j] as int) as nat, 128 as nat, slice_fmt(fmtarg, this@.len())),
                forall|j: int| 0 <= j < out@.len() ==> (#[trigger] out@[j]).wf(),
            decreases n - i,
        {
            let e = PanicVal::from_i128(this[i], f).into_piece();
            let ghost before = out@;
            slice_push(&mut out, e, i, n, fmtarg, f);
            assert forall|j: int| 0 <= j < i + 1 implies is_int_piece(#[trigger] out@[2 * j + 1], if this@[j] < 0 { Sign::Negative } else { Sign::Positive }, vstd::math::abs(this@[j] as int) as nat, 128 as nat, slice_fmt(fmtarg, this@.len())) by {
                if j < i {
                    assert(before[2 * j + 1] == out@[2 * j + 1]);
                }
            }
            assert forall|j: int| 0 <= j < out@.len() implies (#[trigger] out@[j]).wf() by {
                if j < before.len() {
                    assert(before[j] == out@[j]);
                }
            }
            i = i + 1;
        }
        let r = slice_finish(out, n, fmtarg, f);
        proof {
            assert forall|j: int| 0 <= j < n implies is_int_piece(#[trigger] r.pieces()[2 * j + 1], if this@[j] < 0 { Sign::Negative } else { Sign::Positive }, vstd::math::abs(this@[j] as int) as nat, 128 as nat, slice_fmt(fmtarg, this@.len())) by {
                assert(r.pieces().take(2 * n + 1)[2 * j + 1] == r.pieces()[2 * j + 1]);
            }
        }
        r
    }

    /// A list of `isize` elements, each rendered as `fmtarg` says one level deeper.
    pub fn from_slice_isize(this: &[isize], fmtarg: FmtArg) -> (r: PanicVal)
        ensures
            is_slice_val(r, this@.len(), fmtarg),
            r.wf(),
            forall|i: int| 0 <= i < this@.len() ==> is_int_piece(#[trigger] r.pieces()[2 * i + 1], if this@[i] < 0 { Sign::Negative } else { Sign::Positive }, vstd::math::abs(this@[i] as int) as nat, isize::BITS as nat, slice_fmt(fmtarg, this@.len())),
    {
        let n = this.len();
        let f = slice_fmt_exec(fmtarg, n);
        let mut out = slice_start(f);
        let mut i: usize = 0;
        while i < n
            invariant
                n == this@.len(),
                i <= n,
                f == slice_fmt(fmtarg, n as nat),
                slice_prefix(out@, i as nat, n as nat, fmtarg),
                forall|j: int| 0 <= j < i ==> is_int_piece(#[trigger] out@[2 * j + 1], if this@[j] < 0 { Sign::Negative } else { Sign::Positive }, vstd::math::abs(this@[j] as int) as nat, isize::BITS as nat, slice_fmt(fmtarg, this@.len())),
                forall|j: int| 0 <= j < out@.len() ==> (#[trigger] out@[j]).wf(),
            decreases n - i,
        {
            let e = PanicVal::from_isize(this[i], f).into_piece();
            let ghost before = out@;
            slice_push(&mut out, e, i, n, fmtarg, f);
            assert forall|j: int| 0 <= j < i + 1 implies is_int_piece(#[trigger] out@[2 * j + 1], if this@[j] < 0 { Sign::Negative } else { Sign::Positive }, vstd::math::abs(this@[j] as int) as nat, isize::BITS as nat, slice_fmt(fmtarg, this@.len())) by {
                if j < i {
                    assert(before[2 * j + 1] == out@[2 * j + 1]);
                }
            }
            assert forall|j: int| 0 <= j < out@.len() implies (#[trigger] out@[j]).wf() by {
                if j < before.len() {
                    assert(before[j] == out@[j]);
                }
            }
            i = i + 1;
        }
        let r = slice_finish(out, n, fmtarg, f);
        proof {
            assert forall|j: int| 0 <= j < n implies is_int_piece(#[trigger] r.pieces()[2 * j + 1], if this@[j] < 0 { Sign::Negative } else { Sign::Positive }, vstd::math::abs(this@[j] as int) as nat, isize::BITS as nat, slice_fmt(fmtarg, this@.len())) by {
                assert(r.pieces().take(2 * n + 1)[2 * j + 1] == r.pieces()[2 * j + 1]);
            }
        }
        r
    }

    /// A list of `bool` elements, each rendered as `fmtarg` says one level deeper.
    pub fn from_slice_bool(this: &[bool], fmtarg: FmtArg) -> (r: PanicVal)
        ensures
            is_slice_val(r, this@.len(), fmtarg),
            r.wf(),
            forall|i: int| 0 <= i < this@.len() ==> is_str_piece(#[trigger] r.pieces()[2 * i + 1], StrFmt::display_spec(), if this@[i] { "true".spec_bytes() } else { "false".spec_bytes() }),
    {
        let n = this.len();
        let f = slice_fmt_exec(fmtarg, n);
        let mut out = slice_start(f);
        let mut i: usize = 0;
        while i < n
            invariant
                n == this@.len(),
                i <= n,
                f == slice_fmt(fmtarg, n as nat),
                slice_prefix(out@, i as nat, n as nat, fmtarg),
                forall|j: int| 0 <= j < i ==> is_str_piece(#[trigger] out@[2 * j + 1], StrFmt::display_spec(), if this@[j] { "true".spec_bytes() } else { "false".spec_bytes() }),
                forall|j: int| 0 <= j < out@.len() ==> (#[trigger] out@[j]).wf(),
            decreases n - i,
        {
            let e = PanicVal::from_bool(this[i], f).into_piece();
            let ghost before = out@;
            slice_push(&mut out, e, i, n, fmtarg, f);
            assert forall|j: int| 0 <= j < i + 1 implies is_str_piece(#[trigger] out@[2 * j + 1], StrFmt::display_spec(), if this@[j] { "true".spec_bytes() } else { "false".spec_bytes() }) by {
                if j < i {
                    assert(before[2 * j + 1] == out@[2 * j + 1]);
                }
            }
            assert forall|j: int| 0 <= j < out@.len() implies (#[trigger] out@[j]).wf() by {
                if j < before.len() {
                    assert(before[j] == out@[j]);
                }
            }
            i = i + 1;
        }
        let r = slice_finish(out, n, fmtarg, f);
        proof {
            assert forall|j: int| 0 <= j < n implies is_str_piece(#[trigger] r.pieces()[2 * j + 1], StrFmt::display_spec(), if this@[j] { "true".spec_bytes() } else { "false".spec_bytes() }) by {
                assert(r.pieces().take(2 * n + 1)[2 * j + 1] == r.pieces()[2 * j + 1]);
            }
        }
        r
    }

    /// A list of `char` elements, each rendered as `fmtarg` says one level deeper.
    pub fn from_slice_char(this: &[char], fmtarg: FmtArg) -> (r: PanicVal)
        ensures
            is_slice_val(r, this@.len(), fmtarg),
            r.wf(),
            forall|i: int| 0 <= i < this@.len() ==> is_prefmt_piece(#[trigger] r.pieces()[2 * i + 1], if slice_fmt(fmtarg, this@.len()).fmt_kind == FmtKind::Display { encode_scalar(this@[i] as u32) } else { char_debug_text(this@[i]) }),
    {
        let n = this.len();
        let f = slice_fmt_exec(fmtarg, n);
        let mut out = slice_start(f);
        let mut i: usize = 0;
        while i < n
            invariant
                n == this@.len(),
                i <= n,
                f == slice_fmt(fmtarg, n as nat),
                slice_prefix(out@, i as nat, n as nat, fmtarg),
                forall|j: int| 0 <= j < i ==> is_prefmt_piece(#[trigger] out@[2 * j + 1], if slice_fmt(fmtarg, this@.len()).fmt_kind == FmtKind::Display { encode_scalar(this@[j] as u32) } else { char_debug_text(this@[j]) }),
                forall|j: int| 0 <= j < out@.len() ==> (#[trigger] out@[j]).wf(),
            decreases n - i,
        {
            let e = PanicVal::from_char(this[i], f).into_piece();
            let ghost before = out@;
            slice_push(&mut out, e, i, n, fmtarg, f);
            assert forall|j: int| 0 <= j < i + 1 implies is_prefmt_piece(#[trigger] out@[2 * j + 1], if slice_fmt(fmtarg, this@.len()).fmt_kind == FmtKind::Display { encode_scalar(this@[j] as u32) } else { char_debug_text(this@[j]) }) by {
                if j < i {
                    assert(before[2 * j + 1] == out@[2 * j + 1]);
                }
            }
            assert forall|j: int| 0 <= j < out@.len() implies (#[trigger] out@[j]).wf() by {
                if j < before.len() {
                    assert(before[j] == out@[j]);
                }
            }
            i = i + 1;
        }
        let r = slice_finish(out, n, fmtarg, f);
        proof {
            assert forall|j: int| 0 <= j < n implies is_prefmt_piece(#[trigger] r.pieces()[2 * j + 1], if slice_fmt(fmtarg, this@.len()).fmt_kind == FmtKind::Display { encode_scalar(this@[j] as u32) } else { char_debug_text(this@[j]) }) by {
                assert(r.pieces().take(2 * n + 1)[2 * j + 1] == r.pieces()[2 * j + 1]);
            }
        }
        r
    }

    /// A list of `&str` elements, each rendered as `fmtarg` says one level deeper.
    pub fn from_slice_str(this: &[&str], fmtarg: FmtArg) -> (r: PanicVal)
        ensures
            is_slice_val(r, this@.len(), fmtarg),
            r.wf(),
            forall|i: int| 0 <= i < this@.len() ==> is_str_piece(#[trigger] r.pieces()[2 * i + 1], StrFmt::new_spec(slice_fmt(fmtarg, this@.len())), this@[i].spec_bytes()),
    {
        let n = this.len();
        let f = slice_fmt_exec(fmtarg, n);
        let mut out = slice_start(f);
        let mut i: usize = 0;
        while i < n
            invariant
                n == this@.len(),
                i <= n,
                f == slice_fmt(fmtarg, n as nat),
                slice_prefix(out@, i as nat, n as nat, fmtarg),
                forall|j: int| 0 <= j < i ==> is_str_piece(#[trigger] out@[2 * j + 1], StrFmt::new_spec(slice_fmt(fmtarg, this@.len())), this@[j].spec_bytes()),
                forall|j: int| 0 <= j < out@.len() ==> (#[trigger] out@[j]).wf(),
            decreases n - i,
        {
            let e = PanicVal::from_str(this[i], f).into_piece();
            let ghost before = out@;
            slice_push(&mut out, e, i, n, fmtarg, f);
            assert forall|j: int| 0 <= j < i + 1 implies is_str_piece(#[trigger] out@[2 * j + 1], StrFmt::new_spec(slice_fmt(fmtarg, this@.len())), this@[j].spec_bytes()) by {
                if j < i {
                    assert(before[2 * j + 1] == out@[2 * j + 1]);
                }
            }
            assert forall|j: int| 0 <= j < out@.len() implies (#[trigger] out@[j]).wf() by {
                if j < before.len() {
                    assert(before[j] == out@[j]);
                }
            }
            i = i + 1;
        }
        let r = slice_finish(out, n, fmtarg, f);
        proof {
            assert forall|j: int| 0 <= j < n implies is_str_piece(#[trigger] r.pieces()[2 * j + 1], StrFmt::new_spec(slice_fmt(fmtarg, this@.len())), this@[j].spec_bytes()) by {
                assert(r.pieces().take(2 * n + 1)[2 * j + 1] == r.pieces()[2 * j + 1]);
            }
        }
        r
    }

}

} // verus!
