//! The capability of a type to be rendered as a fixed number of values.
use vstd::math::abs;
use vstd::prelude::*;
use vstd::string::StringSliceAdditionalSpecFns;
use vstd::utf8::encode_scalar;

use crate::aggregate::{Delimiter, IsLast, Separator, delim_fmt, delim_text, sep_fmt, sep_text};
use crate::array_string::ArrayString;
use crate::char_fmt::char_debug_text;
use crate::fmt::{FmtArg, FmtKind};
use crate::int_fmt::Sign;
use crate::panic_val::{PanicVal, StrFmt};

verus! {

/// A type whose values render as a fixed number of values: the same count
/// for every value and every configuration, so that renderings compose
/// without sizing anything at run time.
pub trait PanicFmt {
    /// How many values each rendering of this type takes.
    spec fn pv_count_spec() -> nat;

    /// `r` is the rendering of this value under `f`.
    spec fn renders(&self, f: FmtArg, r: Seq<PanicVal>) -> bool;

    /// How many values each rendering of this type takes.
    fn pv_count() -> (r: usize)
        requires
            Self::pv_count_spec() <= usize::MAX,
        ensures
            r as nat == Self::pv_count_spec();

    /// Renders this value as exactly `pv_count()` values.
    fn to_panicvals(&self, f: FmtArg) -> (r: Vec<PanicVal>)
        requires
            Self::pv_count_spec() <= usize::MAX,
        ensures
            r@.len() == Self::pv_count_spec(),
            self.renders(f, r@),
            forall|i: int| 0 <= i < r@.len() ==> (#[trigger] r@[i]).wf();
}

fn one(v: PanicVal) -> (r: Vec<PanicVal>)
    requires
        v.wf(),
    ensures
        r@ == seq![v],
{
    let mut r: Vec<PanicVal> = Vec::new();
    r.push(v);
    assert(r@ =~= seq![v]);
    r
}

impl PanicFmt for u8 {
    open spec fn pv_count_spec() -> nat {
        1
    }

    open spec fn renders(&self, f: FmtArg, r: Seq<PanicVal>) -> bool {
        r.len() == 1 && r[0].is_int(Sign::Positive, *self as nat, 8 as nat, f)
    }

    fn pv_count() -> (r: usize) {
        1
    }

    fn to_panicvals(&self, f: FmtArg) -> (r: Vec<PanicVal>) {
        one(PanicVal::from_u8(*self, f))
    }
}

impl PanicFmt for u16 {
    open spec fn pv_count_spec() -> nat {
        1
    }

    open spec fn renders(&self, f: FmtArg, r: Seq<PanicVal>) -> bool {
        r.len() == 1 && r[0].is_int(Sign::Positive, *self as nat, 16 as nat, f)
    }

    fn pv_count() -> (r: usize) {
        1
    }

    fn to_panicvals(&self, f: FmtArg) -> (r: Vec<PanicVal>) {
        one(PanicVal::from_u16(*self, f))
    }
}

impl PanicFmt for u32 {
    open spec fn pv_count_spec() -> nat {
        1
    }

    open spec fn renders(&self, f: FmtArg, r: Seq<PanicVal>) -> bool {
        r.len() == 1 && r[0].is_int(Sign::Positive, *self as nat, 32 as nat, f)
    }

    fn pv_count() -> (r: usize) {
        1
    }

    fn to_panicvals(&self, f: FmtArg) -> (r: Vec<PanicVal>) {
        one(PanicVal::from_u32(*self, f))
    }
}

impl PanicFmt for u64 {
    open spec fn pv_count_spec() -> nat {
        1
    }

    open spec fn renders(&self, f: FmtArg, r: Seq<PanicVal>) -> bool {
        r.len() == 1 && r[0].is_int(Sign::Positive, *self as nat, 64 as nat, f)
    }

    fn pv_count() -> (r: usize) {
        1
    }

    fn to_panicvals(&self, f: FmtArg) -> (r: Vec<PanicVal>) {
        one(PanicVal::from_u64(*self, f))
    }
}

impl PanicFmt for u128 {
    open spec fn pv_count_spec() -> nat {
        1
    }

    open spec fn renders(&self, f: FmtArg, r: Seq<PanicVal>) -> bool {
        r.len() == 1 && r[0].is_int(Sign::Positive, *self as nat, 128 as nat, f)
    }

    fn pv_count() -> (r: usize) {
        1
    }

    fn to_panicvals(&self, f: FmtArg) -> (r: Vec<PanicVal>) {
        one(PanicVal::from_u128(*self, f))
    }
}

impl PanicFmt for usize {
    open spec fn pv_count_spec() -> nat {
        1
    }

    open spec fn renders(&self, f: FmtArg, r: Seq<PanicVal>) -> bool {
        r.len() == 1 && r[0].is_int(Sign::Positive, *self as nat, usize::BITS as nat, f)
    }

    fn pv_count() -> (r: usize) {
        1
    }

    fn to_panicvals(&self, f: FmtArg) -> (r: Vec<PanicVal>) {
        one(PanicVal::from_usize(*self, f))
    }
}

impl PanicFmt for i8 {
    open spec fn pv_count_spec() -> nat {
        1
    }

    open spec fn renders(&self, f: FmtArg, r: Seq<PanicVal>) -> bool {
        r.len() == 1 && r[0].is_int(if *self < 0 { Sign::Negative } else { Sign::Positive }, abs(*self as int) as nat, 8 as nat, f)
    }

    fn pv_count() -> (r: usize) {
        1
    }

    fn to_panicvals(&self, f: FmtArg) -> (r: Vec<PanicVal>) {
        one(PanicVal::from_i8(*self, f))
    }
}

impl PanicFmt for i16 {
    open spec fn pv_count_spec() -> nat {
        1
    }

    open spec fn renders(&self, f: FmtArg, r: Seq<PanicVal>) -> bool {
        r.len() == 1 && r[0].is_int(if *self < 0 { Sign::Negative } else { Sign::Positive }, abs(*self as int) as nat, 16 as nat, f)
    }

    fn pv_count() -> (r: usize) {
        1
    }

    fn to_panicvals(&self, f: FmtArg) -> (r: Vec<PanicVal>) {
        one(PanicVal::from_i16(*self, f))
    }
}

impl PanicFmt for i32 {
    open spec fn pv_count_spec() -> nat {
        1
    }

    open spec fn renders(&self, f: FmtArg, r: Seq<PanicVal>) -> bool {
        r.len() == 1 && r[0].is_int(if *self < 0 { Sign::Negative } else { Sign::Positive }, abs(*self as int) as nat, 32 as nat, f)
    }

    fn pv_count() -> (r: usize) {
        1
    }

    fn to_panicvals(&self, f: FmtArg) -> (r: Vec<PanicVal>) {
        one(PanicVal::from_i32(*self, f))
    }
}

impl PanicFmt for i64 {
    open spec fn pv_count_spec() -> nat {
        1
    }

    open spec fn renders(&self, f: FmtArg, r: Seq<PanicVal>) -> bool {
        r.len() == 1 && r[0].is_int(if *self < 0 { Sign::Negative } else { Sign::Positive }, abs(*self as int) as nat, 64 as nat, f)
    }

    fn pv_count() -> (r: usize) {
        1
    }

    fn to_panicvals(&self, f: FmtArg) -> (r: Vec<PanicVal>) {
        one(PanicVal::from_i64(*self, f))
    }
}

impl PanicFmt for i128 {
    open spec fn pv_count_spec() -> nat {
        1
    }

    open spec fn renders(&self, f: FmtArg, r: Seq<PanicVal>) -> bool {
        r.len() == 1 && r[0].is_int(if *self < 0 { Sign::Negative } else { Sign::Positive }, abs(*self as int) as nat, 128 as nat, f)
    }

    fn pv_count() -> (r: usize) {
        1
    }

    fn to_panicvals(&self, f: FmtArg) -> (r: Vec<PanicVal>) {
        one(PanicVal::from_i128(*self, f))
    }
}

impl PanicFmt for isize {
    open spec fn pv_count_spec() -> nat {
        1
    }

    open spec fn renders(&self, f: FmtArg, r: Seq<PanicVal>) -> bool {
        r.len() == 1 && r[0].is_int(if *self < 0 { Sign::Negative } else { Sign::Positive }, abs(*self as int) as nat, isize::BITS as nat, f)
    }

    fn pv_count() -> (r: usize) {
        1
    }

    fn to_panicvals(&self, f: FmtArg) -> (r: Vec<PanicVal>) {
        one(PanicVal::from_isize(*self, f))
    }
}

impl PanicFmt for bool {
    open spec fn pv_count_spec() -> nat {
        1
    }

    open spec fn renders(&self, f: FmtArg, r: Seq<PanicVal>) -> bool {
        r.len() == 1 && r[0].is_str(StrFmt::display_spec(), if *self { "true".spec_bytes() } else { "false".spec_bytes() })
    }

    fn pv_count() -> (r: usize) {
        1
    }

    fn to_panicvals(&self, f: FmtArg) -> (r: Vec<PanicVal>) {
        one(PanicVal::from_bool(*self, f))
    }
}

impl PanicFmt for char {
    open spec fn pv_count_spec() -> nat {
        1
    }

    open spec fn renders(&self, f: FmtArg, r: Seq<PanicVal>) -> bool {
        r.len() == 1 && r[0].is_prefmt(if f.fmt_kind == FmtKind::Display { encode_scalar(*self as u32) } else { char_debug_text(*self) })
    }

    fn pv_count() -> (r: usize) {
        1
    }

    fn to_panicvals(&self, f: FmtArg) -> (r: Vec<PanicVal>) {
        one(PanicVal::from_char(*self, f))
    }
}

impl PanicFmt for str {
    open spec fn pv_count_spec() -> nat {
        1
    }

    open spec fn renders(&self, f: FmtArg, r: Seq<PanicVal>) -> bool {
        r.len() == 1 && r[0].is_str(StrFmt::new_spec(f), self.spec_bytes())
    }

    fn pv_count() -> (r: usize) {
        1
    }

    fn to_panicvals(&self, f: FmtArg) -> (r: Vec<PanicVal>) {
        one(PanicVal::from_str(self, f))
    }
}

impl PanicFmt for Delimiter {
    open spec fn pv_count_spec() -> nat {
        1
    }

    open spec fn renders(&self, f: FmtArg, r: Seq<PanicVal>) -> bool {
        r.len() == 1 && r[0].is_str(delim_fmt(*self, f), delim_text(*self, f.is_alternate))
    }

    fn pv_count() -> (r: usize) {
        1
    }

    fn to_panicvals(&self, f: FmtArg) -> (r: Vec<PanicVal>) {
        one(self.to_panicval(f))
    }
}

impl<const CAP: usize> PanicFmt for ArrayString<CAP> {
    open spec fn pv_count_spec() -> nat {
        1
    }

    open spec fn renders(&self, f: FmtArg, r: Seq<PanicVal>) -> bool {
        r.len() == 1 && r[0].is_str(StrFmt::new_spec(f), self@)
    }

    fn pv_count() -> (r: usize) {
        1
    }

    fn to_panicvals(&self, f: FmtArg) -> (r: Vec<PanicVal>) {
        one(self.to_panicval(f))
    }
}

/// `None`, or `Some(` and the rendering of the value and `)`; `None` is
/// followed by empty values so that both take the same count.
impl<T: PanicFmt> PanicFmt for Option<T> {
    open spec fn pv_count_spec() -> nat {
        4 + T::pv_count_spec()
    }

    open spec fn renders(&self, f: FmtArg, r: Seq<PanicVal>) -> bool {
        match self {
            None => {
                &&& r.len() >= 1
                &&& r[0].is_str(StrFmt::display_spec(), "None".spec_bytes())
                &&& forall|i: int| 1 <= i < r.len() ==> (#[trigger] r[i]).is_str(StrFmt::display_spec(), Seq::empty())
            },
            Some(x) => {
                let g = f.indent_spec();
                let n = T::pv_count_spec() as int;
                &&& r.len() == n + 4
                &&& r[0].is_str(StrFmt::display_spec(), "Some".spec_bytes())
                &&& r[1].is_str(delim_fmt(Delimiter::OpenParen, g), delim_text(Delimiter::OpenParen, g.is_alternate))
                &&& x.renders(g, r.subrange(2, n + 2))
                &&& r[n + 2].is_str(sep_fmt(IsLast::Yes, g), sep_text(",".spec_bytes(), IsLast::Yes, g.is_alternate))
                &&& r[n + 3].is_str(delim_fmt(Delimiter::CloseParen, f), delim_text(Delimiter::CloseParen, f.is_alternate))
            },
        }
    }

    fn pv_count() -> (r: usize) {
        4 + T::pv_count()
    }

    fn to_panicvals(&self, f: FmtArg) -> (r: Vec<PanicVal>) {
        let mut out: Vec<PanicVal> = Vec::new();
        match self {
            Some(x) => {
                out.push(PanicVal::write_str("Some"));
                let inner = f.indent();
                out.push(Delimiter::OpenParen.to_panicval(inner));
                let mut vals = x.to_panicvals(inner);
                let ghost before = out@;
                let ghost added = vals@;
                out.append(&mut vals);
                assert(out@ == before + added);
                out.push(Separator::comma_term().to_panicval(inner));
                out.push(Delimiter::CloseParen.to_panicval(f));
                assert(out@.subrange(2, added.len() + 2int) =~= added);
                assert forall|i: int| 0 <= i < out@.len() implies (#[trigger] out@[i]).wf() by {
                    if 2 <= i < 2 + added.len() {
                        assert(out@[i] == added[i - 2]);
                    }
                }
            },
            None => {
                out.push(PanicVal::write_str("None"));
                out.push(PanicVal::empty());
                out.push(PanicVal::empty());
                out.push(PanicVal::empty());
                let n = T::pv_count();
                let mut i: usize = 0;
                while i < n
                    invariant
                        i <= n,
                        out@.len() == 4 + i,
                        out@[0].is_str(StrFmt::display_spec(), "None".spec_bytes()),
                        forall|j: int| 1 <= j < out@.len() ==> (#[trigger] out@[j]).is_str(StrFmt::display_spec(), Seq::empty()),
                        forall|j: int| 0 <= j < out@.len() ==> (#[trigger] out@[j]).wf(),
                    decreases n - i,
                {
                    out.push(PanicVal::empty());
                    i = i + 1;
                }
            },
        }
        out
    }
}

} // verus!
