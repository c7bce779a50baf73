//! Formatting of std types through a wrapper.
use vstd::math::abs;
use vstd::prelude::*;
use vstd::string::StringSliceAdditionalSpecFns;
use vstd::utf8::encode_scalar;

use crate::aggregate::{Delimiter, IsLast, Separator, delim_fmt, delim_text, is_slice_val, sep_fmt, sep_text};
use crate::char_fmt::char_debug_text;
use crate::fmt::{FmtArg, FmtKind};
use crate::int_fmt::Sign;
use crate::panic_val::{PanicVal, StrFmt};

verus! {

/// Wraps a reference to a std type to give it formatting methods.
#[derive(Debug, Copy, Clone)]
pub struct StdWrapper<T>(pub T);

impl<'a> StdWrapper<&'a u8> {
    /// Formats this `u8` into a value.
    pub fn to_panicval(self, f: FmtArg) -> (r: PanicVal)
        ensures
            r.is_int(Sign::Positive, *self.0 as nat, 8 as nat, f),
            r.wf(),
    {
        PanicVal::from_u8(*self.0, f)
    }

    /// Formats this `u8` into a single-value array.
    pub fn to_panicvals(self, f: FmtArg) -> (r: [PanicVal; 1])
        ensures
            r[0].is_int(Sign::Positive, *self.0 as nat, 8 as nat, f),
            r[0].wf(),
    {
        [self.to_panicval(f)]
    }
}

impl<'a> StdWrapper<&'a [u8]> {
    /// Formats this slice of `u8` into a list value.
    pub fn to_panicval(self, f: FmtArg) -> (r: PanicVal)
        ensures
            is_slice_val(r, self.0@.len(), f),
            r.wf(),
    {
        PanicVal::from_slice_u8(self.0, f)
    }

    /// Formats this slice of `u8` into a single-value array.
    pub fn to_panicvals(self, f: FmtArg) -> (r: [PanicVal; 1])
        ensures
            is_slice_val(r[0], self.0@.len(), f),
            r[0].wf(),
    {
        [self.to_panicval(f)]
    }
}

impl<'a> StdWrapper<&'a u16> {
    /// Formats this `u16` into a value.
    pub fn to_panicval(self, f: FmtArg) -> (r: PanicVal)
        ensures
            r.is_int(Sign::Positive, *self.0 as nat, 16 as nat, f),
            r.wf(),
    {
        PanicVal::from_u16(*self.0, f)
    }

    /// Formats this `u16` into a single-value array.
    pub fn to_panicvals(self, f: FmtArg) -> (r: [PanicVal; 1])
        ensures
            r[0].is_int(Sign::Positive, *self.0 as nat, 16 as nat, f),
            r[0].wf(),
    {
        [self.to_panicval(f)]
    }
}

impl<'a> StdWrapper<&'a [u16]> {
    /// Formats this slice of `u16` into a list value.
    pub fn to_panicval(self, f: FmtArg) -> (r: PanicVal)
        ensures
            is_slice_val(r, self.0@.len(), f),
            r.wf(),
    {
        PanicVal::from_slice_u16(self.0, f)
    }

    /// Formats this slice of `u16` into a single-value array.
    pub fn to_panicvals(self, f: FmtArg) -> (r: [PanicVal; 1])
        ensures
            is_slice_val(r[0], self.0@.len(), f),
            r[0].wf(),
    {
        [self.to_panicval(f)]
    }
}

impl<'a> StdWrapper<&'a u32> {
    /// Formats this `u32` into a value.
    pub fn to_panicval(self, f: FmtArg) -> (r: PanicVal)
        ensures
            r.is_int(Sign::Positive, *self.0 as nat, 32 as nat, f),
            r.wf(),
    {
        PanicVal::from_u32(*self.0, f)
    }

    /// Formats this `u32` into a single-value array.
    pub fn to_panicvals(self, f: FmtArg) -> (r: [PanicVal; 1])
        ensures
            r[0].is_int(Sign::Positive, *self.0 as nat, 32 as nat, f),
            r[0].wf(),
    {
        [self.to_panicval(f)]
    }
}

impl<'a> StdWrapper<&'a [u32]> {
    /// Formats this slice of `u32` into a list value.
    pub fn to_panicval(self, f: FmtArg) -> (r: PanicVal)
        ensures
            is_slice_val(r, self.0@.len(), f),
            r.wf(),
    {
        PanicVal::from_slice_u32(self.0, f)
    }

    /// Formats this slice of `u32` into a single-value array.
    pub fn to_panicvals(self, f: FmtArg) -> (r: [PanicVal; 1])
        ensures
            is_slice_val(r[0], self.0@.len(), f),
            r[0].wf(),
    {
        [self.to_panicval(f)]
    }
}

impl<'a> StdWrapper<&'a u64> {
    /// Formats this `u64` into a value.
    pub fn to_panicval(self, f: FmtArg) -> (r: PanicVal)
        ensures
            r.is_int(Sign::Positive, *self.0 as nat, 64 as nat, f),
            r.wf(),
    {
        PanicVal::from_u64(*self.0, f)
    }

    /// Formats this `u64` into a single-value array.
    pub fn to_panicvals(self, f: FmtArg) -> (r: [PanicVal; 1])
        ensures
            r[0].is_int(Sign::Positive, *self.0 as nat, 64 as nat, f),
            r[0].wf(),
    {
        [self.to_panicval(f)]
    }
}

impl<'a> StdWrapper<&'a [u64]> {
    /// Formats this slice of `u64` into a list value.
    pub fn to_panicval(self, f: FmtArg) -> (r: PanicVal)
        ensures
            is_slice_val(r, self.0@.len(), f),
            r.wf(),
    {
        PanicVal::from_slice_u64(self.0, f)
    }

    /// Formats this slice of `u64` into a single-value array.
    pub fn to_panicvals(self, f: FmtArg) -> (r: [PanicVal; 1])
        ensures
            is_slice_val(r[0], self.0@.len(), f),
            r[0].wf(),
    {
        [self.to_panicval(f)]
    }
}

impl<'a> StdWrapper<&'a u128> {
    /// Formats this `u128` into a value.
    pub fn to_panicval(self, f: FmtArg) -> (r: PanicVal)
        ensures
            r.is_int(Sign::Positive, *self.0 as nat, 128 as nat, f),
            r.wf(),
    {
        PanicVal::from_u128(*self.0, f)
    }

    /// Formats this `u128` into a single-value array.
    pub fn to_panicvals(self, f: FmtArg) -> (r: [PanicVal; 1])
        ensures
            r[0].is_int(Sign::Positive, *self.0 as nat, 128 as nat, f),
            r[0].wf(),
    {
        [self.to_panicval(f)]
    }
}

impl<'a> StdWrapper<&'a [u128]> {
    /// Formats this slice of `u128` into a list value.
    pub fn to_panicval(self, f: FmtArg) -> (r: PanicVal)
        ensures
            is_slice_val(r, self.0@.len(), f),
            r.wf(),
    {
        PanicVal::from_slice_u128(self.0, f)
    }

    /// Formats this slice of `u128` into a single-value array.
    pub fn to_panicvals(self, f: FmtArg) -> (r: [PanicVal; 1])
        ensures
            is_slice_val(r[0], self.0@.len(), f),
            r[0].wf(),
    {
        [self.to_panicval(f)]
    }
}

impl<'a> StdWrapper<&'a usize> {
    /// Formats this `usize` into a value.
    pub fn to_panicval(self, f: FmtArg) -> (r: PanicVal)
        ensures
            r.is_int(Sign::Positive, *self.0 as nat, usize::BITS as nat, f),
            r.wf(),
    {
        PanicVal::from_usize(*self.0, f)
    }

    /// Formats this `usize` into a single-value array.
    pub fn to_panicvals(self, f: FmtArg) -> (r: [PanicVal; 1])
        ensures
            r[0].is_int(Sign::Positive, *self.0 as nat, usize::BITS as nat, f),
            r[0].wf(),
    {
        [self.to_panicval(f)]
    }
}

impl<'a> StdWrapper<&'a [usize]> {
    /// Formats this slice of `usize` into a list value.
    pub fn to_panicval(self, f: FmtArg) -> (r: PanicVal)
        ensures
            is_slice_val(r, self.0@.len(), f),
            r.wf(),
    {
        PanicVal::from_slice_usize(self.0, f)
    }

    /// Formats this slice of `usize` into a single-value array.
    pub fn to_panicvals(self, f: FmtArg) -> (r: [PanicVal; 1])
        ensures
            is_slice_val(r[0], self.0@.len(), f),
            r[0].wf(),
    {
        [self.to_panicval(f)]
    }
}

impl<'a> StdWrapper<&'a i8> {
    /// Formats this `i8` into a value.
    pub fn to_panicval(self, f: FmtArg) -> (r: PanicVal)
        ensures
            r.is_int(if *self.0 < 0 { Sign::Negative } else { Sign::Positive }, abs(*self.0 as int) as nat, 8 as nat, f),
            r.wf(),
    {
        PanicVal::from_i8(*self.0, f)
    }

    /// Formats this `i8` into a single-value array.
    pub fn to_panicvals(self, f: FmtArg) -> (r: [PanicVal; 1])
        ensures
            r[0].is_int(if *self.0 < 0 { Sign::Negative } else { Sign::Positive }, abs(*self.0 as int) as nat, 8 as nat, f),
            r[0].wf(),
    {
        [self.to_panicval(f)]
    }
}

impl<'a> StdWrapper<&'a [i8]> {
    /// Formats this slice of `i8` into a list value.
    pub fn to_panicval(self, f: FmtArg) -> (r: PanicVal)
        ensures
            is_slice_val(r, self.0@.len(), f),
            r.wf(),
    {
        PanicVal::from_slice_i8(self.0, f)
    }

    /// Formats this slice of `i8` into a single-value array.
    pub fn to_panicvals(self, f: FmtArg) -> (r: [PanicVal; 1])
        ensures
            is_slice_val(r[0], self.0@.len(), f),
            r[0].wf(),
    {
        [self.to_panicval(f)]
    }
}

impl<'a> StdWrapper<&'a i16> {
    /// Formats this `i16` into a value.
    pub fn to_panicval(self, f: FmtArg) -> (r: PanicVal)
        ensures
            r.is_int(if *self.0 < 0 { Sign::Negative } else { Sign::Positive }, abs(*self.0 as int) as nat, 16 as nat, f),
            r.wf(),
    {
        PanicVal::from_i16(*self.0, f)
    }

    /// Formats this `i16` into a single-value array.
    pub fn to_panicvals(self, f: FmtArg) -> (r: [PanicVal; 1])
        ensures
            r[0].is_int(if *self.0 < 0 { Sign::Negative } else { Sign::Positive }, abs(*self.0 as int) as nat, 16 as nat, f),
            r[0].wf(),
    {
        [self.to_panicval(f)]
    }
}

impl<'a> StdWrapper<&'a [i16]> {
    /// Formats this slice of `i16` into a list value.
    pub fn to_panicval(self, f: FmtArg) -> (r: PanicVal)
        ensures
            is_slice_val(r, self.0@.len(), f),
            r.wf(),
    {
        PanicVal::from_slice_i16(self.0, f)
    }

    /// Formats this slice of `i16` into a single-value array.
    pub fn to_panicvals(self, f: FmtArg) -> (r: [PanicVal; 1])
        ensures
            is_slice_val(r[0], self.0@.len(), f),
            r[0].wf(),
    {
        [self.to_panicval(f)]
    }
}

impl<'a> StdWrapper<&'a i32> {
    /// Formats this `i32` into a value.
    pub fn to_panicval(self, f: FmtArg) -> (r: PanicVal)
        ensures
            r.is_int(if *self.0 < 0 { Sign::Negative } else { Sign::Positive }, abs(*self.0 as int) as nat, 32 as nat, f),
            r.wf(),
    {
        PanicVal::from_i32(*self.0, f)
    }

    /// Formats this `i32` into a single-value array.
    pub fn to_panicvals(self, f: FmtArg) -> (r: [PanicVal; 1])
        ensures
            r[0].is_int(if *self.0 < 0 { Sign::Negative } else { Sign::Positive }, abs(*self.0 as int) as nat, 32 as nat, f),
            r[0].wf(),
    {
        [self.to_panicval(f)]
    }
}

impl<'a> StdWrapper<&'a [i32]> {
    /// Formats this slice of `i32` into a list value.
    pub fn to_panicval(self, f: FmtArg) -> (r: PanicVal)
        ensures
            is_slice_val(r, self.0@.len(), f),
            r.wf(),
    {
        PanicVal::from_slice_i32(self.0, f)
    }

    /// Formats this slice of `i32` into a single-value array.
    pub fn to_panicvals(self, f: FmtArg) -> (r: [PanicVal; 1])
        ensures
            is_slice_val(r[0], self.0@.len(), f),
            r[0].wf(),
    {
        [self.to_panicval(f)]
    }
}

impl<'a> StdWrapper<&'a i64> {
    /// Formats this `i64` into a value.
    pub fn to_panicval(self, f: FmtArg) -> (r: PanicVal)
        ensures
            r.is_int(if *self.0 < 0 { Sign::Negative } else { Sign::Positive }, abs(*self.0 as int) as nat, 64 as nat, f),
            r.wf(),
    {
        PanicVal::from_i64(*self.0, f)
    }

    /// Formats this `i64` into a single-value array.
    pub fn to_panicvals(self, f: FmtArg) -> (r: [PanicVal; 1])
        ensures
            r[0].is_int(if *self.0 < 0 { Sign::Negative } else { Sign::Positive }, abs(*self.0 as int) as nat, 64 as nat, f),
            r[0].wf(),
    {
        [self.to_panicval(f)]
    }
}

impl<'a> StdWrapper<&'a [i64]> {
    /// Formats this slice of `i64` into a list value.
    pub fn to_panicval(self, f: FmtArg) -> (r: PanicVal)
        ensures
            is_slice_val(r, self.0@.len(), f),
            r.wf(),
    {
        PanicVal::from_slice_i64(self.0, f)
    }

    /// Formats this slice of `i64` into a single-value array.
    pub fn to_panicvals(self, f: FmtArg) -> (r: [PanicVal; 1])
        ensures
            is_slice_val(r[0], self.0@.len(), f),
            r[0].wf(),
    {
        [self.to_panicval(f)]
    }
}

impl<'a> StdWrapper<&'a i128> {
    /// Formats this `i128` into a value.
    pub fn to_panicval(self, f: FmtArg) -> (r: PanicVal)
        ensures
            r.is_int(if *self.0 < 0 { Sign::Negative } else { Sign::Positive }, abs(*self.0 as int) as nat, 128 as nat, f),
            r.wf(),
    {
        PanicVal::from_i128(*self.0, f)
    }

    /// Formats this `i128` into a single-value array.
    pub fn to_panicvals(self, f: FmtArg) -> (r: [PanicVal; 1])
        ensures
            r[0].is_int(if *self.0 < 0 { Sign::Negative } else { Sign::Positive }, abs(*self.0 as int) as nat, 128 as nat, f),
            r[0].wf(),
    {
        [self.to_panicval(f)]
    }
}

impl<'a> StdWrapper<&'a [i128]> {
    /// Formats this slice of `i128` into a list value.
    pub fn to_panicval(self, f: FmtArg) -> (r: PanicVal)
        ensures
            is_slice_val(r, self.0@.len(), f),
            r.wf(),
    {
        PanicVal::from_slice_i128(self.0, f)
    }

    /// Formats this slice of `i128` into a single-value array.
    pub fn to_panicvals(self, f: FmtArg) -> (r: [PanicVal; 1])
        ensures
            is_slice_val(r[0], self.0@.len(), f),
            r[0].wf(),
    {
        [self.to_panicval(f)]
    }
}

impl<'a> StdWrapper<&'a isize> {
    /// Formats this `isize` into a value.
    pub fn to_panicval(self, f: FmtArg) -> (r: PanicVal)
        ensures
            r.is_int(if *self.0 < 0 { Sign::Negative } else { Sign::Positive }, abs(*self.0 as int) as nat, isize::BITS as nat, f),
            r.wf(),
    {
        PanicVal::from_isize(*self.0, f)
    }

    /// Formats this `isize` into a single-value array.
    pub fn to_panicvals(self, f: FmtArg) -> (r: [PanicVal; 1])
        ensures
            r[0].is_int(if *self.0 < 0 { Sign::Negative } else { Sign::Positive }, abs(*self.0 as int) as nat, isize::BITS as nat, f),
            r[0].wf(),
    {
        [self.to_panicval(f)]
    }
}

impl<'a> StdWrapper<&'a [isize]> {
    /// Formats this slice of `isize` into a list value.
    pub fn to_panicval(self, f: FmtArg) -> (r: PanicVal)
        ensures
            is_slice_val(r, self.0@.len(), f),
            r.wf(),
    {
        PanicVal::from_slice_isize(self.0, f)
    }

    /// Formats this slice of `isize` into a single-value array.
    pub fn to_panicvals(self, f: FmtArg) -> (r: [PanicVal; 1])
        ensures
            is_slice_val(r[0], self.0@.len(), f),
            r[0].wf(),
    {
        [self.to_panicval(f)]
    }
}

impl<'a> StdWrapper<&'a [bool]> {
    /// Formats this slice of `bool` into a list value.
    pub fn to_panicval(self, f: FmtArg) -> (r: PanicVal)
        ensures
            is_slice_val(r, self.0@.len(), f),
            r.wf(),
    {
        PanicVal::from_slice_bool(self.0, f)
    }

    /// Formats this slice of `bool` into a single-value array.
    pub fn to_panicvals(self, f: FmtArg) -> (r: [PanicVal; 1])
        ensures
            is_slice_val(r[0], self.0@.len(), f),
            r[0].wf(),
    {
        [self.to_panicval(f)]
    }
}

impl<'a> StdWrapper<&'a [char]> {
    /// Formats this slice of `char` into a list value.
    pub fn to_panicval(self, f: FmtArg) -> (r: PanicVal)
        ensures
            is_slice_val(r, self.0@.len(), f),
            r.wf(),
    {
        PanicVal::from_slice_char(self.0, f)
    }

    /// Formats this slice of `char` into a single-value array.
    pub fn to_panicvals(self, f: FmtArg) -> (r: [PanicVal; 1])
        ensures
            is_slice_val(r[0], self.0@.len(), f),
            r[0].wf(),
    {
        [self.to_panicval(f)]
    }
}

impl<'a> StdWrapper<&'a bool> {
    /// `true` or `false`.
    pub fn to_panicval(self, f: FmtArg) -> (r: PanicVal)
        ensures
            r.is_str(StrFmt::display_spec(), if *self.0 { "true".spec_bytes() } else { "false".spec_bytes() }),
            r.wf(),
    {
        PanicVal::from_bool(*self.0, f)
    }

    /// `true` or `false`, as a single-value array.
    pub fn to_panicvals(self, f: FmtArg) -> (r: [PanicVal; 1])
        ensures
            r[0].is_str(StrFmt::display_spec(), if *self.0 { "true".spec_bytes() } else { "false".spec_bytes() }),
            r[0].wf(),
    {
        [self.to_panicval(f)]
    }
}

impl<'a, 'b> StdWrapper<&'a [&'b str]> {
    /// Formats this slice of strings into a list value.
    pub fn to_panicval(self, f: FmtArg) -> (r: PanicVal)
        ensures
            is_slice_val(r, self.0@.len(), f),
            r.wf(),
    {
        PanicVal::from_slice_str(self.0, f)
    }

    /// Formats this slice of strings into a single-value array.
    pub fn to_panicvals(self, f: FmtArg) -> (r: [PanicVal; 1])
        ensures
            is_slice_val(r[0], self.0@.len(), f),
            r[0].wf(),
    {
        [self.to_panicval(f)]
    }
}

impl<'a> StdWrapper<&'a char> {
    /// Formats this `char` into a single-value array.
    pub fn to_panicvals(self, f: FmtArg) -> (r: [PanicVal; 1])
        ensures
            r[0].is_prefmt(if f.fmt_kind == FmtKind::Display {
                encode_scalar(*self.0 as u32)
            } else {
                char_debug_text(*self.0)
            }),
    {
        [PanicVal::from_char(*self.0, f)]
    }
}

impl<'a, T: ?Sized> StdWrapper<&'a core::marker::PhantomData<T>> {
    /// `PhantomData`.
    pub fn to_panicval(self, f: FmtArg) -> (r: PanicVal)
        ensures
            r.is_str(StrFmt::display_spec(), "PhantomData".spec_bytes()),
    {
        PanicVal::write_str("PhantomData")
    }

    /// `PhantomData`, as a single-value array.
    pub fn to_panicvals(self, f: FmtArg) -> (r: [PanicVal; 1])
        ensures
            r[0].is_str(StrFmt::display_spec(), "PhantomData".spec_bytes()),
    {
        [self.to_panicval(f)]
    }
}

#[verifier::external_type_specification]
#[verifier::external_body]
pub struct ExPhantomPinned(core::marker::PhantomPinned);

impl<'a> StdWrapper<&'a core::marker::PhantomPinned> {
    /// `PhantomPinned`.
    pub fn to_panicval(self, f: FmtArg) -> (r: PanicVal)
        ensures
            r.is_str(StrFmt::display_spec(), "PhantomPinned".spec_bytes()),
    {
        PanicVal::write_str("PhantomPinned")
    }

    /// `PhantomPinned`, as a single-value array.
    pub fn to_panicvals(self, f: FmtArg) -> (r: [PanicVal; 1])
        ensures
            r[0].is_str(StrFmt::display_spec(), "PhantomPinned".spec_bytes()),
    {
        [self.to_panicval(f)]
    }
}

impl<'a> StdWrapper<&'a ()> {
    /// `()`.
    pub fn to_panicval(self, f: FmtArg) -> (r: PanicVal)
        ensures
            r.is_str(StrFmt::display_spec(), "()".spec_bytes()),
    {
        PanicVal::write_str("()")
    }

    /// `()`, as a single-value array.
    pub fn to_panicvals(self, f: FmtArg) -> (r: [PanicVal; 1])
        ensures
            r[0].is_str(StrFmt::display_spec(), "()".spec_bytes()),
    {
        [self.to_panicval(f)]
    }
}

/// The name of an ordering.
pub open spec fn ordering_name(o: core::cmp::Ordering) -> Seq<u8> {
    match o {
        core::cmp::Ordering::Less => "Less".spec_bytes(),
        core::cmp::Ordering::Equal => "Equal".spec_bytes(),
        core::cmp::Ordering::Greater => "Greater".spec_bytes(),
    }
}

impl<'a> StdWrapper<&'a core::cmp::Ordering> {
    /// The name of the ordering.
    pub fn to_panicval(self, f: FmtArg) -> (r: PanicVal)
        ensures
            r.is_str(StrFmt::display_spec(), ordering_name(*self.0)),
    {
        match self.0 {
            core::cmp::Ordering::Less => PanicVal::write_str("Less"),
            core::cmp::Ordering::Equal => PanicVal::write_str("Equal"),
            core::cmp::Ordering::Greater => PanicVal::write_str("Greater"),
        }
    }

    /// The name of the ordering, as a single-value array.
    pub fn to_panicvals(self, f: FmtArg) -> (r: [PanicVal; 1])
        ensures
            r[0].is_str(StrFmt::display_spec(), ordering_name(*self.0)),
    {
        [self.to_panicval(f)]
    }
}

/// The name of an atomic memory ordering.
pub open spec fn atomic_ordering_text(o: core::sync::atomic::Ordering) -> Seq<u8> {
    match o {
        core::sync::atomic::Ordering::Relaxed => "Relaxed".spec_bytes(),
        core::sync::atomic::Ordering::Release => "Release".spec_bytes(),
        core::sync::atomic::Ordering::Acquire => "Acquire".spec_bytes(),
        core::sync::atomic::Ordering::AcqRel => "AcqRel".spec_bytes(),
        core::sync::atomic::Ordering::SeqCst => "SeqCst".spec_bytes(),
        _ => "<std::sync::atomic::Ordering>".spec_bytes(),
    }
}

impl<'a> StdWrapper<&'a core::sync::atomic::Ordering> {
    /// The name of the ordering.
    pub fn to_panicval(self, f: FmtArg) -> (r: PanicVal)
        ensures
            r.is_str(StrFmt::display_spec(), atomic_ordering_text(*self.0)),
    {
        match self.0 {
            core::sync::atomic::Ordering::Relaxed => PanicVal::write_str("Relaxed"),
            core::sync::atomic::Ordering::Release => PanicVal::write_str("Release"),
            core::sync::atomic::Ordering::Acquire => PanicVal::write_str("Acquire"),
            core::sync::atomic::Ordering::AcqRel => PanicVal::write_str("AcqRel"),
            core::sync::atomic::Ordering::SeqCst => PanicVal::write_str("SeqCst"),
            _ => PanicVal::write_str("<std::sync::atomic::Ordering>"),
        }
    }

    /// The name of the ordering, as a single-value array.
    pub fn to_panicvals(self, f: FmtArg) -> (r: [PanicVal; 1])
        ensures
            r[0].is_str(StrFmt::display_spec(), atomic_ordering_text(*self.0)),
    {
        [self.to_panicval(f)]
    }
}

#[verifier::external_type_specification]
pub struct ExIntErrorKind(core::num::IntErrorKind);

#[verifier::external_type_specification]
#[verifier::external_body]
pub struct ExParseIntError(core::num::ParseIntError);

/// Relies on `ParseIntError::kind`, which gives the kind of the error.
pub assume_specification[ core::num::ParseIntError::kind ](e: &core::num::ParseIntError) -> &core::num::IntErrorKind;

#[verifier::external_type_specification]
#[verifier::external_body]
pub struct ExUtf8Error(core::str::Utf8Error);

/// Relies on `Utf8Error::valid_up_to`, the length of the valid prefix.
pub assume_specification[ core::str::Utf8Error::valid_up_to ](e: &core::str::Utf8Error) -> usize;

/// Relies on `Utf8Error::error_len`, the length of the invalid sequence if
/// one was found.
pub assume_specification[ core::str::Utf8Error::error_len ](e: &core::str::Utf8Error) -> Option<usize>;

/// The name of an integer-parsing error kind.
pub open spec fn int_error_kind_text(k: core::num::IntErrorKind) -> Seq<u8> {
    match k {
        core::num::IntErrorKind::Empty => "Empty".spec_bytes(),
        core::num::IntErrorKind::InvalidDigit => "InvalidDigit".spec_bytes(),
        core::num::IntErrorKind::PosOverflow => "PosOverflow".spec_bytes(),
        core::num::IntErrorKind::NegOverflow => "NegOverflow".spec_bytes(),
        core::num::IntErrorKind::Zero => "Zero".spec_bytes(),
        _ => "<IntErrorKind>".spec_bytes(),
    }
}

/// What a `ParseIntError` of kind `k` renders as: its message for Display,
/// its structure for Debug.
pub open spec fn parse_int_error_text(k: core::num::IntErrorKind, f: FmtArg) -> Seq<u8> {
    if f.fmt_kind == FmtKind::Display {
        match k {
            core::num::IntErrorKind::Empty => "cannot parse integer from empty string".spec_bytes(),
            core::num::IntErrorKind::InvalidDigit => "invalid digit found in string".spec_bytes(),
            core::num::IntErrorKind::PosOverflow => "number too large to fit in target type".spec_bytes(),
            core::num::IntErrorKind::NegOverflow => "number too small to fit in target type".spec_bytes(),
            core::num::IntErrorKind::Zero => "number would be zero for non-zero type".spec_bytes(),
            _ => "<ParseIntError>".spec_bytes(),
        }
    } else if f.is_alternate {
        match k {
            core::num::IntErrorKind::Empty => "ParseIntError {\n    kind: Empty,\n}".spec_bytes(),
            core::num::IntErrorKind::InvalidDigit => "ParseIntError {\n    kind: InvalidDigit,\n}".spec_bytes(),
            core::num::IntErrorKind::PosOverflow => "ParseIntError {\n    kind: PosOverflow,\n}".spec_bytes(),
            core::num::IntErrorKind::NegOverflow => "ParseIntError {\n    kind: NegOverflow,\n}".spec_bytes(),
            core::num::IntErrorKind::Zero => "ParseIntError {\n    kind: Zero,\n}".spec_bytes(),
            _ => "<IntErrorKind>".spec_bytes(),
        }
    } else {
        match k {
            core::num::IntErrorKind::Empty => "ParseIntError { kind: Empty }".spec_bytes(),
            core::num::IntErrorKind::InvalidDigit => "ParseIntError { kind: InvalidDigit }".spec_bytes(),
            core::num::IntErrorKind::PosOverflow => "ParseIntError { kind: PosOverflow }".spec_bytes(),
            core::num::IntErrorKind::NegOverflow => "ParseIntError { kind: NegOverflow }".spec_bytes(),
            core::num::IntErrorKind::Zero => "ParseIntError { kind: Zero }".spec_bytes(),
            _ => "<IntErrorKind>".spec_bytes(),
        }
    }
}

/// The value for an integer-parsing error kind.
pub fn int_error_kind_panicval(k: &core::num::IntErrorKind) -> (r: PanicVal)
    ensures
        r.is_str(StrFmt::display_spec(), int_error_kind_text(*k)),
{
    match k {
        core::num::IntErrorKind::Empty => PanicVal::write_str("Empty"),
        core::num::IntErrorKind::InvalidDigit => PanicVal::write_str("InvalidDigit"),
        core::num::IntErrorKind::PosOverflow => PanicVal::write_str("PosOverflow"),
        core::num::IntErrorKind::NegOverflow => PanicVal::write_str("NegOverflow"),
        core::num::IntErrorKind::Zero => PanicVal::write_str("Zero"),
        _ => PanicVal::write_str("<IntErrorKind>"),
    }
}

/// The value for a `ParseIntError` of kind `k`.
pub fn parse_int_error_panicval(k: &core::num::IntErrorKind, f: FmtArg) -> (r: PanicVal)
    ensures
        r.is_str(StrFmt::display_spec(), parse_int_error_text(*k, f)),
{
    match f.fmt_kind {
        FmtKind::Display => match k {
            core::num::IntErrorKind::Empty => PanicVal::write_str("cannot parse integer from empty string"),
            core::num::IntErrorKind::InvalidDigit => PanicVal::write_str("invalid digit found in string"),
            core::num::IntErrorKind::PosOverflow => PanicVal::write_str("number too large to fit in target type"),
            core::num::IntErrorKind::NegOverflow => PanicVal::write_str("number too small to fit in target type"),
            core::num::IntErrorKind::Zero => PanicVal::write_str("number would be zero for non-zero type"),
            _ => PanicVal::write_str("<ParseIntError>"),
        },
        FmtKind::Debug => if f.is_alternate {
            match k {
                core::num::IntErrorKind::Empty => PanicVal::write_str("ParseIntError {\n    kind: Empty,\n}"),
                core::num::IntErrorKind::InvalidDigit => PanicVal::write_str("ParseIntError {\n    kind: InvalidDigit,\n}"),
                core::num::IntErrorKind::PosOverflow => PanicVal::write_str("ParseIntError {\n    kind: PosOverflow,\n}"),
                core::num::IntErrorKind::NegOverflow => PanicVal::write_str("ParseIntError {\n    kind: NegOverflow,\n}"),
                core::num::IntErrorKind::Zero => PanicVal::write_str("ParseIntError {\n    kind: Zero,\n}"),
                _ => PanicVal::write_str("<IntErrorKind>"),
            }
        } else {
            match k {
                core::num::IntErrorKind::Empty => PanicVal::write_str("ParseIntError { kind: Empty }"),
                core::num::IntErrorKind::InvalidDigit => PanicVal::write_str("ParseIntError { kind: InvalidDigit }"),
                core::num::IntErrorKind::PosOverflow => PanicVal::write_str("ParseIntError { kind: PosOverflow }"),
                core::num::IntErrorKind::NegOverflow => PanicVal::write_str("ParseIntError { kind: NegOverflow }"),
                core::num::IntErrorKind::Zero => PanicVal::write_str("ParseIntError { kind: Zero }"),
                _ => PanicVal::write_str("<IntErrorKind>"),
            }
        },
    }
}

impl<'a> StdWrapper<&'a core::num::IntErrorKind> {
    /// The name of the error kind.
    pub fn to_panicval(self, f: FmtArg) -> (r: PanicVal)
        ensures
            r.is_str(StrFmt::display_spec(), int_error_kind_text(*self.0)),
    {
        int_error_kind_panicval(self.0)
    }

    /// The name of the error kind, as a single-value array.
    pub fn to_panicvals(self, f: FmtArg) -> (r: [PanicVal; 1])
        ensures
            r[0].is_str(StrFmt::display_spec(), int_error_kind_text(*self.0)),
    {
        [self.to_panicval(f)]
    }
}

impl<'a> StdWrapper<&'a core::num::ParseIntError> {
    /// The error's message (Display) or structure (Debug), for its kind.
    pub fn to_panicval(self, f: FmtArg) -> (r: PanicVal)
        ensures
            exists|k: core::num::IntErrorKind| r.is_str(StrFmt::display_spec(), parse_int_error_text(k, f)),
    {
        let k = self.0.kind();
        parse_int_error_panicval(k, f)
    }

    /// The same, as a single-value array.
    pub fn to_panicvals(self, f: FmtArg) -> (r: [PanicVal; 1])
        ensures
            exists|k: core::num::IntErrorKind| r[0].is_str(StrFmt::display_spec(), parse_int_error_text(k, f)),
    {
        [self.to_panicval(f)]
    }
}

/// The layout of the values of a `Utf8Error`: its message for Display, its
/// structure for Debug.
pub open spec fn utf8_error_vals(r: [PanicVal; 5], valid_up_to: usize, error_len: Option<usize>, fmtarg: FmtArg) -> bool {
    &&& (fmtarg.fmt_kind == FmtKind::Display ==> match error_len {
            Some(x) => r[0].is_str(StrFmt::display_spec(), "invalid utf-8 sequence of ".spec_bytes())
                && r[1].is_int(Sign::Positive, x as nat, usize::BITS as nat, fmtarg)
                && r[2].is_str(StrFmt::display_spec(), " bytes ".spec_bytes()),
            None => r[0].is_str(StrFmt::display_spec(), "incomplete utf-8 byte sequence ".spec_bytes())
                && r[1].is_str(StrFmt::display_spec(), Seq::empty())
                && r[2].is_str(StrFmt::display_spec(), Seq::empty()),
        } && r[3].is_str(StrFmt::display_spec(), "from index ".spec_bytes())
            && r[4].is_int(Sign::Positive, valid_up_to as nat, usize::BITS as nat, fmtarg))
    &&& (fmtarg.fmt_kind == FmtKind::Debug ==> r[0].is_str(StrFmt::display_spec(), "Utf8Error { valid_up_to: ".spec_bytes())
            && r[1].is_int(Sign::Positive, valid_up_to as nat, usize::BITS as nat, fmtarg)
            && match error_len {
                Some(x) => r[2].is_str(StrFmt::display_spec(), ", error_len: Some(".spec_bytes())
                    && r[3].is_int(Sign::Positive, x as nat, usize::BITS as nat, fmtarg)
                    && r[4].is_str(StrFmt::display_spec(), ") }".spec_bytes()),
                None => r[2].is_str(StrFmt::display_spec(), ", error_len: None }".spec_bytes())
                    && r[3].is_str(StrFmt::display_spec(), Seq::empty())
                    && r[4].is_str(StrFmt::display_spec(), Seq::empty()),
            })
}

/// The values of a `Utf8Error` whose valid prefix is `valid_up_to` bytes
/// long and whose invalid sequence, if one was found, is `error_len` bytes.
pub fn utf8_error_panicvals(valid_up_to: usize, error_len: Option<usize>, fmtarg: FmtArg) -> (r: [PanicVal; 5])
    ensures
        utf8_error_vals(r, valid_up_to, error_len, fmtarg),
        forall|i: int| 0 <= i < 5 ==> (#[trigger] r[i]).wf(),
{
    match fmtarg.fmt_kind {
        FmtKind::Display => {
            let (pv0, pv1, pv2) = match error_len {
                Some(x) => (
                    PanicVal::write_str("invalid utf-8 sequence of "),
                    PanicVal::from_usize(x, fmtarg),
                    PanicVal::write_str(" bytes "),
                ),
                None => (
                    PanicVal::write_str("incomplete utf-8 byte sequence "),
                    PanicVal::empty(),
                    PanicVal::empty(),
                ),
            };
            [pv0, pv1, pv2, PanicVal::write_str("from index "), PanicVal::from_usize(valid_up_to, fmtarg)]
        },
        FmtKind::Debug => {
            let (pv2, pv3, pv4) = match error_len {
                Some(x) => (
                    PanicVal::write_str(", error_len: Some("),
                    PanicVal::from_usize(x, fmtarg),
                    PanicVal::write_str(") }"),
                ),
                None => (
                    PanicVal::write_str(", error_len: None }"),
                    PanicVal::empty(),
                    PanicVal::empty(),
                ),
            };
            [
                PanicVal::write_str("Utf8Error { valid_up_to: "),
                PanicVal::from_usize(valid_up_to, fmtarg),
                pv2,
                pv3,
                pv4,
            ]
        },
    }
}

impl<'a> StdWrapper<&'a core::str::Utf8Error> {
    /// The error's message (Display) or structure (Debug), in five values.
    pub fn to_panicvals(self, fmtarg: FmtArg) -> (r: [PanicVal; 5])
        ensures
            exists|v: usize, e: Option<usize>| utf8_error_vals(r, v, e, fmtarg),
            forall|i: int| 0 <= i < 5 ==> (#[trigger] r[i]).wf(),
    {
        let valid_up_to = self.0.valid_up_to();
        let error_len = self.0.error_len();
        utf8_error_panicvals(valid_up_to, error_len, fmtarg)
    }
}

impl<'a> StdWrapper<&'a str> {
    /// This string, rendered as `f` says.
    pub fn to_panicval(self, f: FmtArg) -> (r: PanicVal)
        ensures
            r.is_str(StrFmt::new_spec(f), self.0.spec_bytes()),
            r.wf(),
    {
        PanicVal::from_str(self.0, f)
    }

    /// This string, as a single-value array.
    pub fn to_panicvals(self, f: FmtArg) -> (r: [PanicVal; 1])
        ensures
            r[0].is_str(StrFmt::new_spec(f), self.0.spec_bytes()),
            r[0].wf(),
    {
        [self.to_panicval(f)]
    }
}

impl<'a, 'b> StdWrapper<&'a &'b [PanicVal]> {
    /// The values behind the reference.
    pub fn deref_panic_vals(self) -> (r: &'b [PanicVal])
        ensures
            r == *self.0,
    {
        *self.0
    }
}

impl<'a, 'b, const N: usize> StdWrapper<&'a &'b [PanicVal; N]> {
    /// The values of the array behind the reference, as a slice.
    pub fn deref_panic_vals(self) -> (r: &'b [PanicVal])
        ensures
            r@ == self.0@,
    {
        self.0.as_slice()
    }
}

impl<'b, const N: usize> StdWrapper<&'b [PanicVal; N]> {
    /// The values of the array, as a slice.
    pub fn deref_panic_vals(self) -> (r: &'b [PanicVal])
        ensures
            r@ == self.0@,
    {
        self.0.as_slice()
    }
}

/// Marks types whose formatting methods are reached through [`StdWrapper`].
pub struct IsStdType;

/// Marks types that have formatting methods of their own.
pub struct IsCustomType;

/// Ties a value's type `S` to the type `T` that formats it and the kind `K`
/// of its formatting methods.
pub struct IsPanicFmt<S: ?Sized, T: ?Sized, K> {
    self_: core::marker::PhantomData<S>,
    this: core::marker::PhantomData<T>,
    kind: core::marker::PhantomData<K>,
}

impl<S: ?Sized, T: ?Sized, K> IsPanicFmt<S, T, K> {
    /// A marker for these types.
    pub fn new() -> (r: Self) {
        IsPanicFmt {
            self_: core::marker::PhantomData,
            this: core::marker::PhantomData,
            kind: core::marker::PhantomData,
        }
    }

    /// Fixes `S` from a value of that type.
    pub fn infer(self, _value: &S) -> (r: Self)
        ensures
            r == self,
    {
        self
    }
}

impl<S: ?Sized, T: ?Sized> IsPanicFmt<S, T, IsStdType> {
    /// Wraps a std value so that its formatting methods can be called.
    pub fn coerce<'a>(self, x: &'a T) -> (r: StdWrapper<&'a T>)
        ensures
            r.0 == x,
    {
        StdWrapper(x)
    }
}

impl<S: ?Sized, T: ?Sized> IsPanicFmt<S, T, IsCustomType> {
    /// A custom value, whose formatting methods are its own.
    pub fn coerce<'a>(self, x: &'a T) -> (r: &'a T)
        ensures
            r == x,
    {
        x
    }
}

/// A stand-in for `PhantomData` that always renders as `PhantomData`.
pub struct MyPhantomData<T: ?Sized>(core::marker::PhantomData<T>);

impl<T: ?Sized> MyPhantomData<T> {
    /// The marker.
    pub fn new() -> (r: Self) {
        MyPhantomData(core::marker::PhantomData)
    }

    /// `PhantomData`, as a single-value array.
    pub fn to_panicvals(&self, f: FmtArg) -> (r: [PanicVal; 1])
        ensures
            r[0].is_str(StrFmt::display_spec(), "PhantomData".spec_bytes()),
            r[0].wf(),
    {
        [PanicVal::write_str("PhantomData")]
    }
}

/// Formats `start..end` of `usize` bounds.
impl<'a> StdWrapper<&'a core::ops::Range<usize>> {
    /// The start, `..` and the end.
    pub fn to_panicvals(self, f: FmtArg) -> (r: [PanicVal; 3])
        ensures
            r[0].is_int(Sign::Positive, self.0.start as nat, usize::BITS as nat, f),
            r[1].is_str(StrFmt::display_spec(), "..".spec_bytes()),
            r[2].is_int(Sign::Positive, self.0.end as nat, usize::BITS as nat, f),
    {
        [PanicVal::from_usize(self.0.start, f), PanicVal::write_str(".."), PanicVal::from_usize(self.0.end, f)]
    }
}

#[verifier::external_type_specification]
#[verifier::reject_recursive_types(Idx)]
pub struct ExRangeFrom<Idx>(core::ops::RangeFrom<Idx>);

#[verifier::external_type_specification]
#[verifier::reject_recursive_types(Idx)]
pub struct ExRangeTo<Idx>(core::ops::RangeTo<Idx>);

#[verifier::external_type_specification]
#[verifier::reject_recursive_types(Idx)]
pub struct ExRangeToInclusive<Idx>(core::ops::RangeToInclusive<Idx>);

#[verifier::external_type_specification]
pub struct ExRangeFull(core::ops::RangeFull);

/// Relies on `RangeInclusive::start`, the range's lower bound.
pub assume_specification<Idx>[ core::ops::RangeInclusive::<Idx>::start ](r: &core::ops::RangeInclusive<Idx>) -> &Idx;

/// Relies on `RangeInclusive::end`, the range's upper bound.
pub assume_specification<Idx>[ core::ops::RangeInclusive::<Idx>::end ](r: &core::ops::RangeInclusive<Idx>) -> &Idx;

impl<'a> StdWrapper<&'a core::ops::RangeFrom<usize>> {
    /// The start and `..`.
    pub fn to_panicvals(self, f: FmtArg) -> (r: [PanicVal; 2])
        ensures
            r[0].is_int(Sign::Positive, self.0.start as nat, usize::BITS as nat, f),
            r[1].is_str(StrFmt::display_spec(), "..".spec_bytes()),
    {
        [PanicVal::from_usize(self.0.start, f), PanicVal::write_str("..")]
    }
}

impl<'a> StdWrapper<&'a core::ops::RangeTo<usize>> {
    /// `..` and the end.
    pub fn to_panicvals(self, f: FmtArg) -> (r: [PanicVal; 2])
        ensures
            r[0].is_str(StrFmt::display_spec(), "..".spec_bytes()),
            r[1].is_int(Sign::Positive, self.0.end as nat, usize::BITS as nat, f),
    {
        [PanicVal::write_str(".."), PanicVal::from_usize(self.0.end, f)]
    }
}

impl<'a> StdWrapper<&'a core::ops::RangeToInclusive<usize>> {
    /// `..=` and the end.
    pub fn to_panicvals(self, f: FmtArg) -> (r: [PanicVal; 2])
        ensures
            r[0].is_str(StrFmt::display_spec(), "..=".spec_bytes()),
            r[1].is_int(Sign::Positive, self.0.end as nat, usize::BITS as nat, f),
    {
        [PanicVal::write_str("..="), PanicVal::from_usize(self.0.end, f)]
    }
}

impl<'a> StdWrapper<&'a core::ops::RangeFull> {
    /// `..`.
    pub fn to_panicvals(self, f: FmtArg) -> (r: [PanicVal; 1])
        ensures
            r[0].is_str(StrFmt::display_spec(), "..".spec_bytes()),
    {
        [PanicVal::write_str("..")]
    }
}

/// The values of `start..=end`.
pub fn range_inclusive_panicvals(start: usize, end: usize, f: FmtArg) -> (r: [PanicVal; 3])
    ensures
        r[0].is_int(Sign::Positive, start as nat, usize::BITS as nat, f),
        r[1].is_str(StrFmt::display_spec(), "..=".spec_bytes()),
        r[2].is_int(Sign::Positive, end as nat, usize::BITS as nat, f),
{
    [PanicVal::from_usize(start, f), PanicVal::write_str("..="), PanicVal::from_usize(end, f)]
}

impl<'a> StdWrapper<&'a core::ops::RangeInclusive<usize>> {
    /// The start, `..=` and the end.
    pub fn to_panicvals(self, f: FmtArg) -> (r: [PanicVal; 3])
        ensures
            exists|a: usize, b: usize| {
                &&& r[0].is_int(Sign::Positive, a as nat, usize::BITS as nat, f)
                &&& r[1].is_str(StrFmt::display_spec(), "..=".spec_bytes())
                &&& r[2].is_int(Sign::Positive, b as nat, usize::BITS as nat, f)
            },
    {
        range_inclusive_panicvals(*self.0.start(), *self.0.end(), f)
    }
}

#[verifier::external_type_specification]
pub struct ExFromBytesWithNulError(core::ffi::FromBytesWithNulError);

#[verifier::external_type_specification]
#[verifier::external_body]
pub struct ExFromBytesUntilNulError(core::ffi::FromBytesUntilNulError);

impl<'a> StdWrapper<&'a core::ffi::FromBytesWithNulError> {
    /// The error's message (Display) or structure (Debug), in six values,
    /// the unused ones empty.
    pub fn to_panicvals(self, fmtarg: FmtArg) -> (r: [PanicVal; 6])
        ensures
            fmtarg.fmt_kind == FmtKind::Display ==> match *self.0 {
                core::ffi::FromBytesWithNulError::InteriorNul { position } =>
                    r[0].is_str(StrFmt::display_spec(), "data provided contains an interior nul byte at byte pos ".spec_bytes())
                    && r[1].is_int(Sign::Positive, position as nat, usize::BITS as nat, fmtarg)
                    && forall|i: int| 2 <= i < 6 ==> (#[trigger] r[i]).is_str(StrFmt::display_spec(), Seq::empty()),
                core::ffi::FromBytesWithNulError::NotNulTerminated =>
                    r[0].is_str(StrFmt::display_spec(), "data provided is not nul terminated".spec_bytes())
                    && forall|i: int| 1 <= i < 6 ==> (#[trigger] r[i]).is_str(StrFmt::display_spec(), Seq::empty()),
            },
            fmtarg.fmt_kind == FmtKind::Debug ==> match *self.0 {
                core::ffi::FromBytesWithNulError::InteriorNul { position } => {
                    let g = fmtarg.indent_spec();
                    &&& r[0].is_str(StrFmt::display_spec(), "InteriorNul".spec_bytes())
                    &&& r[1].is_str(delim_fmt(Delimiter::OpenBrace, g), delim_text(Delimiter::OpenBrace, g.is_alternate))
                    &&& r[2].is_str(StrFmt::display_spec(), "position: ".spec_bytes())
                    &&& r[3].is_int(Sign::Positive, position as nat, usize::BITS as nat, g)
                    &&& r[4].is_str(sep_fmt(IsLast::Yes, g), sep_text(",".spec_bytes(), IsLast::Yes, g.is_alternate))
                    &&& r[5].is_str(delim_fmt(Delimiter::CloseBrace, g.unindent_spec()),
                            delim_text(Delimiter::CloseBrace, g.is_alternate))
                },
                core::ffi::FromBytesWithNulError::NotNulTerminated =>
                    r[0].is_str(StrFmt::display_spec(), "NotNulTerminated".spec_bytes())
                    && forall|i: int| 1 <= i < 6 ==> (#[trigger] r[i]).is_str(StrFmt::display_spec(), Seq::empty()),
            },
    {
        match (fmtarg.fmt_kind, self.0) {
            (FmtKind::Display, core::ffi::FromBytesWithNulError::InteriorNul { position }) => [
                PanicVal::write_str("data provided contains an interior nul byte at byte pos "),
                PanicVal::from_usize(*position, fmtarg),
                PanicVal::empty(),
                PanicVal::empty(),
                PanicVal::empty(),
                PanicVal::empty(),
            ],
            (FmtKind::Display, core::ffi::FromBytesWithNulError::NotNulTerminated) => [
                PanicVal::write_str("data provided is not nul terminated"),
                PanicVal::empty(),
                PanicVal::empty(),
                PanicVal::empty(),
                PanicVal::empty(),
                PanicVal::empty(),
            ],
            (FmtKind::Debug, core::ffi::FromBytesWithNulError::InteriorNul { position }) => {
                let g = fmtarg.indent();
                [
                    PanicVal::write_str("InteriorNul"),
                    Delimiter::OpenBrace.to_panicval(g),
                    PanicVal::write_str("position: "),
                    PanicVal::from_usize(*position, g),
                    Separator::comma_term().to_panicval(g),
                    Delimiter::CloseBrace.to_panicval(g.unindent()),
                ]
            },
            (FmtKind::Debug, core::ffi::FromBytesWithNulError::NotNulTerminated) => [
                PanicVal::write_str("NotNulTerminated"),
                PanicVal::empty(),
                PanicVal::empty(),
                PanicVal::empty(),
                PanicVal::empty(),
                PanicVal::empty(),
            ],
        }
    }
}

impl<'a> StdWrapper<&'a core::ffi::FromBytesUntilNulError> {
    /// The error's message (Display) or structure (Debug), in five values,
    /// the unused ones empty.
    pub fn to_panicvals(self, fmtarg: FmtArg) -> (r: [PanicVal; 5])
        ensures
            fmtarg.fmt_kind == FmtKind::Display ==>
                r[0].is_str(StrFmt::display_spec(), "data provided does not contain a nul".spec_bytes())
                && forall|i: int| 1 <= i < 5 ==> (#[trigger] r[i]).is_str(StrFmt::display_spec(), Seq::empty()),
            fmtarg.fmt_kind == FmtKind::Debug ==> {
                let g = fmtarg.indent_spec();
                &&& r[0].is_str(StrFmt::display_spec(), "FromBytesUntilNulError".spec_bytes())
                &&& r[1].is_str(delim_fmt(Delimiter::OpenParen, g), delim_text(Delimiter::OpenParen, g.is_alternate))
                &&& r[2].is_str(StrFmt::display_spec(), "()".spec_bytes())
                &&& r[3].is_str(sep_fmt(IsLast::Yes, g), sep_text(",".spec_bytes(), IsLast::Yes, g.is_alternate))
                &&& r[4].is_str(delim_fmt(Delimiter::CloseParen, g.unindent_spec()),
                        delim_text(Delimiter::CloseParen, g.is_alternate))
            },
    {
        match fmtarg.fmt_kind {
            FmtKind::Display => [
                PanicVal::write_str("data provided does not contain a nul"),
                PanicVal::empty(),
                PanicVal::empty(),
                PanicVal::empty(),
                PanicVal::empty(),
            ],
            FmtKind::Debug => {
                let g = fmtarg.indent();
                [
                    PanicVal::write_str("FromBytesUntilNulError"),
                    Delimiter::OpenParen.to_panicval(g),
                    StdWrapper(&()).to_panicval(g),
                    Separator::comma_term().to_panicval(g),
                    Delimiter::CloseParen.to_panicval(g.unindent()),
                ]
            },
        }
    }
}

} // verus!
