//! Formatting configuration.
use vstd::prelude::*;

verus! {

/// Whether a value is rendered in Display or Debug style.
#[derive(Debug, Copy, Clone, PartialEq, Eq, Structural)]
pub enum FmtKind {
    Debug,
    Display,
}

/// The base in which integers are rendered.
#[derive(Debug, Copy, Clone, PartialEq, Eq, Structural)]
pub enum NumberFmt {
    Decimal,
    Binary,
    Hexadecimal,
}

/// The amount of spaces that one level of indentation adds.
pub const INDENTATION_STEP: u8 = 4;

/// Formatting options: indentation, alternate (pretty) mode, Display/Debug
/// and numeric base.
#[derive(Debug, Copy, Clone, PartialEq, Eq, Structural)]
pub struct FmtArg {
    pub indentation: u8,
    pub is_alternate: bool,
    pub fmt_kind: FmtKind,
    pub number_fmt: NumberFmt,
}

/// A configuration with no indentation.
pub open spec fn preset(is_alternate: bool, fmt_kind: FmtKind, number_fmt: NumberFmt) -> FmtArg {
    FmtArg { indentation: 0, is_alternate, fmt_kind, number_fmt }
}

impl FmtArg {
    /// Display formatting, no indentation, decimal integers.
    pub fn display() -> (r: FmtArg)
        ensures
            r == (FmtArg {
                indentation: 0,
                is_alternate: false,
                fmt_kind: FmtKind::Display,
                number_fmt: NumberFmt::Decimal,
            }),
    {
        FmtArg {
            indentation: 0,
            is_alternate: false,
            fmt_kind: FmtKind::Display,
            number_fmt: NumberFmt::Decimal,
        }
    }

    /// Alternate Display formatting.
    pub fn alt_display() -> (r: FmtArg)
        ensures
            r == preset(true, FmtKind::Display, NumberFmt::Decimal),
    {
        FmtArg::display().set_alternate(true)
    }

    /// Debug formatting.
    pub fn debug() -> (r: FmtArg)
        ensures
            r == preset(false, FmtKind::Debug, NumberFmt::Decimal),
    {
        FmtArg::display().set_debug()
    }

    /// Alternate Debug formatting.
    pub fn alt_debug() -> (r: FmtArg)
        ensures
            r == preset(true, FmtKind::Debug, NumberFmt::Decimal),
    {
        FmtArg::debug().set_alternate(true)
    }

    /// Debug formatting with binary integers.
    pub fn bin() -> (r: FmtArg)
        ensures
            r == preset(false, FmtKind::Debug, NumberFmt::Binary),
    {
        FmtArg::display().set_bin()
    }

    /// Alternate Debug formatting with `0b`-prefixed binary integers.
    pub fn alt_bin() -> (r: FmtArg)
        ensures
            r == preset(true, FmtKind::Debug, NumberFmt::Binary),
    {
        FmtArg::bin().set_alternate(true)
    }

    /// Debug formatting with hexadecimal integers.
    pub fn hex() -> (r: FmtArg)
        ensures
            r == preset(false, FmtKind::Debug, NumberFmt::Hexadecimal),
    {
        FmtArg::display().set_hex()
    }

    /// Alternate Debug formatting with `0x`-prefixed hexadecimal integers.
    pub fn alt_hex() -> (r: FmtArg)
        ensures
            r == preset(true, FmtKind::Debug, NumberFmt::Hexadecimal),
    {
        FmtArg::hex().set_alternate(true)
    }

    /// Sets whether alternate (multi-line) mode is on.
    pub fn set_alternate(self, is_alternate: bool) -> (r: FmtArg)
        ensures
            r == (FmtArg { is_alternate, ..self }),
    {
        FmtArg { is_alternate, ..self }
    }

    /// Switches to Display formatting.
    pub fn set_display(self) -> (r: FmtArg)
        ensures
            r == (FmtArg { fmt_kind: FmtKind::Display, ..self }),
    {
        FmtArg { fmt_kind: FmtKind::Display, ..self }
    }

    /// Switches to Debug formatting.
    pub fn set_debug(self) -> (r: FmtArg)
        ensures
            r == (FmtArg { fmt_kind: FmtKind::Debug, ..self }),
    {
        FmtArg { fmt_kind: FmtKind::Debug, ..self }
    }

    /// Switches to Debug formatting with hexadecimal integers.
    pub fn set_hex(self) -> (r: FmtArg)
        ensures
            r == (FmtArg { fmt_kind: FmtKind::Debug, number_fmt: NumberFmt::Hexadecimal, ..self }),
    {
        FmtArg { fmt_kind: FmtKind::Debug, number_fmt: NumberFmt::Hexadecimal, ..self }
    }

    /// Switches to Debug formatting with binary integers.
    pub fn set_bin(self) -> (r: FmtArg)
        ensures
            r == (FmtArg { fmt_kind: FmtKind::Debug, number_fmt: NumberFmt::Binary, ..self }),
    {
        FmtArg { fmt_kind: FmtKind::Debug, number_fmt: NumberFmt::Binary, ..self }
    }

    /// This configuration one indentation step deeper, stopping at 255.
    pub open spec fn indent_spec(self) -> FmtArg {
        FmtArg {
            indentation: if self.indentation + INDENTATION_STEP <= u8::MAX {
                (self.indentation + INDENTATION_STEP) as u8
            } else {
                u8::MAX
            },
            ..self
        }
    }

    /// This configuration one indentation step shallower, stopping at zero.
    pub open spec fn unindent_spec(self) -> FmtArg {
        FmtArg {
            indentation: if self.indentation >= INDENTATION_STEP {
                (self.indentation - INDENTATION_STEP) as u8
            } else {
                0u8
            },
            ..self
        }
    }

    /// Increases the indentation by one step, stopping at 255.
    pub fn indent(self) -> (r: FmtArg)
        ensures
            r == self.indent_spec(),
    {
        FmtArg { indentation: self.indentation.saturating_add(INDENTATION_STEP), ..self }
    }

    /// Decreases the indentation by one step, stopping at zero.
    pub fn unindent(self) -> (r: FmtArg)
        ensures
            r == self.unindent_spec(),
    {
        let indentation = if self.indentation >= INDENTATION_STEP {
            self.indentation - INDENTATION_STEP
        } else {
            0
        };
        FmtArg { indentation, ..self }
    }

    /// Packs this configuration into two bytes.
    pub fn pack(self) -> (r: PackedFmtArg)
        ensures
            r.unpack_spec() == self,
    {
        let alt: u8 = if self.is_alternate { 1 } else { 0 };
        let kind: u8 = match self.fmt_kind {
            FmtKind::Debug => 0,
            FmtKind::Display => 1,
        };
        let num: u8 = match self.number_fmt {
            NumberFmt::Decimal => 0,
            NumberFmt::Binary => 1,
            NumberFmt::Hexadecimal => 2,
        };
        PackedFmtArg { indentation: self.indentation, bitfields: alt + kind * 2 + num * 8 }
    }
}

/// A [`FmtArg`] stored in two bytes: the indentation, and a byte whose bit 0
/// is the alternate flag, bits 1-2 the Display/Debug kind and bits 3-4 the
/// numeric base.
#[derive(Debug, Copy, Clone)]
pub struct PackedFmtArg {
    indentation: u8,
    bitfields: u8,
}

/// The kind stored in two bits; patterns that name no kind read as Debug.
pub open spec fn kind_of_bits(n: u8) -> FmtKind {
    if n % 4 == 1 {
        FmtKind::Display
    } else {
        FmtKind::Debug
    }
}

/// The base stored in two bits; patterns that name no base read as decimal.
pub open spec fn number_of_bits(n: u8) -> NumberFmt {
    if n % 4 == 1 {
        NumberFmt::Binary
    } else if n % 4 == 2 {
        NumberFmt::Hexadecimal
    } else {
        NumberFmt::Decimal
    }
}

impl PackedFmtArg {
    /// The configuration that these two bytes stand for.
    pub closed spec fn unpack_spec(self) -> FmtArg {
        FmtArg {
            indentation: self.indentation,
            is_alternate: self.bitfields % 2 == 1,
            fmt_kind: kind_of_bits((self.bitfields / 2) as u8),
            number_fmt: number_of_bits((self.bitfields / 8) as u8),
        }
    }

    /// Unpacks the configuration.
    pub fn unpack(self) -> (r: FmtArg)
        ensures
            r == self.unpack_spec(),
    {
        let is_alternate = self.bitfields % 2 == 1;
        let k = (self.bitfields / 2) % 4;
        let fmt_kind = if k == 1 {
            FmtKind::Display
        } else {
            FmtKind::Debug
        };
        let n = (self.bitfields / 8) % 4;
        let number_fmt = if n == 1 {
            NumberFmt::Binary
        } else if n == 2 {
            NumberFmt::Hexadecimal
        } else {
            NumberFmt::Decimal
        };
        FmtArg { indentation: self.indentation, is_alternate, fmt_kind, number_fmt }
    }
}

} // verus!
