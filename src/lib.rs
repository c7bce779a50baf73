//! Allocation-conscious rendering of typed values into bounded byte buffers,
//! with Display/Debug rules, numeric bases, padding, and UTF-8- and
//! escape-safe truncation.
pub mod fmt;
pub mod int_fmt;
pub mod escape;
pub mod utils;
pub mod panic_val;
pub mod render;
pub mod concat_panic;
pub mod array_string;
pub mod char_fmt;
pub mod wrapper;
pub mod aggregate;
pub mod panic_fmt;
pub mod flatten;

pub use array_string::ArrayString;
pub use concat_panic::{compute_length, format_panic_message, make_panic_string, panic_message,
    NotEnoughSpace, MAX_PANIC_MSG_LEN};
pub use fmt::{FmtArg, FmtKind, NumberFmt, PackedFmtArg};
pub use panic_fmt::PanicFmt;
pub use panic_val::PanicVal;
pub use wrapper::StdWrapper;
