use const_panic::concat_panic::format_panic_message;
use const_panic::panic_val::PanicVal;
use const_panic::wrapper::StdWrapper;
use const_panic::FmtArg;
use core::cmp::Ordering;
use core::marker::{PhantomData, PhantomPinned};
use core::num::{IntErrorKind, ParseIntError};
use core::sync::atomic::Ordering as AtomicOrdering;

fn trunc_vals(cap: usize, vals: &[PanicVal]) -> String {
    let s = format_panic_message::<1024>(&[vals], cap, cap).unwrap();
    String::from_utf8(s.get().to_vec()).unwrap()
}

fn check_val(vals: [PanicVal; 1], val: PanicVal, expected: &str) {
    assert_eq!(trunc_vals(1024, &vals), expected);
    assert_eq!(trunc_vals(1024, &[val]), expected);
}

#[test]
fn fmt_units() {
    let val = PhantomData::<u8>;
    check_val(StdWrapper(&val).to_panicvals(FmtArg::debug()), StdWrapper(&val).to_panicval(FmtArg::debug()), "PhantomData");
    let val = PhantomData::<str>;
    check_val(StdWrapper(&val).to_panicvals(FmtArg::debug()), StdWrapper(&val).to_panicval(FmtArg::debug()), "PhantomData");

    let val = PhantomPinned;
    check_val(StdWrapper(&val).to_panicvals(FmtArg::debug()), StdWrapper(&val).to_panicval(FmtArg::debug()), "PhantomPinned");

    let val = ();
    check_val(StdWrapper(&val).to_panicvals(FmtArg::debug()), StdWrapper(&val).to_panicval(FmtArg::debug()), "()");
}

#[test]
fn fmt_orderings() {
    let val = Ordering::Less;
    check_val(StdWrapper(&val).to_panicvals(FmtArg::debug()), StdWrapper(&val).to_panicval(FmtArg::debug()), "Less");
    let val = Ordering::Equal;
    check_val(StdWrapper(&val).to_panicvals(FmtArg::debug()), StdWrapper(&val).to_panicval(FmtArg::debug()), "Equal");
    let val = Ordering::Greater;
    check_val(StdWrapper(&val).to_panicvals(FmtArg::debug()), StdWrapper(&val).to_panicval(FmtArg::debug()), "Greater");

    let val = AtomicOrdering::Relaxed;
    check_val(StdWrapper(&val).to_panicvals(FmtArg::debug()), StdWrapper(&val).to_panicval(FmtArg::debug()), "Relaxed");
    let val = AtomicOrdering::Release;
    check_val(StdWrapper(&val).to_panicvals(FmtArg::debug()), StdWrapper(&val).to_panicval(FmtArg::debug()), "Release");
    let val = AtomicOrdering::Acquire;
    check_val(StdWrapper(&val).to_panicvals(FmtArg::debug()), StdWrapper(&val).to_panicval(FmtArg::debug()), "Acquire");
    let val = AtomicOrdering::AcqRel;
    check_val(StdWrapper(&val).to_panicvals(FmtArg::debug()), StdWrapper(&val).to_panicval(FmtArg::debug()), "AcqRel");
    let val = AtomicOrdering::SeqCst;
    check_val(StdWrapper(&val).to_panicvals(FmtArg::debug()), StdWrapper(&val).to_panicval(FmtArg::debug()), "SeqCst");
}

fn check_parse_int_error(err: &ParseIntError) {
    assert_eq!(trunc_vals(1024, &StdWrapper(err).to_panicvals(FmtArg::debug())), format!("{:?}", err));
    assert_eq!(trunc_vals(1024, &StdWrapper(err).to_panicvals(FmtArg::display())), format!("{}", err));
}

#[test]
fn test_parse_int_error() {
    {
        let err: ParseIntError = u32::from_str_radix("", 10).unwrap_err();
        assert_eq!(*err.kind(), IntErrorKind::Empty);
        check_parse_int_error(&err);
    }
    {
        let err: ParseIntError = u32::from_str_radix("A", 10).unwrap_err();
        assert_eq!(*err.kind(), IntErrorKind::InvalidDigit);
        check_parse_int_error(&err);
    }
    {
        let err: ParseIntError = u8::from_str_radix("256", 10).unwrap_err();
        assert_eq!(*err.kind(), IntErrorKind::PosOverflow);
        check_parse_int_error(&err);
    }
    {
        let err: ParseIntError = i8::from_str_radix("-256", 10).unwrap_err();
        assert_eq!(*err.kind(), IntErrorKind::NegOverflow);
        check_parse_int_error(&err);
    }
    {
        let err: ParseIntError = "0".parse::<core::num::NonZeroI8>().unwrap_err();
        assert_eq!(*err.kind(), IntErrorKind::Zero);
        check_parse_int_error(&err);
    }
}

#[test]
fn test_int_error_kind() {
    for kind in [
        IntErrorKind::Empty,
        IntErrorKind::InvalidDigit,
        IntErrorKind::PosOverflow,
        IntErrorKind::NegOverflow,
        IntErrorKind::Zero,
    ] {
        assert_eq!(trunc_vals(1024, &StdWrapper(&kind).to_panicvals(FmtArg::debug())), format!("{kind:?}"));
    }
}

#[test]
#[allow(invalid_from_utf8)]
fn test_utf8_error() {
    let has_no_error_len = std::str::from_utf8(&[0xC2]).unwrap_err();
    assert_eq!(has_no_error_len.error_len(), None);

    let has_error_len = std::str::from_utf8(&[0x80]).unwrap_err();
    has_error_len.error_len().unwrap();

    for err in [has_no_error_len, has_error_len] {
        assert_eq!(trunc_vals(1024, &StdWrapper(&err).to_panicvals(FmtArg::debug())), format!("{:?}", err));
        assert_eq!(trunc_vals(1024, &StdWrapper(&err).to_panicvals(FmtArg::display())), format!("{}", err));
    }
}

#[test]
fn test_from_bytes_with_nul_error() {
    for err in [
        core::ffi::FromBytesWithNulError::InteriorNul { position: 0 },
        core::ffi::FromBytesWithNulError::InteriorNul { position: 10 },
        core::ffi::FromBytesWithNulError::NotNulTerminated,
    ] {
        assert_eq!(trunc_vals(1024, &StdWrapper(&err).to_panicvals(FmtArg::debug())), format!("{:?}", err));
        assert_eq!(trunc_vals(1024, &StdWrapper(&err).to_panicvals(FmtArg::alt_debug())), format!("{:#?}", err));
    }
}

#[test]
fn test_from_bytes_until_nul_error() {
    let err: core::ffi::FromBytesUntilNulError = core::ffi::CStr::from_bytes_until_nul(&[]).unwrap_err();
    assert_eq!(trunc_vals(1024, &StdWrapper(&err).to_panicvals(FmtArg::debug())), format!("{:?}", err));
    assert_eq!(trunc_vals(1024, &StdWrapper(&err).to_panicvals(FmtArg::alt_debug())), format!("{:#?}", err));
    assert_eq!(trunc_vals(1024, &StdWrapper(&err).to_panicvals(FmtArg::display())), format!("{}", err));
    assert_eq!(trunc_vals(1024, &StdWrapper(&err).to_panicvals(FmtArg::alt_display())), format!("{:#}", err));
}

#[test]
fn fmt_ranges() {
    assert_eq!(trunc_vals(64, &StdWrapper(&(3usize..5)).to_panicvals(FmtArg::debug())), "3..5");
    assert_eq!(trunc_vals(64, &StdWrapper(&(3usize..=5)).to_panicvals(FmtArg::debug())), "3..=5");
    assert_eq!(trunc_vals(64, &StdWrapper(&(3usize..)).to_panicvals(FmtArg::debug())), "3..");
    assert_eq!(trunc_vals(64, &StdWrapper(&(..5usize)).to_panicvals(FmtArg::debug())), "..5");
    assert_eq!(trunc_vals(64, &StdWrapper(&(..=5usize)).to_panicvals(FmtArg::debug())), "..=5");
    assert_eq!(trunc_vals(64, &StdWrapper(&(..)).to_panicvals(FmtArg::debug())), "..");
    assert_eq!(trunc_vals(64, &StdWrapper(&(10usize..20)).to_panicvals(FmtArg::alt_hex())), "0xA..0x14");
}
