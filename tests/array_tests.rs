use const_panic::concat_panic::{format_panic_message, NotEnoughSpace};
use const_panic::panic_val::PanicVal;
use const_panic::FmtArg;

fn render(vals: &[PanicVal], cap: usize, max: usize) -> Result<String, NotEnoughSpace> {
    format_panic_message::<1024>(&[vals], cap, max).map(|s| String::from_utf8(s.get().to_vec()).unwrap())
}

fn trunc_fmt(cap: usize, val: PanicVal) -> String {
    render(&[val], cap, cap).unwrap()
}

fn overf_fmt(cap: usize, val: PanicVal) -> Result<String, NotEnoughSpace> {
    render(&[val], cap, cap + 1)
}

#[test]
fn overflow_truncating_integer_array_test() {
    let cases: [(&[u8], &str); 6] = [
        (&[], "[]"),
        (&[3u8], "[3]"),
        (&[3u8, 5], "[3, 5]"),
        (&[3u8, 5, 8], "[3, 5, 8]"),
        (&[3u8, 5, 8, 13], "[3, 5, 8, 13]"),
        (&[3u8, 5, 8, 13, 21], "[3, 5, 8, 13, 21]"),
    ];
    for (slice, expected) in cases {
        assert_eq!(overf_fmt(20, PanicVal::from_slice_u8(slice, FmtArg::debug())).unwrap(), expected);
        assert_eq!(trunc_fmt(20, PanicVal::from_slice_u8(slice, FmtArg::debug())), expected);
    }

    // numbers shouldn't be truncated, they should just not be printed
    let upto34 = [3i8, 5, 8, -3, 21, 34];
    for (len, expected) in [
        (0, ""),
        (1, "["),
        (2, "[3"),
        (3, "[3,"),
        (4, "[3, "),
        (5, "[3, 5"),
        (6, "[3, 5,"),
        (12, "[3, 5, 8, -3"),
        (13, "[3, 5, 8, -3,"),
        (14, "[3, 5, 8, -3, "),
        (15, "[3, 5, 8, -3, "),
        (15, "[3, 5, 8, -3, "),
        (16, "[3, 5, 8, -3, 21"),
        (17, "[3, 5, 8, -3, 21,"),
        (18, "[3, 5, 8, -3, 21, "),
        (19, "[3, 5, 8, -3, 21, "),
        (20, "[3, 5, 8, -3, 21, 34"),
    ] {
        assert_eq!(trunc_fmt(len, PanicVal::from_slice_i8(&upto34, FmtArg::debug())), expected);
    }

    overf_fmt(19, PanicVal::from_slice_i8(&upto34, FmtArg::debug())).unwrap_err();
    overf_fmt(20, PanicVal::from_slice_i8(&upto34, FmtArg::debug())).unwrap_err();
}

#[test]
fn string_test() {
    let arr = ["h\nllo", "人ö个"];
    let t = |len: usize| trunc_fmt(len, PanicVal::from_slice_str(&arr, FmtArg::debug()));
    assert_eq!(t(0), r#""#);
    assert_eq!(t(1), r#"["#);
    assert_eq!(t(2), r#"[""#);
    assert_eq!(t(3), r#"["h"#);
    assert_eq!(t(4), r#"["h"#);
    assert_eq!(t(5), r#"["h\n"#);
    assert_eq!(t(6), r#"["h\nl"#);
    assert_eq!(t(7), r#"["h\nll"#);
    assert_eq!(t(8), r#"["h\nllo"#);
    assert_eq!(t(9), r#"["h\nllo""#);
    assert_eq!(t(10), r#"["h\nllo","#);
    assert_eq!(t(11), r#"["h\nllo", "#);
    assert_eq!(t(12), r#"["h\nllo", ""#);
    assert_eq!(t(13), r#"["h\nllo", ""#);
    assert_eq!(t(14), r#"["h\nllo", ""#);
    assert_eq!(t(15), r#"["h\nllo", "人"#);
    assert_eq!(t(16), r#"["h\nllo", "人"#);
    assert_eq!(t(17), r#"["h\nllo", "人ö"#);
    assert_eq!(t(18), r#"["h\nllo", "人ö"#);
    assert_eq!(t(19), r#"["h\nllo", "人ö"#);
    assert_eq!(t(20), r#"["h\nllo", "人ö个"#);
    assert_eq!(t(21), r#"["h\nllo", "人ö个""#);
    assert_eq!(t(22), r#"["h\nllo", "人ö个"]"#);
}

#[test]
fn bin_integer_test() {
    let array = [-4, -3, -2, -1, 0i8, 1, 2, 3, 4];
    assert_eq!(
        overf_fmt(1024, PanicVal::from_slice_i8(&array, FmtArg::bin())).unwrap(),
        "[11111100, 11111101, 11111110, 11111111, 0, 1, 10, 11, 100]"
    );

    assert_eq!(
        overf_fmt(1024, PanicVal::from_slice_i8(&array, FmtArg::alt_bin())).unwrap(),
        [
            "[\n",
            "    0b11111100,\n",
            "    0b11111101,\n",
            "    0b11111110,\n",
            "    0b11111111,\n",
            "    0b0,\n",
            "    0b1,\n",
            "    0b10,\n",
            "    0b11,\n",
            "    0b100,\n",
            "]",
        ]
        .concat()
    );
}

fn check_int_array(make: &dyn Fn(FmtArg) -> PanicVal, debug: String, alt_debug: String, hex: String, alt_hex: String) {
    assert_eq!(overf_fmt(1024, make(FmtArg::debug())).unwrap(), debug);
    assert_eq!(overf_fmt(1024, make(FmtArg::alt_debug())).unwrap(), alt_debug);
    assert_eq!(overf_fmt(1024, make(FmtArg::hex())).unwrap(), hex);
    assert_eq!(overf_fmt(1024, make(FmtArg::alt_hex())).unwrap(), alt_hex);
}

#[test]
fn array_tests_integer_test() {
    let a = [0u16, 1, 2, u16::MAX / 2, u16::MAX];
    check_int_array(&|f| PanicVal::from_slice_u16(&a, f), format!("{:?}", a), format!("{:#?}", a), format!("{:X?}", a), format!("{:#X?}", a));
    let a = [0u32, 1, 2, u32::MAX / 2, u32::MAX];
    check_int_array(&|f| PanicVal::from_slice_u32(&a, f), format!("{:?}", a), format!("{:#?}", a), format!("{:X?}", a), format!("{:#X?}", a));
    let a = [0u64, 1, 2, u64::MAX / 2, u64::MAX];
    check_int_array(&|f| PanicVal::from_slice_u64(&a, f), format!("{:?}", a), format!("{:#?}", a), format!("{:X?}", a), format!("{:#X?}", a));
    let a = [0u128, 1, 2, u128::MAX / 2, u128::MAX];
    check_int_array(&|f| PanicVal::from_slice_u128(&a, f), format!("{:?}", a), format!("{:#?}", a), format!("{:X?}", a), format!("{:#X?}", a));
    let a = [0usize, 1, 2, usize::MAX / 2, usize::MAX];
    check_int_array(&|f| PanicVal::from_slice_usize(&a, f), format!("{:?}", a), format!("{:#?}", a), format!("{:X?}", a), format!("{:#X?}", a));
    let a = [i16::MIN, i16::MIN / 2, -2, -1, 0i16, 1, 2, i16::MAX / 2, i16::MAX];
    check_int_array(&|f| PanicVal::from_slice_i16(&a, f), format!("{:?}", a), format!("{:#?}", a), format!("{:X?}", a), format!("{:#X?}", a));
    let a = [i32::MIN, i32::MIN / 2, -2, -1, 0i32, 1, 2, i32::MAX / 2, i32::MAX];
    check_int_array(&|f| PanicVal::from_slice_i32(&a, f), format!("{:?}", a), format!("{:#?}", a), format!("{:X?}", a), format!("{:#X?}", a));
    let a = [i64::MIN, i64::MIN / 2, -2, -1, 0i64, 1, 2, i64::MAX / 2, i64::MAX];
    check_int_array(&|f| PanicVal::from_slice_i64(&a, f), format!("{:?}", a), format!("{:#?}", a), format!("{:X?}", a), format!("{:#X?}", a));
    let a = [i128::MIN, i128::MIN / 2, -2, -1, 0i128, 1, 2, i128::MAX / 2, i128::MAX];
    check_int_array(&|f| PanicVal::from_slice_i128(&a, f), format!("{:?}", a), format!("{:#?}", a), format!("{:X?}", a), format!("{:#X?}", a));
    let a = [isize::MIN, isize::MIN / 2, -2, -1, 0isize, 1, 2, isize::MAX / 2, isize::MAX];
    check_int_array(&|f| PanicVal::from_slice_isize(&a, f), format!("{:?}", a), format!("{:#?}", a), format!("{:X?}", a), format!("{:#X?}", a));
}

#[test]
fn test_bool_arrays() {
    let empty_bool: [bool; 0] = [];

    assert_eq!(trunc_fmt(10, PanicVal::from_slice_bool(&empty_bool, FmtArg::debug())), "[]");
    assert_eq!(trunc_fmt(10, PanicVal::from_slice_bool(&[false], FmtArg::debug())), "[false]");
    assert_eq!(trunc_fmt(10, PanicVal::from_slice_bool(&[true], FmtArg::debug())), "[true]");
    assert_eq!(trunc_fmt(10, PanicVal::from_slice_bool(&[true, true], FmtArg::debug())), "[true, tru");
    assert_eq!(trunc_fmt(11, PanicVal::from_slice_bool(&[true, true], FmtArg::debug())), "[true, true");
    assert_eq!(trunc_fmt(12, PanicVal::from_slice_bool(&[true, true], FmtArg::debug())), "[true, true]");
}

#[test]
fn empty_slice_in_both_debug_modes() {
    let empty: [u8; 0] = [];
    assert_eq!(overf_fmt(16, PanicVal::from_slice_u8(&empty, FmtArg::debug())).unwrap(), "[]");
    assert_eq!(overf_fmt(16, PanicVal::from_slice_u8(&empty, FmtArg::alt_debug())).unwrap(), "[]");
}
