use const_panic::aggregate::{Delimiter, Separator};
use const_panic::array_string::ArrayString;
use const_panic::concat_panic::{format_panic_message, NotEnoughSpace};
use const_panic::panic_val::PanicVal;
use const_panic::utils::{extend_byte_array, tail_byte_array, StartAndBytes};
use const_panic::wrapper::StdWrapper;
use const_panic::FmtArg;
use core::num::{NonZeroI128, NonZeroI16, NonZeroI32, NonZeroI64, NonZeroI8, NonZeroIsize,
    NonZeroU128, NonZeroU16, NonZeroU32, NonZeroU64, NonZeroU8, NonZeroUsize};

fn render_vals(vals: &[PanicVal], cap: usize, max: usize) -> Result<String, NotEnoughSpace> {
    format_panic_message::<1024>(&[vals], cap, max).map(|s| String::from_utf8(s.get().to_vec()).unwrap())
}

fn trunc_one(cap: usize, val: PanicVal) -> String {
    render_vals(&[val], cap, cap).unwrap()
}

fn overf_one(cap: usize, val: PanicVal) -> Result<String, NotEnoughSpace> {
    render_vals(&[val], cap, cap + 1)
}

fn fmt_cases(int: &dyn Fn(FmtArg) -> PanicVal, strings: [(FmtArg, String); 8]) {
    for (fmt, string) in strings {
        assert_eq!(overf_one(string.len(), int(fmt)).unwrap(), string);
        assert_eq!(trunc_one(string.len(), int(fmt)), string);
        overf_one(string.len() - 1, int(fmt)).unwrap_err();
        assert_eq!(trunc_one(string.len() - 1, int(fmt)), "");
    }
}

fn int_strings<T: std::fmt::Debug + std::fmt::UpperHex + std::fmt::Binary + Copy>(int: T) -> [(FmtArg, String); 8] {
    [
        (FmtArg::debug(), format!("{:?}", int)),
        (FmtArg::alt_debug(), format!("{:?}", int)),
        (FmtArg::display(), format!("{:?}", int)),
        (FmtArg::alt_display(), format!("{:?}", int)),
        (FmtArg::hex(), format!("{:X}", int)),
        (FmtArg::alt_hex(), format!("{:#X}", int)),
        (FmtArg::bin(), format!("{:b}", int)),
        (FmtArg::alt_bin(), format!("{:#b}", int)),
    ]
}

fn unsigned_inputs(max: u128) -> Vec<u128> {
    let mut v: Vec<u128> = (0..10).collect();
    let mut p: u128 = 1;
    loop {
        for x in [p - 1, p, p + 1] {
            if x <= max {
                v.push(x);
            }
        }
        match p.checked_mul(10) {
            Some(n) if n <= max => p = n,
            _ => break,
        }
    }
    let mut p: u128 = 1;
    loop {
        for x in [p - 1, p, p.saturating_add(1)] {
            if x <= max {
                v.push(x);
            }
        }
        match p.checked_mul(2) {
            Some(n) if n <= max => p = n,
            _ => break,
        }
    }
    for x in 0..3 {
        v.push(x);
        v.push(max - x);
    }
    v
}

fn signed_inputs(min: i128, max: i128) -> Vec<i128> {
    let mut v: Vec<i128> = Vec::new();
    for x in unsigned_inputs(max as u128) {
        v.push(x as i128);
        v.push(-(x as i128));
    }
    for x in 0..3 {
        v.push(min + x);
        v.push(max - x);
    }
    v
}

#[test]
fn integer_tests_integer_test() {
    for x in unsigned_inputs(u8::MAX as u128) {
        let x = x as u8;
        fmt_cases(&|f| PanicVal::from_u8(x, f), int_strings(x));
    }
    for x in unsigned_inputs(u16::MAX as u128) {
        let x = x as u16;
        fmt_cases(&|f| PanicVal::from_u16(x, f), int_strings(x));
    }
    for x in unsigned_inputs(u32::MAX as u128) {
        let x = x as u32;
        fmt_cases(&|f| PanicVal::from_u32(x, f), int_strings(x));
    }
    for x in unsigned_inputs(u64::MAX as u128) {
        let x = x as u64;
        fmt_cases(&|f| PanicVal::from_u64(x, f), int_strings(x));
    }
    for x in unsigned_inputs(u128::MAX) {
        fmt_cases(&|f| PanicVal::from_u128(x, f), int_strings(x));
    }
    for x in unsigned_inputs(usize::MAX as u128) {
        let x = x as usize;
        fmt_cases(&|f| PanicVal::from_usize(x, f), int_strings(x));
    }
    for x in signed_inputs(i8::MIN as i128, i8::MAX as i128) {
        let x = x as i8;
        fmt_cases(&|f| PanicVal::from_i8(x, f), int_strings(x));
    }
    for x in signed_inputs(i16::MIN as i128, i16::MAX as i128) {
        let x = x as i16;
        fmt_cases(&|f| PanicVal::from_i16(x, f), int_strings(x));
    }
    for x in signed_inputs(i32::MIN as i128, i32::MAX as i128) {
        let x = x as i32;
        fmt_cases(&|f| PanicVal::from_i32(x, f), int_strings(x));
    }
    for x in signed_inputs(i64::MIN as i128, i64::MAX as i128) {
        let x = x as i64;
        fmt_cases(&|f| PanicVal::from_i64(x, f), int_strings(x));
    }
    for x in signed_inputs(i128::MIN, i128::MAX) {
        fmt_cases(&|f| PanicVal::from_i128(x, f), int_strings(x));
    }
    for x in signed_inputs(isize::MIN as i128, isize::MAX as i128) {
        let x = x as isize;
        fmt_cases(&|f| PanicVal::from_isize(x, f), int_strings(x));
    }
}

#[test]
fn nonzero_integer_test() {
    let x = NonZeroU8::new(5).unwrap();
    fmt_cases(&|f| PanicVal::from_u8(x.get(), f), int_strings(x));
    let x = NonZeroI8::new(-5).unwrap();
    fmt_cases(&|f| PanicVal::from_i8(x.get(), f), int_strings(x));
    let x = NonZeroU16::new(8).unwrap();
    fmt_cases(&|f| PanicVal::from_u16(x.get(), f), int_strings(x));
    let x = NonZeroI16::new(-8).unwrap();
    fmt_cases(&|f| PanicVal::from_i16(x.get(), f), int_strings(x));
    let x = NonZeroU32::new(13).unwrap();
    fmt_cases(&|f| PanicVal::from_u32(x.get(), f), int_strings(x));
    let x = NonZeroI32::new(-13).unwrap();
    fmt_cases(&|f| PanicVal::from_i32(x.get(), f), int_strings(x));
    let x = NonZeroU64::new(21).unwrap();
    fmt_cases(&|f| PanicVal::from_u64(x.get(), f), int_strings(x));
    let x = NonZeroI64::new(-21).unwrap();
    fmt_cases(&|f| PanicVal::from_i64(x.get(), f), int_strings(x));
    let x = NonZeroU128::new(34).unwrap();
    fmt_cases(&|f| PanicVal::from_u128(x.get(), f), int_strings(x));
    let x = NonZeroI128::new(-34).unwrap();
    fmt_cases(&|f| PanicVal::from_i128(x.get(), f), int_strings(x));
    let x = NonZeroUsize::new(55).unwrap();
    fmt_cases(&|f| PanicVal::from_usize(x.get(), f), int_strings(x));
    let x = NonZeroIsize::new(-55).unwrap();
    fmt_cases(&|f| PanicVal::from_isize(x.get(), f), int_strings(x));
}

#[test]
fn basic_char_tests() {
    for c in (' '..='\u{FFF}').chain([char::MAX]) {
        let display = format!("{}", c);
        let debug = if c > '\u{7E}' { format!("'{}'", c) } else { format!("{:?}", c) };
        let [pv] = StdWrapper(&c).to_panicvals(FmtArg::debug());
        assert_eq!(trunc_one(32, pv), debug, "debug");
        let [pv] = StdWrapper(&c).to_panicvals(FmtArg::display());
        assert_eq!(trunc_one(32, pv), display, "display");
    }
}

const ALL_ASCII: &str = "\
 \x00\x01\x02\x03\x04\x05\x06\x07\x08\t\n\x0b\x0c\r\x0e\x0f\x10\
 \x11\x12\x13\x14\x15\x16\x17\x18\x19\x1a\x1b\x1c\x1d\x1e\x1f \
 !\"#$%&\'()*+,-./0123456789:;<=>?@ABCDEFGHIJKLMNOPQRSTUVWXYZ[\\]\
 ^_`abcdefghijklmnopqrstuvwxyz{|}~\x7f\u{80}\u{81}\u{90}\u{91}\
";

const ALL_ASCII_ESCAPED: &str = "\
 \"\
 \\x00\\x01\\x02\\x03\\x04\\x05\\x06\\x07\\x08\\t\\n\\x0B\\x0C\\r\\x0E\\x0F\
 \\x10\\x11\\x12\\x13\\x14\\x15\\x16\\x17\\x18\\x19\\x1A\\x1B\\x1C\\x1D\\x1E\\x1F \
 !\\\"#$%&\\\'()*+,-./0123456789:;<=>?@ABCDEFGHIJKLMNOPQRSTUVWXYZ[\\\\]\
 ^_`abcdefghijklmnopqrstuvwxyz{|}~\x7f\u{80}\u{81}\u{90}\u{91}\
 \"\
";

#[test]
fn escaped_string() {
    const MAX_L: usize = 1024;
    for (string, debug_escaped) in [
        (ALL_ASCII, ALL_ASCII_ESCAPED),
        ("\\", r#""\\""#),
        (r#"\u\u{}"#, r#""\\u\\u{}""#),
    ] {
        assert_eq!(trunc_one(MAX_L, PanicVal::from_str(string, FmtArg::debug())), debug_escaped);
        assert_eq!(trunc_one(MAX_L, PanicVal::from_str(string, FmtArg::display())), string);
        assert_eq!(trunc_one(MAX_L, PanicVal::write_str(string)), string);
    }
    for lit in [ALL_ASCII, "\\", r#"\u\u{}"#] {
        assert_eq!(trunc_one(MAX_L, PanicVal::write_str(lit)), lit);
    }
}

#[test]
fn tail_byte_array_eq_gt_tests() {
    assert_eq!(tail_byte_array::<0>(0, &[3]), StartAndBytes { bytes: [], start: 0 });
    assert_eq!(tail_byte_array::<0>(0, &[3, 5]), StartAndBytes { bytes: [], start: 0 });
    assert_eq!(tail_byte_array::<1>(0, &[3, 5]), StartAndBytes { bytes: [0], start: 1 });
    assert_eq!(tail_byte_array::<1>(1, &[3, 5]), StartAndBytes { bytes: [3], start: 0 });
    assert_eq!(tail_byte_array::<2>(0, &[3, 5]), StartAndBytes { bytes: [0, 0], start: 2 });
    assert_eq!(tail_byte_array::<2>(1, &[3, 5]), StartAndBytes { bytes: [0, 3], start: 1 });
    assert_eq!(tail_byte_array::<2>(2, &[3, 5]), StartAndBytes { bytes: [3, 5], start: 0 });
    assert_eq!(tail_byte_array::<1>(0, &[]), StartAndBytes { bytes: [0], start: 1 });
    assert_eq!(tail_byte_array::<2>(0, &[]), StartAndBytes { bytes: [0, 0], start: 2 });
}

fn flatten(f: FmtArg, name: &str, delim: Option<(Delimiter, Delimiter)>, fields: Vec<(Option<&str>, PanicVal)>) -> Vec<PanicVal> {
    let mut out = vec![PanicVal::write_str(name)];
    if let Some((open, close)) = delim {
        let inner = f.indent();
        out.push(open.to_panicval(inner));
        let n = fields.len();
        for (i, (fname, val)) in fields.into_iter().enumerate() {
            if let Some(fname) = fname {
                out.push(PanicVal::write_str(fname));
            }
            out.push(val);
            let sep = if i + 1 == n { Separator::comma_term() } else { Separator::comma_sep() };
            out.push(sep.to_panicval(inner));
        }
        out.push(close.to_panicval(f));
    }
    out
}

#[derive(Debug)]
struct Foo<'a> {
    x: &'a [u8],
    y: u8,
}

fn foo_panicvals(foo: &Foo, f: FmtArg) -> Vec<PanicVal> {
    let inner = f.indent();
    flatten(f, "Foo", Some((Delimiter::OpenBrace, Delimiter::CloseBrace)), vec![
        (Some("x: "), PanicVal::from_slice_u8(foo.x, inner)),
        (Some("y: "), PanicVal::from_u8(foo.y, inner)),
    ])
}

fn fmt_flatten(vals: Vec<PanicVal>) -> String {
    let s = ArrayString::<256>::from_panicvals(&vals).unwrap();
    String::from_utf8(s.as_bytes().to_vec()).unwrap()
}

#[test]
fn derive_struct_formatting() {
    let foo = Foo { x: &[3, 5, 8, 13], y: 21 };
    assert_eq!(fmt_flatten(foo_panicvals(&foo, FmtArg::debug())), format!("{:?}", foo));
    assert_eq!(fmt_flatten(foo_panicvals(&foo, FmtArg::alt_debug())), format!("{:#?}", foo));
}

#[derive(Debug)]
enum Qux {
    Up,
    Down { x: u32, y: u32 },
    Left(u64),
}

fn qux_panicvals(q: &Qux, f: FmtArg) -> Vec<PanicVal> {
    let inner = f.indent();
    match q {
        Qux::Up => flatten(f, "Up", None, vec![]),
        Qux::Down { x, y } => flatten(f, "Down", Some((Delimiter::OpenBrace, Delimiter::CloseBrace)), vec![
            (Some("x: "), PanicVal::from_u32(*x, inner)),
            (Some("y: "), PanicVal::from_u32(*y, inner)),
        ]),
        Qux::Left(v) => flatten(f, "Left", Some((Delimiter::OpenParen, Delimiter::CloseParen)), vec![
            (None, PanicVal::from_u64(*v, inner)),
        ]),
    }
}

#[test]
fn derive_enum_formatting() {
    for val in [Qux::Up, Qux::Down { x: 21, y: 34 }, Qux::Left(55)] {
        assert_eq!(fmt_flatten(qux_panicvals(&val, FmtArg::debug())), format!("{:?}", val));
        assert_eq!(fmt_flatten(qux_panicvals(&val, FmtArg::alt_debug())), format!("{:#?}", val));
    }
}

#[derive(Debug)]
struct Point {
    x: u8,
    y: u8,
}

#[test]
fn point_struct_scenario() {
    let p = Point { x: 1, y: 2 };
    let vals = |f: FmtArg| {
        let inner = f.indent();
        flatten(f, "Point", Some((Delimiter::OpenBrace, Delimiter::CloseBrace)), vec![
            (Some("x: "), PanicVal::from_u8(p.x, inner)),
            (Some("y: "), PanicVal::from_u8(p.y, inner)),
        ])
    };
    assert_eq!(fmt_flatten(vals(FmtArg::debug())), "Point { x: 1, y: 2 }");
    assert_eq!(fmt_flatten(vals(FmtArg::alt_debug())), "Point {\n    x: 1,\n    y: 2,\n}");
}

// The value count of an aggregate with a declared lower bound is the largest
// of its variants' counts and the bound.
fn lb_struct_pv_count() -> usize {
    let fields = const_panic::aggregate::ComputePvCount {
        field_amount: 2,
        summed_pv_count: 2,
        delimiter: const_panic::aggregate::TypeDelim::Braced,
    };
    const_panic::utils::slice_max_usize(&[fields.call(), 100])
}

fn lb_enum_pv_count() -> usize {
    let unit = const_panic::aggregate::ComputePvCount {
        field_amount: 0,
        summed_pv_count: 0,
        delimiter: const_panic::aggregate::TypeDelim::Braced,
    };
    const_panic::utils::slice_max_usize(&[unit.call(), unit.call(), 101])
}

#[test]
fn struct_panicvals_lower_bound() {
    assert_eq!(lb_struct_pv_count(), 100);
}

#[test]
fn enum_panicvals_lower_bound() {
    assert_eq!(lb_enum_pv_count(), 101);
}

#[test]
fn extend_byte_array_eq_gt_tests() {
    assert_eq!(extend_byte_array::<0, 1>([]), [0]);
    assert_eq!(extend_byte_array::<0, 2>([]), [0, 0]);

    assert_eq!(extend_byte_array::<1, 1>([3]), [3]);
    assert_eq!(extend_byte_array::<1, 2>([3]), [3, 0]);
    assert_eq!(extend_byte_array::<1, 3>([3]), [3, 0, 0]);

    assert_eq!(extend_byte_array::<2, 2>([3, 5]), [3, 5]);
    assert_eq!(extend_byte_array::<2, 3>([3, 5]), [3, 5, 0]);
    assert_eq!(extend_byte_array::<2, 4>([3, 5]), [3, 5, 0, 0]);
}
