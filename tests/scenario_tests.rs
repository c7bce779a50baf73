use const_panic::aggregate::{ComputePvCount, Delimiter, IsLast, Separator, TypeDelim};
use const_panic::array_string::ArrayString;
use const_panic::char_fmt::{char_to_debug, char_to_display};
use const_panic::concat_panic::{
    compute_length, format_panic_message, make_panic_string, make_panic_string_unwrapped, panic_message,
    NotEnoughSpace, MAX_PANIC_MSG_LEN,
};
use const_panic::flatten::flatten_panicvals;
use const_panic::panic_fmt::PanicFmt;
use const_panic::panic_val::PanicVal;
use const_panic::utils::{
    bytes_up_to, slice_max_usize, trim_trailing_nul, truncate_str, truncated_debug_str_len, truncated_str_len,
    WasTruncated,
};
use const_panic::FmtArg;

fn render_groups(groups: &[&[PanicVal]], cap: usize, max: usize) -> Result<String, NotEnoughSpace> {
    format_panic_message::<1024>(groups, cap, max).map(|s| String::from_utf8(s.get().to_vec()).unwrap())
}

fn full(val: PanicVal) -> String {
    render_groups(&[&[val]], 1024, 1025).unwrap()
}

#[test]
fn display_u8_scenario() {
    assert_eq!(full(PanicVal::from_u8(42, FmtArg::display())), "42");
}

#[test]
fn alternate_hex_negative_scenario() {
    assert_eq!(full(PanicVal::from_i8(-1, FmtArg::alt_hex())), "0xFF");
    assert_eq!(full(PanicVal::from_i8(-128, FmtArg::hex())), "80");
    assert_eq!(full(PanicVal::from_i8(-1, FmtArg::bin())), "11111111");
    assert_eq!(full(PanicVal::from_i128(-1, FmtArg::hex())), "F".repeat(32));
}

#[test]
fn debug_string_scenario() {
    assert_eq!(full(PanicVal::from_str("a\nb", FmtArg::debug())), "\"a\\nb\"");
}

#[test]
fn debug_truncation_scenario() {
    assert_eq!(truncated_debug_str_len(b"hello world", 8), WasTruncated::Yes(7));
    let hello = [PanicVal::from_str("hello world", FmtArg::debug())];
    assert!(render_groups(&[&hello], 8, 9).is_err());
    assert_eq!(render_groups(&[&hello], 8, 8).unwrap(), "\"hello w");
    assert!(ArrayString::<8>::from_panicvals(&hello).is_none());
    assert!(make_panic_string::<8>(&[&hello]).is_err());
    assert_eq!(ArrayString::<13>::from_panicvals(&hello).unwrap().as_bytes(), b"\"hello world\"");
}

#[test]
fn decimal_round_trip_values() {
    for n in [0i128, 1, -1, 9, 10, -10, 99, 100, 12345, i64::MIN as i128, i128::MIN, i128::MAX] {
        let s = full(PanicVal::from_i128(n, FmtArg::display()));
        assert_eq!(s.parse::<i128>().unwrap(), n);
        assert_eq!(s, n.to_string());
    }
    for n in [0u128, 7, 10, 1_0000_0000_0000_0000, u128::MAX] {
        let s = full(PanicVal::from_u128(n, FmtArg::display()));
        assert_eq!(s.parse::<u128>().unwrap(), n);
    }
}

#[test]
fn display_truncation_keeps_characters_whole() {
    let s = "人ö个".as_bytes();
    assert_eq!(truncated_str_len(s, 8), WasTruncated::No);
    assert_eq!(truncated_str_len(s, 7), WasTruncated::Yes(5));
    assert_eq!(truncated_str_len(s, 4), WasTruncated::Yes(3));
    assert_eq!(truncated_str_len(s, 2), WasTruncated::Yes(0));
    assert_eq!(truncate_str(s, 6), (&s[..5], true));
    assert_eq!(truncate_str(s, 100), (s, false));
}

#[test]
fn debug_truncation_counts_escapes() {
    assert_eq!(truncated_debug_str_len(b"a\nb", 6), WasTruncated::No);
    assert_eq!(truncated_debug_str_len(b"a\nb", 5), WasTruncated::Yes(3));
    assert_eq!(truncated_debug_str_len(b"a\nb", 4), WasTruncated::Yes(2));
    assert_eq!(truncated_debug_str_len(b"a\nb", 3), WasTruncated::Yes(1));
    assert_eq!(truncated_debug_str_len(b"a\x01", 5), WasTruncated::Yes(1));
    assert_eq!(truncated_debug_str_len(b"", 1), WasTruncated::Yes(0));
    assert_eq!(truncated_debug_str_len(b"", 0), WasTruncated::Yes(0));
    assert_eq!(truncated_debug_str_len("ö".as_bytes(), 3), WasTruncated::Yes(2));
    assert_eq!(truncated_debug_str_len("ö".as_bytes(), 2), WasTruncated::Yes(0));
}

#[test]
fn value_counts_match_renderings() {
    assert_eq!(<u8 as PanicFmt>::pv_count(), 1);
    assert_eq!(5u8.to_panicvals(FmtArg::debug()).len(), 1);
    assert_eq!(<Option<u8> as PanicFmt>::pv_count(), 5);
    assert_eq!(Some(3u8).to_panicvals(FmtArg::debug()).len(), 5);
    assert_eq!(None::<u8>.to_panicvals(FmtArg::debug()).len(), 5);
    assert_eq!(<Option<Option<bool>> as PanicFmt>::pv_count(), 9);
    assert_eq!(Some(None::<bool>).to_panicvals(FmtArg::debug()).len(), 9);

    let some = Some(3u8).to_panicvals(FmtArg::debug());
    assert_eq!(render_groups(&[&some], 64, 65).unwrap(), "Some(3)");
    let some_alt = Some(3u8).to_panicvals(FmtArg::alt_debug());
    assert_eq!(render_groups(&[&some_alt], 64, 65).unwrap(), format!("{:#?}", Some(3u8)));
    let none = None::<u8>.to_panicvals(FmtArg::debug());
    assert_eq!(render_groups(&[&none], 64, 65).unwrap(), "None");
}

#[test]
fn larger_capacity_renders_the_same() {
    let vals = [PanicVal::from_str("hi\t", FmtArg::debug()), PanicVal::from_slice_u16(&[1, 2], FmtArg::alt_debug())];
    let exact = compute_length(&[&vals]);
    let small = render_groups(&[&vals], exact, exact + 1).unwrap();
    for cap in [exact, exact + 1, 100, 1024] {
        assert_eq!(render_groups(&[&vals], cap, cap + 1).unwrap(), small);
    }
    assert!(render_groups(&[&vals], exact - 1, exact).is_err());
}

#[test]
fn clipped_padding_counts_as_truncation() {
    let open = [Delimiter::OpenBracket.to_panicval(FmtArg::alt_debug().indent())];
    assert_eq!(render_groups(&[&open], 6, 7).unwrap(), "[\n    ");
    assert!(render_groups(&[&open], 4, 5).is_err());
    assert_eq!(render_groups(&[&open], 4, 4).unwrap(), "[\n  ");
}

#[test]
fn message_escalates_and_truncates() {
    let short = [PanicVal::write_str("the error was "), PanicVal::from_u8(100, FmtArg::display())];
    assert_eq!(panic_message(&[&short]), b"the error was 100".to_vec());
    let long_text = "x".repeat(40000);
    let long = [PanicVal::write_str(&long_text)];
    let msg = panic_message(&[&long]);
    assert_eq!(msg.len(), MAX_PANIC_MSG_LEN);
    let medium_text = "y".repeat(3000);
    let medium = [PanicVal::write_str(&medium_text)];
    assert_eq!(panic_message(&[&medium]), medium_text.as_bytes().to_vec());
}

#[test]
fn compute_length_is_exact() {
    let vals = [PanicVal::from_str("a\nb", FmtArg::debug()), PanicVal::from_u32(12345, FmtArg::alt_hex())];
    assert_eq!(compute_length(&[&vals]), "\"a\\nb\"0x3039".len());
    assert_eq!(compute_length(&[]), 0);
}

#[test]
fn array_string_basics() {
    assert_eq!(ArrayString::<16>::new("Hello, world!").as_bytes(), b"Hello, world!");
    assert_eq!(ArrayString::<16>::new("foo").len(), 3);
    assert_eq!(ArrayString::<16>::new("foo bar").len(), 7);
    assert_eq!(ArrayString::<99>::concat(&["This ", "is ", "a string"]).as_bytes(), b"This is a string");
    assert_eq!(ArrayString::<0>::concat(&[]).len(), 0);

    let one = [PanicVal::from_u8(1, FmtArg::debug()), PanicVal::from_str("hello", FmtArg::debug())];
    let arr = [PanicVal::from_slice_u8(&[3, 5, 8], FmtArg::debug())];
    assert_eq!(ArrayString::<17>::concat_panicvals(&[&one, &arr]).unwrap().as_bytes(), b"1\"hello\"[3, 5, 8]");
    assert!(ArrayString::<16>::concat_panicvals(&[&one, &arr]).is_none());

    let vals = [PanicVal::from_u8(100, FmtArg::debug()), PanicVal::write_str("hello")];
    assert_eq!(ArrayString::<8>::from_panicvals(&vals).unwrap().as_bytes(), b"100hello");
    assert!(ArrayString::<7>::from_panicvals(&vals).is_none());
    assert_eq!(make_panic_string_unwrapped::<8>(&[&vals]).as_bytes(), b"100hello");

    let s = ArrayString::<16>::new("a\"b");
    let [pv] = s.to_panicvals(FmtArg::debug());
    assert_eq!(full(pv), "\"a\\\"b\"");
    assert_eq!(full(s.to_panicval(FmtArg::display())), "a\"b");
    assert_eq!(full(PanicVal::write_short_str(ArrayString::<16>::new("short"))), "short");
}

#[test]
fn flatten_pads_with_empty_values() {
    let a = [PanicVal::write_str("x"), PanicVal::from_u8(2, FmtArg::debug())];
    let b = [PanicVal::from_bool(true, FmtArg::debug())];
    let flat = flatten_panicvals::<5>(&[&a, &b]);
    assert_eq!(flat.len(), 5);
    assert_eq!(render_groups(&[&flat], 64, 65).unwrap(), "x2true");
    assert_eq!(flat[3].leftpad(), 0);
}

#[test]
fn packing_round_trips() {
    for f in [FmtArg::display(), FmtArg::debug(), FmtArg::alt_debug(), FmtArg::hex(), FmtArg::alt_bin(), FmtArg::debug().indent().indent()] {
        assert_eq!(f.pack().unpack(), f);
    }
    assert_eq!(FmtArg::debug().unindent().indentation, 0);
    assert_eq!(FmtArg::debug().indent().indentation, 4);
    assert_eq!(FmtArg::display().set_debug().set_display(), FmtArg::display());
}

#[test]
fn aggregate_tokens() {
    assert_eq!(ComputePvCount { field_amount: 0, summed_pv_count: 0, delimiter: TypeDelim::Braced }.call(), 1);
    assert_eq!(ComputePvCount { field_amount: 2, summed_pv_count: 2, delimiter: TypeDelim::Braced }.call(), 9);
    assert_eq!(ComputePvCount { field_amount: 2, summed_pv_count: 5, delimiter: TypeDelim::Tupled }.call(), 10);
    assert_eq!(TypeDelim::Tupled.get_open_and_close(), (Delimiter::OpenParen, Delimiter::CloseParen));
    let sep = Separator::new(";", IsLast::No);
    assert_eq!(full(sep.to_panicval(FmtArg::debug())), "; ");
    assert_eq!(full(Separator::new(";", IsLast::Yes).to_panicval(FmtArg::debug())), "");
    assert_eq!(full(PanicVal::from_element_separator(",", IsLast::Yes, FmtArg::alt_debug())), ",\n");
    let [pv] = Delimiter::OpenBrace.to_panicvals(FmtArg::debug());
    assert_eq!(full(pv), " { ");
    let padded = PanicVal::write_str("x").with_leftpad(FmtArg::debug().indent()).with_rightpad(FmtArg::debug().indent().indent());
    assert_eq!((padded.leftpad(), padded.rightpad()), (4, 8));
    assert_eq!(full(padded), "    x        ");
}

#[test]
fn char_renderings() {
    let d = char_to_debug('\n');
    assert_eq!(&d.encoded()[..d.len()], b"'\\n'");
    let d = char_to_debug('"');
    assert_eq!(&d.encoded()[..d.len()], b"'\"'");
    let d = char_to_debug('\x01');
    assert_eq!(&d.encoded()[..d.len()], b"'\\x01'");
    let d = char_to_display('个');
    assert_eq!(&d.encoded()[..d.len()], "个".as_bytes());
}

#[test]
fn byte_helpers() {
    let bytes = [3u8, 5, 8, 13, 21, 34, 55, 89];
    assert_eq!(bytes_up_to(&bytes, 4), &[3, 5, 8, 13][..]);
    assert_eq!(bytes_up_to(&bytes, usize::MAX), &bytes[..]);
    assert_eq!(trim_trailing_nul(&[1, 0, 2, 0, 0]), &[1, 0, 2][..]);
    assert_eq!(trim_trailing_nul(&[0, 0]), &[][..]);
    assert_eq!(slice_max_usize(&[3, 9, 2]), 9);
    assert_eq!(slice_max_usize(&[]), 0);
}

#[test]
fn rendered_text_as_str() {
    let vals = [PanicVal::from_str("人\n", FmtArg::debug())];
    let msg = format_panic_message::<64>(&[&vals], 64, 65).unwrap();
    assert_eq!(msg.as_str(), "\"人\\n\"");
    let bad = [PanicVal::from_bytes(vec![b'a', 0xFF], const_panic::panic_val::StrFmt::display())];
    let msg = format_panic_message::<64>(&[&bad], 64, 65).unwrap();
    assert_eq!(msg.get(), &[b'a', 0xFF][..]);
    assert_eq!(ArrayString::<8>::new("héllo").to_str(), "héllo");
}

#[test]
fn wrapped_slices_and_scalars() {
    let [pv] = const_panic::StdWrapper(&[1u8, 2][..]).to_panicvals(FmtArg::debug());
    assert_eq!(full(pv), "[1, 2]");
    let [pv] = const_panic::StdWrapper(&["a", "b\t"][..]).to_panicvals(FmtArg::alt_debug());
    assert_eq!(full(pv), format!("{:#?}", ["a", "b\t"]));
    let [pv] = const_panic::StdWrapper(&-7i64).to_panicvals(FmtArg::hex());
    assert_eq!(full(pv), format!("{:X}", -7i64));
    assert_eq!(full(const_panic::StdWrapper(&true).to_panicval(FmtArg::debug())), "true");
}
