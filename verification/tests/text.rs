use forth3::fastr::{fold_bytes, is_all_ascii, to_lower, FaStr};
use forth3::num::{format_decimal, parse_literal, Literal};
use forth3::text::{bytes_eq, parse_usize, same_trimmed, scan, split_lines, trimmed_len, Scan};
use forth3::word::Word;

#[test]
fn scan_finds_the_first_hit() {
    let s = b"ab  cd\te";
    assert_eq!(scan(s, 0, Scan::Space), 2);
    assert_eq!(scan(s, 2, Scan::NotSpace), 4);
    assert_eq!(scan(s, 4, Scan::Byte(b'\t')), 6);
    assert_eq!(scan(s, 0, Scan::Byte(b'z')), 8);
    assert_eq!(scan(s, 8, Scan::Space), 8);
    assert!(Scan::Space.test(b'\n'));
    assert!(Scan::Space.test(0x0b));
    assert!(!Scan::Space.test(b'a'));
    assert!(Scan::NotSpace.test(b'a'));
    assert!(Scan::Byte(b'a').test(b'a'));
    assert!(Scan::Blank.test(b' ') && Scan::Blank.test(b'\t') && Scan::Blank.test(b'\n'));
    assert!(!Scan::Blank.test(b'\r') && !Scan::Blank.test(0x0b) && !Scan::Blank.test(0x0c));
    assert!(Scan::NotBlank.test(b'\r') && !Scan::NotBlank.test(b' '));
    assert_eq!(scan(b"a\rb c", 0, Scan::Blank), 3);
}

#[test]
fn byte_strings_compare() {
    assert!(bytes_eq(b"", b""));
    assert!(bytes_eq(b"abc", b"abc"));
    assert!(!bytes_eq(b"abc", b"abd"));
    assert!(!bytes_eq(b"abc", b"ab"));
}

#[test]
fn unsigned_integers_parse() {
    assert_eq!(parse_usize(b"0"), Some(0));
    assert_eq!(parse_usize(b"+17"), Some(17));
    assert_eq!(parse_usize(b"0042"), Some(42));
    assert_eq!(parse_usize(b""), None);
    assert_eq!(parse_usize(b"+"), None);
    assert_eq!(parse_usize(b"-1"), None);
    assert_eq!(parse_usize(b"12a"), None);
    assert_eq!(parse_usize(b" 1"), None);
    let max = format!("{}", usize::MAX);
    assert_eq!(parse_usize(max.as_bytes()), Some(usize::MAX));
    let over = format!("{}0", usize::MAX);
    assert_eq!(parse_usize(over.as_bytes()), None);
    let just_over = format!("{}", usize::MAX as u128 + 1);
    assert_eq!(parse_usize(just_over.as_bytes()), None);
}

#[test]
fn lines_split_as_text_lines_do() {
    let v = split_lines(b"a\nb\r\n\nlast");
    assert_eq!(
        v,
        vec![b"a".to_vec(), b"b".to_vec(), b"".to_vec(), b"last".to_vec()]
    );
    assert_eq!(split_lines(b""), Vec::<Vec<u8>>::new());
    assert_eq!(split_lines(b"x\n"), vec![b"x".to_vec()]);
    assert_eq!(split_lines(b"x\r"), vec![b"x\r".to_vec()]);
    assert_eq!(split_lines(b"\n"), vec![b"".to_vec()]);
    assert_eq!(split_lines(b"a\r\r\n"), vec![b"a\r".to_vec()]);
}

#[test]
fn trailing_white_space_is_trimmed() {
    assert_eq!(trimmed_len(b"abc  \t"), 3);
    assert_eq!(trimmed_len(b"  abc"), 5);
    assert_eq!(trimmed_len(b"   "), 0);
    assert_eq!(trimmed_len(b""), 0);
    assert!(same_trimmed(b"3 ", b"3"));
    assert!(same_trimmed(b"ok.", b"ok.   "));
    assert!(!same_trimmed(b" ok.", b"ok."));
}

#[test]
fn literals_in_three_bases() {
    assert_eq!(parse_literal(b"123"), Literal::Number(123));
    assert_eq!(parse_literal(b"-7"), Literal::Number(-7));
    assert_eq!(parse_literal(b"$1A"), Literal::Number(26));
    assert_eq!(parse_literal(b"$1a"), Literal::Number(26));
    assert_eq!(parse_literal(b"-$ff"), Literal::Number(-255));
    assert_eq!(parse_literal(b"%1011"), Literal::Number(11));
    assert_eq!(parse_literal(b"-%1"), Literal::Number(-1));
    assert_eq!(parse_literal(b"0"), Literal::Number(0));
    assert_eq!(parse_literal(b"007"), Literal::Number(7));
}

#[test]
fn literals_at_the_ends_of_the_range() {
    assert_eq!(parse_literal(b"2147483647"), Literal::Number(i32::MAX));
    assert_eq!(parse_literal(b"2147483648"), Literal::Overflow);
    assert_eq!(parse_literal(b"-2147483648"), Literal::Number(i32::MIN));
    assert_eq!(parse_literal(b"-2147483649"), Literal::Overflow);
    assert_eq!(parse_literal(b"$7fffffff"), Literal::Number(i32::MAX));
    assert_eq!(parse_literal(b"$80000000"), Literal::Overflow);
    assert_eq!(parse_literal(b"-$80000000"), Literal::Number(i32::MIN));
    assert_eq!(
        parse_literal(b"99999999999999999999999999"),
        Literal::Overflow
    );
    assert_eq!(
        parse_literal(b"%11111111111111111111111111111111"),
        Literal::Overflow
    );
}

#[test]
fn what_is_no_literal() {
    assert_eq!(parse_literal(b""), Literal::NotANumber);
    assert_eq!(parse_literal(b"-"), Literal::NotANumber);
    assert_eq!(parse_literal(b"12x"), Literal::NotANumber);
    assert_eq!(parse_literal(b"abc"), Literal::NotANumber);
    assert_eq!(parse_literal(b"1a"), Literal::NotANumber);
    assert_eq!(parse_literal(b"+1"), Literal::NotANumber);
    assert_eq!(parse_literal(b"$"), Literal::Malformed);
    assert_eq!(parse_literal(b"$xyz"), Literal::Malformed);
    assert_eq!(parse_literal(b"%12"), Literal::Malformed);
    assert_eq!(parse_literal(b"-%"), Literal::Malformed);
    assert_eq!(
        parse_literal(b"99999999999999999999999999x"),
        Literal::NotANumber
    );
}

#[test]
fn decimals_print_and_read_back() {
    assert_eq!(format_decimal(0), b"0".to_vec());
    assert_eq!(format_decimal(7), b"7".to_vec());
    assert_eq!(format_decimal(120), b"120".to_vec());
    assert_eq!(format_decimal(-45), b"-45".to_vec());
    assert_eq!(format_decimal(i32::MAX), b"2147483647".to_vec());
    assert_eq!(format_decimal(i32::MIN), b"-2147483648".to_vec());
    for n in [0, 1, -1, 9, 10, 99, 100, 12345, -99999, i32::MAX, i32::MIN] {
        assert_eq!(parse_literal(&format_decimal(n)), Literal::Number(n));
    }
}

#[test]
fn names_fold_capital_letters() {
    assert_eq!(to_lower(b'A'), b'a');
    assert_eq!(to_lower(b'Z'), b'z');
    assert_eq!(to_lower(b'a'), b'a');
    assert_eq!(to_lower(b'['), b'[');
    assert_eq!(to_lower(b'@'), b'@');
    assert_eq!(to_lower(0xc9), 0xc9);
    assert_eq!(fold_bytes(b"Hello, World!"), b"hello, world!".to_vec());
    assert!(is_all_ascii(b"plain"));
    assert!(!is_all_ascii("h\u{e9}".as_bytes()));
    let n = FaStr::new(b"DUP").unwrap();
    assert_eq!(n.as_bytes(), b"dup");
    assert_eq!(n.len(), 3);
    assert!(n.is(b"dup"));
    assert!(!n.is(b"DUP"));
    assert_eq!(n.clone().as_bytes(), b"dup");
}

#[test]
fn names_have_limits() {
    assert!(FaStr::new(&[b'a'; 31]).is_some());
    assert!(FaStr::new(&[b'a'; 32]).is_none());
    assert!(FaStr::new("h\u{e9}llo".as_bytes()).is_none());
    assert_eq!(FaStr::new(b"").unwrap().len(), 0);
    assert_eq!(
        FaStr::truncated(&[b'B'; 40]).unwrap().as_bytes(),
        &[b'b'; 31]
    );
    assert!(FaStr::truncated("h\u{e9}llo".as_bytes()).is_none());
    // a byte that is not ASCII counts wherever it stands
    let mut long = vec![b'x'; 31];
    long.push(0xff);
    assert!(FaStr::truncated(&long).is_none());
    long[31] = b'Y';
    assert_eq!(FaStr::truncated(&long).unwrap().as_bytes(), &[b'x'; 31]);
}

#[test]
fn cells_as_addresses_and_flags() {
    assert_eq!(Word::data(5).data, 5);
    assert_eq!(Word::ptr(0x1000), Some(Word::data(0x1000)));
    assert_eq!(Word::ptr(0x7fff_ffff), Some(Word::data(i32::MAX)));
    assert_eq!(Word::ptr(0x8000_0000), None);
    assert_eq!(Word::data(16).addr(), Some(16));
    assert_eq!(Word::data(-1).addr(), None);
    assert!(Word::data(2).is_true());
    assert!(!Word::data(0).is_true());
    assert_eq!(Word::flag(true), Word::data(-1));
    assert_eq!(Word::flag(false), Word::data(0));
}
