use forth3::input::WordStrBuf;
use forth3::output::{OutputBuf, OutputError};

#[test]
fn tokens_come_one_by_one_folded() {
    let mut b = WordStrBuf::new(64);
    assert_eq!(b.capacity(), 64);
    assert_eq!(b.cur_word(), None);
    b.fill("  Hello\tWORLD \n x").unwrap();
    assert_eq!(b.cur_word(), None);
    b.advance();
    assert_eq!(b.cur_word(), Some(b"hello".to_vec()));
    assert_eq!(b.cur_raw(), Some(b"Hello".to_vec()));
    b.advance();
    assert_eq!(b.cur_word(), Some(b"world".to_vec()));
    b.advance();
    assert_eq!(b.cur_word(), Some(b"x".to_vec()));
    b.advance();
    assert_eq!(b.cur_word(), None);
    b.advance();
    assert_eq!(b.cur_word(), None);
}

#[test]
fn a_token_can_be_put_back() {
    let mut b = WordStrBuf::new(64);
    b.fill("one two").unwrap();
    b.advance();
    assert_eq!(b.cur_word(), Some(b"one".to_vec()));
    b.push_back();
    assert_eq!(b.cur_word(), None);
    b.advance();
    assert_eq!(b.cur_word(), Some(b"one".to_vec()));
    b.advance();
    assert_eq!(b.cur_word(), Some(b"two".to_vec()));
}

#[test]
fn text_up_to_a_delimiter_is_taken_whole() {
    let mut b = WordStrBuf::new(64);
    b.fill(".\" Hello  there\" next").unwrap();
    b.advance();
    assert_eq!(b.cur_word(), Some(b".\"".to_vec()));
    assert!(b.consume_until(b'"'));
    assert_eq!(b.cur_raw(), Some(b"Hello  there".to_vec()));
    b.advance();
    assert_eq!(b.cur_word(), Some(b"next".to_vec()));
    assert!(!b.consume_until(b'"'));
    assert_eq!(b.cur_word(), Some(b"next".to_vec()));
}

#[test]
fn a_missing_delimiter_changes_nothing() {
    let mut b = WordStrBuf::new(64);
    b.fill("( never closed").unwrap();
    b.advance();
    assert!(!b.consume_until(b')'));
    assert_eq!(b.cur_word(), Some(b"(".to_vec()));
    b.advance();
    assert_eq!(b.cur_word(), Some(b"never".to_vec()));
    // the byte right after the token is skipped, not searched
    let mut c = WordStrBuf::new(64);
    c.fill("a)b)").unwrap();
    c.advance();
    assert_eq!(c.cur_raw(), Some(b"a)b)".to_vec()));
    c.push_back();
    assert!(c.consume_until(b')'));
    assert_eq!(c.cur_raw(), Some(b"".to_vec()));
}

#[test]
fn fill_appends_to_what_is_left() {
    let mut b = WordStrBuf::new(10);
    b.fill("abc def").unwrap();
    b.advance();
    assert_eq!(b.cur_word(), Some(b"abc".to_vec()));
    b.fill("ghi").unwrap();
    assert_eq!(b.cur_word(), None);
    b.advance();
    assert_eq!(b.cur_word(), Some(b"defghi".to_vec()));
}

#[test]
fn fill_refuses_what_does_not_fit() {
    let mut b = WordStrBuf::new(5);
    assert!(b.fill("123456").is_err());
    assert!(b.fill("12345").is_ok());
    assert!(b.fill("6").is_err());
    b.advance();
    assert_eq!(b.cur_word(), Some(b"12345".to_vec()));
    assert!(b.fill_bytes(b"67890").is_ok());
    b.clear();
    b.advance();
    assert_eq!(b.cur_word(), None);
    assert!(b.fill("abcde").is_ok());
}

#[test]
fn output_collects_up_to_its_capacity() {
    let mut o = OutputBuf::new(6);
    assert_eq!(o.capacity(), 6);
    assert_eq!(o.push_str("ab"), Ok(()));
    assert_eq!(o.push_bstr(b"cd"), Ok(()));
    assert_eq!(o.push_u8(b'e'), Ok(()));
    assert_eq!(o.as_bytes(), b"abcde");
    assert_eq!(o.push_str("fg"), Err(OutputError::OutputFull));
    assert_eq!(o.as_bytes(), b"abcde");
    assert_eq!(o.push_u8(b'f'), Ok(()));
    assert_eq!(o.push_u8(b'g'), Err(OutputError::OutputFull));
    assert_eq!(o.push_bstr(b""), Ok(()));
    assert_eq!(o.as_bytes(), b"abcdef");
    o.clear();
    assert_eq!(o.as_bytes(), b"");
    assert_eq!(o.push_str("abcdef"), Ok(()));
}

#[test]
fn output_prints_decimals() {
    let mut o = OutputBuf::new(8);
    assert_eq!(o.push_decimal(-120), Ok(()));
    assert_eq!(o.push_decimal(7), Ok(()));
    assert_eq!(o.as_bytes(), b"-1207");
    assert_eq!(o.push_decimal(12345), Err(OutputError::OutputFull));
    assert_eq!(o.as_bytes(), b"-1207");
    assert_eq!(o.push_decimal(123), Ok(()));
    assert_eq!(o.as_bytes(), b"-1207123");
}

#[test]
fn only_space_tab_and_line_feed_part_tokens() {
    let mut b = WordStrBuf::new(64);
    b.fill("a\rb\tc\x0bd\ne\x0cf g").unwrap();
    b.advance();
    assert_eq!(b.cur_word(), Some(b"a\rb".to_vec()));
    b.advance();
    assert_eq!(b.cur_word(), Some(b"c\x0bd".to_vec()));
    b.advance();
    assert_eq!(b.cur_word(), Some(b"e\x0cf".to_vec()));
    b.advance();
    assert_eq!(b.cur_word(), Some(b"g".to_vec()));
    b.advance();
    assert_eq!(b.cur_word(), None);
}
