use forth3::leakbox::{LBForth, LBForthParams};
use forth3::stack::StackError;
use forth3::vm::{Error, Forth, Mode};
use forth3::word::Word;

fn machine() -> LBForth<()> {
    LBForth::from_params(LBForthParams::default(), (), Forth::<()>::full_builtins()).unwrap()
}

fn small(data: usize, ret: usize, calls: usize, dict: usize, out: usize) -> LBForth<()> {
    let params = LBForthParams {
        data_stack_elems: data,
        return_stack_elems: ret,
        control_stack_elems: calls,
        input_buf_elems: 256,
        output_buf_elems: out,
        dict_buf_elems: dict,
    };
    LBForth::from_params(params, (), Forth::<()>::full_builtins()).unwrap()
}

fn line(lbf: &mut LBForth<()>, text: &str) -> Result<String, Error> {
    lbf.forth.output.clear();
    lbf.forth.input.clear();
    lbf.forth.input.fill(text).unwrap();
    lbf.forth.process_line()?;
    Ok(String::from_utf8(lbf.forth.output.as_bytes().to_vec()).unwrap())
}

fn stack_after(text: &str) -> Vec<i32> {
    let mut lbf = machine();
    line(&mut lbf, text).unwrap();
    stack_of(&lbf)
}

fn stack_of(lbf: &LBForth<()>) -> Vec<i32> {
    let n = lbf.forth.data_stack.depth();
    (0..n)
        .rev()
        .map(|i| lbf.forth.data_stack.peek_back_n(i).unwrap().data)
        .collect()
}

fn fails_with(text: &str) -> Error {
    let mut lbf = machine();
    line(&mut lbf, text).unwrap_err()
}

#[test]
fn arithmetic() {
    assert_eq!(stack_after("1 2 +"), vec![3]);
    assert_eq!(stack_after("10 3 -"), vec![7]);
    assert_eq!(stack_after("6 7 *"), vec![42]);
    assert_eq!(stack_after("7 2 /"), vec![3]);
    assert_eq!(stack_after("-7 2 /"), vec![-3]);
    assert_eq!(stack_after("7 -2 /"), vec![-3]);
    assert_eq!(stack_after("-7 -2 /"), vec![3]);
    assert_eq!(stack_after("7 2 mod"), vec![1]);
    assert_eq!(stack_after("-7 2 mod"), vec![-1]);
    assert_eq!(stack_after("7 -2 mod"), vec![1]);
    assert_eq!(stack_after("-5 abs 5 abs"), vec![5, 5]);
    assert_eq!(stack_after("5 negate -5 negate"), vec![-5, 5]);
    assert_eq!(stack_after("3 9 min 3 9 max"), vec![3, 9]);
    assert_eq!(stack_after("9 3 min 9 3 max"), vec![3, 9]);
}

#[test]
fn arithmetic_wraps_around() {
    assert_eq!(stack_after("2147483647 1 +"), vec![i32::MIN]);
    assert_eq!(stack_after("-2147483648 1 -"), vec![i32::MAX]);
    assert_eq!(stack_after("65536 65536 *"), vec![0]);
    assert_eq!(stack_after("-2147483648 -2147483648 *"), vec![0]);
    assert_eq!(stack_after("2147483647 2147483647 *"), vec![1]);
    assert_eq!(stack_after("-2147483648 -1 /"), vec![i32::MIN]);
    assert_eq!(stack_after("-2147483648 -1 mod"), vec![0]);
    assert_eq!(stack_after("-2147483648 negate"), vec![i32::MIN]);
    assert_eq!(stack_after("-2147483648 abs"), vec![i32::MIN]);
    assert_eq!(stack_after("1073741824 cells"), vec![0]);
    assert_eq!(stack_after("3 cells"), vec![12]);
}

#[test]
fn division_by_zero() {
    assert_eq!(fails_with("1 0 /"), Error::DivideByZero);
    assert_eq!(fails_with("1 0 mod"), Error::DivideByZero);
}

#[test]
fn bits() {
    assert_eq!(stack_after("12 10 and"), vec![8]);
    assert_eq!(stack_after("12 10 or"), vec![14]);
    assert_eq!(stack_after("12 10 xor"), vec![6]);
    assert_eq!(stack_after("-1 255 and"), vec![255]);
    assert_eq!(stack_after("1 4 lshift"), vec![16]);
    assert_eq!(stack_after("1 31 lshift"), vec![i32::MIN]);
    assert_eq!(stack_after("3 31 lshift"), vec![i32::MIN]);
    assert_eq!(stack_after("1 32 lshift"), vec![0]);
    assert_eq!(stack_after("1 -1 lshift"), vec![0]);
    assert_eq!(stack_after("256 4 rshift"), vec![16]);
    assert_eq!(stack_after("-256 4 rshift"), vec![-16]);
    assert_eq!(stack_after("-1 31 rshift"), vec![-1]);
    assert_eq!(stack_after("-1 32 rshift"), vec![0]);
    assert_eq!(stack_after("0 invert"), vec![-1]);
    assert_eq!(stack_after("5 invert"), vec![-6]);
}

#[test]
fn bit_words_as_methods() {
    let mut lbf = machine();
    lbf.forth.data_stack.push(Word::data(0b1100)).unwrap();
    lbf.forth.data_stack.push(Word::data(0b1010)).unwrap();
    lbf.forth.bitand().unwrap();
    assert_eq!(stack_of(&lbf), vec![0b1000]);
    lbf.forth.data_stack.push(Word::data(0b0011)).unwrap();
    lbf.forth.bitor().unwrap();
    assert_eq!(stack_of(&lbf), vec![0b1011]);
    lbf.forth.data_stack.push(Word::data(0b0110)).unwrap();
    lbf.forth.bitxor().unwrap();
    assert_eq!(stack_of(&lbf), vec![0b1101]);
    lbf.forth.data_stack.push(Word::data(2)).unwrap();
    lbf.forth.bitshl().unwrap();
    assert_eq!(stack_of(&lbf), vec![0b110100]);
    lbf.forth.data_stack.push(Word::data(3)).unwrap();
    lbf.forth.bitshr().unwrap();
    assert_eq!(stack_of(&lbf), vec![0b110]);
    assert_eq!(
        lbf.forth.bitand(),
        Err(Error::Stack(StackError::StackEmpty))
    );
    assert_eq!(stack_of(&lbf), Vec::<i32>::new());
}

#[test]
fn comparisons() {
    assert_eq!(stack_after("1 1 = 1 2 ="), vec![-1, 0]);
    assert_eq!(stack_after("1 1 <> 1 2 <>"), vec![0, -1]);
    assert_eq!(stack_after("1 2 < 2 1 < 1 1 <"), vec![-1, 0, 0]);
    assert_eq!(stack_after("1 2 > 2 1 > 1 1 >"), vec![0, -1, 0]);
    assert_eq!(stack_after("0 0= 5 0="), vec![-1, 0]);
    assert_eq!(stack_after("-1 0< 0 0< 1 0<"), vec![-1, 0, 0]);
    assert_eq!(stack_after("-2147483648 2147483647 <"), vec![-1]);
}

#[test]
fn stack_words() {
    assert_eq!(stack_after("1 dup"), vec![1, 1]);
    assert_eq!(stack_after("1 2 drop"), vec![1]);
    assert_eq!(stack_after("1 2 swap"), vec![2, 1]);
    assert_eq!(stack_after("1 2 over"), vec![1, 2, 1]);
    assert_eq!(stack_after("1 2 3 rot"), vec![2, 3, 1]);
    assert_eq!(stack_after("1 2 2dup"), vec![1, 2, 1, 2]);
    assert_eq!(stack_after("1 2 3 2drop"), vec![1]);
    assert_eq!(stack_after("depth"), vec![0]);
    assert_eq!(stack_after("7 8 depth"), vec![7, 8, 2]);
}

#[test]
fn stack_words_on_too_few_cells() {
    for text in [
        "dup", "drop", "1 swap", "swap", "1 2 rot", "2drop", "1 2drop", "+", "1 +", "0=", "emit",
        ".",
    ] {
        assert_eq!(
            fails_with(text),
            Error::Stack(StackError::StackEmpty),
            "{}",
            text
        );
    }
    assert_eq!(fails_with("over"), Error::Stack(StackError::StackEmpty));
    assert_eq!(
        fails_with("1 over"),
        Error::Stack(StackError::StackUnderflow)
    );
    assert_eq!(fails_with("2dup"), Error::Stack(StackError::StackEmpty));
    assert_eq!(
        fails_with("1 2dup"),
        Error::Stack(StackError::StackUnderflow)
    );
}

#[test]
fn a_full_data_stack_overflows_and_words_leave_it_alone() {
    let mut lbf = small(2, 4, 4, 512, 64);
    lbf.forth.data_stack.push(Word::data(1)).unwrap();
    lbf.forth.data_stack.push(Word::data(2)).unwrap();
    assert_eq!(
        lbf.forth.push_data(Word::data(3)),
        Err(Error::Stack(StackError::StackOverflow))
    );
    assert_eq!(stack_of(&lbf), vec![1, 2]);
    assert_eq!(
        lbf.forth.dup(),
        Err(Error::Stack(StackError::StackOverflow))
    );
    assert_eq!(
        lbf.forth.over(),
        Err(Error::Stack(StackError::StackOverflow))
    );
    assert_eq!(
        lbf.forth.two_dup(),
        Err(Error::Stack(StackError::StackOverflow))
    );
    assert_eq!(
        lbf.forth.depth(),
        Err(Error::Stack(StackError::StackOverflow))
    );
    assert_eq!(
        lbf.forth.here(),
        Err(Error::Stack(StackError::StackOverflow))
    );
    assert_eq!(stack_of(&lbf), vec![1, 2]);
    assert_eq!(lbf.forth.swap(), Ok(()));
    assert_eq!(stack_of(&lbf), vec![2, 1]);
    // a line that overflows fails, and the line clears the stacks
    assert_eq!(
        line(&mut lbf, "3"),
        Err(Error::Stack(StackError::StackOverflow))
    );
    assert_eq!(stack_of(&lbf), Vec::<i32>::new());
    let mut one_short = small(3, 4, 4, 512, 64);
    one_short.forth.data_stack.push(Word::data(1)).unwrap();
    one_short.forth.data_stack.push(Word::data(2)).unwrap();
    assert_eq!(
        one_short.forth.two_dup(),
        Err(Error::Stack(StackError::StackOverflow))
    );
    assert_eq!(stack_of(&one_short), vec![1, 2]);
}

#[test]
fn return_stack_words() {
    assert_eq!(stack_after("1 2 >r 10 r@ r> +"), vec![1, 10, 4]);
    assert_eq!(fails_with(">r"), Error::Stack(StackError::StackEmpty));
    assert_eq!(fails_with("r>"), Error::Stack(StackError::StackEmpty));
    assert_eq!(fails_with("r@"), Error::Stack(StackError::StackEmpty));
    assert_eq!(fails_with("i"), Error::Stack(StackError::StackEmpty));
    let mut lbf = small(4, 1, 4, 512, 64);
    lbf.forth.data_stack.push(Word::data(1)).unwrap();
    lbf.forth.data_stack.push(Word::data(2)).unwrap();
    assert_eq!(lbf.forth.to_r(), Ok(()));
    assert_eq!(
        lbf.forth.to_r(),
        Err(Error::Stack(StackError::StackOverflow))
    );
    assert_eq!(stack_of(&lbf), Vec::<i32>::new());
    assert_eq!(lbf.forth.return_stack.depth(), 1);
    assert_eq!(lbf.forth.r_fetch(), Ok(()));
    assert_eq!(lbf.forth.r_from(), Ok(()));
    assert_eq!(stack_of(&lbf), vec![2, 2]);
    assert_eq!(lbf.forth.return_stack.depth(), 0);
}

#[test]
fn a_line_may_not_leave_cells_on_the_return_stack() {
    let mut lbf = machine();
    assert_eq!(line(&mut lbf, "1 >r"), Err(Error::UnbalancedControlFlow));
    assert_eq!(lbf.forth.return_stack.depth(), 0);
    assert_eq!(lbf.forth.output.as_bytes(), b"");
    assert_eq!(line(&mut lbf, "1 >r r> ."), Ok("1 ok.\n".to_string()));
}

#[test]
fn output_words() {
    let mut lbf = machine();
    assert_eq!(line(&mut lbf, "65 emit 66 emit").unwrap(), "ABok.\n");
    assert_eq!(line(&mut lbf, "321 emit").unwrap(), "Aok.\n");
    assert_eq!(line(&mut lbf, "1 . -2 . 0 .").unwrap(), "1 -2 0 ok.\n");
    assert_eq!(line(&mut lbf, "cr space cr").unwrap(), "\n \nok.\n");
    assert_eq!(line(&mut lbf, "1 2 3 .s").unwrap(), "1 2 3 ok.\n");
    assert_eq!(stack_of(&lbf), vec![1, 2, 3]);
    assert_eq!(line(&mut lbf, "2drop drop .s").unwrap(), "ok.\n");
    assert_eq!(
        line(&mut lbf, ".\" Hello,  World!\" cr").unwrap(),
        "Hello,  World!\nok.\n"
    );
    assert_eq!(line(&mut lbf, ".\" \" 1 .").unwrap(), "1 ok.\n");
    assert_eq!(
        line(&mut lbf, "( a comment ) 5 . ( another )").unwrap(),
        "5 ok.\n"
    );
}

#[test]
fn output_runs_full() {
    let mut lbf = small(8, 8, 8, 512, 5);
    assert_eq!(line(&mut lbf, "1 ."), Err(Error::OutputFull));
    assert_eq!(lbf.forth.output.as_bytes(), b"1 ");
    lbf.forth.output.clear();
    assert_eq!(line(&mut lbf, ""), Ok("ok.\n".to_string()));
    assert_eq!(line(&mut lbf, "12345 ."), Err(Error::OutputFull));
    assert_eq!(lbf.forth.output.as_bytes(), b"");
    assert_eq!(line(&mut lbf, "7 emit"), Ok("\u{7}ok.\n".to_string()));
    assert_eq!(line(&mut lbf, "7 emit 8 emit"), Err(Error::OutputFull));
    assert_eq!(lbf.forth.output.as_bytes(), b"\x07\x08");
    lbf.forth.output.clear();
    assert_eq!(line(&mut lbf, ".\" abcdef\""), Err(Error::OutputFull));
    assert_eq!(lbf.forth.output.as_bytes(), b"");
}

#[test]
fn unterminated_text() {
    assert_eq!(fails_with(".\" no end"), Error::BadLiteral);
    assert_eq!(fails_with("( no end"), Error::BadLiteral);
    assert_eq!(fails_with(": x .\" no end ;"), Error::BadLiteral);
}

#[test]
fn memory_words() {
    let mut lbf = machine();
    assert_eq!(
        line(&mut lbf, "variable v  10 v !  v @ .").unwrap(),
        "10 ok.\n"
    );
    assert_eq!(line(&mut lbf, "-5 v ! v @ .").unwrap(), "-5 ok.\n");
    assert_eq!(
        line(&mut lbf, "258 v ! v c@ . v 1 + c@ .").unwrap(),
        "2 1 ok.\n"
    );
    assert_eq!(line(&mut lbf, "255 v c! v @ .").unwrap(), "511 ok.\n");
    assert_eq!(
        line(&mut lbf, "513 v 3 + c! v @ .").unwrap(),
        "16777727 ok.\n"
    );
    assert_eq!(line(&mut lbf, "here 7 , here swap - .").unwrap(), "4 ok.\n");
    assert_eq!(line(&mut lbf, "here 4 - @ .").unwrap(), "7 ok.\n");
    assert_eq!(
        line(&mut lbf, "here 3 allot here swap - .").unwrap(),
        "3 ok.\n"
    );
    assert_eq!(line(&mut lbf, "here 9 , here swap - .").unwrap(), "5 ok.\n");
    assert_eq!(line(&mut lbf, "here 0 allot here = .").unwrap(), "-1 ok.\n");
    assert_eq!(
        line(
            &mut lbf,
            "create buf 2 cells allot 3 buf ! 4 buf 4 + ! buf @ buf 4 + @ + ."
        )
        .unwrap(),
        "7 ok.\n"
    );
    assert_eq!(
        line(&mut lbf, "77 constant c c c + .").unwrap(),
        "154 ok.\n"
    );
}

#[test]
fn memory_words_refuse_bad_addresses() {
    assert_eq!(fails_with("0 @"), Error::BadAddress);
    assert_eq!(fails_with("-4 @"), Error::BadAddress);
    assert_eq!(fails_with("here @"), Error::BadAddress);
    assert_eq!(fails_with("1 here !"), Error::BadAddress);
    assert_eq!(fails_with("1 -1 !"), Error::BadAddress);
    assert_eq!(fails_with("here c@"), Error::BadAddress);
    assert_eq!(fails_with("1 here c!"), Error::BadAddress);
    assert_eq!(fails_with("variable v v 1 + @"), Error::BadAddress);
    assert_eq!(fails_with("-1 allot"), Error::BadAddress);
    assert_eq!(fails_with("@"), Error::Stack(StackError::StackEmpty));
    assert_eq!(fails_with("1 !"), Error::Stack(StackError::StackEmpty));
    assert_eq!(fails_with("allot"), Error::Stack(StackError::StackEmpty));
    assert_eq!(fails_with(","), Error::Stack(StackError::StackEmpty));
}

#[test]
fn the_arena_runs_full() {
    let mut lbf = small(8, 8, 8, 64, 64);
    assert_eq!(line(&mut lbf, "65 allot"), Err(Error::DictionaryFull));
    assert_eq!(line(&mut lbf, "61 allot"), Ok("ok.\n".to_string()));
    assert_eq!(line(&mut lbf, "1 ,"), Err(Error::DictionaryFull));
    assert_eq!(line(&mut lbf, "3 allot"), Ok("ok.\n".to_string()));
    assert_eq!(line(&mut lbf, "1 allot"), Err(Error::DictionaryFull));
    assert_eq!(line(&mut lbf, "variable v"), Err(Error::DictionaryFull));
    assert_eq!(line(&mut lbf, "create c"), Err(Error::DictionaryFull));
    assert_eq!(line(&mut lbf, "1 constant k"), Err(Error::DictionaryFull));
    assert_eq!(line(&mut lbf, ": w"), Err(Error::DictionaryFull));
    assert_eq!(lbf.forth.mode, Mode::Interpret);
}

#[test]
fn unknown_words_and_bad_numbers() {
    assert_eq!(fails_with("nonsense"), Error::UnknownWord);
    assert_eq!(fails_with("12abc"), Error::UnknownWord);
    assert_eq!(fails_with("$zz"), Error::BadLiteral);
    assert_eq!(fails_with("%2"), Error::BadLiteral);
    assert_eq!(fails_with("2147483648"), Error::NumberOverflow);
    assert_eq!(fails_with(": x 2147483648 ;"), Error::NumberOverflow);
    assert_eq!(fails_with(": x nonsense ;"), Error::UnknownWord);
    assert_eq!(fails_with(": x $ ;"), Error::BadLiteral);
    assert_eq!(stack_after("$1A %1011 -7 123"), vec![26, 11, -7, 123]);
    assert_eq!(stack_after("1 DUP drop Dup"), vec![1, 1]);
}

#[test]
fn words_lists_every_name() {
    let mut lbf = small(8, 8, 8, 512, 2048);
    line(&mut lbf, ": mine ; variable yours").unwrap();
    let out = line(&mut lbf, "words").unwrap();
    assert!(out.starts_with("yours mine + - * / mod "), "{}", out);
    assert!(
        out.ends_with("(write-str) (variable) (constant) ok.\n"),
        "{}",
        out
    );
    assert_eq!(out.split(' ').count(), 2 + 74 + 1);
}

#[test]
fn see_prints_the_cells_of_a_word() {
    let mut lbf = machine();
    line(&mut lbf, ": two 2 ; variable v 9 v !").unwrap();
    let lit = -1
        - lbf
            .forth
            .builtins
            .iter()
            .position(|e| e.hdr.name.as_bytes() == b"(literal)")
            .unwrap() as i32;
    let exit = -1
        - lbf
            .forth
            .builtins
            .iter()
            .position(|e| e.hdr.name.as_bytes() == b"(exit)")
            .unwrap() as i32;
    assert_eq!(
        line(&mut lbf, "see two").unwrap(),
        format!(": two {} 2 {} ;\nok.\n", lit, exit)
    );
    assert_eq!(line(&mut lbf, "see V").unwrap(), ": v 9 ;\nok.\n");
    assert_eq!(line(&mut lbf, "see dup").unwrap(), ": dup ;\nok.\n");
    assert_eq!(line(&mut lbf, "see nothing"), Err(Error::UnknownWord));
    assert_eq!(line(&mut lbf, "see"), Err(Error::UnknownWord));
}
