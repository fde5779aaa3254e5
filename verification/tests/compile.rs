use forth3::builtin::{Builtin, WordFunc};
use forth3::leakbox::{LBForth, LBForthParams};
use forth3::stack::StackError;
use forth3::vm::compile::Plan;
use forth3::vm::{ControlFrame, EntryRef, Error, Forth, Mode, ProcessAction, Step};
use forth3::word::Word;

fn machine() -> LBForth<()> {
    LBForth::from_params(LBForthParams::default(), (), Forth::<()>::full_builtins()).unwrap()
}

fn small(data: usize, ret: usize, calls: usize, dict: usize) -> LBForth<()> {
    let params = LBForthParams {
        data_stack_elems: data,
        return_stack_elems: ret,
        control_stack_elems: calls,
        input_buf_elems: 256,
        output_buf_elems: 256,
        dict_buf_elems: dict,
    };
    LBForth::from_params(params, (), Forth::<()>::full_builtins()).unwrap()
}

fn line(lbf: &mut LBForth<()>, text: &str) -> Result<String, Error> {
    lbf.forth.output.clear();
    lbf.forth.input.clear();
    lbf.forth.input.fill(text).unwrap();
    lbf.forth.process_line()?;
    Ok(String::from_utf8(lbf.forth.output.as_bytes().to_vec()).unwrap())
}

fn out(text: &str) -> String {
    let mut lbf = machine();
    line(&mut lbf, text).unwrap()
}

fn fails_with(text: &str) -> Error {
    let mut lbf = machine();
    line(&mut lbf, text).unwrap_err()
}

#[test]
fn a_definition_does_what_its_body_does() {
    let mut interactive = machine();
    let direct = line(&mut interactive, "3 4 + dup * .").unwrap();
    let mut compiled = machine();
    line(&mut compiled, ": w 3 4 + dup * . ;").unwrap();
    assert_eq!(line(&mut compiled, "w").unwrap(), direct);
    assert_eq!(direct, "49 ok.\n");
    assert_eq!(
        interactive.forth.data_stack.depth(),
        compiled.forth.data_stack.depth()
    );
}

#[test]
fn definitions_call_definitions() {
    let mut lbf = machine();
    line(&mut lbf, ": a 1 ; : b a a + ;").unwrap();
    line(&mut lbf, "b").unwrap();
    assert_eq!(lbf.forth.data_stack.depth(), 1);
    assert_eq!(lbf.forth.data_stack.peek(), Some(Word::data(2)));
}

#[test]
fn variable_holds_what_was_stored() {
    let mut lbf = machine();
    line(&mut lbf, "variable v  10 v !  v @").unwrap();
    assert_eq!(lbf.forth.data_stack.peek(), Some(Word::data(10)));
    assert_eq!(lbf.forth.data_stack.depth(), 1);
}

#[test]
fn the_latest_definition_wins() {
    let mut lbf = machine();
    line(&mut lbf, ": x 1 ; : y x ; : x 2 ;").unwrap();
    assert_eq!(line(&mut lbf, "x . y .").unwrap(), "2 1 ok.\n");
    assert_eq!(line(&mut lbf, ": dup 5 ; dup .").unwrap(), "5 ok.\n");
}

#[test]
fn a_definition_spans_lines() {
    let mut lbf = machine();
    assert_eq!(line(&mut lbf, ": long 1 .").unwrap(), "ok.\n");
    assert_eq!(lbf.forth.mode, Mode::Compile);
    assert_eq!(lbf.forth.find_word(b"long"), None);
    assert_eq!(line(&mut lbf, "2 . ;").unwrap(), "ok.\n");
    assert_eq!(lbf.forth.mode, Mode::Interpret);
    assert_eq!(line(&mut lbf, "long").unwrap(), "1 2 ok.\n");
}

#[test]
fn if_else_then() {
    let mut lbf = machine();
    line(
        &mut lbf,
        ": sign dup 0< if drop -1 else 0= if 0 else 1 then then ;",
    )
    .unwrap();
    assert_eq!(
        line(&mut lbf, "-5 sign . 0 sign . 9 sign .").unwrap(),
        "-1 0 1 ok.\n"
    );
    line(&mut lbf, ": maybe if 7 . then 8 . ;").unwrap();
    assert_eq!(line(&mut lbf, "1 maybe 0 maybe").unwrap(), "7 8 8 ok.\n");
    line(&mut lbf, ": last if 1 . then ;").unwrap();
    assert_eq!(line(&mut lbf, "0 last 5 last").unwrap(), "1 ok.\n");
}

#[test]
fn begin_until() {
    assert_eq!(
        out(": down begin dup . 1 - dup 0= until drop ; 3 down"),
        "3 2 1 ok.\n"
    );
}

#[test]
fn begin_while_repeat() {
    assert_eq!(
        out(": up 0 begin dup 3 < while dup . 1 + repeat drop ; up"),
        "0 1 2 ok.\n"
    );
    assert_eq!(out(": none begin 0 while 1 . repeat 2 . ; none"), "2 ok.\n");
}

#[test]
fn do_loop() {
    assert_eq!(
        out(": count 10 0 do i . loop ; count"),
        "0 1 2 3 4 5 6 7 8 9 ok.\n"
    );
    assert_eq!(out(": skip 0 0 do i . loop 9 . ; skip"), "9 ok.\n");
    assert_eq!(out(": skip 3 5 do i . loop 9 . ; skip"), "9 ok.\n");
    assert_eq!(out(": once 1 0 do i . loop ; once"), "0 ok.\n");
    assert_eq!(out(": neg -1 -3 do i . loop ; neg"), "-3 -2 ok.\n");
    assert_eq!(
        out(": grid 2 0 do 2 0 do i . loop loop ; grid"),
        "0 1 0 1 ok.\n"
    );
    assert_eq!(out(": sum 0 5 1 do i + loop ; sum ."), "10 ok.\n");
}

#[test]
fn strings_in_definitions() {
    let mut lbf = machine();
    line(&mut lbf, ": hi .\" Hello\" 1 . .\" abcd\" .\" \" 2 . ;").unwrap();
    assert_eq!(
        line(&mut lbf, "hi hi").unwrap(),
        "Hello1 abcd2 Hello1 abcd2 ok.\n"
    );
    line(&mut lbf, ": note ( n -- ) ( prints ) . ;").unwrap();
    assert_eq!(line(&mut lbf, "4 note").unwrap(), "4 ok.\n");
}

#[test]
fn recursion() {
    let mut lbf = machine();
    line(&mut lbf, ": fact dup 1 > if dup 1 - fact * then ;").unwrap();
    assert_eq!(
        line(&mut lbf, "5 fact . 1 fact . 10 fact .").unwrap(),
        "120 1 3628800 ok.\n"
    );
}

#[test]
fn control_words_outside_a_definition() {
    for w in [
        "if", "else", "then", "do", "loop", "begin", "until", "while", "repeat", ";",
    ] {
        assert_eq!(fails_with(w), Error::CompileOnlyWord, "{}", w);
    }
}

#[test]
fn defining_words_inside_a_definition() {
    let mut lbf = machine();
    line(
        &mut lbf,
        ": def variable ; : col : ; : con constant ; : cre create ; : com , ; : alo allot ;",
    )
    .unwrap();
    line(&mut lbf, "def v1 5 con c1 cre b1 7 com 4 alo c1 . b1 @ .").unwrap();
    assert_eq!(lbf.forth.output.as_bytes(), b"5 7 ok.\n");
    // while a definition is compiled the same words are refused
    let mut m = machine();
    line(&mut m, ": outer").unwrap();
    assert_eq!(m.forth.colon(), Err(Error::InterpretOnlyWord));
    assert_eq!(m.forth.variable(), Err(Error::InterpretOnlyWord));
    assert_eq!(m.forth.constant(), Err(Error::InterpretOnlyWord));
    assert_eq!(m.forth.create(), Err(Error::InterpretOnlyWord));
    assert_eq!(m.forth.comma(), Err(Error::InterpretOnlyWord));
    assert_eq!(m.forth.allot(), Err(Error::InterpretOnlyWord));
    assert_eq!(
        m.forth.add_builtin("w", WordFunc::Host(0)),
        Err(Error::InterpretOnlyWord)
    );
    assert_eq!(
        m.forth.add_builtin_static_name("w", WordFunc::Host(0)),
        Err(Error::InterpretOnlyWord)
    );
    assert_eq!(m.forth.mode, Mode::Compile);
}

#[test]
fn unbalanced_control_flow() {
    assert_eq!(fails_with(": x if ;"), Error::UnbalancedControlFlow);
    assert_eq!(fails_with(": x then ;"), Error::UnbalancedControlFlow);
    assert_eq!(fails_with(": x else ;"), Error::UnbalancedControlFlow);
    assert_eq!(
        fails_with(": x if else else then ;"),
        Error::UnbalancedControlFlow
    );
    assert_eq!(fails_with(": x do ;"), Error::UnbalancedControlFlow);
    assert_eq!(fails_with(": x loop ;"), Error::UnbalancedControlFlow);
    assert_eq!(fails_with(": x begin ;"), Error::UnbalancedControlFlow);
    assert_eq!(fails_with(": x until ;"), Error::UnbalancedControlFlow);
    assert_eq!(fails_with(": x repeat ;"), Error::UnbalancedControlFlow);
    assert_eq!(
        fails_with(": x while repeat ;"),
        Error::UnbalancedControlFlow
    );
    assert_eq!(
        fails_with(": x begin repeat ;"),
        Error::UnbalancedControlFlow
    );
    assert_eq!(fails_with(": x if loop ;"), Error::UnbalancedControlFlow);
    assert_eq!(fails_with(": x do then ;"), Error::UnbalancedControlFlow);
    assert_eq!(
        fails_with(": x begin if until then ;"),
        Error::UnbalancedControlFlow
    );
}

#[test]
fn a_failed_definition_is_given_up() {
    let mut lbf = machine();
    let before = lbf.forth.dict.dict.entries.len();
    assert_eq!(
        line(&mut lbf, ": broken 1 2 nonsense ;"),
        Err(Error::UnknownWord)
    );
    assert_eq!(lbf.forth.mode, Mode::Interpret);
    assert!(lbf.forth.pending.is_none());
    assert_eq!(lbf.forth.control_stack.depth(), 0);
    assert_eq!(lbf.forth.dict.dict.entries.len(), before);
    assert_eq!(lbf.forth.find_word(b"broken"), None);
    assert_eq!(line(&mut lbf, "broken"), Err(Error::UnknownWord));
    assert_eq!(line(&mut lbf, ": fine 3 . ; fine").unwrap(), "3 ok.\n");
}

#[test]
fn a_definition_that_overruns_the_arena() {
    let mut lbf = small(8, 8, 8, 64);
    assert_eq!(
        line(&mut lbf, ": big 1 2 3 4 5 6 7 8 9 ;"),
        Err(Error::DictionaryFull)
    );
    assert_eq!(lbf.forth.find_word(b"big"), None);
    assert_eq!(lbf.forth.dict.dict.entries.len(), 0);
    assert_eq!(lbf.forth.mode, Mode::Interpret);
    assert_eq!(line(&mut lbf, "big"), Err(Error::UnknownWord));
    assert!(lbf.forth.dict.dict.alloc.used() <= lbf.forth.dict.dict.alloc.capacity());
}

#[test]
fn names_must_be_short_ascii() {
    assert_eq!(fails_with(": h\u{e9}llo 1 ;"), Error::BadName);
    assert_eq!(fails_with(":"), Error::BadName);
    assert_eq!(fails_with("variable"), Error::BadName);
    assert_eq!(fails_with("1 constant"), Error::BadName);
    assert_eq!(fails_with("create \u{2603}"), Error::BadName);
    assert_eq!(
        fails_with(": abcdefghijklmnopqrstuvwxyz012345 ;"),
        Error::BadName
    );
    let mut lbf = machine();
    line(
        &mut lbf,
        ": abcdefghijklmnopqrstuvwxyz01234 7 ; ABCDEFGHIJKLMNOPQRSTUVWXYZ01234 .",
    )
    .unwrap();
    assert_eq!(lbf.forth.output.as_bytes(), b"7 ok.\n");
    let mut m = machine();
    assert_eq!(
        m.forth.add_builtin("", WordFunc::Host(0)),
        Err(Error::BadName)
    );
    assert_eq!(
        m.forth.add_builtin("h\u{e9}", WordFunc::Host(0)),
        Err(Error::BadName)
    );
    assert_eq!(
        m.forth.add_builtin_static_name("", WordFunc::Host(0)),
        Err(Error::BadName)
    );
    assert_eq!(
        m.forth
            .add_builtin_static_name("abcdefghijklmnopqrstuvwxyz012345", WordFunc::Host(0)),
        Err(Error::BadName)
    );
}

#[test]
fn the_compiler_plans_each_token() {
    let mut lbf = machine();
    line(&mut lbf, ": one 1 ; : self").unwrap();
    let count = lbf.forth.dict.dict.entries.len() as i32;
    assert_eq!(lbf.forth.plan(b"self"), Plan::Emit(Word::data(count)));
    assert_eq!(lbf.forth.plan(b"one"), Plan::Emit(Word::data(0)));
    assert_eq!(lbf.forth.plan(b"if"), Plan::Immediate(Builtin::If));
    assert_eq!(lbf.forth.plan(b";"), Plan::Immediate(Builtin::Semicolon));
    assert_eq!(lbf.forth.plan(b"("), Plan::Immediate(Builtin::Paren));
    assert_eq!(lbf.forth.plan(b"42"), Plan::Literal(42));
    assert_eq!(lbf.forth.plan(b"$"), Plan::Fail(Error::BadLiteral));
    assert_eq!(lbf.forth.plan(b"nope"), Plan::Fail(Error::UnknownWord));
    let plus = lbf
        .forth
        .builtins
        .iter()
        .position(|e| e.hdr.name.as_bytes() == b"+")
        .unwrap() as i32;
    assert_eq!(lbf.forth.plan(b"+"), Plan::Emit(Word::data(-1 - plus)));
    assert_eq!(
        lbf.forth.builtin_ref(Builtin::Add),
        Some(Word::data(-1 - plus))
    );
    assert!(Builtin::If.is_immediate());
    assert!(!Builtin::Colon.is_immediate());
    assert!(!Builtin::Dup.is_immediate());
}

#[test]
fn control_words_keep_frames() {
    let mut lbf = machine();
    line(&mut lbf, ": w 5").unwrap();
    assert_eq!(lbf.forth.compile_begin(), Ok(()));
    assert_eq!(lbf.forth.control_stack.peek(), Some(ControlFrame::Begin(2)));
    assert_eq!(lbf.forth.compile_if(), Ok(()));
    assert_eq!(lbf.forth.control_stack.peek(), Some(ControlFrame::If(3)));
    assert_eq!(lbf.forth.compile_else(), Ok(()));
    assert_eq!(lbf.forth.control_stack.peek(), Some(ControlFrame::Else(5)));
    assert_eq!(lbf.forth.compile_then(), Ok(()));
    assert_eq!(lbf.forth.control_stack.peek(), Some(ControlFrame::Begin(2)));
    assert_eq!(lbf.forth.compile_while(), Ok(()));
    assert_eq!(lbf.forth.control_stack.peek(), Some(ControlFrame::While(7)));
    assert_eq!(lbf.forth.compile_repeat(), Ok(()));
    assert_eq!(lbf.forth.control_stack.depth(), 0);
    assert_eq!(lbf.forth.compile_do(), Ok(()));
    assert_eq!(lbf.forth.control_stack.peek(), Some(ControlFrame::Do(11)));
    assert_eq!(lbf.forth.compile_loop(), Ok(()));
    assert_eq!(lbf.forth.control_stack.depth(), 0);
    assert_eq!(lbf.forth.semicolon(), Ok(()));
    let e = lbf.forth.dict.dict.entry(0).unwrap();
    assert_eq!(e.hdr.len, 15);
    let cells = e.parameters(&lbf.forth.dict.dict).unwrap();
    // the cells that held a place for a target now hold it
    assert_eq!(cells[3], Word::data(6));
    assert_eq!(cells[5], Word::data(6));
    assert_eq!(cells[7], Word::data(10));
    assert_eq!(cells[9], Word::data(2));
    assert_eq!(cells[11], Word::data(14));
    assert_eq!(cells[13], Word::data(12));
}

#[test]
fn the_control_stack_overflows() {
    let mut lbf = small(8, 8, 2, 1024);
    assert_eq!(
        line(&mut lbf, ": deep if if if then then then ;"),
        Err(Error::Stack(StackError::StackOverflow))
    );
    assert_eq!(lbf.forth.control_stack.depth(), 0);
    assert_eq!(
        line(&mut lbf, ": fine if if then then ;"),
        Ok("ok.\n".to_string())
    );
}

#[test]
fn the_call_stack_overflows() {
    let mut lbf = small(8, 8, 3, 1024);
    line(&mut lbf, ": a 1 . ; : b a ; : c b ;").unwrap();
    assert_eq!(line(&mut lbf, "b"), Ok("1 ok.\n".to_string()));
    assert_eq!(
        line(&mut lbf, "c"),
        Err(Error::Stack(StackError::StackOverflow))
    );
    assert_eq!(lbf.forth.call_stack.depth(), 0);
    line(&mut lbf, ": forever forever ;").unwrap();
    assert_eq!(
        line(&mut lbf, "forever"),
        Err(Error::Stack(StackError::StackOverflow))
    );
}

#[test]
fn a_line_has_a_step_limit() {
    let mut lbf = machine();
    line(&mut lbf, ": spin begin 0 until ;").unwrap();
    lbf.forth.set_step_limit(10_000);
    assert_eq!(line(&mut lbf, "spin"), Err(Error::StepLimit));
    assert_eq!(lbf.forth.call_stack.depth(), 0);
    assert_eq!(line(&mut lbf, "1 ."), Ok("1 ok.\n".to_string()));
    lbf.forth.set_step_limit(3);
    assert_eq!(line(&mut lbf, "1 2 3"), Err(Error::StepLimit));
    assert_eq!(line(&mut lbf, "1 2"), Ok("ok.\n".to_string()));
    lbf.forth.set_step_limit(0);
    assert_eq!(line(&mut lbf, ""), Err(Error::StepLimit));
}

#[test]
fn tokens_are_left_in_the_input_after_a_failure() {
    let mut lbf = machine();
    assert_eq!(
        line(&mut lbf, "1 + 2 3"),
        Err(Error::Stack(StackError::StackEmpty))
    );
    let mut again = machine();
    again.forth.input.fill("1 + 2").unwrap();
    assert!(again.forth.process_line().is_err());
    // what was not read is read by the next line, before what is filled in
    again.forth.input.fill(" 3 + .").unwrap();
    assert_eq!(again.forth.process_line(), Ok(()));
    assert_eq!(again.forth.output.as_bytes(), b"5 ok.\n");
    lbf.forth.input.advance();
    assert_eq!(lbf.forth.input.cur_word(), Some(b"2".to_vec()));
    lbf.forth.input.advance();
    assert_eq!(lbf.forth.input.cur_word(), Some(b"3".to_vec()));
    lbf.forth.input.advance();
    assert_eq!(lbf.forth.input.cur_word(), None);
}

#[test]
fn steps_one_by_one() {
    let mut lbf = machine();
    line(&mut lbf, ": two 2 ;").unwrap();
    lbf.forth.input.fill("two 5").unwrap();
    assert_eq!(lbf.forth.steppa_pig(), Ok(Step::Done));
    assert_eq!(
        lbf.forth.start_processing_line(),
        Ok(ProcessAction::Execute)
    );
    assert_eq!(lbf.forth.call_stack.depth(), 1);
    assert_eq!(lbf.forth.call_stack.peek().unwrap().eh, EntryRef::Dict(0));
    // enter `two`, which enters the word that pushes a literal
    assert_eq!(lbf.forth.steppa_pig(), Ok(Step::NotDone));
    assert_eq!(lbf.forth.call_stack.depth(), 2);
    assert_eq!(lbf.forth.steppa_pig(), Ok(Step::NotDone));
    assert_eq!(lbf.forth.data_stack.peek(), Some(Word::data(2)));
    assert_eq!(lbf.forth.call_stack.depth(), 1);
    assert_eq!(lbf.forth.call_stack.peek().unwrap().idx, 2);
    // the word that leaves the definition, then the end of the definition
    assert_eq!(lbf.forth.steppa_pig(), Ok(Step::NotDone));
    assert_eq!(lbf.forth.steppa_pig(), Ok(Step::NotDone));
    assert_eq!(lbf.forth.steppa_pig(), Ok(Step::NotDone));
    assert_eq!(lbf.forth.steppa_pig(), Ok(Step::Done));
    assert_eq!(
        lbf.forth.start_processing_line(),
        Ok(ProcessAction::Continue)
    );
    assert_eq!(lbf.forth.data_stack.peek(), Some(Word::data(5)));
    assert_eq!(lbf.forth.start_processing_line(), Ok(ProcessAction::Done));
}

#[test]
fn code_words_without_a_caller() {
    let mut lbf = machine();
    assert_eq!(lbf.forth.literal(), Err(Error::BadAddress));
    assert_eq!(lbf.forth.branch(), Err(Error::BadAddress));
    assert_eq!(lbf.forth.zero_branch(), Err(Error::BadAddress));
    assert_eq!(lbf.forth.do_run(), Err(Error::BadAddress));
    assert_eq!(lbf.forth.loop_run(), Err(Error::BadAddress));
    assert_eq!(lbf.forth.exit(), Err(Error::BadAddress));
    assert_eq!(lbf.forth.write_str(), Err(Error::BadAddress));
    assert_eq!(lbf.forth.variable_run(), Err(Error::BadAddress));
    assert_eq!(lbf.forth.constant_run(), Err(Error::BadAddress));
    assert_eq!(
        lbf.forth.interpret(),
        Err(Error::Stack(StackError::StackEmpty))
    );
    assert_eq!(line(&mut lbf, "(literal)"), Err(Error::BadAddress));
    assert_eq!(line(&mut lbf, "(exit)"), Err(Error::BadAddress));
    assert_eq!(line(&mut lbf, "(variable)"), Err(Error::BadAddress));
}

#[test]
fn cells_that_refer_to_nothing() {
    let mut lbf = machine();
    line(&mut lbf, ": w 1 ; variable v").unwrap();
    // overwrite the first cell of `w` with a reference to an entry that does not exist
    let pfa = lbf.forth.dict.dict.entry(0).unwrap().pfa() as i32;
    line(&mut lbf, &format!("1000 {} !", pfa)).unwrap();
    assert_eq!(line(&mut lbf, "w"), Err(Error::BadAddress));
    line(&mut lbf, &format!("-100000 {} !", pfa)).unwrap();
    assert_eq!(line(&mut lbf, "w"), Err(Error::BadAddress));
    line(&mut lbf, &format!("-200000 {} !", pfa)).unwrap();
    assert_eq!(line(&mut lbf, "w"), Err(Error::BadAddress));
}

#[test]
fn entry_references_fit_cells() {
    for r in [
        EntryRef::Dict(0),
        EntryRef::Dict(77),
        EntryRef::Builtin(0),
        EntryRef::Builtin(65535),
        EntryRef::AsyncBuiltin(0),
        EntryRef::AsyncBuiltin(65535),
    ] {
        let w = r.to_word().unwrap();
        assert_eq!(EntryRef::from_word(w), Some(r));
    }
    assert_eq!(EntryRef::Builtin(0).to_word(), Some(Word::data(-1)));
    assert_eq!(EntryRef::Builtin(65535).to_word(), Some(Word::data(-65536)));
    assert_eq!(
        EntryRef::AsyncBuiltin(0).to_word(),
        Some(Word::data(-65537))
    );
    assert_eq!(EntryRef::Dict(5).to_word(), Some(Word::data(5)));
    assert_eq!(EntryRef::Dict(0x4000_0000).to_word(), None);
    assert_eq!(EntryRef::from_word(Word::data(0x4000_0000)), None);
    assert_eq!(EntryRef::from_word(Word::data(-0x2_0001)), None);
    assert_eq!(
        EntryRef::from_word(Word::data(-0x2_0000)),
        Some(EntryRef::AsyncBuiltin(65535))
    );
}
