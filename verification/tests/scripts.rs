use forth3::leakbox::{LBForth, LBForthParams};
use forth3::testutil::{
    all_runtest, as_expected, async_blockon_runtest, async_blockon_runtest_with,
    async_blockon_runtest_with_dispatcher, blocking_runtest, blocking_runtest_with,
    blocking_steps_with, check_output, tokenize, ContentKind, Outcome, RunError, Step, Tokenized,
};
use forth3::vm::async_vm::NoAsyncBuiltins;
use forth3::vm::{Error, Forth};

fn steps_of(t: &Tokenized) -> &Vec<Step> {
    match &t.steps {
        ContentKind::Single(s) => s,
        _ => panic!("not a script for one machine"),
    }
}

#[test]
fn a_script_with_every_kind_of_line() {
    let t = tokenize(
        b"( data_stack_elems 1 )\n\n( a comment )\n> : star 42 emit ;\n> star\n< *ok.\n\nx starb\n",
        true,
    )
    .unwrap();
    assert_eq!(t.settings.data_stack_elems, 1);
    assert_eq!(t.settings.return_stack_elems, 256);
    let steps = steps_of(&t);
    assert_eq!(steps.len(), 3);
    assert_eq!(steps[0].input, b": star 42 emit ;");
    assert!(matches!(steps[0].output, Outcome::OkAnyOutput));
    assert_eq!(steps[1].input, b"star");
    match &steps[1].output {
        Outcome::OkWithOutput(lines) => assert_eq!(lines, &vec![b"*ok.".to_vec()]),
        _ => panic!("expected output"),
    }
    assert_eq!(steps[2].input, b"starb");
    assert!(matches!(steps[2].output, Outcome::FatalError));
}

#[test]
fn every_capacity_can_be_set() {
    let t = tokenize(
        b"( data_stack_elems 1 )\n( return_stack_elems 2 )\n( control_stack_elems +3 )\n( input_buf_elems 4 )\r\n(   output_buf_elems\t5   )\n  ( dict_buf_elems 6 ) and more\n",
        true,
    )
    .unwrap();
    assert_eq!(
        t.settings,
        LBForthParams {
            data_stack_elems: 1,
            return_stack_elems: 2,
            control_stack_elems: 3,
            input_buf_elems: 4,
            output_buf_elems: 5,
            dict_buf_elems: 6,
        }
    );
    assert!(matches!(t.steps, ContentKind::Empty));
}

#[test]
fn an_empty_script() {
    let t = tokenize(b"", true).unwrap();
    assert_eq!(t.settings, LBForthParams::default());
    assert!(matches!(t.steps, ContentKind::Empty));
    let t = tokenize(b"\n\nword\n>\n<\n", false).unwrap();
    assert!(matches!(t.steps, ContentKind::Empty));
    let fresh = Tokenized::new();
    assert_eq!(fresh.settings, LBForthParams::default());
}

#[test]
fn lines_keep_their_text_after_the_first_space() {
    let t = tokenize(b">   two  spaces \r\n< a < b\n<\t\n< \n", false).unwrap();
    let steps = steps_of(&t);
    assert_eq!(steps[0].input, b"  two  spaces ");
    match &steps[0].output {
        Outcome::OkWithOutput(lines) => assert_eq!(lines, &vec![b"a < b".to_vec(), b"".to_vec()]),
        _ => panic!("expected output"),
    }
}

#[test]
fn refused_scripts() {
    // capacities after a step
    assert!(tokenize(b"> 1\n( data_stack_elems 1 )\n", true).is_err());
    // capacities where none are allowed
    assert!(tokenize(b"( data_stack_elems 1 )\n", false).is_err());
    // comments are fine there
    assert!(tokenize(b"( any comment )\n> 1\n( another )\n", false).is_ok());
    // malformed capacities
    assert!(tokenize(b"( data_stack_elems )\n", true).is_err());
    assert!(tokenize(b"( data_stack_elems x )\n", true).is_err());
    assert!(tokenize(b"( data_stack_elems 1\n", true).is_err());
    assert!(tokenize(b"( data_stack_elems 1 ]\n", true).is_err());
    assert!(tokenize(b"( data_stack_elems -1 )\n", true).is_err());
    assert!(tokenize(b"( data_stack_elems 99999999999999999999999 )\n", true).is_err());
    // a parenthesis and nothing after it
    assert!(tokenize(b"( \n", true).is_err());
    // output without a step, or for a step that fails
    assert!(tokenize(b"< out\n", true).is_err());
    assert!(tokenize(b"x 1 +\n< out\n", true).is_err());
    // a task number and no directive
    assert!(tokenize(b"1 >\n", true).is_err());
    // steps of tasks and steps without a task do not mix
    assert!(tokenize(b"> 1\n1 > 2\n", true).is_err());
    assert!(tokenize(b"1 > 1\n> 2\n", true).is_err());
    assert!(tokenize(b"1 > 1\n< out\n", true).is_err());
    assert!(tokenize(b"1 > 1\n2 < out\n", true).is_err());
    assert!(tokenize(b"> 1\n1 < out\n", true).is_err());
    assert!(tokenize(b"1 < out\n", true).is_err());
}

#[test]
fn scripts_for_several_tasks() {
    let t = tokenize(
        b"1 > a\n1 < out\n2 > lost\n1 x b\n1 > c\n1 < d\n1 < e\n",
        true,
    )
    .unwrap();
    match &t.steps {
        ContentKind::Multi(tasks) => {
            assert_eq!(tasks.len(), 1);
            assert_eq!(tasks[0].0, 1);
            let steps = &tasks[0].1;
            assert_eq!(steps.len(), 3);
            assert_eq!(steps[0].input, b"a");
            assert!(
                matches!(&steps[0].output, Outcome::OkWithOutput(l) if l == &vec![b"out".to_vec()])
            );
            assert_eq!(steps[1].input, b"b");
            assert!(matches!(steps[1].output, Outcome::FatalError));
            assert!(matches!(&steps[2].output, Outcome::OkWithOutput(l) if l.len() == 2));
        }
        _ => panic!("expected tasks"),
    }
    let x = tokenize(b"7 x first\n", true).unwrap();
    assert!(matches!(&x.steps, ContentKind::Multi(tasks) if tasks[0].0 == 7));
}

#[test]
fn steps_are_recorded_one_by_one() {
    let mut t = Tokenized::new();
    assert!(!t.accepts_output(None));
    assert!(t.accepts_input(None));
    assert!(t.accepts_input(Some(1)));
    t.push_success_input(b"1 .", None);
    assert!(t.accepts_output(None));
    t.push_success_output(b"1 ok.", None);
    t.push_success_output(b"more", None);
    assert!(t.accepts_input(None));
    t.push_exception_input(b"+", None);
    assert!(!t.accepts_output(None));
    assert!(!t.accepts_input(Some(1)));
    assert!(!t.accepts_output(Some(1)));
    let steps = steps_of(&t);
    assert_eq!(steps.len(), 2);
    assert!(matches!(&steps[0].output, Outcome::OkWithOutput(l) if l.len() == 2));
    assert!(matches!(steps[1].output, Outcome::FatalError));

    let mut m = Tokenized::new();
    m.push_exception_input(b"a", Some(3));
    assert!(!m.accepts_output(Some(3)));
    m.push_success_input(b"b", Some(3));
    assert!(m.accepts_input(Some(4)));
    m.push_success_input(b"c", Some(4));
    assert!(!m.accepts_output(Some(4)));
    assert!(m.accepts_output(Some(3)));
    m.push_success_output(b"b", Some(3));
    assert!(!m.accepts_input(None));
    assert!(!m.accepts_output(None));
    match &m.steps {
        ContentKind::Multi(tasks) => {
            assert_eq!(tasks.len(), 1);
            assert_eq!(tasks[0].1.len(), 2);
        }
        _ => panic!("expected tasks"),
    }
}

#[test]
fn output_is_compared_line_by_line_without_trailing_space() {
    let any = Outcome::OkAnyOutput;
    let fatal = Outcome::FatalError;
    let two = Outcome::OkWithOutput(vec![b"1 2".to_vec(), b"ok.".to_vec()]);
    let ok: Result<(), Error> = Ok(());
    let err: Result<(), Error> = Err(Error::UnknownWord);
    assert!(as_expected(&ok, &any, b"whatever"));
    assert!(!as_expected(&err, &any, b""));
    assert!(as_expected(&err, &fatal, b"whatever"));
    assert!(!as_expected(&ok, &fatal, b""));
    assert!(as_expected(&ok, &two, b"1 2 \nok.\n"));
    assert!(as_expected(&ok, &two, b"1 2\r\nok.   "));
    assert!(!as_expected(&ok, &two, b"1 2 ok.\n"));
    assert!(!as_expected(&ok, &two, b"1 2\nok.\nmore\n"));
    assert!(!as_expected(&ok, &two, b" 1 2\nok.\n"));
    assert!(!as_expected(&ok, &two, b"1 2\nOK.\n"));
    assert!(!as_expected(&err, &two, b"1 2\nok.\n"));
    let none = Outcome::OkWithOutput(Vec::new());
    assert!(as_expected(&ok, &none, b""));
    assert!(!as_expected(&ok, &none, b"\n"));
    check_output(&ok, &two, b"1 2 \nok.\n");
    check_output(&err, &fatal, b"");
}

const SCRIPT: &str = r#"
( specify VM settings with frontmatter )
( data_stack_elems 1 )

( specify input with no output )
> : star 42 emit ;

( specify input and output )
> star
< *ok.

( specify lines that cause exceptions/errors )
x starb
"#;

#[test]
fn scripts_run_on_each_kind_of_machine() {
    assert_eq!(blocking_runtest(SCRIPT), Ok(()));
    assert_eq!(async_blockon_runtest(SCRIPT), Ok(()));
    assert_eq!(all_runtest(SCRIPT), Ok(()));
    assert_eq!(
        async_blockon_runtest_with_dispatcher((), NoAsyncBuiltins, SCRIPT),
        Ok(())
    );
    assert_eq!(all_runtest(""), Ok(()));
}

#[test]
fn scripts_that_do_not_pass() {
    assert_eq!(blocking_runtest("> 1 .\n< 2 ok.\n"), Err(RunError::Step(0)));
    assert_eq!(
        blocking_runtest("> 1 .\n> nonsense\n"),
        Err(RunError::Step(1))
    );
    assert_eq!(blocking_runtest("> 1\nx 2\n"), Err(RunError::Step(1)));
    assert_eq!(all_runtest("x 1 .\n"), Err(RunError::Step(0)));
    assert_eq!(blocking_runtest("< 1\n"), Err(RunError::Script));
    assert_eq!(
        all_runtest("( data_stack_elems x )\n"),
        Err(RunError::Script)
    );
    assert_eq!(blocking_runtest("1 > 1\n"), Err(RunError::Multitasking));
    assert_eq!(
        async_blockon_runtest("1 > 1\n"),
        Err(RunError::Multitasking)
    );
    assert_eq!(
        blocking_runtest("( input_buf_elems 3 )\n> 1 2 3\n"),
        Err(RunError::Input(0))
    );
    assert_eq!(
        blocking_runtest("( dict_buf_elems 2147483647 )\n> 1\n"),
        Err(RunError::Machine(Error::DictionaryFull))
    );
    // the stack of one cell overflows on the second number
    assert_eq!(
        blocking_runtest("( data_stack_elems 1 )\nx 1 2\n> 1\n"),
        Ok(())
    );
}

#[test]
fn scripts_run_on_a_machine_at_hand() {
    let mut lbf =
        LBForth::from_params(LBForthParams::default(), (), Forth::<()>::full_builtins()).unwrap();
    assert_eq!(
        blocking_runtest_with(&mut lbf.forth, "> : five 5 ;\n"),
        Ok(())
    );
    assert_eq!(
        blocking_runtest_with(&mut lbf.forth, "> five .\n< 5 ok.\n"),
        Ok(())
    );
    assert!(tokenize(b"( data_stack_elems 1 )\n> 1\n", false).is_err());
    assert!(tokenize(b"( data_stack_elems 1 )\n> 1\n", true).is_ok());
    // a step that fails leaves nothing behind for the next one
    assert_eq!(
        blocking_runtest_with(&mut lbf.forth, "x 1 + 2 3\n> depth .\n< 0 ok.\n"),
        Ok(())
    );
    let t = tokenize(b"> five five + .\n< 10 ok.\n", false).unwrap();
    assert_eq!(blocking_steps_with(&t.steps, &mut lbf.forth), Ok(()));
    let mut slow = forth3::leakbox::AsyncLBForth::from_params(
        LBForthParams::default(),
        (),
        Forth::<()>::full_builtins(),
        Vec::new(),
    )
    .unwrap();
    assert_eq!(
        async_blockon_runtest_with(&mut slow.forth, &NoAsyncBuiltins, "> 1 2 + .\n< 3 ok.\n"),
        Ok(())
    );
    assert_eq!(
        async_blockon_runtest_with(&mut slow.forth, &NoAsyncBuiltins, "> 1 +\n"),
        Err(RunError::Step(0))
    );
}
