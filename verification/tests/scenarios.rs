use forth3::leakbox::{LBForth, LBForthParams};
use forth3::vm::{Error, Forth};

fn machine() -> LBForth<()> {
    LBForth::from_params(LBForthParams::default(), (), Forth::<()>::full_builtins()).unwrap()
}

fn run(lbf: &mut LBForth<()>, line: &str) -> Result<String, Error> {
    lbf.forth.output.clear();
    lbf.forth.input.clear();
    lbf.forth.input.fill(line).unwrap();
    lbf.forth.process_line()?;
    Ok(String::from_utf8(lbf.forth.output.as_bytes().to_vec()).unwrap())
}

#[test]
fn add_and_print() {
    let mut lbf = machine();
    assert_eq!(run(&mut lbf, "1 2 + . cr\n").unwrap(), "3 \nok.\n");
}

#[test]
fn star_definition() {
    let mut lbf = machine();
    assert_eq!(run(&mut lbf, ": star 42 emit ;\n").unwrap(), "ok.\n");
    assert_eq!(run(&mut lbf, "star star cr\n").unwrap(), "**\nok.\n");
}

#[test]
fn factorial_recursion() {
    let mut lbf = machine();
    assert_eq!(
        run(&mut lbf, ": fact dup 1 > if dup 1 - fact * then ;\n").unwrap(),
        "ok.\n"
    );
    assert_eq!(run(&mut lbf, "5 fact . cr\n").unwrap(), "120 \nok.\n");
}

#[test]
fn variable_store_fetch() {
    let mut lbf = machine();
    assert_eq!(
        run(&mut lbf, "variable x 7 x ! x @ . cr\n").unwrap(),
        "7 \nok.\n"
    );
}

#[test]
fn counted_loop() {
    let mut lbf = machine();
    assert_eq!(
        run(&mut lbf, ": count 10 0 do i . loop ;\n").unwrap(),
        "ok.\n"
    );
    assert_eq!(
        run(&mut lbf, "count cr\n").unwrap(),
        "0 1 2 3 4 5 6 7 8 9 \nok.\n"
    );
}

#[test]
fn missing_operands_clear_the_stacks() {
    let mut lbf = machine();
    assert!(run(&mut lbf, "1 +\n").is_err());
    assert_eq!(lbf.forth.data_stack.depth(), 0);
    assert_eq!(lbf.forth.return_stack.depth(), 0);
    assert_eq!(lbf.forth.call_stack.depth(), 0);
    assert_eq!(lbf.forth.control_stack.depth(), 0);
}

#[test]
fn what_holds_after_every_line() {
    let mut lbf = machine();
    let lines = [
        ": Square dup * ;",
        "variable Total  3 square total !",
        ": count 10 0 do i . loop ;  count",
        "1 + +",
        ": ABCDEFGHIJKLMNOPQRSTUVWXYZ 1 ; 77 constant seventy-seven",
        ": unfinished 1 2",
        "nonsense",
        "create buf 16 allot  total @ .",
    ];
    for text in lines {
        let ok = run(&mut lbf, text).is_ok();
        let f = &lbf.forth;
        if ok {
            assert_eq!(f.call_stack.depth(), 0);
            assert_eq!(f.return_stack.depth(), 0);
            assert!(f.output.as_bytes().ends_with(b"ok.\n"));
        } else {
            assert_eq!(f.data_stack.depth(), 0);
            assert_eq!(f.return_stack.depth(), 0);
            assert_eq!(f.call_stack.depth(), 0);
            assert_eq!(f.control_stack.depth(), 0);
        }
        let d = &f.dict.dict;
        assert!(d.alloc.used() <= d.alloc.capacity());
        for (i, e) in d.entries.iter().enumerate() {
            match e.link {
                None => assert_eq!(i, 0),
                Some(j) => {
                    assert!(j < i);
                    assert!(d.entries[j].addr < e.addr);
                }
            }
            let name = e.hdr.name.as_bytes();
            assert!(name.len() <= 31);
            assert!(name.iter().all(|b| b.is_ascii() && !b.is_ascii_uppercase()));
            assert!(d.alloc.contains(e.addr));
            assert_eq!(e.addr % 4, 0);
        }
    }
    assert_eq!(lbf.forth.dict.dict.entries.len(), 6);
    assert_eq!(
        lbf.forth.find_word(b"abcdefghijklmnopqrstuvwxyz").is_some(),
        true
    );
    assert_eq!(lbf.forth.find_word(b"unfinished"), None);
}
