use forth3::builtin::WordFunc;
use forth3::dictionary::{AsyncBuiltinEntry, Dictionary, DropDict, OwnedDict};
use forth3::disk::{Disk, DiskDriver, DiskError, DiskWord, PageState};
use forth3::fastr::FaStr;
use forth3::input::WordStrBuf;
use forth3::leakbox::{alloc_dict, AsyncLBForth, LBForth, LBForthParams, DICT_BOTTOM};
use forth3::output::OutputBuf;
use forth3::stack::StackError;
use forth3::vm::async_vm::{
    AsyncBuiltins, AsyncForth, AsyncStep, LineAction, LineEvent, NoAsyncBuiltins,
};
use forth3::vm::{Error, Forth, HostWords, Step};
use forth3::word::Word;

#[derive(Default)]
struct Ram {
    blocks: Vec<(u16, Vec<u8>)>,
    reads: usize,
    writes: usize,
    broken: bool,
}

impl DiskDriver for Ram {
    fn read(
        &mut self,
        idx: u16,
        _dest: usize,
        data: &mut Vec<u8>,
        len: usize,
    ) -> Result<(), DiskError> {
        if self.broken {
            return Err(DiskError::InternalDriverError);
        }
        self.reads += 1;
        let stored = self
            .blocks
            .iter()
            .find(|(i, _)| *i == idx)
            .map(|(_, d)| d.clone());
        for (k, b) in data.iter_mut().enumerate().take(len) {
            *b = stored.as_ref().map(|d| d[k]).unwrap_or(b'.');
        }
        Ok(())
    }

    fn write(
        &mut self,
        idx: u16,
        _source: usize,
        data: &Vec<u8>,
        _len: usize,
    ) -> Result<(), DiskError> {
        if self.broken {
            return Err(DiskError::InternalDriverError);
        }
        self.writes += 1;
        self.blocks.retain(|(i, _)| *i != idx);
        self.blocks.push((idx, data.clone()));
        Ok(())
    }
}

fn disk_machine() -> LBForth<Disk<Ram>> {
    let disk = Disk::new([0x10000, 0x20000], 16, Ram::default());
    let mut lbf = LBForth::from_params(
        LBForthParams::default(),
        disk,
        Forth::<Disk<Ram>>::full_builtins(),
    )
    .unwrap();
    for (name, func) in Forth::<Disk<Ram>>::disk_builtins() {
        lbf.forth.add_builtin_static_name(name, func).unwrap();
    }
    lbf
}

fn line<T: HostWords>(forth: &mut Forth<T>, text: &str) -> Result<String, Error> {
    forth.output.clear();
    forth.input.clear();
    forth.input.fill(text).unwrap();
    forth.process_line()?;
    Ok(String::from_utf8(forth.output.as_bytes().to_vec()).unwrap())
}

#[test]
fn the_words_of_the_cache_are_numbered() {
    let list = Forth::<Disk<Ram>>::disk_builtins();
    let names: Vec<&str> = list.iter().map(|(n, _)| *n).collect();
    assert_eq!(
        names,
        vec!["block", "buffer", "empty_buffers", "update", "flush"]
    );
    for (i, (_, f)) in list.iter().enumerate() {
        assert_eq!(*f, WordFunc::Host(i as u16));
    }
    assert!(matches!(DiskWord::from_id(0), Some(DiskWord::Block)));
    assert!(matches!(DiskWord::from_id(4), Some(DiskWord::Flush)));
    assert!(DiskWord::from_id(5).is_none());
}

#[test]
fn blocks_through_the_machine() {
    let mut lbf = disk_machine();
    let f = &mut lbf.forth;
    assert_eq!(line(f, "3 block .").unwrap(), "131072 ok.\n");
    assert_eq!(f.host_ctxt.first.page, PageState::Clean(3));
    assert_eq!(f.host_ctxt.first.data, vec![b'.'; 16]);
    assert_eq!(f.host_ctxt.driver.reads, 1);
    assert_eq!(line(f, "update").unwrap(), "ok.\n");
    assert_eq!(f.host_ctxt.first.page, PageState::Dirty(3));
    assert_eq!(line(f, "4 buffer .").unwrap(), "65536 ok.\n");
    assert_eq!(f.host_ctxt.first.page, PageState::Buffer(4));
    assert_eq!(f.host_ctxt.second.page, PageState::Dirty(3));
    assert_eq!(line(f, "3 block .").unwrap(), "131072 ok.\n");
    assert_eq!(f.host_ctxt.driver.reads, 1);
    assert_eq!(line(f, "flush").unwrap(), "ok.\n");
    assert_eq!(f.host_ctxt.driver.writes, 1);
    assert_eq!(f.host_ctxt.first.page, PageState::Empty);
    assert_eq!(f.host_ctxt.second.page, PageState::Empty);
    assert_eq!(
        line(f, "5 buffer drop update empty_buffers flush").unwrap(),
        "ok.\n"
    );
    assert_eq!(f.host_ctxt.driver.writes, 1);
}

#[test]
fn block_numbers_and_driver_errors() {
    let mut lbf = disk_machine();
    let f = &mut lbf.forth;
    assert_eq!(line(f, "block"), Err(Error::Stack(StackError::StackEmpty)));
    assert_eq!(line(f, "-1 block"), Err(Error::Disk(DiskError::OutOfRange)));
    assert_eq!(
        line(f, "65536 buffer"),
        Err(Error::Disk(DiskError::OutOfRange))
    );
    assert_eq!(line(f, "65535 buffer ."), Ok("131072 ok.\n".to_string()));
    f.host_ctxt.driver.broken = true;
    assert_eq!(
        line(f, "1 block"),
        Err(Error::Disk(DiskError::InternalDriverError))
    );
    assert_eq!(
        line(f, "65535 buffer update flush"),
        Err(Error::Disk(DiskError::InternalDriverError))
    );
    assert_eq!(f.data_stack.depth(), 0);
}

#[test]
fn the_cache_as_host_runs_its_words_by_number() {
    let mut lbf = disk_machine();
    let f = &mut lbf.forth;
    f.add_builtin_static_name("nothing", WordFunc::Host(5))
        .unwrap();
    assert_eq!(line(f, "1 nothing"), Err(Error::UnknownWord));
    assert_eq!(f.host_ctxt.first.page, PageState::Empty);
    assert_eq!(f.host_ctxt.driver.reads, 0);

    f.data_stack.push(Word { data: 2 }).unwrap();
    assert_eq!(<Disk<Ram> as HostWords>::call(f, 0), Ok(()));
    assert_eq!(f.data_stack.pop(), Some(Word { data: 0x20000 }));
    assert_eq!(f.host_ctxt.first.page, PageState::Clean(2));
    assert_eq!(<Disk<Ram> as HostWords>::call(f, 3), Ok(()));
    assert_eq!(f.host_ctxt.first.page, PageState::Dirty(2));
    f.data_stack.push(Word { data: 6 }).unwrap();
    assert_eq!(<Disk<Ram> as HostWords>::call(f, 1), Ok(()));
    assert_eq!(f.data_stack.pop(), Some(Word { data: 0x10000 }));
    assert_eq!(f.host_ctxt.first.page, PageState::Buffer(6));
    assert_eq!(f.host_ctxt.second.page, PageState::Dirty(2));
    assert_eq!(<Disk<Ram> as HostWords>::call(f, 4), Ok(()));
    assert_eq!(f.host_ctxt.driver.writes, 1);
    assert_eq!(f.host_ctxt.first.page, PageState::Empty);
    f.data_stack.push(Word { data: 2 }).unwrap();
    assert_eq!(<Disk<Ram> as HostWords>::call(f, 0), Ok(()));
    assert_eq!(<Disk<Ram> as HostWords>::call(f, 2), Ok(()));
    assert_eq!(f.host_ctxt.first.page, PageState::Empty);
    assert_eq!(f.host_ctxt.second.page, PageState::Empty);
    assert_eq!(
        <Disk<Ram> as HostWords>::call(f, 9),
        Err(Error::UnknownWord)
    );
}

#[test]
fn a_page_address_that_fits_no_cell() {
    let disk = Disk::new([0x8000_0000, 0x9000_0000], 4, Ram::default());
    let mut lbf = LBForth::from_params(
        LBForthParams::default(),
        disk,
        Forth::<Disk<Ram>>::full_builtins(),
    )
    .unwrap();
    lbf.forth
        .add_builtin_static_name("block", WordFunc::Host(0))
        .unwrap();
    assert_eq!(line(&mut lbf.forth, "1 block"), Err(Error::BadAddress));
}

#[test]
fn a_host_without_words_knows_none() {
    let mut lbf =
        LBForth::from_params(LBForthParams::default(), (), Forth::<()>::full_builtins()).unwrap();
    lbf.forth.add_builtin("Ghost", WordFunc::Host(7)).unwrap();
    assert_eq!(lbf.forth.find_word(b"ghost").is_some(), true);
    assert_eq!(line(&mut lbf.forth, "ghost"), Err(Error::UnknownWord));
    let mut with_disk = disk_machine();
    with_disk
        .forth
        .add_builtin("other", WordFunc::Host(5))
        .unwrap();
    assert_eq!(line(&mut with_disk.forth, "other"), Err(Error::UnknownWord));
}

struct Counter {
    calls: u32,
}

impl HostWords for Counter {
    fn called(_: &Forth<Self>, _: u16, _: &Forth<Self>, _: Result<(), Error>) -> bool {
        panic!("named for proofs only")
    }

    fn byte_at(&self, _addr: usize) -> Option<u8> {
        panic!("named for proofs only")
    }

    fn peek(&self, _addr: usize) -> Option<u8> {
        None
    }

    fn poke(&mut self, _addr: usize, _val: u8) -> bool {
        false
    }

    fn call(forth: &mut Forth<Self>, id: u16) -> Result<(), Error> {
        forth.host_ctxt.calls += 1;
        match id {
            0 => forth.push_data(Word::data(forth.host_ctxt.calls as i32)),
            1 => {
                // asks for another turn until it has been called three times
                if forth.host_ctxt.calls < 3 {
                    Err(Error::PendingCallAgain)
                } else {
                    Ok(())
                }
            }
            _ => Err(Error::UnknownWord),
        }
    }
}

#[test]
fn words_of_the_host_run_and_may_ask_to_run_again() {
    let mut lbf = LBForth::from_params(
        LBForthParams::default(),
        Counter { calls: 0 },
        Forth::<Counter>::full_builtins(),
    )
    .unwrap();
    lbf.forth.add_builtin("count", WordFunc::Host(0)).unwrap();
    lbf.forth
        .add_builtin_static_name("thrice", WordFunc::Host(1))
        .unwrap();
    assert_eq!(line(&mut lbf.forth, "count count + .").unwrap(), "3 ok.\n");
    assert_eq!(
        line(&mut lbf.forth, ": both count . thrice count . ; both").unwrap(),
        "3 5 ok.\n"
    );
    lbf.forth.host_ctxt.calls = 0;
    assert_eq!(line(&mut lbf.forth, "thrice count .").unwrap(), "4 ok.\n");
}

#[test]
fn added_words_take_room_in_the_arena() {
    let params = LBForthParams {
        dict_buf_elems: 44,
        ..LBForthParams::default()
    };
    let mut lbf = LBForth::from_params(params, (), Forth::<()>::full_builtins()).unwrap();
    assert_eq!(lbf.forth.add_builtin("abc", WordFunc::Host(0)), Ok(()));
    assert_eq!(lbf.forth.dict.dict.alloc.used(), 24);
    assert_eq!(lbf.forth.dict.dict.entries[0].addr, DICT_BOTTOM + 4);
    assert_eq!(
        lbf.forth.add_builtin("d", WordFunc::Host(0)),
        Err(Error::DictionaryFull)
    );
    assert_eq!(lbf.forth.dict.dict.alloc.used(), 24);
    assert_eq!(
        lbf.forth.add_builtin_static_name("d", WordFunc::Host(0)),
        Ok(())
    );
    assert_eq!(lbf.forth.dict.dict.alloc.used(), 44);
    assert_eq!(
        lbf.forth.add_builtin_static_name("e", WordFunc::Host(0)),
        Err(Error::DictionaryFull)
    );
    assert_eq!(lbf.forth.dict.dict.entries.len(), 2);
}

#[test]
fn machines_need_dictionaries_that_fit() {
    let huge = LBForthParams {
        dict_buf_elems: 0x7fff_f000,
        ..LBForthParams::default()
    };
    assert!(matches!(
        LBForth::from_params(huge, (), Forth::<()>::full_builtins()),
        Err(Error::DictionaryFull)
    ));
    let fits = LBForthParams {
        dict_buf_elems: 0x7fff_efff,
        ..LBForthParams::default()
    };
    assert!(LBForth::from_params(fits, (), Vec::new()).is_ok());
    assert!(alloc_dict(0x7fff_ffff, 1).is_none());
    assert!(alloc_dict(0x7fff_ffff, 0).is_some());
    assert!(alloc_dict(usize::MAX, usize::MAX).is_none());
    let d = alloc_dict(16, 32).unwrap();
    assert_eq!(d.dict.alloc.start, 16);
    assert_eq!(d.dict.alloc.end, 48);
    assert_eq!(LBForthParams::default().dict_buf_elems, 4096);
    assert_eq!(LBForthParams::default().data_stack_elems, 256);
}

#[test]
fn a_fork_knows_the_words_of_its_parent() {
    let mut parent =
        LBForth::from_params(LBForthParams::default(), (), Forth::<()>::full_builtins()).unwrap();
    line(
        &mut parent.forth,
        ": twice dup + ; variable shared 5 shared !",
    )
    .unwrap();
    let mut child = parent
        .fork_with_params(LBForthParams::default(), ())
        .unwrap();
    assert_eq!(
        line(&mut child.forth, "4 twice . shared @ .").unwrap(),
        "8 5 ok.\n"
    );
    assert_eq!(
        line(&mut parent.forth, "3 twice . shared @ .").unwrap(),
        "6 5 ok.\n"
    );
    // what one defines after the fork the other does not see
    line(&mut child.forth, ": mine 1 . ; : twice 0 ;").unwrap();
    assert_eq!(
        line(&mut child.forth, "mine 4 twice .").unwrap(),
        "1 0 ok.\n"
    );
    assert_eq!(line(&mut parent.forth, "mine"), Err(Error::UnknownWord));
    assert_eq!(line(&mut parent.forth, "4 twice .").unwrap(), "8 ok.\n");
    // the shared dictionary cannot be written to
    assert_eq!(line(&mut child.forth, "9 shared !"), Err(Error::BadAddress));
    assert_eq!(
        line(&mut parent.forth, "9 shared !"),
        Err(Error::BadAddress)
    );
    assert_eq!(child.forth.dict.dict.base, 2);
    assert_eq!(parent.forth.dict.dict.base, 2);
    assert_eq!(child.forth.dict.dict.alloc.start, DICT_BOTTOM + 4096);
    // a fork of a fork
    let mut grandchild = child
        .fork_with_params(LBForthParams::default(), ())
        .unwrap();
    assert_eq!(
        line(&mut grandchild.forth, "mine 2 twice . shared @ .").unwrap(),
        "1 0 5 ok.\n"
    );
    assert_eq!(grandchild.forth.dict.dict.base, 4);
}

#[test]
fn fork_refuses_what_does_not_fit() {
    let mut parent =
        LBForth::from_params(LBForthParams::default(), (), Forth::<()>::full_builtins()).unwrap();
    let low = alloc_dict(0, 64).unwrap();
    let high = alloc_dict(DICT_BOTTOM + 4096, 64).unwrap();
    let r = parent.forth.fork(
        low,
        high,
        8,
        8,
        8,
        WordStrBuf::new(16),
        OutputBuf::new(16),
        (),
    );
    assert!(matches!(r, Err(Error::BadAddress)));
    assert!(parent.forth.dict.dict.parent.is_none());
    line(&mut parent.forth, ": open").unwrap();
    assert!(matches!(
        parent.fork_with_params(LBForthParams::default(), ()),
        Err(Error::InterpretOnlyWord)
    ));
    line(&mut parent.forth, ";").unwrap();
    let huge = LBForthParams {
        dict_buf_elems: 0x7fff_f000,
        ..LBForthParams::default()
    };
    assert!(matches!(
        parent.fork_with_params(huge, ()),
        Err(Error::DictionaryFull)
    ));
    assert!(parent.forth.dict.dict.parent.is_none());
    assert!(parent
        .fork_with_params(LBForthParams::default(), ())
        .is_ok());
    assert!(parent.forth.dict.dict.parent.is_some());
}

fn slow_words() -> Vec<AsyncBuiltinEntry> {
    vec![AsyncBuiltinEntry::new("sleep").unwrap()]
}

fn slow_machine() -> AsyncLBForth<()> {
    AsyncLBForth::from_params(
        LBForthParams::default(),
        (),
        Forth::<()>::full_builtins(),
        slow_words(),
    )
    .unwrap()
}

fn sleep(forth: &mut Forth<()>) -> Result<(), Error> {
    let ms = forth.pop_data()?.data;
    let start = std::time::Instant::now();
    while start.elapsed() < std::time::Duration::from_millis(ms as u64) {
        std::hint::spin_loop();
    }
    Ok(())
}

#[test]
fn sleep_takes_its_time() {
    let mut lbf = slow_machine();
    lbf.forth.input_mut().fill("100 sleep\n").unwrap();
    let start = std::time::Instant::now();
    let mut event = LineEvent::Start;
    let mut waited = 0;
    let result = loop {
        match lbf.forth.process_line(event) {
            LineAction::Finished(r) => break r,
            LineAction::Await(name) => {
                assert_eq!(name.as_bytes(), b"sleep");
                waited += 1;
                event = LineEvent::Resumed(sleep(lbf.forth.vm_mut()));
            }
        }
    };
    assert_eq!(result, Ok(()));
    assert_eq!(waited, 1);
    assert!(start.elapsed() >= std::time::Duration::from_millis(100));
    assert_eq!(lbf.forth.output().as_bytes(), b"ok.\n");
}

#[test]
fn a_line_given_up_during_sleep_leaves_a_machine_that_works() {
    let mut lbf = slow_machine();
    lbf.forth.input_mut().fill("1 2 100 sleep 3 .").unwrap();
    match lbf.forth.process_line(LineEvent::Start) {
        LineAction::Await(name) => assert_eq!(name.as_bytes(), b"sleep"),
        LineAction::Finished(r) => panic!("finished with {:?}", r),
    }
    // the host gives the line up here: what the machine holds stays as it is
    assert_eq!(lbf.forth.vm.call_stack.depth(), 1);
    assert_eq!(lbf.forth.vm.data_stack.depth(), 3);
    lbf.forth.vm_mut().reset();
    lbf.forth.input_mut().clear();
    lbf.forth.output_mut().clear();
    lbf.forth.input_mut().fill("4 5 + .").unwrap();
    match lbf.forth.process_line(LineEvent::Start) {
        LineAction::Finished(r) => assert_eq!(r, Ok(())),
        LineAction::Await(_) => panic!("nothing to wait for"),
    }
    assert_eq!(lbf.forth.output().as_bytes(), b"9 ok.\n");
}

#[test]
fn a_suspending_word_in_a_definition() {
    let mut lbf = slow_machine();
    lbf.forth
        .input_mut()
        .fill(": nap 1 . 0 sleep 2 . ; nap nap")
        .unwrap();
    let mut event = LineEvent::Start;
    let mut waited = 0;
    let result = loop {
        match lbf.forth.process_line(event) {
            LineAction::Finished(r) => break r,
            LineAction::Await(_) => {
                waited += 1;
                event = LineEvent::Resumed(sleep(lbf.forth.vm_mut()));
            }
        }
    };
    assert_eq!(result, Ok(()));
    assert_eq!(waited, 2);
    assert_eq!(lbf.forth.output().as_bytes(), b"1 2 1 2 ok.\n");
}

#[test]
fn a_suspending_word_that_fails_fails_the_line() {
    let mut lbf = slow_machine();
    lbf.forth.input_mut().fill("1 sleep").unwrap();
    assert!(matches!(
        lbf.forth.process_line(LineEvent::Start),
        LineAction::Await(_)
    ));
    match lbf
        .forth
        .process_line(LineEvent::Resumed(Err(Error::DivideByZero)))
    {
        LineAction::Finished(r) => assert_eq!(r, Err(Error::DivideByZero)),
        LineAction::Await(_) => panic!("nothing to wait for"),
    }
    assert_eq!(lbf.forth.vm.data_stack.depth(), 0);
    assert_eq!(lbf.forth.vm.call_stack.depth(), 0);
}

#[test]
fn steps_of_the_suspending_machine() {
    let mut lbf = slow_machine();
    assert!(matches!(lbf.forth.async_pig(), Ok(AsyncStep::Done)));
    lbf.forth.input_mut().fill("sleep 1").unwrap();
    lbf.forth.vm_mut().start_processing_line().unwrap();
    match lbf.forth.async_pig() {
        Ok(AsyncStep::Await(name)) => assert_eq!(name.as_bytes(), b"sleep"),
        _ => panic!("expected to wait"),
    }
    assert_eq!(lbf.forth.vm.call_stack.depth(), 1);
    assert_eq!(
        lbf.forth.resume(Err(Error::PendingCallAgain)),
        Ok(Step::NotDone)
    );
    assert_eq!(lbf.forth.vm.call_stack.depth(), 1);
    assert_eq!(lbf.forth.resume(Ok(())), Ok(Step::NotDone));
    assert_eq!(lbf.forth.vm.call_stack.depth(), 0);
    assert_eq!(lbf.forth.resume(Err(Error::BadName)), Err(Error::BadName));
    // the machine that does not suspend cannot run the word
    lbf.forth.input_mut().clear();
    lbf.forth.input_mut().fill("sleep").unwrap();
    assert_eq!(lbf.forth.vm_mut().process_line(), Err(Error::UnknownWord));
}

struct Sleeper;

impl AsyncBuiltins<()> for Sleeper {
    fn is_table(&self, _: &Vec<AsyncBuiltinEntry>) -> bool {
        panic!("named for proofs only")
    }

    fn dispatched(&self, _: &FaStr, _: &Forth<()>, _: &Forth<()>, _: Result<(), Error>) -> bool {
        panic!("named for proofs only")
    }

    fn builtins(&self) -> Vec<AsyncBuiltinEntry> {
        slow_words()
    }

    fn dispatch_async(&self, id: &FaStr, forth: &mut Forth<()>) -> Result<(), Error> {
        assert_eq!(id.as_bytes(), b"sleep");
        sleep(forth)
    }
}

#[test]
fn a_dispatcher_runs_suspending_words_at_once() {
    let mut lbf = slow_machine();
    lbf.forth.input_mut().fill("1 . 2 sleep 3 .").unwrap();
    assert_eq!(lbf.forth.block_on_line(&Sleeper), Ok(()));
    assert_eq!(lbf.forth.output().as_bytes(), b"1 3 ok.\n");
    lbf.forth.output_mut().clear();
    lbf.forth.input_mut().fill("sleep").unwrap();
    assert_eq!(
        lbf.forth.block_on_line(&Sleeper),
        Err(Error::Stack(StackError::StackEmpty))
    );
    let mut plain: AsyncForth<()> = slow_machine().forth;
    plain.input_mut().fill("1 sleep").unwrap();
    assert_eq!(
        plain.block_on_line(&NoAsyncBuiltins),
        Err(Error::UnknownWord)
    );
    assert_eq!(NoAsyncBuiltins.builtins().len(), 0);
}

#[test]
fn native_words_can_be_added_to_a_suspending_machine() {
    let mut lbf = slow_machine();
    assert_eq!(lbf.forth.add_sync_builtin("one", WordFunc::Host(0)), Ok(()));
    assert_eq!(
        lbf.forth
            .add_sync_builtin_static_name("two", WordFunc::Host(1)),
        Ok(())
    );
    assert_eq!(
        lbf.forth.add_sync_builtin("", WordFunc::Host(1)),
        Err(Error::BadName)
    );
    assert_eq!(
        lbf.forth.vm.find_word(b"one"),
        Some(forth3::vm::EntryRef::Dict(0))
    );
    assert_eq!(
        lbf.forth.vm.find_word(b"two"),
        Some(forth3::vm::EntryRef::Dict(1))
    );
    assert_eq!(
        lbf.forth.vm.find_word(b"sleep"),
        Some(forth3::vm::EntryRef::AsyncBuiltin(0))
    );
    let mut child = lbf.fork_with_params(LBForthParams::default(), ()).unwrap();
    assert_eq!(
        child.forth.vm.find_word(b"two"),
        Some(forth3::vm::EntryRef::Dict(1))
    );
    assert_eq!(
        child.forth.vm.find_word(b"sleep"),
        Some(forth3::vm::EntryRef::AsyncBuiltin(0))
    );
}

static STASH: std::sync::Mutex<Vec<Dictionary>> = std::sync::Mutex::new(Vec::new());

struct Keep;

impl DropDict for Keep {
    fn drop_dict(dict: Dictionary) {
        STASH.lock().unwrap().push(dict);
    }
}

#[test]
fn a_dictionary_that_was_shared_cannot_be_forked() {
    // a dictionary that comes back from its last holder no longer counts as one
    // that may be changed
    let shared = OwnedDict::new(Dictionary::new(DICT_BOTTOM, 256))
        .into_shared()
        .ok()
        .unwrap();
    assert!(shared.release_to::<Keep>());
    let used = STASH.lock().unwrap().pop().unwrap();
    assert!(!used.is_mutable());
    let mut forth = Forth::new(
        8,
        8,
        8,
        OwnedDict::new(used),
        WordStrBuf::new(64),
        OutputBuf::new(64),
        (),
        Forth::<()>::full_builtins(),
    )
    .unwrap();
    assert_eq!(
        line(&mut forth, ": two 2 ; two ."),
        Ok("2 ok.\n".to_string())
    );
    let mine = alloc_dict(DICT_BOTTOM + 256, 64).unwrap();
    let theirs = alloc_dict(DICT_BOTTOM + 256, 64).unwrap();
    let r = forth.fork(
        mine,
        theirs,
        8,
        8,
        8,
        WordStrBuf::new(16),
        OutputBuf::new(16),
        (),
    );
    assert!(matches!(r, Err(Error::DictionaryShared)));
    // the machine still has its dictionary
    assert!(forth.dict.dict.parent.is_none());
    assert_eq!(line(&mut forth, "two two + ."), Ok("4 ok.\n".to_string()));
    let back = OwnedDict::new(Dictionary::new(0, 8));
    assert!(back.into_shared().is_ok());
}

static RELEASED: std::sync::atomic::AtomicUsize = std::sync::atomic::AtomicUsize::new(0);

struct Released;

impl DropDict for Released {
    fn drop_dict(_dict: Dictionary) {
        RELEASED.fetch_add(1, std::sync::atomic::Ordering::SeqCst);
    }
}

fn small_machine(bottom: usize) -> Forth<()> {
    Forth::new(
        8,
        8,
        8,
        alloc_dict(bottom, 256).unwrap(),
        WordStrBuf::new(64),
        OutputBuf::new(64),
        (),
        Forth::<()>::full_builtins(),
    )
    .unwrap()
}

#[test]
fn machines_that_are_given_up_give_back_what_they_hold() {
    let released = || RELEASED.load(std::sync::atomic::Ordering::SeqCst);
    let mut parent = small_machine(DICT_BOTTOM);
    line(&mut parent, ": two 2 ;").unwrap();
    let child = parent
        .fork(
            alloc_dict(DICT_BOTTOM + 256, 64).unwrap(),
            alloc_dict(DICT_BOTTOM + 256, 64).unwrap(),
            8,
            8,
            8,
            WordStrBuf::new(64),
            OutputBuf::new(64),
            (),
        )
        .ok()
        .unwrap();
    // the dictionary of the child goes; the shared one has a holder left
    child.release::<Released>();
    assert_eq!(released(), 1);
    assert_eq!(line(&mut parent, "two ."), Ok("2 ok.\n".to_string()));
    // with the parent go its dictionary and the shared one
    parent.release::<Released>();
    assert_eq!(released(), 3);
    let lbf = LBForth::from_params(LBForthParams::default(), 7u8, Vec::new()).unwrap();
    assert_eq!(lbf.release(), 7);
}

#[test]
fn a_fork_from_two_handles_on_the_shared_dictionary() {
    let mut forth = small_machine(DICT_BOTTOM);
    line(&mut forth, ": two 2 ;").unwrap();
    let mut mine = alloc_dict(DICT_BOTTOM + 256, 64).unwrap();
    std::mem::swap(&mut forth.dict, &mut mine);
    let first = mine.into_shared().ok().unwrap();
    let second = first.try_clone().unwrap();
    let mut child = forth.fork_shared(
        first,
        second,
        alloc_dict(DICT_BOTTOM + 256, 64).unwrap(),
        4,
        5,
        6,
        WordStrBuf::new(32),
        OutputBuf::new(32),
        (),
    );
    assert_eq!(line(&mut child, "two ."), Ok("2 ok.\n".to_string()));
    assert_eq!(line(&mut forth, "two two + ."), Ok("4 ok.\n".to_string()));
    assert_eq!(child.data_stack.capacity(), 4);
    assert_eq!(child.return_stack.capacity(), 5);
    assert_eq!(child.call_stack.capacity(), 6);
    assert_eq!(child.dict.dict.base, 1);
    assert_eq!(forth.dict.dict.base, 1);
    assert_eq!(child.builtins.len(), forth.builtins.len());
}

#[test]
fn the_memory_words_reach_the_pages_of_the_cache() {
    let mut lbf = disk_machine();
    let f = &mut lbf.forth;
    // block 3 is read as sixteen dots
    assert_eq!(line(f, "3 block c@ .").unwrap(), "46 ok.\n");
    assert_eq!(line(f, "3 block @ .").unwrap(), "774778414 ok.\n");
    assert_eq!(line(f, "3 block 12 + @ .").unwrap(), "774778414 ok.\n");
    assert_eq!(line(f, "3 block 13 + @"), Err(Error::BadAddress));
    assert_eq!(line(f, "3 block 16 + c@"), Err(Error::BadAddress));
    assert_eq!(line(f, "65 3 block c! 3 block c@ .").unwrap(), "65 ok.\n");
    assert_eq!(
        line(f, "-2 3 block 4 + ! 3 block 4 + @ .").unwrap(),
        "-2 ok.\n"
    );
    assert_eq!(
        line(f, "3 block 7 + c@ . 3 block 8 + c@ .").unwrap(),
        "255 46 ok.\n"
    );
    assert_eq!(line(f, "1 3 block 13 + !"), Err(Error::BadAddress));
    assert_eq!(
        &f.host_ctxt.first.data[..8],
        &[65, 46, 46, 46, 254, 255, 255, 255]
    );
    // storing does not mark the page; `update` does, and `flush` writes it
    assert_eq!(f.host_ctxt.first.page, PageState::Clean(3));
    assert_eq!(line(f, "update flush").unwrap(), "ok.\n");
    assert_eq!(f.host_ctxt.driver.writes, 1);
    assert_eq!(line(f, "3 block c@ .").unwrap(), "65 ok.\n");
    // the dictionary comes first, and a host without memory has none
    assert_eq!(line(f, "variable v 9 v ! v @ .").unwrap(), "9 ok.\n");
    let mut plain = small_machine(DICT_BOTTOM);
    assert_eq!(line(&mut plain, "65536 @"), Err(Error::BadAddress));
    assert_eq!(line(&mut plain, "1 65536 c!"), Err(Error::BadAddress));
}

#[test]
fn a_fork_changes_nothing_of_the_machine_but_its_dictionary() {
    let mut parent =
        LBForth::from_params(LBForthParams::default(), (), Forth::<()>::full_builtins()).unwrap();
    parent.forth.input.fill("1 2 dup . : two 2 ; 7").unwrap();
    parent.forth.process_line().unwrap();
    assert_eq!(parent.forth.output.as_bytes(), b"2 ok.\n");
    let end = parent.forth.dict.dict.alloc.end;
    let child = parent
        .fork_with_params(LBForthParams::default(), ())
        .ok()
        .unwrap();
    assert_eq!(parent.forth.data_stack.depth(), 3);
    assert_eq!(parent.forth.data_stack.peek(), Some(Word::data(7)));
    assert_eq!(parent.forth.output.as_bytes(), b"2 ok.\n");
    assert_eq!(parent.forth.step_limit, u64::MAX);
    assert_eq!(parent.forth.dict.dict.alloc.start, end);
    assert_eq!(parent.forth.dict.dict.alloc.used(), 0);
    assert_eq!(parent.forth.dict.dict.base, 1);
    assert_eq!(child.forth.dict.dict.alloc.start, end);
    assert_eq!(child.forth.dict.dict.base, 1);
    assert_eq!(child.forth.data_stack.depth(), 0);
    assert_eq!(child.forth.output.as_bytes(), b"");
    // inside a definition nothing changes at all
    line(&mut parent.forth, ": open").unwrap();
    let used = parent.forth.dict.dict.alloc.used();
    assert!(matches!(
        parent.fork_with_params(LBForthParams::default(), ()),
        Err(Error::InterpretOnlyWord)
    ));
    assert_eq!(parent.forth.dict.dict.alloc.used(), used);
    assert_eq!(parent.forth.dict.dict.alloc.start, end);
    assert!(parent.forth.pending.is_some());
}
