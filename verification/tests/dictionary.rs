use forth3::builtin::{Builtin, WordFunc};
use forth3::dictionary::{
    AsyncBuiltinEntry, BuiltinEntry, BumpError, Dictionary, DictionaryBump, DropDict, EntryKind,
    OwnedDict, ASYNC_BUILTIN_ENTRY_SIZE, BUILTIN_ENTRY_SIZE, DICTIONARY_ENTRY_SIZE, ENTRY_ALIGN,
    ENTRY_HEADER_SIZE,
};
use forth3::fastr::FaStr;
use forth3::leakbox::LeakBoxDict;
use forth3::refcount::{admits_holder, is_mutable_count, was_last_holder, MAX_REFCOUNT, MUTABLE};
use forth3::word::{Word, WORD_SIZE};

#[test]
fn sizes() {
    assert_eq!(ENTRY_HEADER_SIZE, 3 * WORD_SIZE);
    assert_eq!(BUILTIN_ENTRY_SIZE, 4 * WORD_SIZE);
    assert_eq!(ASYNC_BUILTIN_ENTRY_SIZE, 3 * WORD_SIZE);
    // measured: an entry takes a header, a code field and a link in the arena
    assert_eq!(WORD_SIZE, 4);
    let mut dict = Dictionary::new(0, 64);
    dict.add_bi_fastr(name("w"), WordFunc::Host(0)).unwrap();
    assert_eq!(dict.alloc.used(), ENTRY_HEADER_SIZE + 2 * WORD_SIZE);
    assert_eq!(dict.alloc.used(), DICTIONARY_ENTRY_SIZE);
    assert_eq!(dict.alloc.used(), BUILTIN_ENTRY_SIZE + WORD_SIZE);
}

#[test]
fn do_a_bump() {
    let mut bump = DictionaryBump::new(0x1000, 256);

    // Be annoying
    let _b = bump.bump_u8().unwrap();

    // ALLOT 10
    let d = bump.bump(DICTIONARY_ENTRY_SIZE, ENTRY_ALIGN).unwrap();
    assert_eq!(d % ENTRY_ALIGN, 0);

    let walign = ENTRY_ALIGN;
    for _w in 0..10 {
        let w = bump.bump(WORD_SIZE, WORD_SIZE).unwrap();
        assert_eq!(w % walign, 0);
    }
}

#[test]
fn bump_hands_out_addresses_in_order() {
    let mut bump = DictionaryBump::new(100, 16);
    assert_eq!(bump.capacity(), 16);
    assert_eq!(bump.used(), 0);
    assert_eq!(bump.bump_u8(), Some(100));
    assert_eq!(bump.bump_u8s(3), Some(101));
    assert_eq!(bump.used(), 4);
    assert_eq!(bump.bump(4, 8), Ok(104));
    assert_eq!(bump.used(), 8);
    assert_eq!(bump.bump_u8s(0), None);
    assert_eq!(bump.bump_u8s(9), None);
    assert_eq!(bump.bump(9, 1), Err(BumpError::OutOfMemory));
    assert_eq!(bump.used(), 8);
    assert_eq!(bump.bump_u8s(8), Some(108));
    assert_eq!(bump.bump_u8(), None);
    assert_eq!(bump.used(), bump.capacity());
}

#[test]
fn bump_pads_with_zeros_and_aligns() {
    let mut bump = DictionaryBump::new(0x1001, 32);
    assert!(bump.write_u8(0x1001, 7) == false);
    assert_eq!(bump.bump(4, 4), Ok(0x1004));
    assert_eq!(bump.used(), 7);
    assert_eq!(bump.read_u8(0x1001), Some(0));
    assert_eq!(bump.read_u8(0x1006), Some(0));
    assert_eq!(bump.read_u8(0x1008), None);
}

#[test]
fn bump_contains_addresses_of_the_arena_only() {
    let bump = DictionaryBump::new(0x2000, 8);
    assert!(!bump.contains(0x1fff));
    assert!(bump.contains(0x2000));
    assert!(bump.contains(0x2007));
    assert!(!bump.contains(0x2008));
}

#[test]
fn bump_str_folds_and_truncates() {
    let mut bump = DictionaryBump::new(0, 64);
    let name = bump.bump_str(b"HeLLo").unwrap();
    assert_eq!(name.as_bytes(), b"hello");
    assert_eq!(bump.used(), 5);
    assert_eq!(bump.read_u8(0), Some(b'h'));
    assert_eq!(bump.read_u8(4), Some(b'o'));
    let long = bump
        .bump_str(b"ABCDEFGHIJKLMNOPQRSTUVWXYZ0123456789")
        .unwrap();
    assert_eq!(long.len(), 31);
    assert_eq!(long.as_bytes(), b"abcdefghijklmnopqrstuvwxyz01234");
    assert_eq!(bump.used(), 36);
}

#[test]
fn bump_str_failures_leave_the_arena_alone() {
    let mut bump = DictionaryBump::new(0, 4);
    assert_eq!(
        bump.bump_str("h\u{e9}llo".as_bytes()).err(),
        Some(BumpError::CantAllocUtf8)
    );
    assert_eq!(bump.bump_str(b"hello").err(), Some(BumpError::OutOfMemory));
    assert_eq!(bump.bump_str(b"").err(), Some(BumpError::OutOfMemory));
    assert_eq!(bump.used(), 0);
    assert!(bump.bump_str(b"four").is_ok());
}

#[test]
fn a_byte_that_is_not_ascii_is_refused_wherever_it_stands() {
    let mut long = vec![b'n'; 31];
    long.push(0x80);
    let mut bump = DictionaryBump::new(0, 31);
    assert_eq!(bump.bump_str(&long).err(), Some(BumpError::CantAllocUtf8));
    assert_eq!(bump.used(), 0);
    let mut roomy = DictionaryBump::new(0, 64);
    assert_eq!(roomy.bump_str(&long).err(), Some(BumpError::CantAllocUtf8));
    assert_eq!(roomy.used(), 0);
    let mut none = DictionaryBump::new(0, 0);
    assert_eq!(none.bump_str(&long).err(), Some(BumpError::CantAllocUtf8));
    long[31] = b'n';
    assert_eq!(none.bump_str(&long).err(), Some(BumpError::OutOfMemory));
    assert_eq!(bump.bump_str(&long).unwrap().len(), 31);

    let mut dict = Dictionary::new(0x1000, 256);
    long[31] = 0xc3;
    assert_eq!(dict.define(&long, 0).err(), Some(BumpError::CantAllocUtf8));
    assert_eq!(dict.alloc.used(), 0);
    long[31] = b'!';
    assert!(dict.define(&long, 0).is_ok());
}

#[test]
fn cells_are_stored_least_significant_byte_first() {
    let mut bump = DictionaryBump::new(0x100, 16);
    assert_eq!(bump.bump_write(Word::data(0x0102_0304)), Ok(()));
    assert_eq!(bump.read_u8(0x100), Some(4));
    assert_eq!(bump.read_u8(0x101), Some(3));
    assert_eq!(bump.read_u8(0x102), Some(2));
    assert_eq!(bump.read_u8(0x103), Some(1));
    assert_eq!(bump.read_word(0x100), Some(Word::data(0x0102_0304)));
    assert_eq!(bump.bump_write(Word::data(-2)), Ok(()));
    assert_eq!(bump.read_u8(0x104), Some(0xfe));
    assert_eq!(bump.read_u8(0x107), Some(0xff));
    assert_eq!(bump.read_word(0x104), Some(Word::data(-2)));
    assert!(bump.write_word(0x102, Word::data(i32::MIN)));
    assert_eq!(bump.read_word(0x102), Some(Word::data(i32::MIN)));
    assert_eq!(bump.read_word(0x105), None);
    assert!(!bump.write_word(0x105, Word::data(1)));
}

#[test]
fn bump_write_fails_when_the_cell_does_not_fit() {
    let mut bump = DictionaryBump::new(1, 6);
    assert_eq!(bump.bump_write(Word::data(5)), Err(BumpError::OutOfMemory));
    assert_eq!(bump.used(), 0);
    let mut bump = DictionaryBump::new(1, 7);
    assert_eq!(bump.bump_write(Word::data(5)), Ok(()));
    assert_eq!(bump.used(), 7);
    assert_eq!(bump.read_word(4), Some(Word::data(5)));
}

fn name(s: &str) -> FaStr {
    FaStr::new(s.as_bytes()).unwrap()
}

#[test]
fn entries_link_back_and_lookup_finds_the_latest() {
    let mut dict = Dictionary::new(0x1000, 256);
    assert_eq!(dict.find(b"a"), None);
    dict.add_bi_fastr(name("a"), WordFunc::Host(1)).unwrap();
    dict.add_bi_fastr(name("b"), WordFunc::Host(2)).unwrap();
    dict.add_bi_fastr(name("a"), WordFunc::Host(3)).unwrap();
    assert_eq!(dict.entries.len(), 3);
    assert_eq!(dict.tail, Some(2));
    assert_eq!(dict.entries[0].link, None);
    assert_eq!(dict.entries[1].link, Some(0));
    assert_eq!(dict.entries[2].link, Some(1));
    assert!(dict.entries[0].addr < dict.entries[1].addr);
    assert!(dict.entries[1].addr < dict.entries[2].addr);
    assert_eq!(dict.find(b"a"), Some(2));
    assert_eq!(dict.find(b"b"), Some(1));
    assert_eq!(dict.find(b"c"), None);
    assert_eq!(dict.entry(2).unwrap().func, WordFunc::Host(3));
    assert!(dict.entry(3).is_none());
    assert!(matches!(
        dict.entries[0].hdr.kind,
        EntryKind::RuntimeBuiltin
    ));
    assert!(dict.alloc.used() <= dict.alloc.capacity());
}

#[test]
fn add_bi_fastr_runs_out_of_memory() {
    let mut dict = Dictionary::new(0, DICTIONARY_ENTRY_SIZE + 3);
    assert_eq!(dict.add_bi_fastr(name("a"), WordFunc::Host(1)), Ok(()));
    assert_eq!(
        dict.add_bi_fastr(name("b"), WordFunc::Host(1)),
        Err(BumpError::OutOfMemory)
    );
    assert_eq!(dict.entries.len(), 1);
    assert_eq!(dict.find(b"b"), None);
}

#[test]
fn builder_links_only_at_finish() {
    let mut dict = Dictionary::new(0x1000, 256);
    let builder = dict.build_entry().unwrap();
    assert_eq!(builder.base, 0x1000);
    let builder = builder.write_word(&mut dict, Word::data(11)).unwrap();
    let builder = builder.write_word(&mut dict, Word::data(22)).unwrap();
    assert_eq!(builder.len, 2);
    assert_eq!(dict.entries.len(), 0);
    assert_eq!(dict.find(b"w"), None);
    builder.finish(&mut dict, name("w"), WordFunc::Native(Builtin::Interpret));
    assert_eq!(dict.find(b"w"), Some(0));
    let e = dict.entry(0).unwrap();
    assert_eq!(e.hdr.len, 2);
    assert_eq!(e.pfa(), 0x1000 + DICTIONARY_ENTRY_SIZE);
    assert_eq!(dict.read_word(e.pfa()), Some(Word::data(11)));
    assert_eq!(dict.read_word(e.pfa() + WORD_SIZE), Some(Word::data(22)));
    assert_eq!(
        e.parameters(&dict),
        Some(vec![Word::data(11), Word::data(22)])
    );
    assert!(matches!(e.hdr.kind, EntryKind::Dictionary));
}

#[test]
fn builder_kind_and_counted_string() {
    let mut dict = Dictionary::new(0, 256);
    let builder = dict.build_entry().unwrap().kind(EntryKind::RuntimeBuiltin);
    let builder = builder.write_str(&mut dict, b"hello").unwrap();
    assert_eq!(builder.len, 3);
    let pfa = DICTIONARY_ENTRY_SIZE;
    assert_eq!(dict.read_word(pfa), Some(Word::data(5)));
    assert_eq!(dict.read_u8(pfa + 4), Some(b'h'));
    assert_eq!(dict.read_u8(pfa + 8), Some(b'o'));
    assert_eq!(dict.read_u8(pfa + 9), Some(0));
    assert_eq!(dict.alloc.used(), pfa + 12);
    builder.finish(&mut dict, name("s"), WordFunc::Host(0));
    assert!(matches!(
        dict.entries[0].hdr.kind,
        EntryKind::RuntimeBuiltin
    ));
}

#[test]
fn builder_runs_out_of_memory_without_a_trace() {
    let mut dict = Dictionary::new(0, DICTIONARY_ENTRY_SIZE + 4);
    let builder = dict.build_entry().unwrap();
    let builder = builder.write_word(&mut dict, Word::data(1)).unwrap();
    assert_eq!(
        builder.write_word(&mut dict, Word::data(2)).err(),
        Some(BumpError::OutOfMemory)
    );
    assert_eq!(
        builder.write_str(&mut dict, b"").err(),
        Some(BumpError::OutOfMemory)
    );
    assert_eq!(dict.entries.len(), 0);
    assert_eq!(dict.alloc.used(), DICTIONARY_ENTRY_SIZE + 4);
}

#[test]
fn define_stores_name_then_entry() {
    let mut dict = Dictionary::new(0x1000, 64);
    assert!(dict.room_for_definition(3, 1));
    let (n, b) = dict.define(b"Foo", 1).unwrap();
    assert_eq!(n.as_bytes(), b"foo");
    assert_eq!(b.base, 0x1004);
    assert_eq!(dict.alloc.used(), 4 + DICTIONARY_ENTRY_SIZE);
    assert_eq!(dict.read_u8(0x1000), Some(b'f'));
    assert_eq!(dict.read_u8(0x1003), Some(0));
    assert!(!dict.room_for_definition(1, 9));
    assert_eq!(dict.define(b"x", 9).err(), Some(BumpError::OutOfMemory));
    assert_eq!(dict.alloc.used(), 4 + DICTIONARY_ENTRY_SIZE);
}

#[test]
fn shared_parent_is_searched_after_the_child() {
    let mut parent = Dictionary::new(0x1000, 256);
    parent.add_bi_fastr(name("a"), WordFunc::Host(1)).unwrap();
    parent.add_bi_fastr(name("b"), WordFunc::Host(2)).unwrap();
    assert!(parent.is_mutable());
    let shared = OwnedDict::new(parent).into_shared().ok().unwrap();
    assert!(!shared.get().is_mutable());
    let second = shared.try_clone().unwrap();
    assert_eq!(second.get().find(b"b"), Some(1));

    let mut child = Dictionary::new(0x1100, 256);
    assert!(child.adopt(shared).is_ok());
    assert_eq!(child.base, 2);
    assert_eq!(child.find(b"a"), Some(0));
    assert_eq!(child.find(b"b"), Some(1));
    child.add_bi_fastr(name("a"), WordFunc::Host(9)).unwrap();
    assert_eq!(child.find(b"a"), Some(2));
    assert_eq!(child.entry(2).unwrap().func, WordFunc::Host(9));
    assert_eq!(child.entry(0).unwrap().func, WordFunc::Host(1));
    assert_eq!(child.find(b"b"), Some(1));

    // memory of the parent is read through the child
    let pfa = child.entry(0).unwrap().addr;
    assert_eq!(child.read_u8(pfa), Some(0));
    assert_eq!(child.read_u8(0x0fff), None);

    let mut seen = Vec::new();
    let mut it = child.entries();
    while let Some(e) = it.next() {
        seen.push((e.hdr.name.as_bytes().to_vec(), e.func));
    }
    assert_eq!(
        seen,
        vec![
            (b"a".to_vec(), WordFunc::Host(9)),
            (b"b".to_vec(), WordFunc::Host(2)),
            (b"a".to_vec(), WordFunc::Host(1)),
        ]
    );

    // the holders are counted
    assert!(!second.release());
    drop(child);
}

#[test]
fn an_empty_child_still_walks_its_parent() {
    let mut parent = Dictionary::new(0, 64);
    parent.add_bi_fastr(name("p"), WordFunc::Host(1)).unwrap();
    let shared = OwnedDict::new(parent).into_shared().ok().unwrap();
    let mut child = Dictionary::new(64, 64);
    assert!(child.adopt(shared).is_ok());
    let mut it = child.entries();
    assert_eq!(it.next().unwrap().hdr.name.as_bytes(), b"p");
    assert!(it.next().is_none());
    assert!(it.next().is_none());
}

#[test]
fn adopt_refuses_what_does_not_fit() {
    let mut parent = Dictionary::new(0x1000, 256);
    parent.add_bi_fastr(name("a"), WordFunc::Host(1)).unwrap();
    let shared = OwnedDict::new(parent).into_shared().ok().unwrap();
    let mut low = Dictionary::new(0x10ff, 16);
    let shared = low.adopt(shared).err().unwrap();
    let mut used = Dictionary::new(0x2000, 64);
    used.add_bi_fastr(name("x"), WordFunc::Host(1)).unwrap();
    let shared = used.adopt(shared).err().unwrap();
    let mut fine = Dictionary::new(0x1100, 16);
    let other = shared.try_clone().unwrap();
    assert!(fine.adopt(shared).is_ok());
    assert!(fine.adopt(other).is_err());
}

#[test]
fn the_last_holder_is_told() {
    let parent = Dictionary::new(0, 16);
    let shared = OwnedDict::new(parent).into_shared().ok().unwrap();
    let a = shared.try_clone().unwrap();
    let b = a.try_clone().unwrap();
    assert!(!shared.release());
    assert!(!a.release());
    assert!(b.release());
}

static TAKEN_BACK: std::sync::atomic::AtomicUsize = std::sync::atomic::AtomicUsize::new(0);

struct Counting;

impl DropDict for Counting {
    fn drop_dict(dict: Dictionary) {
        TAKEN_BACK.fetch_add(1 + dict.entries.len(), std::sync::atomic::Ordering::SeqCst);
    }
}

#[test]
fn the_dictionary_goes_to_the_hook_with_its_last_holder() {
    let mut parent = Dictionary::new(0, 64);
    parent.add_bi_fastr(name("p"), WordFunc::Host(1)).unwrap();
    let shared = OwnedDict::new(parent).into_shared().ok().unwrap();
    let other = shared.try_clone().unwrap();
    assert!(!shared.release_to::<Counting>());
    assert_eq!(TAKEN_BACK.load(std::sync::atomic::Ordering::SeqCst), 0);
    assert!(other.release_to::<Counting>());
    assert_eq!(TAKEN_BACK.load(std::sync::atomic::Ordering::SeqCst), 2);
    OwnedDict::new(Dictionary::new(0, 8)).release_to::<Counting>();
    assert_eq!(TAKEN_BACK.load(std::sync::atomic::Ordering::SeqCst), 3);
    OwnedDict::new(Dictionary::new(0, 8)).release_to::<LeakBoxDict>();
}

#[test]
fn sharing_depends_on_what_the_counter_held() {
    let owned = OwnedDict::new(Dictionary::new(0, 8));
    let owned = owned.shared_if(Err(3)).err().unwrap();
    let shared = owned.shared_if(Ok(MUTABLE)).ok().unwrap();
    assert!(shared.handle_if(1).is_some());
    assert!(shared.handle_if(MAX_REFCOUNT - 1).is_some());
    assert!(shared.handle_if(MAX_REFCOUNT).is_none());
    assert!(is_mutable_count(MUTABLE));
    assert!(!is_mutable_count(1));
    assert!(admits_holder(0));
    assert!(!admits_holder(MAX_REFCOUNT));
    assert!(was_last_holder(1));
    assert!(!was_last_holder(2));
    assert!(!was_last_holder(0));
    assert_eq!(MUTABLE, usize::MAX);
    assert_eq!(MAX_REFCOUNT, usize::MAX - 1);
}

#[test]
fn entries_of_native_words_by_name() {
    let e = BuiltinEntry::new("Emit", WordFunc::Native(Builtin::Emit)).unwrap();
    assert_eq!(e.hdr.name.as_bytes(), b"emit");
    assert_eq!(e.func, WordFunc::Native(Builtin::Emit));
    assert!(matches!(e.hdr.kind, EntryKind::StaticBuiltin));
    assert_eq!(e.hdr.len, 0);
    assert!(BuiltinEntry::new("caf\u{e9}", WordFunc::Host(0)).is_none());
    assert!(BuiltinEntry::new("abcdefghijklmnopqrstuvwxyz012345", WordFunc::Host(0)).is_none());
    let a = AsyncBuiltinEntry::new("SLEEP").unwrap();
    assert_eq!(a.hdr.name.as_bytes(), b"sleep");
    assert!(matches!(a.hdr.kind, EntryKind::AsyncBuiltin));
    assert!(AsyncBuiltinEntry::new("\u{2603}").is_none());
    assert_eq!(Builtin::Emit.name(), "emit");
    assert_eq!(Builtin::DotQuote.name(), ".\"");
    assert_eq!(Builtin::ZeroBranch.name(), "(0branch)");
    let table = forth3::builtin::full_builtins();
    assert_eq!(table.len(), forth3::builtin::BUILTIN_COUNT);
    assert_eq!(table.len(), 74);
    for (i, e) in table.iter().enumerate() {
        assert_eq!(e.func, WordFunc::Native(Builtin::at(i)));
    }
    assert_eq!(Builtin::at(0), Builtin::Add);
    assert_eq!(Builtin::at(73), Builtin::ConstantRun);
    for e in table.iter() {
        match e.func {
            WordFunc::Native(b) => assert_eq!(e.hdr.name.as_bytes(), b.name().as_bytes()),
            WordFunc::Host(_) => panic!("a word of the host in the table of the machine"),
        }
    }
    let mut names: Vec<&[u8]> = table.iter().map(|e| e.hdr.name.as_bytes()).collect();
    names.sort();
    names.dedup();
    assert_eq!(names.len(), 74);
}

static GIVEN_BACK: std::sync::atomic::AtomicUsize = std::sync::atomic::AtomicUsize::new(0);

struct Tally;

impl DropDict for Tally {
    fn drop_dict(dict: Dictionary) {
        assert!(dict.parent.is_none());
        GIVEN_BACK.fetch_add(1, std::sync::atomic::Ordering::SeqCst);
    }
}

#[test]
fn a_dictionary_given_back_counts_down_its_parents() {
    let given = || GIVEN_BACK.load(std::sync::atomic::Ordering::SeqCst);
    let grand = OwnedDict::new(Dictionary::new(0, 16))
        .into_shared()
        .ok()
        .unwrap();
    let mut parent = Dictionary::new(16, 16);
    assert!(parent.adopt(grand).is_ok());
    let parent = OwnedDict::new(parent).into_shared().ok().unwrap();
    let other = parent.try_clone().unwrap();
    let mut a = Dictionary::new(32, 16);
    assert!(a.adopt(parent).is_ok());
    let mut b = Dictionary::new(32, 16);
    assert!(b.adopt(other).is_ok());
    // the first child goes alone: its parent has a holder left
    OwnedDict::new(a).release_to::<Tally>();
    assert_eq!(given(), 1);
    // the second takes its parent and the parent of that with it
    b.give_back::<Tally>();
    assert_eq!(given(), 4);
}
