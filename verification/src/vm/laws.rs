//! What always holds of a well-formed machine.

use vstd::prelude::*;
use crate::dictionary::{lemma_entry_numbers, lemma_find_latest, lemma_links_lead_back,
    lemma_names_are_names, Dictionary};
use crate::fastr::is_name;
use crate::builtin::{is_full_table, Builtin, WordFunc, BUILTIN_COUNT};
use crate::dictionary::{bytes_of_word, lemma_wf_after_bump, lemma_word_bytes_roundtrip,
    BuiltinEntry};
use crate::vm::builtins::memory::patched;
use crate::vm::compile::cells_bytes;
use crate::word::{ADDR_MAX, WORD_SIZE};
use crate::vm::func_pos;
use crate::word::Word;
use crate::vm::{async_names, builtin_names, name_pos, CallContext, EntryRef, Error, Forth, Mode,
    ProcessAction, Step};
use crate::fastr::folded;
use crate::input::advanced;
use crate::num::{literal_spec, Literal};
use crate::stack::StackError;
use crate::vm::async_vm::{AsyncForth, LineEvent};

verus! {

/// `name_pos` gives the first position that holds the name, or the length
/// where no position holds it.
pub proof fn lemma_name_pos_first(names: Seq<Seq<u8>>, name: Seq<u8>)
    ensures
        0 <= name_pos(names, name) <= names.len(),
        forall|i: int| 0 <= i < name_pos(names, name) ==> #[trigger] names[i] != name,
        name_pos(names, name) < names.len() ==> names[name_pos(names, name)] == name,
    decreases names.len(),
{
    if names.len() != 0 && names[0] != name {
        let t = names.drop_first();
        lemma_name_pos_first(t, name);
        assert forall|i: int| 0 <= i < name_pos(names, name) implies #[trigger] names[i]
            != name by {
            if i > 0 {
                assert(names[i] == t[i - 1]);
            }
        }
        if name_pos(names, name) < names.len() {
            assert(names[name_pos(names, name)] == t[name_pos(t, name)]);
        }
    }
}

/// A cell that was stored at an address is the cell that is read from it:
/// what `!` stores, `@` fetches.
pub proof fn lemma_store_then_fetch(before: &Dictionary, after: &Dictionary, addr: int, w: Word)
    requires
        before.wf(),
        before.alloc.holds(addr, 4),
        after.stores(
            before,
            patched(before.alloc.mem@, addr - before.alloc.start, bytes_of_word(w)),
        ),
    ensures
        after.wf(),
        after.word_spec(addr) == Some(w),
{
    lemma_word_bytes_roundtrip(w);
    lemma_wf_after_bump(before, after);
    assert(after.alloc.bytes_at(addr, 4) =~= bytes_of_word(w));
}

/// A dictionary finds what its entries, its numbering and its parent make
/// it find: what is stored in its arena, and how much, makes no difference.
pub proof fn lemma_find_needs_entries(a: &Dictionary, b: &Dictionary, name: Seq<u8>)
    requires
        a.entries@ == b.entries@,
        a.base == b.base,
        a.parent == b.parent,
    ensures
        a.find_spec(name) == b.find_spec(name),
{
}

impl<T> Forth<T> {
    /// In the dictionary of a well-formed machine the link of every entry is
    /// empty or leads to an entry defined earlier, at a lower address; every
    /// entry has a name of at most 31 bytes of ASCII without capital
    /// letters; and the arena has no more bytes in use than it has.
    pub proof fn lemma_dictionary_invariants(&self)
        requires
            self.wf(),
        ensures
            forall|i: int|
                0 <= i < self.dict.dict.entries@.len() ==> match (
                #[trigger] self.dict.dict.entries@[i]).link {
                    Some(j) => j < i && self.dict.dict.entries@[j as int].addr
                        < self.dict.dict.entries@[i].addr,
                    None => i == 0,
                },
            forall|n: int|
                0 <= n < self.dict.dict.count() ==> (#[trigger] self.dict.dict.entry_spec(n))
                    is Some && is_name(self.dict.dict.entry_spec(n).unwrap().hdr.name@)
                    && self.dict.dict.entry_spec(n).unwrap().hdr.name@.len() <= 31,
            self.dict.dict.alloc.cur - self.dict.dict.alloc.start <= self.dict.dict.alloc.end
                - self.dict.dict.alloc.start,
    {
        assert forall|i: int| 0 <= i < self.dict.dict.entries@.len() implies match (
        #[trigger] self.dict.dict.entries@[i]).link {
            Some(j) => j < i && self.dict.dict.entries@[j as int].addr
                < self.dict.dict.entries@[i].addr,
            None => i == 0,
        } by {
            lemma_links_lead_back(&self.dict.dict, i);
        }
        assert forall|n: int| 0 <= n < self.dict.dict.count() implies (
        #[trigger] self.dict.dict.entry_spec(n)) is Some && is_name(
            self.dict.dict.entry_spec(n).unwrap().hdr.name@,
        ) && self.dict.dict.entry_spec(n).unwrap().hdr.name@.len() <= 31 by {
            lemma_entry_numbers(&self.dict.dict, n);
            lemma_names_are_names(&self.dict.dict, n);
        }
    }

    /// A lookup finds the latest definition of a name in the dictionary and
    /// its parents; only a name without a definition is looked for among
    /// the suspending native words, where the first of the name is found;
    /// only a name that is not there either is looked for among the native
    /// words, where again the first of the name is found. A lookup that
    /// finds nothing means that the name is nowhere.
    pub proof fn lemma_lookup_order(&self, name: Seq<u8>)
        requires
            self.wf(),
        ensures
            match self.find_spec(name) {
                Some(EntryRef::Dict(n)) => self.dict.dict.entry_spec(n as int) is Some
                    && self.dict.dict.entry_spec(n as int).unwrap().hdr.name@ == name && forall|
                    m: int,
                |
                    n < m < self.dict.dict.count() ==> (#[trigger] self.dict.dict.entry_spec(
                        m,
                    )).unwrap().hdr.name@ != name,
                Some(EntryRef::AsyncBuiltin(i)) => self.dict.dict.find_spec(name) is None && i
                    < self.async_builtins@.len() && self.async_builtins@[i as int].hdr.name@
                    == name && forall|k: int|
                    0 <= k < i ==> (#[trigger] self.async_builtins@[k]).hdr.name@ != name,
                Some(EntryRef::Builtin(i)) => self.dict.dict.find_spec(name) is None && i
                    < self.builtins@.len() && self.builtins@[i as int].hdr.name@ == name
                    && (forall|k: int|
                    0 <= k < i ==> (#[trigger] self.builtins@[k]).hdr.name@ != name) && forall|
                    k: int,
                |
                    0 <= k < self.async_builtins@.len() ==> (
                    #[trigger] self.async_builtins@[k]).hdr.name@ != name,
                None => (forall|m: int|
                    0 <= m < self.dict.dict.count() ==> (#[trigger] self.dict.dict.entry_spec(
                        m,
                    )).unwrap().hdr.name@ != name) && (forall|k: int|
                    0 <= k < self.async_builtins@.len() ==> (
                    #[trigger] self.async_builtins@[k]).hdr.name@ != name) && forall|k: int|
                    0 <= k < self.builtins@.len() ==> (#[trigger] self.builtins@[k]).hdr.name@
                        != name,
            },
    {
        lemma_find_latest(&self.dict.dict, name);
        let an = async_names(self.async_builtins@);
        let bn = builtin_names(self.builtins@);
        lemma_name_pos_first(an, name);
        lemma_name_pos_first(bn, name);
        assert forall|k: int| 0 <= k < name_pos(an, name) implies (
        #[trigger] self.async_builtins@[k]).hdr.name@ != name by {
            assert(an[k] == self.async_builtins@[k].hdr.name@);
        }
        assert forall|k: int| 0 <= k < name_pos(bn, name) implies (
        #[trigger] self.builtins@[k]).hdr.name@ != name by {
            assert(bn[k] == self.builtins@[k].hdr.name@);
        }
    }
}

impl<T: crate::vm::HostWords> Forth<T> {
    /// A cell that was stored in the memory of the host is the cell that is
    /// read from it: what `!` stores there, `@` fetches.
    pub proof fn lemma_host_store_then_fetch(before: &T, after: &T, addr: int, w: Word)
        requires
            0 <= addr <= ADDR_MAX,
            Self::host_stored(before, after, addr, bytes_of_word(w)),
        ensures
            Self::host_cell(after, addr) == Some(w),
    {
        lemma_word_bytes_roundtrip(w);
        let b = bytes_of_word(w);
        assert(after.byte_at(addr as usize) == Some(b[0]));
        assert(after.byte_at((addr + 1) as usize) == Some(b[1]));
        assert(after.byte_at((addr + 2) as usize) == Some(b[2]));
        assert(after.byte_at((addr + 3) as usize) == Some(b[3]));
        assert(seq![b[0], b[1], b[2], b[3]] =~= b);
    }
}

impl<T: crate::vm::HostWords> Forth<T> {
    /// Whether the dictionary of `after` has grown out of that of `before`:
    /// the arena has handed out no less, and every entry is still there,
    /// under its number.
    pub open spec fn dictionary_kept(before: &Self, after: &Self) -> bool {
        let d = before.dict.dict;
        let e = after.dict.dict;
        &&& e.alloc.start == d.alloc.start
        &&& e.alloc.end == d.alloc.end
        &&& e.alloc.cur >= d.alloc.cur
        &&& e.base == d.base
        &&& e.parent == d.parent
        &&& e.entries@.len() >= d.entries@.len()
        &&& e.entries@.take(d.entries@.len() as int) == d.entries@
    }

    /// No native word of the machine takes anything back from the
    /// dictionary: whatever the word and however it ends, the cursor of the
    /// arena has not gone back, and every entry that was defined is still
    /// defined.
    pub proof fn lemma_words_keep_the_dictionary(
        b: Builtin,
        before: &Self,
        after: &Self,
        r: Result<(), Error>,
    )
        requires
            before.wf(),
            Self::effect(b, before, after, r),
        ensures
            Self::dictionary_kept(before, after),
    {
        let d = before.dict.dict;
        let e = after.dict.dict;
        assert(d.entries@.take(d.entries@.len() as int) =~= d.entries@);
        match b {
            Builtin::Semicolon => {
                if r is Ok {
                    assert(e.entries@.take(d.entries@.len() as int) =~= d.entries@);
                }
            },
            Builtin::Variable | Builtin::Constant | Builtin::Create => {
                let v = crate::input::advanced(before.input@.rest);
                if v.cur is Some {
                    crate::dictionary::lemma_align_up(
                        d.alloc.cur + v.cur.unwrap().len(),
                        crate::dictionary::ENTRY_ALIGN as int,
                    );
                }
                if e.entries@.len() == d.entries@.len() + 1 {
                    assert(e.entries@.take(d.entries@.len() as int) =~= e.entries@.drop_last());
                }
            },
            Builtin::Colon => {
                let v = crate::input::advanced(before.input@.rest);
                if v.cur is Some {
                    crate::dictionary::lemma_align_up(
                        d.alloc.cur + v.cur.unwrap().len(),
                        crate::dictionary::ENTRY_ALIGN as int,
                    );
                }
            },
            _ => {},
        }
    }
}

impl Builtin {
    /// Whether the word adds an entry to the dictionary when it succeeds.
    pub open spec fn defines(self) -> bool {
        self == Builtin::Semicolon || self == Builtin::Variable || self == Builtin::Constant
            || self == Builtin::Create
    }
}

impl<T: crate::vm::HostWords> Forth<T> {
    /// A definition is found only once it is finished. Of the native words
    /// only `;`, `variable`, `constant` and `create` add an entry, and only
    /// when they succeed; every other word, among them `:` and all that is
    /// compiled into a definition, and every word that fails, leaves each
    /// name standing for what it stood for. Giving a definition up leaves
    /// the dictionary as it is. So a definition that is started and fails,
    /// for want of room or for any other reason, is not found afterwards.
    pub proof fn lemma_unfinished_definitions_are_not_found(
        b: Builtin,
        before: &Self,
        after: &Self,
        reset: &Self,
        r: Result<(), Error>,
        name: Seq<u8>,
    )
        requires
            before.wf(),
            Self::effect(b, before, after, r),
            Self::reset_effect(after, reset),
        ensures
            !b.defines() || r is Err ==> after.dict.dict.entries@ == before.dict.dict.entries@
                && after.find_spec(name) == before.find_spec(name),
            reset.dict == after.dict,
            reset.find_spec(name) == after.find_spec(name),
            reset.pending is None,
    {
        if !b.defines() || r is Err {
            Self::lemma_words_keep_the_dictionary(b, before, after, r);
            assert(after.dict.dict.entries@ =~= before.dict.dict.entries@);
            lemma_find_needs_entries(&after.dict.dict, &before.dict.dict, name);
        }
    }
}

/// `func_pos` gives the first position that holds the code field, or the
/// length where no position holds it.
pub proof fn lemma_func_pos_first(table: Seq<BuiltinEntry>, f: WordFunc)
    ensures
        0 <= func_pos(table, f) <= table.len(),
        forall|i: int| 0 <= i < func_pos(table, f) ==> (#[trigger] table[i]).func != f,
        func_pos(table, f) < table.len() ==> table[func_pos(table, f)].func == f,
    decreases table.len(),
{
    if table.len() != 0 && table[0].func != f {
        let t = table.drop_first();
        lemma_func_pos_first(t, f);
        assert forall|i: int| 0 <= i < func_pos(table, f) implies (#[trigger] table[i]).func
            != f by {
            if i > 0 {
                assert(table[i] == t[i - 1]);
            }
        }
        if func_pos(table, f) < table.len() {
            assert(table[func_pos(table, f)] == t[func_pos(t, f)]);
        }
    }
}

/// Every position of the table of native words is the position of a word.
pub proof fn lemma_positions(i: int)
    requires
        0 <= i < BUILTIN_COUNT,
    ensures
        Builtin::at_position(i).position() == i,
{
}

impl<T> Forth<T> {
    /// A machine that was built with the table of all native words can
    /// refer to each of them in compiled code: the compiler never lacks a
    /// word of its own.
    pub proof fn lemma_full_table_has_every_word(&self, b: Builtin)
        requires
            is_full_table(self.builtins@),
        ensures
            self.xt_spec(b) == Some(Word { data: (-1 - b.position()) as i32 }),
            0 <= b.position() < BUILTIN_COUNT,
    {
        let t = self.builtins@;
        let f = WordFunc::Native(b);
        lemma_func_pos_first(t, f);
        let k = func_pos(t, f);
        assert(t[b.position()].func == f);
        assert(k <= b.position());
        lemma_positions(k);
        let c = Builtin::at_position(k);
        assert(t[c.position()].func == WordFunc::Native(c));
    }
}

impl<T: crate::vm::HostWords> Forth<T> {
    /// Whether the definition that is running, whose frame is `f`, has come
    /// to a compiled number: its next cell refers to the word that pushes a
    /// literal, and the cell after that holds `n`.
    pub open spec fn at_compiled_literal(&self, f: CallContext, n: i32) -> bool {
        &&& self.running() == Some(f)
        &&& f.eh is Dict
        &&& self.info_spec(f.eh) matches Some(info) && info.func == Some(
            WordFunc::Native(Builtin::Interpret),
        )
        &&& f.idx + 1 < f.len
        &&& self.xt_spec(Builtin::Literal) is Some
        &&& self.cell_of(f, f.idx as int) == self.xt_spec(Builtin::Literal)
        &&& self.cell_of(f, f.idx + 1) == Some(Word { data: n })
    }

    /// A compiled number does what the number does: where a definition has
    /// come to the two cells that the compiler appends for a number, two
    /// steps of the inner interpreter push the number, as the interpreter
    /// does with the number outside a definition, and leave the definition
    /// behind the two cells. Nothing else changes. The steps need room for
    /// one frame on the call stack and for one cell on the data stack.
    pub proof fn lemma_compiled_literal_pushes(
        before: &Self,
        entered: &Self,
        after: &Self,
        first: Result<Step, Error>,
        second: Result<Step, Error>,
        f: CallContext,
        n: i32,
    )
        requires
            before.wf(),
            before.at_compiled_literal(f, n),
            before.call_stack@.len() < before.call_stack.cap(),
            before.data_stack@.len() < before.data_stack.cap(),
            Self::stepped(before, entered, first),
            Self::stepped(entered, after, second),
        ensures
            first == Ok::<Step, Error>(Step::NotDone),
            second == Ok::<Step, Error>(Step::NotDone),
            after.data_stack@ == before.data_stack@.push(Word { data: n }),
            after.call_stack@ == before.call_stack@.drop_last().push(
                CallContext { idx: (f.idx + 2) as u16, ..f },
            ),
            after.same_but(before, crate::vm::builtins::Touch::data_calls()),
    {
        let xt = before.xt_spec(Builtin::Literal).unwrap();
        let i = func_pos(before.builtins@, WordFunc::Native(Builtin::Literal));
        lemma_func_pos_first(before.builtins@, WordFunc::Native(Builtin::Literal));
        let lit = CallContext {
            eh: EntryRef::Builtin(i as u16),
            idx: 0,
            len: before.builtins@[i].hdr.len,
        };
        assert(before.frame_for(xt) == Some(lit));
        assert(before.next_word(f) == Some(lit));
        // the first step enters the word that pushes a literal
        let (mid, res) = choose|mid: Self, res: Result<(), Error>| #[trigger]
            Self::effect(Builtin::Interpret, before, &mid, res) && mid.wf()
                && Self::after_word_effect(&mid, entered, res, first);
        assert(res == Err::<(), Error>(Error::PendingCallAgain));
        let moved = CallContext { idx: (f.idx + 1) as u16, ..f };
        assert(entered.call_stack@ == before.call_stack@.drop_last().push(moved).push(lit));
        assert(entered.running() == Some(lit));
        assert(entered.caller() == Some(moved));
        assert(entered.info_spec(lit.eh).unwrap().func == Some(
            WordFunc::Native(Builtin::Literal),
        ));
        assert(entered.cell_of(moved, moved.idx as int) == before.cell_of(f, f.idx + 1));
        assert(entered.operand_spec() == Some(Word { data: n }));
        // the second step pushes the number and leaves the word
        let (mid2, res2) = choose|mid2: Self, res2: Result<(), Error>| #[trigger]
            Self::effect(Builtin::Literal, entered, &mid2, res2) && mid2.wf()
                && Self::after_word_effect(&mid2, after, res2, second);
        assert(res2 == Ok::<(), Error>(()));
        assert(after.call_stack@ =~= before.call_stack@.drop_last().push(
            CallContext { idx: (f.idx + 2) as u16, ..f },
        ));
    }
}

impl<T: crate::vm::HostWords> Forth<T> {
    /// The frame with which the native word `b` is entered, where the table
    /// of native words holds the word.
    pub open spec fn frame_of(&self, b: Builtin) -> Option<CallContext> {
        match self.xt_spec(b) {
            Some(xt) => self.frame_for(xt),
            None => None,
        }
    }

    /// Whether a step from `entered`, where the native word `b` has just
    /// been entered, to `after` runs the word: the word does what `effect`
    /// says, and its frame is dealt with as `after_word_effect` says.
    pub open spec fn runs(b: Builtin, entered: &Self, after: &Self, r: Result<Step, Error>) -> bool {
        exists|mid: Self, res: Result<(), Error>| #[trigger]
            Self::effect(b, entered, &mid, res) && mid.wf() && Self::after_word_effect(
                &mid,
                after,
                res,
                r,
            )
    }

    /// A native word that is compiled into a definition is entered, when
    /// the definition comes to it, with the frame with which the interpreter
    /// enters it; and the step after that runs the word. The definition
    /// itself has moved on by one cell, and nothing else has changed before
    /// the word runs.
    pub proof fn lemma_compiled_word_runs_the_word(
        before: &Self,
        entered: &Self,
        after: &Self,
        first: Result<Step, Error>,
        second: Result<Step, Error>,
        f: CallContext,
        b: Builtin,
    )
        requires
            before.wf(),
            before.running() == Some(f),
            f.eh is Dict,
            before.info_spec(f.eh) matches Some(info) && info.func == Some(
                WordFunc::Native(Builtin::Interpret),
            ),
            f.idx < f.len,
            before.xt_spec(b) is Some,
            before.cell_of(f, f.idx as int) == before.xt_spec(b),
            before.call_stack@.len() < before.call_stack.cap(),
            Self::stepped(before, entered, first),
            Self::stepped(entered, after, second),
        ensures
            first == Ok::<Step, Error>(Step::NotDone),
            before.frame_of(b) is Some,
            entered.call_stack@ == before.call_stack@.drop_last().push(
                CallContext { idx: (f.idx + 1) as u16, ..f },
            ).push(before.frame_of(b).unwrap()),
            entered.same_but(before, crate::vm::builtins::Touch::calls()),
            Self::runs(b, entered, after, second),
    {
        let xt = before.xt_spec(b).unwrap();
        let i = func_pos(before.builtins@, WordFunc::Native(b));
        lemma_func_pos_first(before.builtins@, WordFunc::Native(b));
        let frame = CallContext {
            eh: EntryRef::Builtin(i as u16),
            idx: 0,
            len: before.builtins@[i].hdr.len,
        };
        assert(before.frame_for(xt) == Some(frame));
        assert(before.next_word(f) == Some(frame));
        let (mid, res) = choose|mid: Self, res: Result<(), Error>| #[trigger]
            Self::effect(Builtin::Interpret, before, &mid, res) && mid.wf()
                && Self::after_word_effect(&mid, entered, res, first);
        assert(res == Err::<(), Error>(Error::PendingCallAgain));
        assert(entered.running() == Some(frame));
        assert(entered.info_spec(frame.eh).unwrap().func == Some(WordFunc::Native(b)));
    }

    /// A native word that the interpreter finds under its name outside a
    /// definition is entered with its frame, and the step after that runs
    /// the word: the same step that runs the word where it is compiled.
    pub proof fn lemma_interpreted_word_runs_the_word(
        before: &Self,
        entered: &Self,
        after: &Self,
        second: Result<Step, Error>,
        name: Seq<u8>,
        b: Builtin,
    )
        requires
            before.wf(),
            before.find_spec(name) matches Some(EntryRef::Builtin(i)) && before.builtins@[i as int].func
                == WordFunc::Native(b) && before.xt_spec(b) == Some(
                    Word { data: (-1 - i) as i32 },
                ),
            before.call_stack@.len() < before.call_stack.cap(),
            Self::interpret_token_effect(
                before,
                entered,
                name,
                Ok::<ProcessAction, Error>(ProcessAction::Execute),
            ),
            Self::stepped(entered, after, second),
        ensures
            before.frame_of(b) is Some,
            entered.call_stack@ == before.call_stack@.push(before.frame_of(b).unwrap()),
            entered.same_but(before, crate::vm::builtins::Touch::calls()),
            Self::runs(b, entered, after, second),
    {
        lemma_name_pos_first(builtin_names(before.builtins@), name);
        let i = before.find_spec(name).unwrap()->Builtin_0;
        let frame = CallContext {
            eh: EntryRef::Builtin(i),
            idx: 0,
            len: before.builtins@[i as int].hdr.len,
        };
        assert(before.frame_for(Word { data: (-1 - i) as i32 }) == Some(frame));
        assert(entered.running() == Some(frame));
        assert(entered.info_spec(frame.eh).unwrap().func == Some(WordFunc::Native(b)));
    }
}

/// Cells take four bytes each, and cell `k` of a run of cells is spelt by
/// the four bytes from byte `4k` on.
pub proof fn lemma_cell_in_bytes(cells: Seq<Word>, k: int)
    requires
        0 <= k < cells.len(),
    ensures
        cells_bytes(cells).len() == WORD_SIZE * cells.len(),
        cells_bytes(cells).subrange(WORD_SIZE * k, WORD_SIZE * k + WORD_SIZE) == bytes_of_word(
            cells[k],
        ),
    decreases cells.len(),
{
    lemma_cells_bytes_len(cells);
    let head = cells.drop_last();
    lemma_cells_bytes_len(head);
    if k < cells.len() - 1 {
        lemma_cell_in_bytes(head, k);
        assert(head[k] == cells[k]);
        assert(cells_bytes(cells).subrange(WORD_SIZE * k, WORD_SIZE * k + WORD_SIZE)
            =~= cells_bytes(head).subrange(WORD_SIZE * k, WORD_SIZE * k + WORD_SIZE));
    } else {
        assert(cells_bytes(cells).subrange(WORD_SIZE * k, WORD_SIZE * k + WORD_SIZE)
            =~= bytes_of_word(cells.last()));
    }
}

/// Cells take four bytes each.
pub proof fn lemma_cells_bytes_len(cells: Seq<Word>)
    ensures
        cells_bytes(cells).len() == WORD_SIZE * cells.len(),
    decreases cells.len(),
{
    if cells.len() > 0 {
        lemma_cells_bytes_len(cells.drop_last());
    }
}

impl<T> Forth<T> {
    /// What the compiler appends is what the interpreter reads: after the
    /// cells `cells` have been appended to the definition being compiled,
    /// the cell that is read at the place of each of them is that cell.
    pub proof fn lemma_emitted_cells_are_read(
        before: &Self,
        after: &Self,
        cells: Seq<Word>,
        k: int,
    )
        requires
            before.wf(),
            after.wf(),
            after.emitted(before, cells),
            0 <= k < cells.len(),
        ensures
            after.dict.dict.word_spec(
                before.pending.unwrap().builder.cell_addr(before.here_cell() + k),
            ) == Some(cells[k]),
    {
        let d = before.dict.dict;
        let e = after.dict.dict;
        let builder = before.pending.unwrap().builder;
        let addr = builder.cell_addr(before.here_cell() + k);
        lemma_cell_in_bytes(cells, k);
        lemma_word_bytes_roundtrip(cells[k]);
        assert(addr == d.alloc.cur + WORD_SIZE * k);
        assert(e.alloc.holds(addr, 4));
        assert(e.alloc.bytes_at(addr, 4) =~= cells_bytes(cells).subrange(
            WORD_SIZE * k,
            WORD_SIZE * k + WORD_SIZE,
        ));
    }
}

impl<T: crate::vm::HostWords> Forth<T> {
    /// Pushing onto a full data stack fails, and what was there stays. A
    /// line that comes, outside a definition and with no word running, to a
    /// token that spells a number while the data stack is full fails with
    /// `StackOverflow`. When it fails, the data stack holds the cells it
    /// held, none overwritten and none added, and the dictionary and the
    /// output are as they were. As after every line that fails the machine
    /// is then reset, which empties the stacks and leaves the dictionary
    /// and the output alone.
    pub proof fn lemma_full_stack_fails_the_line(
        before: &Self,
        after: &Self,
        r: Result<(), Error>,
    )
        requires
            before.wf(),
            before.mode == Mode::Interpret,
            before.call_stack@.len() == 0,
            before.step_limit > 0,
            before.data_stack@.len() == before.data_stack.cap(),
            advanced(before.input@.rest).cur matches Some(t) && before.find_spec(folded(t))
                is None && literal_spec(folded(t)) is Number,
            Self::line_processed(before, after, r),
        ensures
            r == Err::<(), Error>(Error::Stack(StackError::StackOverflow)),
            exists|end: Self| #[trigger]
                Self::reset_effect(&end, after) && end.data_stack@ == before.data_stack@
                    && end.dict == before.dict && end.output == before.output,
            after.dict == before.dict,
            after.output == before.output,
            after.is_reset(),
    {
        let t = advanced(before.input@.rest).cur->0;
        let (end, outcome) = choose|end: Self, outcome: Result<(), Error>|
            Self::ran(before, false, before.step_limit as nat, &end, outcome) && end.wf()
                && #[trigger] Self::line_ended(&end, after, outcome, r);
        let (mid, r0) = choose|mid: Self, r0: Result<ProcessAction, Error>| #[trigger]
            Self::token_done(before, &mid, r0) && mid.wf() && match r0 {
                Ok(ProcessAction::Done) => end == mid && outcome == Ok::<(), Error>(()),
                Ok(ProcessAction::Continue) => Self::ran(
                    &mid,
                    false,
                    (before.step_limit as nat - 1) as nat,
                    &end,
                    outcome,
                ),
                Ok(ProcessAction::Execute) => Self::ran(
                    &mid,
                    true,
                    (before.step_limit as nat - 1) as nat,
                    &end,
                    outcome,
                ),
                Err(e) => end == mid && outcome == Err::<(), Error>(
                    if e == Error::PendingCallAgain {
                        Error::BadAddress
                    } else {
                        e
                    },
                ),
            };
        let read = choose|read: Self| #[trigger]
            Self::token_read(before, &read) && Self::interpret_token_effect(
                &read,
                &mid,
                folded(t),
                r0,
            );
        assert(read.find_spec(folded(t)) == before.find_spec(folded(t)));
        assert(read.interpret_plan(folded(t)) == Ok::<Option<CallContext>, Error>(None));
        assert(r0 == Err::<ProcessAction, Error>(Error::Stack(StackError::StackOverflow)));
        assert(end == mid);
        assert(Self::reset_effect(&end, after));
    }
}

impl<T: crate::vm::HostWords> AsyncForth<T> {
    /// A line that is given up, be it while it waits for a suspending word,
    /// leaves a machine that a reset makes ready for the next line: the
    /// machine is well formed, nothing is running and no word is waited
    /// for, no definition is open, and the dictionary is as it was, so that
    /// every name is found where it was found before.
    pub proof fn lemma_reset_after_a_line_given_up(before: &Self, after: &Self, name: Seq<u8>)
        requires
            before.vm.wf(),
            Forth::reset_effect(&before.vm, &after.vm),
        ensures
            after.vm.wf(),
            after.vm.is_reset(),
            after.awaited() is None,
            after.vm.dict == before.vm.dict,
            after.vm.find_spec(name) == before.vm.find_spec(name),
            forall|b: Self, failed: Option<Error>| #[trigger]
                Self::begun(after, LineEvent::Start, &b, failed) ==> b.vm == after.vm && failed
                    is None && b.vm.call_stack@.len() == 0,
    {
    }
}

} // verus!
