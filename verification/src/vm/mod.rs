//! The virtual machine: its state, name lookup, the compiler and the inner
//! interpreter.

pub mod builtins;
pub mod compile;
pub mod control;
pub mod run;
pub mod listing;
pub mod process;
pub mod fork;
pub mod async_vm;
pub mod laws;

use vstd::prelude::*;
use vstd::string::StringSliceAdditionalSpecFns;
use crate::builtin::{Builtin, WordFunc};
use crate::dictionary::{AsyncBuiltinEntry, BuiltinEntry, Dictionary, EntryBuilder, EntryKind,
    OwnedDict, MAX_ENTRIES, DICTIONARY_ENTRY_SIZE, ENTRY_ALIGN, align_up, zeros,
    lemma_wf_after_bump};
use crate::fastr::{all_ascii, folded, is_all_ascii, MAX_NAME_LEN};
use crate::disk::DiskError;
use crate::fastr::FaStr;
use crate::input::WordStrBuf;
use crate::output::OutputBuf;
use crate::stack::{Stack, StackError};
use crate::word::{Word, WORD_SIZE};

verus! {

/// What can go wrong in the virtual machine.
#[derive(Debug, Clone, Copy, PartialEq, Eq, Structural)]
pub enum Error {
    /// A stack overflowed, underflowed or was empty.
    Stack(StackError),
    /// The dictionary's arena has no room left.
    DictionaryFull,
    /// A name is missing, longer than 31 bytes, or not ASCII.
    BadName,
    /// A token is neither a word nor a number.
    UnknownWord,
    /// A literal is malformed.
    BadLiteral,
    /// A literal spells a number that no cell can hold.
    NumberOverflow,
    /// A word that only makes sense in a definition was used outside one.
    CompileOnlyWord,
    /// A word that only makes sense outside a definition was used in one.
    InterpretOnlyWord,
    /// A control-flow word has no partner.
    UnbalancedControlFlow,
    /// The output buffer is full.
    OutputFull,
    /// The block cache reported an error.
    Disk(DiskError),
    /// Not an error: a native word asks to be entered again once the frames
    /// it pushed have run.
    PendingCallAgain,
    /// An address or an entry reference leads nowhere.
    BadAddress,
    /// A division by zero.
    DivideByZero,
    /// The line took more steps than the machine allows a line.
    StepLimit,
    /// The dictionary is shared, or has too many holders to be shared once
    /// more.
    DictionaryShared,
}

/// Whether the machine executes the words it reads or compiles them.
#[derive(Debug, Clone, Copy, PartialEq, Eq, Structural)]
pub enum Mode {
    Interpret,
    Compile,
}

/// What a step of the inner interpreter found.
#[derive(Debug, Clone, Copy, PartialEq, Eq, Structural)]
pub enum Step {
    /// The call stack is empty: nothing is left to run.
    Done,
    /// A step was taken.
    NotDone,
}

/// What the machine did with a token of the line.
#[derive(Debug, Clone, Copy, PartialEq, Eq, Structural)]
pub enum ProcessAction {
    /// The line is used up.
    Done,
    /// The token was dealt with at once.
    Continue,
    /// The token's word was put on the call stack and waits to be run.
    Execute,
}

/// A reference to an entry: what a cell of compiled code holds.
#[derive(Debug, Clone, Copy, PartialEq, Eq, Structural)]
pub enum EntryRef {
    /// The native word at this position of the table of native words.
    Builtin(u16),
    /// The suspending native word at this position of its table.
    AsyncBuiltin(u16),
    /// The dictionary entry with this number.
    Dict(usize),
}

impl EntryRef {
    /// The integer that stands for the reference in a cell. Dictionary
    /// entries are their number; native words count down from `-1`, and
    /// suspending native words from `-65537`.
    pub open spec fn code(self) -> int {
        match self {
            EntryRef::Dict(n) => n as int,
            EntryRef::Builtin(i) => -1 - i,
            EntryRef::AsyncBuiltin(i) => -0x1_0001 - i,
        }
    }

    /// Whether a cell can hold the reference.
    pub open spec fn encodable(self) -> bool {
        match self {
            EntryRef::Dict(n) => n <= MAX_ENTRIES,
            _ => true,
        }
    }

    /// The cell for the reference, if a cell can hold it.
    pub fn to_word(self) -> (w: Option<Word>)
        ensures
            self.encodable() ==> w == Some(Word { data: self.code() as i32 }),
            !self.encodable() ==> w == None::<Word>,
    {
        match self {
            EntryRef::Dict(n) => {
                if n <= MAX_ENTRIES {
                    Some(Word { data: n as i32 })
                } else {
                    None
                }
            },
            EntryRef::Builtin(i) => Some(Word { data: -1 - (i as i32) }),
            EntryRef::AsyncBuiltin(i) => Some(Word { data: -0x1_0001 - (i as i32) }),
        }
    }

    /// The reference that the cell `w` holds, if it holds one.
    pub fn from_word(w: Word) -> (r: Option<EntryRef>)
        ensures
            -0x2_0000 <= w.data <= MAX_ENTRIES ==> r is Some && r.unwrap().encodable()
                && r.unwrap().code() == w.data,
            !(-0x2_0000 <= w.data <= MAX_ENTRIES) ==> r is None,
    {
        let d = w.data;
        if d >= 0 {
            if d as usize <= MAX_ENTRIES {
                Some(EntryRef::Dict(d as usize))
            } else {
                None
            }
        } else if d >= -0x1_0000 {
            Some(EntryRef::Builtin((-1 - d) as u16))
        } else if d >= -0x2_0000 {
            Some(EntryRef::AsyncBuiltin((-0x1_0001 - d) as u16))
        } else {
            None
        }
    }
}

/// Reading back the cell of a reference gives the reference.
pub proof fn lemma_entry_ref_roundtrip(r: EntryRef)
    requires
        r.encodable(),
    ensures
        -0x2_0000 <= r.code() <= MAX_ENTRIES,
        forall|q: EntryRef| q.encodable() && q.code() == r.code() ==> q == r,
{
}

/// A frame of the inner interpreter: a word that has been entered.
#[derive(Debug, Clone, Copy, PartialEq, Eq, Structural)]
pub struct CallContext {
    /// The entry of the word.
    pub eh: EntryRef,
    /// The cell of the parameter field that comes next.
    pub idx: u16,
    /// Cells in the parameter field.
    pub len: u16,
}

/// What an open control structure of a definition left to be resolved. The
/// numbers count cells from the start of the parameter field.
#[derive(Debug, Clone, Copy, PartialEq, Eq, Structural)]
pub enum ControlFrame {
    /// `if`: the cell that waits for the address of the `else` or `then`.
    If(u16),
    /// `else`: the cell that waits for the address of the `then`.
    Else(u16),
    /// `begin`: the cell the loop starts at.
    Begin(u16),
    /// `while`: the cell that waits for the address after `repeat`.
    While(u16),
    /// `do`: the cell that waits for the address after `loop`. The body of
    /// the loop starts at the cell after it.
    Do(u16),
}

/// A definition that is being compiled.
pub struct Pending {
    pub name: FaStr,
    pub builder: EntryBuilder,
}

/// What the machine knows of an entry.
#[derive(Debug, Clone, Copy, PartialEq, Eq, Structural)]
pub struct EntryInfo {
    pub kind: EntryKind,
    /// The code field. Suspending native words have none.
    pub func: Option<WordFunc>,
    /// Cells in the parameter field.
    pub len: u16,
    /// The address of the parameter field. Zero for native words, which
    /// have none.
    pub pfa: usize,
}

/// The virtual machine. `T` is the host's own context, which the machine
/// carries along and hands to the host's native words.
pub struct Forth<T> {
    pub mode: Mode,
    pub data_stack: Stack<Word>,
    pub return_stack: Stack<Word>,
    pub call_stack: Stack<CallContext>,
    pub control_stack: Stack<ControlFrame>,
    pub dict: OwnedDict,
    pub input: WordStrBuf,
    pub output: OutputBuf,
    pub host_ctxt: T,
    pub builtins: Vec<BuiltinEntry>,
    pub async_builtins: Vec<AsyncBuiltinEntry>,
    /// The definition that is being compiled, if any.
    pub pending: Option<Pending>,
    /// The most steps the machine takes for one line.
    pub step_limit: u64,
}

/// The native words of a host, and its memory. The machine calls `call`
/// when it enters a word whose code field is `WordFunc::Host`. The host may
/// do to the machine what it likes, as long as it leaves it well formed.
/// The words `@`, `!`, `c@` and `c!` reach the memory of the host at the
/// addresses at which the dictionary stores nothing.
pub trait HostWords: Sized {
    /// The byte that the host keeps at the address `addr`, if it keeps one
    /// there. It is named for the proofs only: nothing ever calls it.
    spec fn byte_at(&self, addr: usize) -> Option<u8>;

    /// Whether the native word that the host knows by the number `id` can
    /// take the machine from `before` to `after` and return `r`. It is
    /// named for the proofs only: nothing ever calls it.
    spec fn called(
        before: &Forth<Self>,
        id: u16,
        after: &Forth<Self>,
        r: Result<(), Error>,
    ) -> bool;

    /// Runs the native word that the host knows by the number `id`.
    fn call(forth: &mut Forth<Self>, id: u16) -> (r: Result<(), Error>)
        requires
            old(forth).wf(),
        ensures
            final(forth).wf(),
            Self::called(old(forth), id, final(forth), r),
    ;

    /// The byte that the host keeps at the address `addr`.
    fn peek(&self, addr: usize) -> (r: Option<u8>)
        ensures
            r == self.byte_at(addr),
    ;

    /// Stores `val` at the address `addr`, and says whether the host keeps
    /// a byte there. Where it does not, nothing has changed; where it does,
    /// no other byte has.
    fn poke(&mut self, addr: usize, val: u8) -> (ok: bool)
        ensures
            ok == (old(self).byte_at(addr) is Some),
            !ok ==> *final(self) == *old(self),
            ok ==> forall|a: usize| #[trigger]
                final(self).byte_at(a) == if a == addr {
                    Some(val)
                } else {
                    old(self).byte_at(a)
                },
    ;
}

/// A host without native words and without memory: every call is refused
/// as an unknown word.
impl HostWords for () {
    open spec fn byte_at(&self, addr: usize) -> Option<u8> {
        None
    }

    open spec fn called(
        before: &Forth<Self>,
        id: u16,
        after: &Forth<Self>,
        r: Result<(), Error>,
    ) -> bool {
        *after == *before && r == Err::<(), Error>(Error::UnknownWord)
    }

    fn call(forth: &mut Forth<Self>, id: u16) -> (r: Result<(), Error>) {
        Err(Error::UnknownWord)
    }

    fn peek(&self, addr: usize) -> (r: Option<u8>) {
        None
    }

    fn poke(&mut self, addr: usize, val: u8) -> (ok: bool) {
        false
    }
}

/// The names of the native words in `table`.
pub open spec fn builtin_names(table: Seq<BuiltinEntry>) -> Seq<Seq<u8>> {
    Seq::new(table.len(), |i: int| table[i].hdr.name@)
}

/// The names of the suspending native words in `table`.
pub open spec fn async_names(table: Seq<AsyncBuiltinEntry>) -> Seq<Seq<u8>> {
    Seq::new(table.len(), |i: int| table[i].hdr.name@)
}

/// The position of the first of `names` that is `name`, or `names.len()`.
pub open spec fn name_pos(names: Seq<Seq<u8>>, name: Seq<u8>) -> int
    decreases names.len(),
{
    if names.len() == 0 {
        0
    } else if names[0] == name {
        0
    } else {
        1 + name_pos(names.drop_first(), name)
    }
}

/// `name_pos` is the least position that holds the name.
pub proof fn lemma_name_pos(names: Seq<Seq<u8>>, name: Seq<u8>, n: int)
    requires
        0 <= n <= names.len(),
        forall|i: int| 0 <= i < n ==> #[trigger] names[i] != name,
        n < names.len() ==> names[n] == name,
    ensures
        name_pos(names, name) == n,
    decreases names.len(),
{
    if names.len() != 0 && n != 0 {
        assert(names[0] != name);
        let t = names.drop_first();
        assert forall|i: int| 0 <= i < n - 1 implies #[trigger] t[i] != name by {
            assert(t[i] == names[i + 1]);
        }
        lemma_name_pos(t, name, n - 1);
    }
}

impl<T> Forth<T> {
    /// The invariant of the machine: every part is well formed, both tables
    /// of native words are short enough for a cell to refer to their
    /// entries, and a definition is being compiled exactly in compile mode;
    /// outside of it no control structure is open.
    pub open spec fn wf(&self) -> bool {
        &&& self.data_stack.wf()
        &&& self.return_stack.wf()
        &&& self.call_stack.wf()
        &&& self.control_stack.wf()
        &&& self.dict.dict.wf()
        &&& self.input.wf()
        &&& self.output.wf()
        &&& self.builtins@.len() <= 0x1_0000
        &&& self.async_builtins@.len() <= 0x1_0000
        &&& match self.pending {
            Some(p) => self.mode == Mode::Compile && p.name.wf() && p.builder.fits(&self.dict.dict),
            None => self.mode == Mode::Interpret && self.control_stack@.len() == 0,
        }
    }

    /// The entry that `name` stands for: the dictionary is searched first,
    /// latest definition first and on through its parents, then the
    /// suspending native words, then the native words.
    pub open spec fn find_spec(&self, name: Seq<u8>) -> Option<EntryRef> {
        match self.dict.dict.find_spec(name) {
            Some(n) => Some(EntryRef::Dict(n as usize)),
            None => {
                let a = name_pos(async_names(self.async_builtins@), name);
                if 0 <= a < self.async_builtins@.len() {
                    Some(EntryRef::AsyncBuiltin(a as u16))
                } else {
                    let b = name_pos(builtin_names(self.builtins@), name);
                    if 0 <= b < self.builtins@.len() {
                        Some(EntryRef::Builtin(b as u16))
                    } else {
                        None
                    }
                }
            },
        }
    }

    /// What the machine knows of the entry that `r` refers to, if `r` refers
    /// to one.
    pub open spec fn info_spec(&self, r: EntryRef) -> Option<EntryInfo> {
        match r {
            EntryRef::Builtin(i) => if i < self.builtins@.len() {
                Some(
                    EntryInfo {
                        kind: self.builtins@[i as int].hdr.kind,
                        func: Some(self.builtins@[i as int].func),
                        len: self.builtins@[i as int].hdr.len,
                        pfa: 0,
                    },
                )
            } else {
                None
            },
            EntryRef::AsyncBuiltin(i) => if i < self.async_builtins@.len() {
                Some(
                    EntryInfo {
                        kind: self.async_builtins@[i as int].hdr.kind,
                        func: None,
                        len: self.async_builtins@[i as int].hdr.len,
                        pfa: 0,
                    },
                )
            } else {
                None
            },
            EntryRef::Dict(n) => match self.dict.dict.entry_spec(n as int) {
                Some(e) => Some(
                    EntryInfo {
                        kind: e.hdr.kind,
                        func: Some(e.func),
                        len: e.hdr.len,
                        pfa: (e.addr + DICTIONARY_ENTRY_SIZE) as usize,
                    },
                ),
                None => None,
            },
        }
    }

    /// A machine with stacks of the given capacities, the dictionary `dict`,
    /// the buffers `input` and `output`, the host's context and the table of
    /// native words. It starts in interpret mode with empty stacks. The
    /// control stack has the capacity of the call stack. Fails with
    /// `DictionaryFull` where the table has more than 65536 entries.
    pub fn new(
        dstack_cap: usize,
        rstack_cap: usize,
        cstack_cap: usize,
        dict: OwnedDict,
        input: WordStrBuf,
        output: OutputBuf,
        host_ctxt: T,
        builtins: Vec<BuiltinEntry>,
    ) -> (r: Result<Self, Error>)
        requires
            dict.dict.wf(),
            input.wf(),
            output.wf(),
        ensures
            builtins@.len() > 0x1_0000 ==> r is Err && r->Err_0 == Error::DictionaryFull,
            builtins@.len() <= 0x1_0000 ==> r is Ok && r->Ok_0.wf() && r->Ok_0.started(
                dstack_cap,
                rstack_cap,
                cstack_cap,
            ) && r->Ok_0.dict == dict && r->Ok_0.input == input && r->Ok_0.output == output
                && r->Ok_0.host_ctxt == host_ctxt && r->Ok_0.builtins == builtins
                && r->Ok_0.async_builtins@.len() == 0,
    {
        Self::new_async(
            dstack_cap,
            rstack_cap,
            cstack_cap,
            dict,
            input,
            output,
            host_ctxt,
            builtins,
            Vec::new(),
        )
    }

    /// What holds of a machine that has just been made.
    pub open spec fn started(&self, dstack_cap: usize, rstack_cap: usize,
        cstack_cap: usize) -> bool {
        &&& self.mode == Mode::Interpret
        &&& self.pending is None
        &&& self.data_stack@.len() == 0 && self.data_stack.cap() == dstack_cap
        &&& self.return_stack@.len() == 0 && self.return_stack.cap() == rstack_cap
        &&& self.call_stack@.len() == 0 && self.call_stack.cap() == cstack_cap
        &&& self.control_stack@.len() == 0 && self.control_stack.cap() == cstack_cap
        &&& self.step_limit == u64::MAX
    }

    /// As `new`, with a table of suspending native words as well. Fails with
    /// `DictionaryFull` where either table has more than 65536 entries.
    pub fn new_async(
        dstack_cap: usize,
        rstack_cap: usize,
        cstack_cap: usize,
        dict: OwnedDict,
        input: WordStrBuf,
        output: OutputBuf,
        host_ctxt: T,
        builtins: Vec<BuiltinEntry>,
        async_builtins: Vec<AsyncBuiltinEntry>,
    ) -> (r: Result<Self, Error>)
        requires
            dict.dict.wf(),
            input.wf(),
            output.wf(),
        ensures
            builtins@.len() > 0x1_0000 || async_builtins@.len() > 0x1_0000 ==> r is Err
                && r->Err_0 == Error::DictionaryFull,
            builtins@.len() <= 0x1_0000 && async_builtins@.len() <= 0x1_0000 ==> r is Ok
                && r->Ok_0.wf() && r->Ok_0.started(dstack_cap, rstack_cap, cstack_cap)
                && r->Ok_0.dict == dict && r->Ok_0.input == input && r->Ok_0.output == output
                && r->Ok_0.host_ctxt == host_ctxt && r->Ok_0.builtins == builtins
                && r->Ok_0.async_builtins == async_builtins,
    {
        if builtins.len() > 0x1_0000 || async_builtins.len() > 0x1_0000 {
            return Err(Error::DictionaryFull);
        }
        Ok(
            Forth {
                mode: Mode::Interpret,
                data_stack: Stack::new(dstack_cap),
                return_stack: Stack::new(rstack_cap),
                call_stack: Stack::new(cstack_cap),
                control_stack: Stack::new(cstack_cap),
                dict,
                input,
                output,
                host_ctxt,
                builtins,
                async_builtins,
                pending: None,
                step_limit: u64::MAX,
            },
        )
    }

    /// Sets the most steps the machine takes for one line.
    pub fn set_step_limit(&mut self, limit: u64)
        ensures
            *final(self) == (Forth { step_limit: limit, ..*old(self) }),
    {
        self.step_limit = limit;
    }

    /// Looks `name` up: in the dictionary, then among the suspending native
    /// words, then among the native words.
    pub fn find_word(&self, name: &[u8]) -> (r: Option<EntryRef>)
        requires
            self.wf(),
        ensures
            r == self.find_spec(name@),
    {
        match self.dict.dict.find(name) {
            Some(n) => {
                return Some(EntryRef::Dict(n));
            },
            None => {},
        }
        let mut i: usize = 0;
        while i < self.async_builtins.len()
            invariant
                i <= self.async_builtins@.len() <= 0x1_0000,
                self.dict.dict.find_spec(name@) is None,
                forall|j: int| 0 <= j < i
                    ==> #[trigger] async_names(self.async_builtins@)[j] != name@,
            decreases self.async_builtins@.len() - i,
        {
            if self.async_builtins[i].hdr.name.is(name) {
                proof {
                    lemma_name_pos(async_names(self.async_builtins@), name@, i as int);
                }
                return Some(EntryRef::AsyncBuiltin(i as u16));
            }
            i += 1;
        }
        proof {
            lemma_name_pos(async_names(self.async_builtins@), name@, i as int);
        }
        let mut k: usize = 0;
        while k < self.builtins.len()
            invariant
                k <= self.builtins@.len() <= 0x1_0000,
                self.dict.dict.find_spec(name@) is None,
                name_pos(async_names(self.async_builtins@), name@) == self.async_builtins@.len(),
                forall|j: int| 0 <= j < k ==> #[trigger] builtin_names(self.builtins@)[j] != name@,
            decreases self.builtins@.len() - k,
        {
            if self.builtins[k].hdr.name.is(name) {
                proof {
                    lemma_name_pos(builtin_names(self.builtins@), name@, k as int);
                }
                return Some(EntryRef::Builtin(k as u16));
            }
            k += 1;
        }
        proof {
            lemma_name_pos(builtin_names(self.builtins@), name@, k as int);
        }
        None
    }

    /// What the machine knows of the entry that `r` refers to.
    pub fn info(&self, r: EntryRef) -> (i: Option<EntryInfo>)
        requires
            self.wf(),
        ensures
            i == self.info_spec(r),
            i matches Some(x) ==> x.pfa + WORD_SIZE * x.len <= crate::word::ADDR_MAX,
    {
        match r {
            EntryRef::Builtin(i) => {
                if (i as usize) < self.builtins.len() {
                    let e = &self.builtins[i as usize];
                    Some(EntryInfo { kind: e.hdr.kind, func: Some(e.func), len: e.hdr.len, pfa: 0 })
                } else {
                    None
                }
            },
            EntryRef::AsyncBuiltin(i) => {
                if (i as usize) < self.async_builtins.len() {
                    let e = &self.async_builtins[i as usize];
                    Some(EntryInfo { kind: e.hdr.kind, func: None, len: e.hdr.len, pfa: 0 })
                } else {
                    None
                }
            },
            EntryRef::Dict(n) => match self.dict.dict.entry(n) {
                Some(e) => {
                    proof {
                        crate::dictionary::lemma_entry_in_arena(&self.dict.dict, n as int);
                    }
                    Some(
                        EntryInfo {
                            kind: e.hdr.kind,
                            func: Some(e.func),
                            len: e.hdr.len,
                            pfa: e.addr + DICTIONARY_ENTRY_SIZE,
                        },
                    )
                },
                None => None,
            },
        }
    }

    /// The cell by which compiled code refers to the native word `b`: a
    /// reference to the first entry of the table of native words with that
    /// code field. `None` where the table has none.
    pub open spec fn xt_spec(&self, b: Builtin) -> Option<Word> {
        let i = func_pos(self.builtins@, WordFunc::Native(b));
        if 0 <= i < self.builtins@.len() {
            Some(Word { data: (-1 - i) as i32 })
        } else {
            None
        }
    }

    /// The cell by which compiled code refers to the native word `b`.
    pub fn builtin_ref(&self, b: Builtin) -> (r: Option<Word>)
        requires
            self.wf(),
        ensures
            r == self.xt_spec(b),
    {
        let mut k: usize = 0;
        while k < self.builtins.len()
            invariant
                k <= self.builtins@.len() <= 0x1_0000,
                forall|j: int| 0 <= j < k ==> (#[trigger] self.builtins@[j]).func
                    != WordFunc::Native(b),
            decreases self.builtins@.len() - k,
        {
            if self.builtins[k].func == WordFunc::Native(b) {
                proof {
                    lemma_func_pos(self.builtins@, WordFunc::Native(b), k as int);
                }
                return Some(Word { data: -1 - (k as i32) });
            }
            k += 1;
        }
        proof {
            lemma_func_pos(self.builtins@, WordFunc::Native(b), k as int);
        }
        None
    }
}

impl<T> Forth<T> {
    /// The table of the native words of the virtual machine.
    pub fn full_builtins() -> (v: Vec<BuiltinEntry>)
        ensures
            crate::builtin::is_full_table(v@),
    {
        crate::builtin::full_builtins()
    }

    /// Whether `name` can name a native word: it is not empty, has at most
    /// 31 bytes, and all of them are ASCII.
    pub open spec fn can_name(name: Seq<u8>) -> bool {
        0 < name.len() <= MAX_NAME_LEN && all_ascii(name)
    }

    /// Whether the dictionary of `after` is that of `before` with one more
    /// entry, a native word with the code field `bi` under the name that
    /// `name` folds to, at the address `base`, the arena now holding `mem`.
    pub open spec fn builtin_entry_added(
        before: &Self,
        after: &Self,
        name: Seq<u8>,
        bi: WordFunc,
        base: int,
        mem: Seq<u8>,
    ) -> bool {
        let d = before.dict.dict;
        let e = after.dict.dict;
        &&& e.base == d.base
        &&& e.parent == d.parent
        &&& e.refs == d.refs
        &&& e.alloc.start == d.alloc.start
        &&& e.alloc.end == d.alloc.end
        &&& e.alloc.cur == base + DICTIONARY_ENTRY_SIZE
        &&& e.alloc.mem@ == mem
        &&& e.entries@.len() == d.entries@.len() + 1
        &&& e.entries@.drop_last() == d.entries@
        &&& e.entries@.last().hdr.name@ == folded(name)
        &&& e.entries@.last().hdr.kind == EntryKind::RuntimeBuiltin
        &&& e.entries@.last().hdr.len == 0
        &&& e.entries@.last().func == bi
        &&& e.entries@.last().addr == base
        &&& e.entries@.last().link == d.tail
    }

    /// What `add_builtin` does.
    pub open spec fn added_builtin(
        before: &Self,
        after: &Self,
        name: Seq<u8>,
        bi: WordFunc,
        r: Result<(), Error>,
    ) -> bool {
        let d = before.dict.dict;
        if before.pending is Some {
            r == Err::<(), Error>(Error::InterpretOnlyWord) && *after == *before
        } else if !Self::can_name(name) {
            r == Err::<(), Error>(Error::BadName) && *after == *before
        } else if !d.has_room_for_definition(name.len() as int, 0) {
            r == Err::<(), Error>(Error::DictionaryFull) && *after == *before
        } else {
            let base = d.definition_base(name.len() as int);
            r == Ok::<(), Error>(()) && Self::builtin_entry_added(
                before,
                after,
                name,
                bi,
                base,
                d.alloc.mem@ + folded(name) + zeros(
                    base - d.alloc.cur - name.len() + DICTIONARY_ENTRY_SIZE,
                ),
            )
        }
    }

    /// Adds a native word with the code field `bi` under the name that
    /// `name` folds to. The name is stored in the arena, the entry after it;
    /// the word is the latest of the dictionary. Fails, nothing changed,
    /// with `InterpretOnlyWord` inside a definition, with `BadName` where
    /// `name` cannot be a name, and with `DictionaryFull` where the
    /// dictionary has no room for name and entry.
    pub fn add_builtin(&mut self, name: &str, bi: WordFunc) -> (r: Result<(), Error>)
        requires
            old(self).wf(),
        ensures
            final(self).wf(),
            final(self).same_but(old(self), crate::vm::builtins::Touch::data_dict()),
            final(self).data_stack == old(self).data_stack,
            Self::added_builtin(old(self), final(self), name.spec_bytes(), bi, r),
    {
        if self.pending.is_some() {
            return Err(Error::InterpretOnlyWord);
        }
        let bytes = name.as_bytes();
        if bytes.len() == 0 || bytes.len() > MAX_NAME_LEN || !is_all_ascii(bytes) {
            return Err(Error::BadName);
        }
        if !self.dict.dict.room_for_definition(bytes.len(), 0) {
            return Err(Error::DictionaryFull);
        }
        proof {
            assert(FaStr::head(bytes@) =~= bytes@);
        }
        let fastr = match self.dict.dict.alloc.bump_str(bytes) {
            Ok(f) => f,
            Err(_) => {
                assert(false);
                return Err(Error::DictionaryFull);
            },
        };
        proof {
            lemma_wf_after_bump(&old(self).dict.dict, &self.dict.dict);
        }
        match self.dict.dict.add_bi_fastr(fastr, bi) {
            Ok(()) => {
                proof {
                    let d = old(self).dict.dict;
                    let n = bytes@;
                    let base = d.definition_base(n.len() as int);
                    assert(self.dict.dict.entries@.drop_last() =~= d.entries@);
                    assert(self.dict.dict.alloc.mem@ =~= d.alloc.mem@ + folded(n) + zeros(
                        base - d.alloc.cur - n.len() + DICTIONARY_ENTRY_SIZE,
                    ));
                }
                Ok(())
            },
            Err(_) => {
                assert(false);
                Err(Error::DictionaryFull)
            },
        }
    }

    /// What `add_builtin_static_name` does.
    pub open spec fn added_static_builtin(
        before: &Self,
        after: &Self,
        name: Seq<u8>,
        bi: WordFunc,
        r: Result<(), Error>,
    ) -> bool {
        let d = before.dict.dict;
        if before.pending is Some {
            r == Err::<(), Error>(Error::InterpretOnlyWord) && *after == *before
        } else if !Self::can_name(name) {
            r == Err::<(), Error>(Error::BadName) && *after == *before
        } else if !d.has_room_for_entry() {
            r == Err::<(), Error>(Error::DictionaryFull) && after.dict.dict.entries == d.entries
                && after.dict.dict.alloc == d.alloc
        } else {
            let base = align_up(d.alloc.cur as int, ENTRY_ALIGN as int);
            r == Ok::<(), Error>(()) && Self::builtin_entry_added(
                before,
                after,
                name,
                bi,
                base,
                d.alloc.mem@ + zeros(base + DICTIONARY_ENTRY_SIZE - d.alloc.cur),
            )
        }
    }

    /// Adds a native word as `add_builtin` does, but for the name, which is
    /// not stored in the arena: only the entry takes room there. Fails,
    /// nothing changed, with `InterpretOnlyWord` inside a definition, with
    /// `BadName` where `name` cannot be a name, and with `DictionaryFull`
    /// where the dictionary has no room for the entry.
    pub fn add_builtin_static_name(&mut self, name: &'static str, bi: WordFunc) -> (r: Result<
        (),
        Error,
    >)
        requires
            old(self).wf(),
        ensures
            final(self).wf(),
            final(self).same_but(old(self), crate::vm::builtins::Touch::data_dict()),
            final(self).data_stack == old(self).data_stack,
            Self::added_static_builtin(old(self), final(self), name.spec_bytes(), bi, r),
    {
        if self.pending.is_some() {
            return Err(Error::InterpretOnlyWord);
        }
        let bytes = name.as_bytes();
        if bytes.len() == 0 {
            return Err(Error::BadName);
        }
        let fastr = match FaStr::new(bytes) {
            Some(f) => f,
            None => {
                return Err(Error::BadName);
            },
        };
        match self.dict.dict.add_bi_fastr(fastr, bi) {
            Ok(()) => {
                assert(self.dict.dict.entries@.drop_last() =~= old(self).dict.dict.entries@);
                Ok(())
            },
            Err(_) => Err(Error::DictionaryFull),
        }
    }
}

/// The position of the first entry of `table` whose code field is `f`, or
/// `table.len()`.
pub open spec fn func_pos(table: Seq<BuiltinEntry>, f: WordFunc) -> int
    decreases table.len(),
{
    if table.len() == 0 {
        0
    } else if table[0].func == f {
        0
    } else {
        1 + func_pos(table.drop_first(), f)
    }
}

/// `func_pos` is the least position that holds the code field.
pub proof fn lemma_func_pos(table: Seq<BuiltinEntry>, f: WordFunc, n: int)
    requires
        0 <= n <= table.len(),
        forall|i: int| 0 <= i < n ==> (#[trigger] table[i]).func != f,
        n < table.len() ==> table[n].func == f,
    ensures
        func_pos(table, f) == n,
    decreases table.len(),
{
    if table.len() != 0 && n != 0 {
        assert(table[0].func != f);
        let t = table.drop_first();
        assert forall|i: int| 0 <= i < n - 1 implies (#[trigger] t[i]).func != f by {
            assert(t[i] == table[i + 1]);
        }
        lemma_func_pos(t, f, n - 1);
    }
}

} // verus!
