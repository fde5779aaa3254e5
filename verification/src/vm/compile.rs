//! The compiler: definitions, literals and control flow.

use vstd::prelude::*;
use crate::builtin::{Builtin, WordFunc};
use crate::dictionary::{bytes_of_word, zeros, Dictionary, EntryBuilder, EntryKind,
    DICTIONARY_ENTRY_SIZE, DictionaryEntry, EntryHeader, lemma_wf_after_bump};
use crate::fastr::{all_ascii, folded, is_all_ascii, FaStr, MAX_NAME_LEN};
use crate::input::{advanced, consumed};
use crate::num::{literal_spec, parse_literal, Literal};
use crate::stack::StackError;
use crate::vm::builtins::Touch;
use crate::vm::builtins::memory::patched;
use crate::vm::{EntryRef, Error, Forth, Mode, Pending};
use crate::word::{Word, WORD_SIZE};

verus! {

/// The bytes that the cells `cells` take in memory.
pub open spec fn cells_bytes(cells: Seq<Word>) -> Seq<u8>
    decreases cells.len(),
{
    if cells.len() == 0 {
        Seq::empty()
    } else {
        cells_bytes(cells.drop_last()) + bytes_of_word(cells.last())
    }
}

impl Touch {
    /// The dictionary, the mode and the definition being compiled.
    pub open spec fn definition() -> Touch {
        Touch { dict: true, compiling: true, ..Touch::nothing() }
    }

    /// What a defining word may change: the input it reads the name from,
    /// the data stack, the dictionary, the mode and the definition being
    /// compiled.
    pub open spec fn defining() -> Touch {
        Touch { data: true, input: true, dict: true, compiling: true, ..Touch::nothing() }
    }

    /// What a control-flow word may change.
    pub open spec fn control() -> Touch {
        Touch { control: true, dict: true, compiling: true, ..Touch::nothing() }
    }
}

impl<T> Forth<T> {
    /// The cell of the parameter field that the compiler fills next.
    pub open spec fn here_cell(&self) -> int {
        match self.pending {
            Some(p) => p.builder.len as int,
            None => 0,
        }
    }

    /// Whether the definition being compiled has room for `cells` more cells.
    pub open spec fn can_emit(&self, cells: int) -> bool {
        self.pending matches Some(p) && p.builder.has_room(&self.dict.dict, cells)
    }

    /// Whether `self` is `before` with the cells `cells` appended to the
    /// definition being compiled.
    pub open spec fn emitted(&self, before: &Self, cells: Seq<Word>) -> bool {
        &&& self.mode == before.mode
        &&& before.pending matches Some(was)
        &&& self.pending matches Some(now)
        &&& now.name == was.name
        &&& now.builder == (EntryBuilder {
            len: (was.builder.len + cells.len()) as u16,
            ..was.builder
        })
        &&& self.dict.dict.grown_by(&before.dict.dict, cells_bytes(cells))
    }

    /// Appends the cell `w` to the definition being compiled. Fails with
    /// `CompileOnlyWord` where none is, and with `DictionaryFull` where the
    /// arena or the definition is full; nothing has changed then.
    pub fn emit_cell(&mut self, w: Word) -> (r: Result<(), Error>)
        requires
            old(self).wf(),
        ensures
            final(self).wf(),
            final(self).same_but(old(self), Touch::definition()),
            old(self).pending is None ==> r == Err::<(), Error>(Error::CompileOnlyWord)
                && *final(self) == *old(self),
            old(self).pending is Some && !old(self).can_emit(1) ==> r == Err::<(), Error>(
                Error::DictionaryFull,
            ) && *final(self) == *old(self),
            old(self).can_emit(1) ==> r == Ok::<(), Error>(()) && final(self).emitted(
                old(self),
                seq![w],
            ),
    {
        let p = match self.pending.take() {
            Some(p) => p,
            None => {
                return Err(Error::CompileOnlyWord);
            },
        };
        match p.builder.write_word(&mut self.dict.dict, w) {
            Ok(b) => {
                self.pending = Some(Pending { name: p.name, builder: b });
                proof {
                    assert(cells_bytes(seq![w]) =~= bytes_of_word(w)) by {
                        assert(seq![w].drop_last() =~= Seq::<Word>::empty());
                        assert(cells_bytes(seq![w].drop_last()) =~= Seq::<u8>::empty());
                    }
                }
                Ok(())
            },
            Err(_) => {
                self.pending = Some(p);
                Err(Error::DictionaryFull)
            },
        }
    }

    /// Appends a reference to the native word `b` to the definition being
    /// compiled. Fails with `CompileOnlyWord` where none is, with
    /// `UnknownWord` where the table of native words does not hold `b`, and
    /// with `DictionaryFull` where the arena or the definition is full;
    /// nothing has changed then.
    pub fn emit_builtin(&mut self, b: Builtin) -> (r: Result<(), Error>)
        requires
            old(self).wf(),
        ensures
            final(self).wf(),
            final(self).same_but(old(self), Touch::definition()),
            match old(self).ready_spec(Some(b), 1, 0) {
                Ok(xt) => r == Ok::<(), Error>(()) && final(self).emitted(old(self), seq![xt]),
                Err(e) => r == Err::<(), Error>(e) && *final(self) == *old(self),
            },
    {
        let xt = match self.ready(Some(b), 1, 0) {
            Ok(x) => x,
            Err(e) => {
                return Err(e);
            },
        };
        self.emit_cell(xt)
    }

    /// Whether the compiler is ready to append `cells` cells, the first of
    /// them a reference to the native word `b` if one is given, and to open
    /// `frames` control structures; the errors come in this order:
    /// `CompileOnlyWord` outside a definition, `UnknownWord` where the table
    /// of native words lacks `b`, `DictionaryFull` where the cells do not
    /// fit, `StackOverflow` where the control stack has no room. Gives the
    /// reference to `b`, or a zero cell where no word was asked for.
    pub open spec fn ready_spec(&self, b: Option<Builtin>, cells: int, frames: int) -> Result<
        Word,
        Error,
    > {
        if self.pending is None {
            Err(Error::CompileOnlyWord)
        } else if b is Some && self.xt_spec(b.unwrap()) is None {
            Err(Error::UnknownWord)
        } else if !self.can_emit(cells) {
            Err(Error::DictionaryFull)
        } else if self.control_stack@.len() + frames > self.control_stack.cap() {
            Err(Error::Stack(StackError::StackOverflow))
        } else {
            Ok(
                match b {
                    Some(x) => self.xt_spec(x).unwrap(),
                    None => Word { data: 0 },
                },
            )
        }
    }

    /// Checks what `ready_spec` describes.
    pub fn ready(&self, b: Option<Builtin>, cells: usize, frames: usize) -> (r: Result<
        Word,
        Error,
    >)
        requires
            self.wf(),
        ensures
            r == self.ready_spec(b, cells as int, frames as int),
    {
        let p = match &self.pending {
            Some(p) => p,
            None => {
                return Err(Error::CompileOnlyWord);
            },
        };
        let xt = match b {
            Some(x) => match self.builtin_ref(x) {
                Some(w) => w,
                None => {
                    return Err(Error::UnknownWord);
                },
            },
            None => Word { data: 0 },
        };
        if cells > (u16::MAX - p.builder.len) as usize || WORD_SIZE * cells
            > self.dict.dict.alloc.end - self.dict.dict.alloc.cur {
            return Err(Error::DictionaryFull);
        }
        if frames > self.control_stack.capacity() - self.control_stack.depth() {
            return Err(Error::Stack(StackError::StackOverflow));
        }
        Ok(xt)
    }

    /// Stores `target` in cell `slot` of the definition being compiled.
    pub fn patch(&mut self, slot: u16, target: u16) -> (r: Result<(), Error>)
        requires
            old(self).wf(),
        ensures
            final(self).wf(),
            final(self).same_but(old(self), Touch::definition()),
            final(self).pending == old(self).pending,
            final(self).mode == old(self).mode,
            old(self).pending is Some && slot < old(self).here_cell() ==> r == Ok::<(), Error>(())
                && final(self).dict.dict.stores(
                    &old(self).dict.dict,
                    patched(
                        old(self).dict.dict.alloc.mem@,
                        old(self).pending.unwrap().builder.cell_addr(slot as int) - old(self).dict.dict.alloc.start,
                        bytes_of_word(Word { data: target as i32 }),
                    ),
                ),
            !(old(self).pending is Some && slot < old(self).here_cell()) ==> r is Err
                && final(self).dict == old(self).dict,
    {
        let base = match &self.pending {
            Some(p) => {
                if slot >= p.builder.len {
                    return Err(Error::BadAddress);
                }
                p.builder.base
            },
            None => {
                return Err(Error::CompileOnlyWord);
            },
        };
        let addr = base + DICTIONARY_ENTRY_SIZE + WORD_SIZE * (slot as usize);
        if self.dict.dict.alloc.write_word(addr, Word { data: target as i32 }) {
            proof {
                lemma_wf_after_bump(&old(self).dict.dict, &self.dict.dict);
            }
            Ok(())
        } else {
            assert(false);
            Err(Error::BadAddress)
        }
    }

    /// Reads the next token as the name of a definition: the token must have
    /// at most 31 bytes, all of them ASCII.
    fn read_name(&mut self) -> (r: Result<Vec<u8>, Error>)
        requires
            old(self).wf(),
        ensures
            final(self).wf(),
            final(self).same_but(old(self), Touch { input: true, ..Touch::nothing() }),
            final(self).input@ == advanced(old(self).input@.rest),
            Self::names(advanced(old(self).input@.rest).cur) ==> r is Ok && r->Ok_0@
                == advanced(old(self).input@.rest).cur.unwrap(),
            !Self::names(advanced(old(self).input@.rest).cur) ==> r is Err && r->Err_0
                == Error::BadName,
    {
        self.input.advance();
        let tok = match self.input.cur_raw() {
            Some(t) => t,
            None => {
                return Err(Error::BadName);
            },
        };
        if tok.len() == 0 || tok.len() > MAX_NAME_LEN || !is_all_ascii(tok.as_slice()) {
            return Err(Error::BadName);
        }
        Ok(tok)
    }

    /// Whether a token can name a definition: there is one, it is not empty,
    /// has at most 31 bytes, and all of them are ASCII.
    pub open spec fn names(tok: Option<Seq<u8>>) -> bool {
        tok matches Some(t) && 0 < t.len() <= MAX_NAME_LEN && all_ascii(t)
    }

    /// What `colon` does to the machine: `before` is the machine as the word
    /// finds it, `after` as it leaves it, and `r` what it returns.
    pub open spec fn colon_effect(before: &Self, after: &Self, r: Result<(), Error>) -> bool {
        &&& after.same_but(before, Touch::defining())
        &&& after.data_stack == before.data_stack
        &&& ({
            let v = advanced(before.input@.rest);
            let d = before.dict.dict;
            if before.pending is Some {
                r == Err::<(), Error>(Error::InterpretOnlyWord) && *after == *before
            } else if !Self::names(v.cur) {
                r == Err::<(), Error>(Error::BadName) && after.input@ == v
                    && after.dict == before.dict && after.pending is None
            } else if !d.has_room_for_definition(v.cur.unwrap().len() as int, 0) {
                r == Err::<(), Error>(Error::DictionaryFull) && after.input@ == v
                    && after.dict == before.dict && after.pending is None
            } else {
                r == Ok::<(), Error>(()) && after.input@ == v && after.mode
                    == Mode::Compile && after.started_definition(before, v.cur.unwrap())
            }
        })
    }

    /// `: name`: starts the definition of `name`, which is read from the
    /// input, and switches to compile mode. Fails with `InterpretOnlyWord`,
    /// nothing changed, inside a definition; with `BadName` where no proper
    /// name follows; with `DictionaryFull` where the dictionary has no room
    /// for the name and the entry. After a failure the dictionary is
    /// unchanged.
    pub fn colon(&mut self) -> (r: Result<(), Error>)
        requires
            old(self).wf(),
        ensures
            final(self).wf(),
            Self::colon_effect(old(self), final(self), r),
    {
        if self.pending.is_some() {
            return Err(Error::InterpretOnlyWord);
        }
        let tok = match self.read_name() {
            Ok(t) => t,
            Err(e) => {
                return Err(e);
            },
        };
        assert(FaStr::head(tok@) =~= tok@);
        match self.dict.dict.define(tok.as_slice(), 0) {
            Ok((name, builder)) => {
                self.pending = Some(Pending { name, builder });
                self.mode = Mode::Compile;
                Ok(())
            },
            Err(_) => Err(Error::DictionaryFull),
        }
    }

    /// Whether `self` holds the fresh definition of the name that `tok`
    /// folds to, started in the dictionary of `before`.
    pub open spec fn started_definition(&self, before: &Self, tok: Seq<u8>) -> bool {
        let d = before.dict.dict;
        let base = d.definition_base(tok.len() as int);
        &&& self.pending matches Some(p)
        &&& p.name@ == folded(tok)
        &&& p.builder == (EntryBuilder { len: 0, base: base as usize, kind: EntryKind::Dictionary })
        &&& self.dict.dict.grown_by(
            &d,
            folded(tok) + zeros(base - d.alloc.cur - tok.len() + DICTIONARY_ENTRY_SIZE),
        )
    }

    /// Whether `self` is `before` with the definition being compiled
    /// completed: it is the latest entry of the dictionary, with the code
    /// field `func`, and the machine interprets again.
    pub open spec fn finished_definition(&self, before: &Self, func: WordFunc) -> bool {
        let d = before.dict.dict;
        &&& before.pending matches Some(p)
        &&& self.pending is None
        &&& self.mode == Mode::Interpret
        &&& self.dict.dict.alloc == d.alloc
        &&& self.dict.dict.base == d.base
        &&& self.dict.dict.parent == d.parent
        &&& self.dict.dict.refs == d.refs
        &&& self.dict.dict.entries@ == d.entries@.push(
            DictionaryEntry {
                hdr: EntryHeader { name: p.name, kind: p.builder.kind, len: p.builder.len },
                func,
                link: d.tail,
                addr: p.builder.base,
            },
        )
    }

    /// Completes the definition being compiled with the code field `func`.
    fn finish_definition(&mut self, func: WordFunc) -> (r: Result<(), Error>)
        requires
            old(self).wf(),
            old(self).control_stack@.len() == 0,
        ensures
            final(self).wf(),
            final(self).same_but(old(self), Touch::definition()),
            old(self).pending is None ==> r == Err::<(), Error>(Error::CompileOnlyWord)
                && *final(self) == *old(self),
            old(self).pending is Some ==> r == Ok::<(), Error>(())
                && final(self).finished_definition(old(self), func),
    {
        match self.pending.take() {
            Some(p) => {
                p.builder.finish(&mut self.dict.dict, p.name, func);
                self.mode = Mode::Interpret;
                Ok(())
            },
            None => Err(Error::CompileOnlyWord),
        }
    }

    /// What `semicolon` does to the machine: `before` is the machine as the word
    /// finds it, `after` as it leaves it, and `r` what it returns.
    pub open spec fn semicolon_effect(before: &Self, after: &Self, r: Result<(), Error>) -> bool {
        &&& after.same_but(before, Touch::definition())
        &&& ({
            let d = before.dict.dict;
            if before.pending is None {
                r == Err::<(), Error>(Error::CompileOnlyWord) && *after == *before
            } else if before.control_stack@.len() > 0 {
                r == Err::<(), Error>(Error::UnbalancedControlFlow) && *after == *before
            } else {
                match before.ready_spec(Some(Builtin::Exit), 1, 0) {
                    Err(e) => r == Err::<(), Error>(e) && *after == *before,
                    Ok(xt) => {
                        let p = before.pending.unwrap();
                        &&& r == Ok::<(), Error>(())
                        &&& after.pending is None
                        &&& after.mode == Mode::Interpret
                        &&& after.dict.dict.alloc.mem@ == d.alloc.mem@ + bytes_of_word(xt)
                        &&& after.dict.dict.alloc.cur == d.alloc.cur + WORD_SIZE
                        &&& after.dict.dict.alloc.start == d.alloc.start
                        &&& after.dict.dict.alloc.end == d.alloc.end
                        &&& after.dict.dict.base == d.base
                        &&& after.dict.dict.parent == d.parent
                        &&& after.dict.dict.refs == d.refs
                        &&& after.dict.dict.entries@ == d.entries@.push(
                            DictionaryEntry {
                                hdr: EntryHeader {
                                    name: p.name,
                                    kind: p.builder.kind,
                                    len: (p.builder.len + 1) as u16,
                                },
                                func: WordFunc::Native(Builtin::Interpret),
                                link: d.tail,
                                addr: p.builder.base,
                            },
                        )
                    },
                }
            }
        })
    }

    /// `;`: ends the definition being compiled: appends the word that leaves
    /// a definition, links the entry into the dictionary and switches back
    /// to interpret mode. Fails with `CompileOnlyWord` outside a definition,
    /// with `UnbalancedControlFlow` while a control structure is open, with
    /// `UnknownWord` where the table of native words lacks the word that
    /// leaves a definition, and with `DictionaryFull` where it does not fit;
    /// nothing has changed then.
    pub fn semicolon(&mut self) -> (r: Result<(), Error>)
        requires
            old(self).wf(),
        ensures
            final(self).wf(),
            Self::semicolon_effect(old(self), final(self), r),
    {
        if self.pending.is_none() {
            return Err(Error::CompileOnlyWord);
        }
        if self.control_stack.depth() != 0 {
            return Err(Error::UnbalancedControlFlow);
        }
        match self.emit_builtin(Builtin::Exit) {
            Ok(()) => {},
            Err(e) => {
                return Err(e);
            },
        }
        proof {
            let xt = old(self).ready_spec(Some(Builtin::Exit), 1, 0)->Ok_0;
            assert(cells_bytes(seq![xt]) =~= bytes_of_word(xt)) by {
                assert(seq![xt].drop_last() =~= Seq::<Word>::empty());
                assert(cells_bytes(seq![xt].drop_last()) =~= Seq::<u8>::empty());
            }
        }
        self.finish_definition(WordFunc::Native(Builtin::Interpret))
    }

    /// Defines a word with a parameter field of the cells `cells`, at most
    /// one, and the code field `func`, under the name read from the input.
    fn define_data(&mut self, cell: Option<Word>, func: WordFunc) -> (r: Result<(), Error>)
        requires
            old(self).wf(),
            old(self).pending is None,
        ensures
            final(self).wf(),
            final(self).same_but(old(self), Touch::defining()),
            final(self).data_stack == old(self).data_stack,
            final(self).pending is None,
            final(self).mode == Mode::Interpret,
            final(self).input@ == advanced(old(self).input@.rest),
            Self::defined_data(old(self), final(self), cell, func, r),
    {
        let tok = match self.read_name() {
            Ok(t) => t,
            Err(e) => {
                return Err(e);
            },
        };
        let cells: usize = if cell.is_some() {
            1
        } else {
            0
        };
        assert(FaStr::head(tok@) =~= tok@);
        let (name, builder) = match self.dict.dict.define(tok.as_slice(), cells) {
            Ok(x) => x,
            Err(_) => {
                return Err(Error::DictionaryFull);
            },
        };
        let builder = match cell {
            Some(w) => match builder.write_word(&mut self.dict.dict, w) {
                Ok(b) => b,
                Err(_) => {
                    assert(false);
                    return Err(Error::DictionaryFull);
                },
            },
            None => builder,
        };
        builder.finish(&mut self.dict.dict, name, func);
        proof {
            let d = old(self).dict.dict;
            let t = tok@;
            let base = d.definition_base(t.len() as int);
            let lead = folded(t) + zeros(base - d.alloc.cur - t.len() + DICTIONARY_ENTRY_SIZE);
            assert(self.dict.dict.entries@.drop_last() =~= d.entries@);
            match cell {
                Some(w) => {
                    assert(self.dict.dict.alloc.mem@ =~= d.alloc.mem@ + (lead + bytes_of_word(w)));
                },
                None => {
                    assert(self.dict.dict.alloc.mem@ =~= d.alloc.mem@ + (lead
                        + Seq::<u8>::empty()));
                },
            }
        }
        Ok(())
    }

    /// The outcome of defining a word with data: `BadName` where no proper
    /// name follows in the input, `DictionaryFull` where the dictionary has
    /// no room for the name, the entry and the cell, the dictionary
    /// unchanged in both cases; otherwise the name, the entry and the cell
    /// are in the arena and the entry is the latest of the dictionary.
    pub open spec fn defined_data(
        before: &Self,
        after: &Self,
        cell: Option<Word>,
        func: WordFunc,
        r: Result<(), Error>,
    ) -> bool {
        let v = advanced(before.input@.rest);
        let d = before.dict.dict;
        let n: int = if cell is Some {
            1
        } else {
            0
        };
        if !Self::names(v.cur) {
            r == Err::<(), Error>(Error::BadName) && after.dict == before.dict
        } else if !d.has_room_for_definition(v.cur.unwrap().len() as int, n) {
            r == Err::<(), Error>(Error::DictionaryFull) && after.dict == before.dict
        } else {
            let t = v.cur.unwrap();
            let base = d.definition_base(t.len() as int);
            &&& r == Ok::<(), Error>(())
            &&& after.dict.dict.base == d.base
            &&& after.dict.dict.parent == d.parent
            &&& after.dict.dict.refs == d.refs
            &&& after.dict.dict.alloc.start == d.alloc.start
            &&& after.dict.dict.alloc.end == d.alloc.end
            &&& after.dict.dict.alloc.cur == base + DICTIONARY_ENTRY_SIZE + WORD_SIZE * n
            &&& after.dict.dict.alloc.mem@ == d.alloc.mem@ + (folded(t) + zeros(
                base - d.alloc.cur - t.len() + DICTIONARY_ENTRY_SIZE,
            ) + (match cell {
                Some(w) => bytes_of_word(w),
                None => Seq::empty(),
            }))
            &&& after.dict.dict.entries@.len() == d.entries@.len() + 1
            &&& after.dict.dict.entries@.drop_last() == d.entries@
            &&& after.dict.dict.entries@.last().hdr.name@ == folded(t)
            &&& after.dict.dict.entries@.last().hdr.kind == EntryKind::Dictionary
            &&& after.dict.dict.entries@.last().hdr.len == n
            &&& after.dict.dict.entries@.last().func == func
            &&& after.dict.dict.entries@.last().addr == base
            &&& after.dict.dict.entries@.last().link == d.tail
        }
    }

    /// What `variable` does to the machine: `before` is the machine as the word
    /// finds it, `after` as it leaves it, and `r` what it returns.
    pub open spec fn variable_effect(before: &Self, after: &Self, r: Result<(), Error>) -> bool {
        &&& after.same_but(before, Touch::defining())
        &&& after.data_stack == before.data_stack
        &&& before.pending is Some ==> r == Err::<(), Error>(Error::InterpretOnlyWord)
            && *after == *before
        &&& before.pending is None ==> after.pending is None && after.input@
            == advanced(before.input@.rest) && Self::defined_data(
                before,
                after,
                Some(Word { data: 0 }),
                WordFunc::Native(Builtin::VariableRun),
                r,
            )
    }

    /// `variable name`: defines `name` as a word that pushes the address of
    /// a cell of its own, which starts as zero. Fails with
    /// `InterpretOnlyWord`, nothing changed, inside a definition.
    pub fn variable(&mut self) -> (r: Result<(), Error>)
        requires
            old(self).wf(),
        ensures
            final(self).wf(),
            Self::variable_effect(old(self), final(self), r),
    {
        if self.pending.is_some() {
            return Err(Error::InterpretOnlyWord);
        }
        self.define_data(Some(Word { data: 0 }), WordFunc::Native(Builtin::VariableRun))
    }

    /// What `create` does to the machine: `before` is the machine as the word
    /// finds it, `after` as it leaves it, and `r` what it returns.
    pub open spec fn create_effect(before: &Self, after: &Self, r: Result<(), Error>) -> bool {
        &&& after.same_but(before, Touch::defining())
        &&& after.data_stack == before.data_stack
        &&& before.pending is Some ==> r == Err::<(), Error>(Error::InterpretOnlyWord)
            && *after == *before
        &&& before.pending is None ==> after.pending is None && after.input@
            == advanced(before.input@.rest) && Self::defined_data(
                before,
                after,
                None,
                WordFunc::Native(Builtin::VariableRun),
                r,
            )
    }

    /// `create name`: defines `name` as a word that pushes the address that
    /// follows its entry, where `allot` and `,` put its data. Fails with
    /// `InterpretOnlyWord`, nothing changed, inside a definition.
    pub fn create(&mut self) -> (r: Result<(), Error>)
        requires
            old(self).wf(),
        ensures
            final(self).wf(),
            Self::create_effect(old(self), final(self), r),
    {
        if self.pending.is_some() {
            return Err(Error::InterpretOnlyWord);
        }
        self.define_data(None, WordFunc::Native(Builtin::VariableRun))
    }

    /// What `constant` does to the machine: `before` is the machine as the word
    /// finds it, `after` as it leaves it, and `r` what it returns.
    pub open spec fn constant_effect(before: &Self, after: &Self, r: Result<(), Error>) -> bool {
        &&& after.same_but(before, Touch::defining())
        &&& before.pending is Some ==> r == Err::<(), Error>(Error::InterpretOnlyWord)
            && *after == *before
        &&& before.pending is None && before.data_stack@.len() == 0 ==> r == Err::<
            (),
            Error,
        >(Error::Stack(StackError::StackEmpty)) && *after == *before
        &&& before.pending is None && before.data_stack@.len() > 0 ==> after.pending
            is None && after.data_stack@ == before.data_stack@.drop_last()
                && after.input@ == advanced(before.input@.rest) && Self::defined_data(
                    before,
                    after,
                    Some(before.data_stack@.last()),
                    WordFunc::Native(Builtin::ConstantRun),
                    r,
                )
    }

    /// `constant name ( x -- )`: defines `name` as a word that pushes `x`.
    /// Fails with `InterpretOnlyWord`, nothing changed, inside a definition,
    /// and with `StackEmpty` on an empty stack. Where the definition fails,
    /// `x` is gone.
    pub fn constant(&mut self) -> (r: Result<(), Error>)
        requires
            old(self).wf(),
        ensures
            final(self).wf(),
            Self::constant_effect(old(self), final(self), r),
    {
        if self.pending.is_some() {
            return Err(Error::InterpretOnlyWord);
        }
        if self.data_stack.depth() == 0 {
            return Err(Error::Stack(StackError::StackEmpty));
        }
        let x = match self.data_stack.try_pop() {
            Ok(w) => w,
            Err(e) => {
                return Err(Error::Stack(e));
            },
        };
        self.define_data(Some(x), WordFunc::Native(Builtin::ConstantRun))
    }
}

/// What the compiler does with a token.
#[derive(Debug, Clone, Copy, PartialEq, Eq, Structural)]
pub enum Plan {
    /// It runs the native word at once.
    Immediate(Builtin),
    /// It appends the cell.
    Emit(Word),
    /// It appends the word that pushes a literal, and the number.
    Literal(i32),
    /// It refuses the token.
    Fail(Error),
}

impl Builtin {
    /// Whether the word runs while a definition is compiled, instead of
    /// being compiled into it.
    pub open spec fn immediate(self) -> bool {
        match self {
            Builtin::If
            | Builtin::Else
            | Builtin::Then
            | Builtin::Do
            | Builtin::Loop
            | Builtin::Begin
            | Builtin::Until
            | Builtin::While
            | Builtin::Repeat
            | Builtin::Semicolon
            | Builtin::DotQuote
            | Builtin::Paren => true,
            _ => false,
        }
    }

    /// Whether the word runs while a definition is compiled.
    pub fn is_immediate(self) -> (b: bool)
        ensures
            b == self.immediate(),
    {
        match self {
            Builtin::If
            | Builtin::Else
            | Builtin::Then
            | Builtin::Do
            | Builtin::Loop
            | Builtin::Begin
            | Builtin::Until
            | Builtin::While
            | Builtin::Repeat
            | Builtin::Semicolon
            | Builtin::DotQuote
            | Builtin::Paren => true,
            _ => false,
        }
    }
}

impl<T> Forth<T> {
    /// What the compiler does with the token `tok` inside a definition. The
    /// name of the definition itself stands for the entry it is going to
    /// be, so that a word can call itself. Any other word is looked up: an
    /// immediate native word runs, any other word is compiled as a
    /// reference to its entry. What is no word is read as a number.
    pub open spec fn compile_plan(&self, tok: Seq<u8>) -> Plan {
        if self.pending matches Some(p) && p.name@ == tok {
            Plan::Emit(Word { data: self.dict.dict.count() as i32 })
        } else {
            match self.find_spec(tok) {
                Some(r) => {
                    if self.immediate_at(r) is Some {
                        Plan::Immediate(self.immediate_at(r).unwrap())
                    } else if r.encodable() {
                        Plan::Emit(Word { data: r.code() as i32 })
                    } else {
                        Plan::Fail(Error::BadAddress)
                    }
                },
                None => match literal_spec(tok) {
                    Literal::Number(n) => Plan::Literal(n),
                    Literal::Overflow => Plan::Fail(Error::NumberOverflow),
                    Literal::Malformed => Plan::Fail(Error::BadLiteral),
                    Literal::NotANumber => Plan::Fail(Error::UnknownWord),
                },
            }
        }
    }

    /// The immediate native word that `r` refers to, if it refers to one.
    pub open spec fn immediate_at(&self, r: EntryRef) -> Option<Builtin> {
        match r {
            EntryRef::Builtin(i) => if i < self.builtins@.len() {
                match self.builtins@[i as int].func {
                    WordFunc::Native(b) => if b.immediate() {
                        Some(b)
                    } else {
                        None
                    },
                    WordFunc::Host(_) => None,
                }
            } else {
                None
            },
            _ => None,
        }
    }

    /// Decides what the compiler does with the token `tok`.
    pub fn plan(&self, tok: &[u8]) -> (p: Plan)
        requires
            self.wf(),
        ensures
            p == self.compile_plan(tok@),
    {
        match &self.pending {
            Some(p) => {
                if p.name.is(tok) {
                    return Plan::Emit(
                        Word { data: (self.dict.dict.base + self.dict.dict.entries.len()) as i32 },
                    );
                }
            },
            None => {},
        }
        match self.find_word(tok) {
            Some(r) => {
                match r {
                    EntryRef::Builtin(i) => {
                        proof {
                            crate::dictionary::lemma_find_latest(&self.dict.dict, tok@);
                        }
                        if (i as usize) < self.builtins.len() {
                            match self.builtins[i as usize].func {
                                WordFunc::Native(b) => {
                                    if b.is_immediate() {
                                        return Plan::Immediate(b);
                                    }
                                },
                                WordFunc::Host(_) => {},
                            }
                        }
                    },
                    _ => {},
                }
                match r.to_word() {
                    Some(w) => Plan::Emit(w),
                    None => Plan::Fail(Error::BadAddress),
                }
            },
            None => match parse_literal(tok) {
                Literal::Number(n) => Plan::Literal(n),
                Literal::Overflow => Plan::Fail(Error::NumberOverflow),
                Literal::Malformed => Plan::Fail(Error::BadLiteral),
                Literal::NotANumber => Plan::Fail(Error::UnknownWord),
            },
        }
    }

    /// Compiles a number: appends the word that pushes a literal, and the
    /// number. Fails as `ready_spec` says, nothing changed.
    pub fn compile_literal(&mut self, n: i32) -> (r: Result<(), Error>)
        requires
            old(self).wf(),
        ensures
            final(self).wf(),
            final(self).same_but(old(self), Touch::definition()),
            match old(self).ready_spec(Some(Builtin::Literal), 2, 0) {
                Err(e) => r == Err::<(), Error>(e) && *final(self) == *old(self),
                Ok(xt) => r == Ok::<(), Error>(()) && final(self).emitted(
                    old(self),
                    seq![xt, Word { data: n }],
                ),
            },
    {
        let xt = match self.ready(Some(Builtin::Literal), 2, 0) {
            Ok(x) => x,
            Err(e) => {
                return Err(e);
            },
        };
        let _ = self.emit_cell(xt);
        let _ = self.emit_cell(Word { data: n });
        proof {
            let w = Word { data: n };
            assert(seq![xt].drop_last() =~= Seq::<Word>::empty());
            assert(cells_bytes(seq![xt].drop_last()) =~= Seq::<u8>::empty());
            assert(cells_bytes(seq![xt]) =~= bytes_of_word(xt));
            assert(seq![w].drop_last() =~= Seq::<Word>::empty());
            assert(cells_bytes(seq![w].drop_last()) =~= Seq::<u8>::empty());
            assert(seq![xt, w].drop_last() =~= seq![xt]);
            assert(cells_bytes(seq![xt, w]) =~= bytes_of_word(xt) + bytes_of_word(w));
            assert(self.dict.dict.alloc.mem@ =~= old(self).dict.dict.alloc.mem@ + cells_bytes(
                seq![xt, w],
            ));
        }
        Ok(())
    }

    /// What `paren` does to the machine: `before` is the machine as the word
    /// finds it, `after` as it leaves it, and `r` what it returns.
    pub open spec fn paren_effect(before: &Self, after: &Self, r: Result<(), Error>) -> bool {
        &&& after.same_but(before, Touch { input: true, ..Touch::nothing() })
        &&& match consumed(before.input@.rest, 0x29) {
            Some(v) => r == Ok::<(), Error>(()) && after.input@ == v,
            None => r == Err::<(), Error>(Error::BadLiteral) && after.input@ == before.input@,
        }
    }

    /// `( text )`: skips a comment, up to the closing parenthesis. Fails with
    /// `BadLiteral`, nothing changed, where the line has none.
    pub fn paren(&mut self) -> (r: Result<(), Error>)
        requires
            old(self).wf(),
        ensures
            final(self).wf(),
            Self::paren_effect(old(self), final(self), r),
    {
        if self.input.consume_until(0x29) {
            Ok(())
        } else {
            Err(Error::BadLiteral)
        }
    }

    /// What `dot_quote` does to the machine: `before` is the machine as the word
    /// finds it, `after` as it leaves it, and `r` what it returns.
    pub open spec fn dot_quote_effect(before: &Self, after: &Self, r: Result<(), Error>) -> bool {
        &&& after.same_but(
            before,
            Touch { input: true, output: true, dict: true, compiling: true, ..Touch::nothing() },
        )
        &&& after.mode == before.mode
        &&& match consumed(before.input@.rest, 0x22) {
            None => r == Err::<(), Error>(Error::BadLiteral) && after.input@ == before.input@
                && after.dict == before.dict && after.output == before.output
                && after.pending == before.pending,
            Some(v) => {
                let text = v.cur.unwrap();
                &&& after.input@ == v
                &&& if before.pending is None {
                    &&& Self::printed(before, after, text, r)
                    &&& after.dict == before.dict
                    &&& after.pending is None
                } else {
                    &&& after.output == before.output
                    &&& match before.ready_spec(
                        Some(Builtin::WriteStr),
                        2 + EntryBuilder::cells_for(text.len() as int),
                        0,
                    ) {
                        Err(e) => r == Err::<(), Error>(e) && after.dict == before.dict
                            && after.pending == before.pending,
                        Ok(xt) => r == Ok::<(), Error>(()) && after.quoted(
                            before,
                            xt,
                            text,
                        ),
                    }
                }
            },
        }
    }

    /// `." text"`: outside a definition prints `text`; inside one appends
    /// the word that prints a string, and the string with its length, so
    /// that the definition prints it. Fails with `BadLiteral`, nothing
    /// changed, where the line has no closing quote. Otherwise the text is
    /// used up, and the word fails with `OutputFull` where the text does not
    /// fit the output, or as `ready_spec` says where the compiled string
    /// does not fit the definition; dictionary and output are then
    /// unchanged.
    pub fn dot_quote(&mut self) -> (r: Result<(), Error>)
        requires
            old(self).wf(),
        ensures
            final(self).wf(),
            Self::dot_quote_effect(old(self), final(self), r),
    {
        if !self.input.consume_until(0x22) {
            return Err(Error::BadLiteral);
        }
        let text = match self.input.cur_raw() {
            Some(t) => t,
            None => {
                assert(false);
                return Err(Error::BadLiteral);
            },
        };
        if self.pending.is_none() {
            return self.print(text.as_slice());
        }
        let n = text.len();
        let cells = n / WORD_SIZE + (if n % WORD_SIZE != 0 {
            1
        } else {
            0
        });
        assert(cells == EntryBuilder::cells_for(n as int));
        if self.builtin_ref(Builtin::WriteStr).is_none() {
            return Err(Error::UnknownWord);
        }
        if cells > 0x1_0000 {
            return Err(Error::DictionaryFull);
        }
        let xt = match self.ready(Some(Builtin::WriteStr), cells + 2, 0) {
            Ok(x) => x,
            Err(e) => {
                return Err(e);
            },
        };
        let p = match self.pending.take() {
            Some(p) => p,
            None => {
                return Err(Error::CompileOnlyWord);
            },
        };
        let b1 = match p.builder.write_word(&mut self.dict.dict, xt) {
            Ok(b) => b,
            Err(_) => {
                assert(false);
                self.pending = Some(p);
                return Err(Error::DictionaryFull);
            },
        };
        let b2 = match b1.write_str(&mut self.dict.dict, text.as_slice()) {
            Ok(b) => b,
            Err(_) => {
                assert(false);
                self.pending = Some(p);
                return Err(Error::DictionaryFull);
            },
        };
        self.pending = Some(Pending { name: p.name, builder: b2 });
        proof {
            let d = old(self).dict.dict;
            let t = text@;
            assert(self.dict.dict.alloc.mem@ =~= d.alloc.mem@ + (bytes_of_word(xt) + bytes_of_word(
                Word { data: t.len() as i32 },
            ) + t + zeros(WORD_SIZE * EntryBuilder::cells_for(t.len() as int) - t.len())));
        }
        Ok(())
    }

    /// Whether `self` is `before` with a string compiled into the
    /// definition: the reference `xt` to the word that prints it, a cell
    /// with the length of `text`, the bytes of `text`, and zero bytes up to
    /// the next cell.
    pub open spec fn quoted(&self, before: &Self, xt: Word, text: Seq<u8>) -> bool {
        let cells = EntryBuilder::cells_for(text.len() as int);
        &&& before.pending matches Some(was)
        &&& self.pending matches Some(now)
        &&& now.name == was.name
        &&& now.builder == (EntryBuilder { len: (was.builder.len + 2
            + cells) as u16, ..was.builder })
        &&& self.dict.dict.grown_by(
            &before.dict.dict,
            bytes_of_word(xt) + bytes_of_word(Word { data: text.len() as i32 }) + text + zeros(
                WORD_SIZE * cells - text.len(),
            ),
        )
    }
}

} // verus!
