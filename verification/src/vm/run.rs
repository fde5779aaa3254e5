//! The words behind compiled definitions. Each cell of a definition refers
//! to an entry; the words here are what the compiler puts around the words
//! of the user: they fetch their operands from the definition that called
//! them, and move that definition's position.

use vstd::prelude::*;
use crate::builtin::Builtin;

use crate::stack::{Stack, StackError};
use crate::vm::builtins::{below, top, Touch};
use crate::vm::{CallContext, EntryRef, Error, Forth};
use crate::word::{Word, WORD_SIZE, ADDR_MAX};

verus! {

impl Touch {
    /// The call stack.
    pub open spec fn calls() -> Touch {
        Touch { calls: true, ..Touch::nothing() }
    }

    /// The data stack and the call stack.
    pub open spec fn data_calls() -> Touch {
        Touch { data: true, calls: true, ..Touch::nothing() }
    }

    /// The data stack, the return stack and the call stack.
    pub open spec fn stacks() -> Touch {
        Touch { data: true, ret: true, calls: true, ..Touch::nothing() }
    }
}

/// The cell of a definition that a branch with the operand `w` leads to, for
/// a definition of `len` cells: the operand must lie between zero and `len`,
/// the position just behind the last cell.
pub open spec fn target_spec(len: u16, w: Word) -> Option<u16> {
    if 0 <= w.data <= len {
        Some(w.data as u16)
    } else {
        None
    }
}

/// The cell that a branch with the operand `w` leads to.
pub fn target_of(len: u16, w: Word) -> (t: Option<u16>)
    ensures
        t == target_spec(len, w),
{
    if 0 <= w.data && w.data <= len as i32 {
        Some(w.data as u16)
    } else {
        None
    }
}

impl<T> Forth<T> {
    /// The frame of the definition that called the word that is running:
    /// the second frame from the top of the call stack.
    pub open spec fn caller(&self) -> Option<CallContext> {
        if self.call_stack@.len() >= 2 {
            Some(self.call_stack@[self.call_stack@.len() - 2])
        } else {
            None
        }
    }

    /// The frame of the word that is running.
    pub open spec fn running(&self) -> Option<CallContext> {
        if self.call_stack@.len() >= 1 {
            Some(self.call_stack@.last())
        } else {
            None
        }
    }

    /// Cell `i` of the parameter field of the frame `f`.
    pub open spec fn cell_of(&self, f: CallContext, i: int) -> Option<Word> {
        match self.info_spec(f.eh) {
            Some(info) => if 0 <= i < f.len && f.eh is Dict {
                self.dict.dict.word_spec(info.pfa + WORD_SIZE * i)
            } else {
                None
            },
            None => None,
        }
    }

    /// The operand of the word that is running: the cell of its caller that
    /// comes next.
    pub open spec fn operand_spec(&self) -> Option<Word> {
        match self.caller() {
            Some(f) => self.cell_of(f, f.idx as int),
            None => None,
        }
    }

    /// Whether `self` has the call stack of `before` with the position of
    /// the caller set to `idx`.
    pub open spec fn caller_at(&self, before: &Self, idx: int) -> bool {
        &&& before.caller() matches Some(f)
        &&& self.call_stack@ == before.call_stack@.update(
            before.call_stack@.len() - 2,
            CallContext { idx: idx as u16, ..f },
        )
    }

    /// Reads cell `i` of the parameter field of the frame `f`.
    pub fn read_cell(&self, f: CallContext, i: u16) -> (r: Option<Word>)
        requires
            self.wf(),
        ensures
            r == self.cell_of(f, i as int),
    {
        if i >= f.len {
            return None;
        }
        match f.eh {
            EntryRef::Dict(_) => {},
            _ => {
                return None;
            },
        }
        match self.info(f.eh) {
            Some(info) => {
                let off = WORD_SIZE * (i as usize);
                if info.pfa > ADDR_MAX {
                    assert(self.dict.dict.word_spec(info.pfa + off) is None) by {
                        lemma_no_word_above(&self.dict.dict, info.pfa + off);
                    }
                    return None;
                }
                self.dict.dict.read_word(info.pfa + off)
            },
            None => None,
        }
    }

    /// The frame of the caller and the operand it holds for the word that is
    /// running. Fails with `BadAddress` where there is no caller or it has
    /// no cell left.
    pub fn operand(&self) -> (r: Result<(CallContext, Word), Error>)
        requires
            self.wf(),
        ensures
            self.operand_spec() is Some ==> r == Ok::<(CallContext, Word), Error>(
                (self.caller().unwrap(), self.operand_spec().unwrap()),
            ),
            self.operand_spec() is None ==> r == Err::<(CallContext, Word), Error>(
                Error::BadAddress,
            ),
    {
        let f = match self.call_stack.peek_back_n(1) {
            Some(f) => f,
            None => {
                return Err(Error::BadAddress);
            },
        };
        match self.read_cell(f, f.idx) {
            Some(w) => Ok((f, w)),
            None => Err(Error::BadAddress),
        }
    }

    /// Sets the position of the caller, whose frame is `f`, to `idx`.
    pub(crate) fn jump(&mut self, f: CallContext, idx: u16)
        requires
            old(self).wf(),
            old(self).caller() == Some(f),
        ensures
            final(self).wf(),
            final(self).same_but(old(self), Touch::calls()),
            final(self).caller_at(old(self), idx as int),
    {
        let _ = self.call_stack.overwrite_back_n(1, CallContext { eh: f.eh, idx, len: f.len });
    }

    /// What `literal` does to the machine: `before` is the machine as the word
    /// finds it, `after` as it leaves it, and `r` what it returns.
    pub open spec fn literal_effect(before: &Self, after: &Self, r: Result<(), Error>) -> bool {
        &&& after.same_but(before, Touch::data_calls())
        &&& match before.operand_spec() {
            None => r == Err::<(), Error>(Error::BadAddress) && *after == *before,
            Some(w) => if before.data_stack@.len() >= before.data_stack.cap() {
                r == Err::<(), Error>(Error::Stack(StackError::StackOverflow))
                    && after.data_stack@ == before.data_stack@
                    && after.call_stack == before.call_stack
            } else {
                r == Ok::<(), Error>(()) && after.data_stack@ == before.data_stack@.push(w)
                    && after.caller_at(
                        before,
                        before.caller().unwrap().idx + 1,
                    )
            },
        }
    }

    /// The word that pushes a literal: pushes its operand and steps over it.
    /// Fails, nothing changed, with `BadAddress` where it has no operand and
    /// with `StackOverflow` where the data stack is full.
    pub fn literal(&mut self) -> (r: Result<(), Error>)
        requires
            old(self).wf(),
        ensures
            final(self).wf(),
            Self::literal_effect(old(self), final(self), r),
    {
        let (f, w) = match self.operand() {
            Ok(x) => x,
            Err(e) => {
                return Err(e);
            },
        };
        match self.push_data(w) {
            Ok(()) => {},
            Err(e) => {
                return Err(e);
            },
        }
        self.jump(f, f.idx + 1);
        Ok(())
    }

    /// What `branch` does to the machine: `before` is the machine as the word
    /// finds it, `after` as it leaves it, and `r` what it returns.
    pub open spec fn branch_effect(before: &Self, after: &Self, r: Result<(), Error>) -> bool {
        &&& after.same_but(before, Touch::calls())
        &&& match before.branch_target() {
            None => r == Err::<(), Error>(Error::BadAddress) && *after == *before,
            Some(t) => r == Ok::<(), Error>(()) && after.caller_at(before, t as int),
        }
    }

    /// The branch: moves its caller to the cell that its operand names.
    /// Fails with `BadAddress`, nothing changed, where it has no operand or
    /// the operand names no cell of the caller.
    pub fn branch(&mut self) -> (r: Result<(), Error>)
        requires
            old(self).wf(),
        ensures
            final(self).wf(),
            Self::branch_effect(old(self), final(self), r),
    {
        let (f, t) = match self.target() {
            Ok(x) => x,
            Err(e) => {
                return Err(e);
            },
        };
        self.jump(f, t);
        Ok(())
    }

    /// The cell of the caller that the operand of the running word names.
    pub open spec fn branch_target(&self) -> Option<u16> {
        match self.operand_spec() {
            Some(w) => target_spec(self.caller().unwrap().len, w),
            None => None,
        }
    }

    /// The frame of the caller and the cell of it that the operand names.
    pub fn target(&self) -> (r: Result<(CallContext, u16), Error>)
        requires
            self.wf(),
        ensures
            self.branch_target() is Some ==> r == Ok::<(CallContext, u16), Error>(
                (self.caller().unwrap(), self.branch_target().unwrap()),
            ),
            self.branch_target() is None ==> r == Err::<(CallContext, u16), Error>(
                Error::BadAddress,
            ),
    {
        let (f, w) = match self.operand() {
            Ok(x) => x,
            Err(e) => {
                return Err(e);
            },
        };
        match target_of(f.len, w) {
            Some(t) => Ok((f, t)),
            None => Err(Error::BadAddress),
        }
    }

    /// What `zero_branch` does to the machine: `before` is the machine as the word
    /// finds it, `after` as it leaves it, and `r` what it returns.
    pub open spec fn zero_branch_effect(before: &Self, after: &Self, r: Result<(), Error>) -> bool {
        &&& after.same_but(before, Touch::data_calls())
        &&& match before.branch_target() {
            None => r == Err::<(), Error>(Error::BadAddress) && *after == *before,
            Some(t) => if before.data_stack@.len() == 0 {
                r == Err::<(), Error>(Error::Stack(StackError::StackEmpty))
                    && after.data_stack@ == before.data_stack@
                    && after.call_stack == before.call_stack
            } else {
                r == Ok::<(), Error>(()) && after.data_stack@ == before.data_stack@.drop_last()
                    && after.caller_at(
                        before,
                        if before.data_stack@.last().data == 0 {
                            t as int
                        } else {
                            before.caller().unwrap().idx + 1
                        },
                    )
            },
        }
    }

    /// The branch on zero: pops a cell; moves its caller to the cell that
    /// its operand names where the cell popped is zero, and over the operand
    /// where it is not. Fails, nothing changed, with `BadAddress` as the
    /// branch does and with `StackEmpty` on an empty data stack.
    pub fn zero_branch(&mut self) -> (r: Result<(), Error>)
        requires
            old(self).wf(),
        ensures
            final(self).wf(),
            Self::zero_branch_effect(old(self), final(self), r),
    {
        let (f, t) = match self.target() {
            Ok(x) => x,
            Err(e) => {
                return Err(e);
            },
        };
        let x = match self.pop_data() {
            Ok(w) => w,
            Err(e) => {
                return Err(e);
            },
        };
        if x.data == 0 {
            self.jump(f, t);
        } else {
            self.jump(f, f.idx + 1);
        }
        Ok(())
    }

    /// What `do_run` does to the machine: `before` is the machine as the word
    /// finds it, `after` as it leaves it, and `r` what it returns.
    pub open spec fn do_run_effect(before: &Self, after: &Self, r: Result<(), Error>) -> bool {
        &&& after.same_but(before, Touch::stacks())
        &&& ({
            let s = before.data_stack@;
            let rs = before.return_stack@;
            match before.branch_target() {
                None => r == Err::<(), Error>(Error::BadAddress) && *after == *before,
                Some(t) => if s.len() < 2 {
                    r == Err::<(), Error>(Error::Stack(StackError::StackEmpty)) && *after
                        == *before
                } else if top(s, 0) >= top(s, 1) {
                    r == Ok::<(), Error>(()) && after.data_stack@ == below(s, 2)
                        && after.return_stack@ == rs && after.caller_at(
                            before,
                            t as int,
                        )
                } else if rs.len() + 2 > before.return_stack.cap() {
                    r == Err::<(), Error>(Error::Stack(StackError::StackOverflow))
                        && *after == *before
                } else {
                    r == Ok::<(), Error>(()) && after.data_stack@ == below(s, 2)
                        && after.return_stack@ == rs.push(s[s.len() - 2]).push(
                            s[s.len() - 1],
                        ) && after.caller_at(before, before.caller().unwrap().idx + 1)
                },
            }
        })
    }

    /// The start of a counted loop `( limit start -- )`: where `start` is
    /// below `limit`, pushes both onto the return stack, the index on top,
    /// and steps over its operand into the body; otherwise moves its caller
    /// to the cell that its operand names, behind the loop. Fails, nothing
    /// changed, with `BadAddress` as the branch does, with `StackEmpty`
    /// where the data stack holds fewer than two cells, and with
    /// `StackOverflow` where the return stack has no room for two.
    pub fn do_run(&mut self) -> (r: Result<(), Error>)
        requires
            old(self).wf(),
        ensures
            final(self).wf(),
            Self::do_run_effect(old(self), final(self), r),
    {
        let (f, t) = match self.target() {
            Ok(x) => x,
            Err(e) => {
                return Err(e);
            },
        };
        let start = match self.data_stack.peek_back_n(0) {
            Some(w) => w,
            None => {
                return Err(Error::Stack(StackError::StackEmpty));
            },
        };
        let limit = match self.data_stack.peek_back_n(1) {
            Some(w) => w,
            None => {
                return Err(Error::Stack(StackError::StackEmpty));
            },
        };
        if start.data >= limit.data {
            let _ = self.pop_n2();
            self.jump(f, t);
            return Ok(());
        }
        if self.return_stack.capacity() - self.return_stack.depth() < 2 {
            return Err(Error::Stack(StackError::StackOverflow));
        }
        let _ = self.pop_n2();
        let _ = self.return_stack.push(limit);
        let _ = self.return_stack.push(start);
        self.jump(f, f.idx + 1);
        Ok(())
    }

    /// Drops two cells from a data stack that holds them.
    fn pop_n2(&mut self)
        requires
            old(self).wf(),
            old(self).data_stack@.len() >= 2,
        ensures
            final(self).wf(),
            final(self).same_but(old(self), Touch::data()),
            final(self).data_stack@ == below(old(self).data_stack@, 2),
    {
        let _ = self.data_stack.pop();
        let _ = self.data_stack.pop();
        assert(self.data_stack@ =~= below(old(self).data_stack@, 2));
    }

    /// What `loop_run` does to the machine: `before` is the machine as the word
    /// finds it, `after` as it leaves it, and `r` what it returns.
    pub open spec fn loop_run_effect(before: &Self, after: &Self, r: Result<(), Error>) -> bool {
        &&& after.same_but(before, Touch::stacks())
        &&& after.data_stack == before.data_stack
        &&& ({
            let rs = before.return_stack@;
            match before.branch_target() {
                None => r == Err::<(), Error>(Error::BadAddress) && *after == *before,
                Some(t) => if rs.len() < 2 {
                    r == Err::<(), Error>(Error::Stack(StackError::StackEmpty)) && *after
                        == *before
                } else {
                    let next = (top(rs, 0) + 1) as i32;
                    if next < top(rs, 1) {
                        r == Ok::<(), Error>(()) && after.return_stack@ == rs.update(
                            rs.len() - 1,
                            Word { data: next },
                        ) && after.caller_at(before, t as int)
                    } else {
                        r == Ok::<(), Error>(()) && after.return_stack@ == below(rs, 2)
                            && after.caller_at(
                                before,
                                before.caller().unwrap().idx + 1,
                            )
                    }
                },
            }
        })
    }

    /// The end of a counted loop: adds one to the index on top of the return
    /// stack; where it is still below the limit beneath it, moves its caller
    /// to the cell that its operand names, the start of the body; otherwise
    /// drops index and limit and steps over its operand. Fails, nothing
    /// changed, with `BadAddress` as the branch does and with `StackEmpty`
    /// where the return stack holds fewer than two cells.
    pub fn loop_run(&mut self) -> (r: Result<(), Error>)
        requires
            old(self).wf(),
        ensures
            final(self).wf(),
            Self::loop_run_effect(old(self), final(self), r),
    {
        let (f, t) = match self.target() {
            Ok(x) => x,
            Err(e) => {
                return Err(e);
            },
        };
        let index = match self.return_stack.peek_back_n(0) {
            Some(w) => w,
            None => {
                return Err(Error::Stack(StackError::StackEmpty));
            },
        };
        let limit = match self.return_stack.peek_back_n(1) {
            Some(w) => w,
            None => {
                return Err(Error::Stack(StackError::StackEmpty));
            },
        };
        let next: i32 = #[verifier::truncate] ((index.data as i64 + 1) as i32);
        if next < limit.data {
            let _ = self.return_stack.overwrite_back_n(0, Word { data: next });
            self.jump(f, t);
        } else {
            let _ = self.return_stack.pop();
            let _ = self.return_stack.pop();
            assert(self.return_stack@ =~= below(old(self).return_stack@, 2));
            self.jump(f, f.idx + 1);
        }
        Ok(())
    }

    /// What `exit` does to the machine: `before` is the machine as the word
    /// finds it, `after` as it leaves it, and `r` what it returns.
    pub open spec fn exit_effect(before: &Self, after: &Self, r: Result<(), Error>) -> bool {
        &&& after.same_but(before, Touch::calls())
        &&& match before.caller() {
            None => r == Err::<(), Error>(Error::BadAddress) && *after == *before,
            Some(f) => r == Ok::<(), Error>(()) && after.caller_at(
                before,
                f.len as int,
            ),
        }
    }

    /// The word that leaves a definition: moves its caller behind its last
    /// cell. Fails with `BadAddress`, nothing changed, where it has no
    /// caller.
    pub fn exit(&mut self) -> (r: Result<(), Error>)
        requires
            old(self).wf(),
        ensures
            final(self).wf(),
            Self::exit_effect(old(self), final(self), r),
    {
        let f = match self.call_stack.peek_back_n(1) {
            Some(f) => f,
            None => {
                return Err(Error::BadAddress);
            },
        };
        self.jump(f, f.len);
        Ok(())
    }

    /// What `variable_run` does to the machine: `before` is the machine as the word
    /// finds it, `after` as it leaves it, and `r` what it returns.
    pub open spec fn variable_run_effect(before: &Self, after: &Self, r: Result<(),
        Error>) -> bool {
        &&& after.same_but(before, Touch::data())
        &&& match before.own_field() {
            None => r == Err::<(), Error>(Error::BadAddress) && *after == *before,
            Some(pfa) => if before.data_stack@.len() >= before.data_stack.cap() {
                r == Err::<(), Error>(Error::Stack(StackError::StackOverflow))
                    && after.data_stack@ == before.data_stack@
            } else {
                r == Ok::<(), Error>(())
                    && after.data_stack@ == before.data_stack@.push(Word { data: pfa as i32 })
            },
        }
    }

    /// The code of a variable: pushes the address of the parameter field of
    /// the word that is running. Fails, nothing changed, with `BadAddress`
    /// where the word that is running is no dictionary entry, and with
    /// `StackOverflow` where the data stack is full.
    pub fn variable_run(&mut self) -> (r: Result<(), Error>)
        requires
            old(self).wf(),
        ensures
            final(self).wf(),
            Self::variable_run_effect(old(self), final(self), r),
    {
        let f = match self.call_stack.peek() {
            Some(f) => f,
            None => {
                return Err(Error::BadAddress);
            },
        };
        match f.eh {
            EntryRef::Dict(_) => {},
            _ => {
                return Err(Error::BadAddress);
            },
        }
        let info = match self.info(f.eh) {
            Some(i) => i,
            None => {
                return Err(Error::BadAddress);
            },
        };
        if info.pfa > ADDR_MAX {
            return Err(Error::BadAddress);
        }
        self.push_data(Word { data: info.pfa as i32 })
    }

    /// The address of the parameter field of the word that is running, if
    /// that word is a dictionary entry.
    pub open spec fn own_field(&self) -> Option<usize> {
        match self.running() {
            Some(f) => match self.info_spec(f.eh) {
                Some(info) => if f.eh is Dict && info.pfa <= ADDR_MAX {
                    Some(info.pfa)
                } else {
                    None
                },
                None => None,
            },
            None => None,
        }
    }

    /// What `constant_run` does to the machine: `before` is the machine as the word
    /// finds it, `after` as it leaves it, and `r` what it returns.
    pub open spec fn constant_run_effect(before: &Self, after: &Self, r: Result<(),
        Error>) -> bool {
        &&& after.same_but(before, Touch::data())
        &&& match before.own_cell() {
            None => r == Err::<(), Error>(Error::BadAddress) && *after == *before,
            Some(w) => if before.data_stack@.len() >= before.data_stack.cap() {
                r == Err::<(), Error>(Error::Stack(StackError::StackOverflow))
                    && after.data_stack@ == before.data_stack@
            } else {
                r == Ok::<(), Error>(()) && after.data_stack@ == before.data_stack@.push(w)
            },
        }
    }

    /// The code of a constant: pushes the first cell of the parameter field
    /// of the word that is running. Fails, nothing changed, with
    /// `BadAddress` where there is no such cell, and with `StackOverflow`
    /// where the data stack is full.
    pub fn constant_run(&mut self) -> (r: Result<(), Error>)
        requires
            old(self).wf(),
        ensures
            final(self).wf(),
            Self::constant_run_effect(old(self), final(self), r),
    {
        let f = match self.call_stack.peek() {
            Some(f) => f,
            None => {
                return Err(Error::BadAddress);
            },
        };
        match self.read_cell(f, 0) {
            Some(w) => self.push_data(w),
            None => Err(Error::BadAddress),
        }
    }

    /// The first cell of the parameter field of the word that is running.
    pub open spec fn own_cell(&self) -> Option<Word> {
        match self.running() {
            Some(f) => self.cell_of(f, 0),
            None => None,
        }
    }

    /// What `interpret` does to the machine: `before` is the machine as the word
    /// finds it, `after` as it leaves it, and `r` what it returns.
    pub open spec fn interpret_effect(before: &Self, after: &Self, r: Result<(), Error>) -> bool {
        &&& after.same_but(before, Touch::calls())
        &&& match before.running() {
            None => r == Err::<(), Error>(Error::Stack(StackError::StackEmpty)) && *after
                == *before,
            Some(f) => if f.idx >= f.len {
                r == Ok::<(), Error>(()) && *after == *before
            } else {
                match before.next_word(f) {
                    None => r == Err::<(), Error>(Error::BadAddress) && *after == *before,
                    Some(next) => if before.call_stack@.len() >= before.call_stack.cap() {
                        r == Err::<(), Error>(Error::Stack(StackError::StackOverflow))
                            && *after == *before
                    } else {
                        r == Err::<(), Error>(Error::PendingCallAgain)
                            && after.call_stack@ == before.call_stack@.drop_last().push(
                                CallContext { idx: (f.idx + 1) as u16, ..f },
                            ).push(next)
                    },
                }
            },
        }
    }

    /// The code of a compiled definition: enters the word that the next cell
    /// of the definition refers to, and asks to be entered again after it;
    /// at the end of the definition it is done. Fails, nothing changed, with
    /// `StackEmpty` where no word is running, with `BadAddress` where the
    /// next cell cannot be read or refers to no entry, and with
    /// `StackOverflow` where the call stack is full.
    pub fn interpret(&mut self) -> (r: Result<(), Error>)
        requires
            old(self).wf(),
        ensures
            final(self).wf(),
            Self::interpret_effect(old(self), final(self), r),
    {
        let f = match self.call_stack.peek() {
            Some(f) => f,
            None => {
                return Err(Error::Stack(StackError::StackEmpty));
            },
        };
        if f.idx >= f.len {
            return Ok(());
        }
        let next = match self.fetch_next(f) {
            Some(n) => n,
            None => {
                return Err(Error::BadAddress);
            },
        };
        if self.call_stack.depth() >= self.call_stack.capacity() {
            return Err(Error::Stack(StackError::StackOverflow));
        }
        let _ = self.call_stack.overwrite_back_n(
            0,
            CallContext { eh: f.eh, idx: f.idx + 1, len: f.len },
        );
        let _ = self.call_stack.push(next);
        assert(self.call_stack@ =~= old(self).call_stack@.drop_last().push(
            CallContext { idx: (f.idx + 1) as u16, ..f },
        ).push(next));
        Err(Error::PendingCallAgain)
    }

    /// The frame for the word that the next cell of the frame `f` refers to.
    pub open spec fn next_word(&self, f: CallContext) -> Option<CallContext> {
        match self.cell_of(f, f.idx as int) {
            Some(w) => self.frame_for(w),
            None => None,
        }
    }

    /// The frame for the word that the cell `w` refers to, if it refers to
    /// one.
    pub open spec fn frame_for(&self, w: Word) -> Option<CallContext> {
        if -0x2_0000 <= w.data <= crate::dictionary::MAX_ENTRIES {
            let e = if w.data >= 0 {
                EntryRef::Dict(w.data as usize)
            } else if w.data >= -0x1_0000 {
                EntryRef::Builtin((-1 - w.data) as u16)
            } else {
                EntryRef::AsyncBuiltin((-0x1_0001 - w.data) as u16)
            };
            match self.info_spec(e) {
                Some(info) => Some(CallContext { eh: e, idx: 0, len: info.len }),
                None => None,
            }
        } else {
            None
        }
    }

    /// The frame for the word that the cell `w` refers to.
    pub fn frame(&self, w: Word) -> (r: Option<CallContext>)
        requires
            self.wf(),
        ensures
            r == self.frame_for(w),
    {
        let e = match EntryRef::from_word(w) {
            Some(e) => e,
            None => {
                return None;
            },
        };
        match self.info(e) {
            Some(info) => Some(CallContext { eh: e, idx: 0, len: info.len }),
            None => None,
        }
    }

    /// The frame for the word that the next cell of the frame `f` refers to.
    pub fn fetch_next(&self, f: CallContext) -> (r: Option<CallContext>)
        requires
            self.wf(),
        ensures
            r == self.next_word(f),
    {
        match self.read_cell(f, f.idx) {
            Some(w) => self.frame(w),
            None => None,
        }
    }
}

/// No cell is stored above the highest address.
pub proof fn lemma_no_word_above(d: &crate::dictionary::Dictionary, addr: int)
    requires
        d.wf(),
        addr > ADDR_MAX,
    ensures
        d.word_spec(addr) is None,
        d.byte_spec(addr) is None,
    decreases d,
{
    match d.parent {
        Some(p) => {
            lemma_no_word_above(&*p.inner, addr);
        },
        None => {},
    }
}

} // verus!
