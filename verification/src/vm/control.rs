//! The control-flow words. They run while a definition is compiled, and
//! keep on the control stack what is left to resolve: the cells that wait
//! for a branch target, and the targets of branches back.

use vstd::prelude::*;
use crate::builtin::Builtin;
use crate::dictionary::{bytes_of_word, EntryBuilder};

use crate::vm::builtins::memory::patched;
use crate::vm::builtins::Touch;
use crate::vm::compile::cells_bytes;
use crate::vm::{ControlFrame, Error, Forth};
use crate::word::{Word, WORD_SIZE};

verus! {

/// Two cells take the bytes of the first, then the bytes of the second.
pub proof fn lemma_cells_bytes_pair(a: Word, b: Word)
    ensures
        cells_bytes(seq![a]) == bytes_of_word(a),
        cells_bytes(seq![a, b]) == bytes_of_word(a) + bytes_of_word(b),
        cells_bytes(Seq::<Word>::empty()) == Seq::<u8>::empty(),
{
    assert(seq![a].drop_last() =~= Seq::<Word>::empty());
    assert(cells_bytes(seq![a].drop_last()) =~= Seq::<u8>::empty());
    assert(cells_bytes(seq![a]) =~= bytes_of_word(a));
    assert(seq![a, b].drop_last() =~= seq![a]);
    assert(seq![a, b].last() == b);
    assert(cells_bytes(seq![a, b]) =~= cells_bytes(seq![a]) + bytes_of_word(b));
}

impl<T> Forth<T> {
    /// Whether `self` is `before` with the cells `cells` appended to the
    /// definition being compiled and then, where `fix` gives a cell of the
    /// definition and a target, the target stored in that cell.
    pub open spec fn compiled(
        &self,
        before: &Self,
        cells: Seq<Word>,
        fix: Option<(int, int)>,
    ) -> bool {
        let d = before.dict.dict;
        let grown = d.alloc.mem@ + cells_bytes(cells);
        &&& self.mode == before.mode
        &&& before.pending matches Some(was)
        &&& self.pending matches Some(now)
        &&& now.name == was.name
        &&& now.builder == (EntryBuilder {
            len: (was.builder.len + cells.len()) as u16,
            ..was.builder
        })
        &&& self.dict.dict.holds_now(
            &d,
            d.alloc.cur + WORD_SIZE * cells.len(),
            match fix {
                None => grown,
                Some((slot, target)) => patched(
                    grown,
                    was.builder.cell_addr(slot) - d.alloc.start,
                    bytes_of_word(Word { data: target as i32 }),
                ),
            },
        )
    }

    /// Appends a reference to the native word `b` and the cell `operand`.
    fn emit_pair(&mut self, xt: Word, operand: Word)
        requires
            old(self).wf(),
            old(self).can_emit(2),
        ensures
            final(self).wf(),
            final(self).same_but(old(self), Touch::definition()),
            final(self).compiled(old(self), seq![xt, operand], None),
    {
        let _ = self.emit_cell(xt);
        let _ = self.emit_cell(operand);
        proof {
            lemma_cells_bytes_pair(xt, operand);
            let d = old(self).dict.dict;
            assert(self.dict.dict.alloc.mem@ =~= d.alloc.mem@ + cells_bytes(seq![xt, operand]));
        }
    }

    /// Stores `target` in cell `slot`, which must be a cell of the
    /// definition being compiled.
    fn fix(&mut self, slot: u16, target: u16, Ghost(before): Ghost<&Self>, Ghost(cells): Ghost<
        Seq<Word>,
    >)
        requires
            old(self).wf(),
            old(self).compiled(before, cells, None),
            slot < old(self).here_cell(),
        ensures
            final(self).wf(),
            final(self).same_but(old(self), Touch::definition()),
            final(self).compiled(before, cells, Some((slot as int, target as int))),
    {
        let _ = self.patch(slot, target);
    }

    /// What `compile_if` does to the machine: `before` is the machine as the word
    /// finds it, `after` as it leaves it, and `r` what it returns.
    pub open spec fn compile_if_effect(before: &Self, after: &Self, r: Result<(), Error>) -> bool {
        &&& after.same_but(before, Touch::control())
        &&& match before.ready_spec(Some(Builtin::ZeroBranch), 2, 1) {
            Err(e) => r == Err::<(), Error>(e) && *after == *before,
            Ok(xt) => r == Ok::<(), Error>(()) && after.compiled(
                before,
                seq![xt, Word { data: 0 }],
                None,
            ) && after.control_stack@ == before.control_stack@.push(
                ControlFrame::If((before.here_cell() + 1) as u16),
            ),
        }
    }

    /// `if`: appends a branch that is taken on zero, with a cell that waits
    /// for its target, and remembers the cell.
    pub fn compile_if(&mut self) -> (r: Result<(), Error>)
        requires
            old(self).wf(),
        ensures
            final(self).wf(),
            Self::compile_if_effect(old(self), final(self), r),
    {
        self.open_with(Builtin::ZeroBranch, OpenKind::If)
    }

    /// What `compile_while` does to the machine: `before` is the machine as the word
    /// finds it, `after` as it leaves it, and `r` what it returns.
    pub open spec fn compile_while_effect(before: &Self, after: &Self, r: Result<(),
        Error>) -> bool {
        &&& after.same_but(before, Touch::control())
        &&& match before.ready_spec(Some(Builtin::ZeroBranch), 2, 1) {
            Err(e) => r == Err::<(), Error>(e) && *after == *before,
            Ok(xt) => r == Ok::<(), Error>(()) && after.compiled(
                before,
                seq![xt, Word { data: 0 }],
                None,
            ) && after.control_stack@ == before.control_stack@.push(
                ControlFrame::While((before.here_cell() + 1) as u16),
            ),
        }
    }

    /// `while`: as `if`; the cell is resolved by `repeat`.
    pub fn compile_while(&mut self) -> (r: Result<(), Error>)
        requires
            old(self).wf(),
        ensures
            final(self).wf(),
            Self::compile_while_effect(old(self), final(self), r),
    {
        self.open_with(Builtin::ZeroBranch, OpenKind::While)
    }

    /// What `compile_do` does to the machine: `before` is the machine as the word
    /// finds it, `after` as it leaves it, and `r` what it returns.
    pub open spec fn compile_do_effect(before: &Self, after: &Self, r: Result<(), Error>) -> bool {
        &&& after.same_but(before, Touch::control())
        &&& match before.ready_spec(Some(Builtin::DoRun), 2, 1) {
            Err(e) => r == Err::<(), Error>(e) && *after == *before,
            Ok(xt) => r == Ok::<(), Error>(()) && after.compiled(
                before,
                seq![xt, Word { data: 0 }],
                None,
            ) && after.control_stack@ == before.control_stack@.push(
                ControlFrame::Do((before.here_cell() + 1) as u16),
            ),
        }
    }

    /// `do`: appends the word that starts a counted loop, with a cell that
    /// waits for the address after the loop, and remembers the cell. The
    /// body of the loop starts after it.
    pub fn compile_do(&mut self) -> (r: Result<(), Error>)
        requires
            old(self).wf(),
        ensures
            final(self).wf(),
            Self::compile_do_effect(old(self), final(self), r),
    {
        self.open_with(Builtin::DoRun, OpenKind::Do)
    }

    /// Appends the native word `b` and a cell that waits for a target, and
    /// pushes the frame of kind `kind` for that cell.
    fn open_with(&mut self, b: Builtin, kind: OpenKind) -> (r: Result<(), Error>)
        requires
            old(self).wf(),
        ensures
            final(self).wf(),
            final(self).same_but(old(self), Touch::control()),
            match old(self).ready_spec(Some(b), 2, 1) {
                Err(e) => r == Err::<(), Error>(e) && *final(self) == *old(self),
                Ok(xt) => r == Ok::<(), Error>(()) && final(self).compiled(
                    old(self),
                    seq![xt, Word { data: 0 }],
                    None,
                ) && final(self).control_stack@ == old(self).control_stack@.push(
                    kind.frame((old(self).here_cell() + 1) as u16),
                ),
            },
    {
        let xt = match self.ready(Some(b), 2, 1) {
            Ok(x) => x,
            Err(e) => {
                return Err(e);
            },
        };
        let slot = match &self.pending {
            Some(p) => p.builder.len + 1,
            None => 0,
        };
        self.emit_pair(xt, Word { data: 0 });
        let frame = match kind {
            OpenKind::If => ControlFrame::If(slot),
            OpenKind::While => ControlFrame::While(slot),
            OpenKind::Do => ControlFrame::Do(slot),
        };
        let _ = self.control_stack.push(frame);
        Ok(())
    }

    /// What `compile_begin` does to the machine: `before` is the machine as the word
    /// finds it, `after` as it leaves it, and `r` what it returns.
    pub open spec fn compile_begin_effect(before: &Self, after: &Self, r: Result<(),
        Error>) -> bool {
        &&& after.same_but(before, Touch::control())
        &&& after.dict == before.dict
        &&& after.pending == before.pending
        &&& after.mode == before.mode
        &&& match before.ready_spec(None, 0, 1) {
            Err(e) => r == Err::<(), Error>(e) && *after == *before,
            Ok(_) => r == Ok::<(), Error>(())
                && after.control_stack@
                == before.control_stack@.push(ControlFrame::Begin(before.here_cell() as u16)),
        }
    }

    /// `begin`: remembers the cell that comes next as the start of a loop.
    pub fn compile_begin(&mut self) -> (r: Result<(), Error>)
        requires
            old(self).wf(),
        ensures
            final(self).wf(),
            Self::compile_begin_effect(old(self), final(self), r),
    {
        match self.ready(None, 0, 1) {
            Ok(_) => {},
            Err(e) => {
                return Err(e);
            },
        }
        let here = match &self.pending {
            Some(p) => p.builder.len,
            None => 0,
        };
        let _ = self.control_stack.push(ControlFrame::Begin(here));
        Ok(())
    }

    /// The frame on top of the control stack, if the stack holds one.
    pub open spec fn open_frame(&self) -> Option<ControlFrame> {
        if self.control_stack@.len() > 0 {
            Some(self.control_stack@.last())
        } else {
            None
        }
    }

    /// What `compile_then` does to the machine: `before` is the machine as the word
    /// finds it, `after` as it leaves it, and `r` what it returns.
    pub open spec fn compile_then_effect(before: &Self, after: &Self, r: Result<(),
        Error>) -> bool {
        &&& after.same_but(before, Touch::control())
        &&& ({
            let here = before.here_cell();
            if before.pending is None {
                r == Err::<(), Error>(Error::CompileOnlyWord) && *after == *before
            } else {
                match before.open_frame() {
                    Some(ControlFrame::If(slot)) | Some(ControlFrame::Else(slot)) => if slot
                        < here {
                        r == Ok::<(), Error>(()) && after.compiled(
                            before,
                            Seq::empty(),
                            Some((slot as int, here)),
                        ) && after.control_stack@ == before.control_stack@.drop_last()
                    } else {
                        r == Err::<(), Error>(Error::UnbalancedControlFlow) && *after
                            == *before
                    },
                    _ => r == Err::<(), Error>(Error::UnbalancedControlFlow) && *after
                        == *before,
                }
            }
        })
    }

    /// `then`: resolves the branch of the `if` or `else` that is open: its
    /// cell gets the address of the cell that comes next. Fails with
    /// `CompileOnlyWord` outside a definition and with
    /// `UnbalancedControlFlow` where no `if` or `else` is open; nothing has
    /// changed then.
    pub fn compile_then(&mut self) -> (r: Result<(), Error>)
        requires
            old(self).wf(),
        ensures
            final(self).wf(),
            Self::compile_then_effect(old(self), final(self), r),
    {
        let here = match &self.pending {
            Some(p) => p.builder.len,
            None => {
                return Err(Error::CompileOnlyWord);
            },
        };
        let slot = match self.control_stack.peek() {
            Some(ControlFrame::If(s)) => s,
            Some(ControlFrame::Else(s)) => s,
            _ => {
                return Err(Error::UnbalancedControlFlow);
            },
        };
        if slot >= here {
            return Err(Error::UnbalancedControlFlow);
        }
        proof {
            lemma_cells_bytes_pair(Word { data: 0 }, Word { data: 0 });
            assert(self.dict.dict.alloc.mem@ + cells_bytes(Seq::<Word>::empty())
                =~= self.dict.dict.alloc.mem@);
        }
        let ghost cells = Seq::<Word>::empty();
        self.fix(slot, here, Ghost(&*old(self)), Ghost(cells));
        let _ = self.control_stack.pop();
        Ok(())
    }

    /// What `compile_else` does to the machine: `before` is the machine as the word
    /// finds it, `after` as it leaves it, and `r` what it returns.
    pub open spec fn compile_else_effect(before: &Self, after: &Self, r: Result<(),
        Error>) -> bool {
        &&& after.same_but(before, Touch::control())
        &&& ({
            let here = before.here_cell();
            if before.pending is None {
                r == Err::<(), Error>(Error::CompileOnlyWord) && *after == *before
            } else {
                match before.open_frame() {
                    Some(ControlFrame::If(slot)) => if slot < here {
                        match before.ready_spec(Some(Builtin::Branch), 2, 0) {
                            Err(e) => r == Err::<(), Error>(e) && *after == *before,
                            Ok(xt) => r == Ok::<(), Error>(()) && after.compiled(
                                before,
                                seq![xt, Word { data: 0 }],
                                Some((slot as int, here + 2)),
                            ) && after.control_stack@ == before.control_stack@.drop_last().push(
                                ControlFrame::Else((here + 1) as u16),
                            ),
                        }
                    } else {
                        r == Err::<(), Error>(Error::UnbalancedControlFlow) && *after
                            == *before
                    },
                    _ => r == Err::<(), Error>(Error::UnbalancedControlFlow) && *after
                        == *before,
                }
            }
        })
    }

    /// `else`: appends a branch with a cell that waits for its target,
    /// resolves the branch of the open `if` to the cell after it, and
    /// remembers the new cell. Fails with `CompileOnlyWord` outside a
    /// definition, with `UnbalancedControlFlow` where no `if` is open, and as
    /// `ready_spec` says; nothing has changed then.
    pub fn compile_else(&mut self) -> (r: Result<(), Error>)
        requires
            old(self).wf(),
        ensures
            final(self).wf(),
            Self::compile_else_effect(old(self), final(self), r),
    {
        let here = match &self.pending {
            Some(p) => p.builder.len,
            None => {
                return Err(Error::CompileOnlyWord);
            },
        };
        let slot = match self.control_stack.peek() {
            Some(ControlFrame::If(s)) => s,
            _ => {
                return Err(Error::UnbalancedControlFlow);
            },
        };
        if slot >= here {
            return Err(Error::UnbalancedControlFlow);
        }
        let xt = match self.ready(Some(Builtin::Branch), 2, 0) {
            Ok(x) => x,
            Err(e) => {
                return Err(e);
            },
        };
        self.emit_pair(xt, Word { data: 0 });
        let ghost cells = seq![xt, Word { data: 0 }];
        self.fix(slot, here + 2, Ghost(&*old(self)), Ghost(cells));
        let _ = self.control_stack.pop();
        let _ = self.control_stack.push(ControlFrame::Else(here + 1));
        Ok(())
    }

    /// What `compile_until` does to the machine: `before` is the machine as the word
    /// finds it, `after` as it leaves it, and `r` what it returns.
    pub open spec fn compile_until_effect(before: &Self, after: &Self, r: Result<(),
        Error>) -> bool {
        &&& after.same_but(before, Touch::control())
        &&& ({
            if before.pending is None {
                r == Err::<(), Error>(Error::CompileOnlyWord) && *after == *before
            } else {
                match before.open_frame() {
                    Some(ControlFrame::Begin(target)) => match before.ready_spec(
                        Some(Builtin::ZeroBranch),
                        2,
                        0,
                    ) {
                        Err(e) => r == Err::<(), Error>(e) && *after == *before,
                        Ok(xt) => r == Ok::<(), Error>(()) && after.compiled(
                            before,
                            seq![xt, Word { data: target as i32 }],
                            None,
                        ) && after.control_stack@ == before.control_stack@.drop_last(),
                    },
                    _ => r == Err::<(), Error>(Error::UnbalancedControlFlow) && *after
                        == *before,
                }
            }
        })
    }

    /// `until`: appends a branch back to the open `begin` that is taken on
    /// zero. Fails with `CompileOnlyWord` outside a definition, with
    /// `UnbalancedControlFlow` where no `begin` is open, and as `ready_spec`
    /// says; nothing has changed then.
    pub fn compile_until(&mut self) -> (r: Result<(), Error>)
        requires
            old(self).wf(),
        ensures
            final(self).wf(),
            Self::compile_until_effect(old(self), final(self), r),
    {
        if self.pending.is_none() {
            return Err(Error::CompileOnlyWord);
        }
        let target = match self.control_stack.peek() {
            Some(ControlFrame::Begin(t)) => t,
            _ => {
                return Err(Error::UnbalancedControlFlow);
            },
        };
        let xt = match self.ready(Some(Builtin::ZeroBranch), 2, 0) {
            Ok(x) => x,
            Err(e) => {
                return Err(e);
            },
        };
        self.emit_pair(xt, Word { data: target as i32 });
        let _ = self.control_stack.pop();
        Ok(())
    }

    /// What `compile_loop` does to the machine: `before` is the machine as the word
    /// finds it, `after` as it leaves it, and `r` what it returns.
    pub open spec fn compile_loop_effect(before: &Self, after: &Self, r: Result<(),
        Error>) -> bool {
        &&& after.same_but(before, Touch::control())
        &&& ({
            let here = before.here_cell();
            if before.pending is None {
                r == Err::<(), Error>(Error::CompileOnlyWord) && *after == *before
            } else {
                match before.open_frame() {
                    Some(ControlFrame::Do(slot)) => if slot < here {
                        match before.ready_spec(Some(Builtin::LoopRun), 2, 0) {
                            Err(e) => r == Err::<(), Error>(e) && *after == *before,
                            Ok(xt) => r == Ok::<(), Error>(()) && after.compiled(
                                before,
                                seq![xt, Word { data: (slot + 1) as i32 }],
                                Some((slot as int, here + 2)),
                            ) && after.control_stack@ == before.control_stack@.drop_last(),
                        }
                    } else {
                        r == Err::<(), Error>(Error::UnbalancedControlFlow) && *after
                            == *before
                    },
                    _ => r == Err::<(), Error>(Error::UnbalancedControlFlow) && *after
                        == *before,
                }
            }
        })
    }

    /// `loop`: appends the word that ends a counted loop with the address of
    /// the loop's body, and resolves the cell of the open `do` to the cell
    /// after it. Fails with `CompileOnlyWord` outside a definition, with
    /// `UnbalancedControlFlow` where no `do` is open, and as `ready_spec`
    /// says; nothing has changed then.
    pub fn compile_loop(&mut self) -> (r: Result<(), Error>)
        requires
            old(self).wf(),
        ensures
            final(self).wf(),
            Self::compile_loop_effect(old(self), final(self), r),
    {
        let here = match &self.pending {
            Some(p) => p.builder.len,
            None => {
                return Err(Error::CompileOnlyWord);
            },
        };
        let slot = match self.control_stack.peek() {
            Some(ControlFrame::Do(s)) => s,
            _ => {
                return Err(Error::UnbalancedControlFlow);
            },
        };
        if slot >= here {
            return Err(Error::UnbalancedControlFlow);
        }
        let xt = match self.ready(Some(Builtin::LoopRun), 2, 0) {
            Ok(x) => x,
            Err(e) => {
                return Err(e);
            },
        };
        let body = Word { data: (slot as i32) + 1 };
        self.emit_pair(xt, body);
        let ghost cells = seq![xt, body];
        self.fix(slot, here + 2, Ghost(&*old(self)), Ghost(cells));
        let _ = self.control_stack.pop();
        Ok(())
    }

    /// What `compile_repeat` does to the machine: `before` is the machine as the word
    /// finds it, `after` as it leaves it, and `r` what it returns.
    pub open spec fn compile_repeat_effect(before: &Self, after: &Self, r: Result<(),
        Error>) -> bool {
        &&& after.same_but(before, Touch::control())
        &&& ({
            let here = before.here_cell();
            let c = before.control_stack@;
            if before.pending is None {
                r == Err::<(), Error>(Error::CompileOnlyWord) && *after == *before
            } else if c.len() >= 2 && c[c.len() - 1] is While && c[c.len() - 2] is Begin
                && c[c.len() - 1]->While_0 < here {
                    let slot = c[c.len() - 1]->While_0;
                    let target = c[c.len() - 2]->Begin_0;
                    match before.ready_spec(Some(Builtin::Branch), 2, 0) {
                        Err(e) => r == Err::<(), Error>(e) && *after == *before,
                        Ok(xt) => r == Ok::<(), Error>(()) && after.compiled(
                            before,
                            seq![xt, Word { data: target as i32 }],
                            Some((slot as int, here + 2)),
                        ) && after.control_stack@ == c.take(c.len() - 2),
                    }
                } else {
                r == Err::<(), Error>(Error::UnbalancedControlFlow) && *after == *before
            }
        })
    }

    /// `repeat`: appends a branch back to the `begin` of the open `while`,
    /// and resolves the branch of the `while` to the cell after it. Fails
    /// with `CompileOnlyWord` outside a definition, with
    /// `UnbalancedControlFlow` unless a `while` is open with a `begin`
    /// beneath it, and as `ready_spec` says; nothing has changed then.
    pub fn compile_repeat(&mut self) -> (r: Result<(), Error>)
        requires
            old(self).wf(),
        ensures
            final(self).wf(),
            Self::compile_repeat_effect(old(self), final(self), r),
    {
        let here = match &self.pending {
            Some(p) => p.builder.len,
            None => {
                return Err(Error::CompileOnlyWord);
            },
        };
        let slot = match self.control_stack.peek() {
            Some(ControlFrame::While(s)) => s,
            _ => {
                return Err(Error::UnbalancedControlFlow);
            },
        };
        let target = match self.control_stack.peek_back_n(1) {
            Some(ControlFrame::Begin(t)) => t,
            _ => {
                return Err(Error::UnbalancedControlFlow);
            },
        };
        if slot >= here {
            return Err(Error::UnbalancedControlFlow);
        }
        let xt = match self.ready(Some(Builtin::Branch), 2, 0) {
            Ok(x) => x,
            Err(e) => {
                return Err(e);
            },
        };
        let back = Word { data: target as i32 };
        self.emit_pair(xt, back);
        let ghost cells = seq![xt, back];
        self.fix(slot, here + 2, Ghost(&*old(self)), Ghost(cells));
        let _ = self.control_stack.pop();
        let _ = self.control_stack.pop();
        assert(self.control_stack@ =~= old(self).control_stack@.take(
            old(self).control_stack@.len() - 2,
        ));
        Ok(())
    }
}

/// The control structures that start with a cell waiting for its target.
#[derive(Debug, Clone, Copy, PartialEq, Eq, Structural)]
pub enum OpenKind {
    If,
    While,
    Do,
}

impl OpenKind {
    /// The frame of this kind for the cell `slot`.
    pub open spec fn frame(self, slot: u16) -> ControlFrame {
        match self {
            OpenKind::If => ControlFrame::If(slot),
            OpenKind::While => ControlFrame::While(slot),
            OpenKind::Do => ControlFrame::Do(slot),
        }
    }
}

} // verus!
