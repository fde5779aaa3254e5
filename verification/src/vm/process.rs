//! The inner interpreter and the processing of a line.

use vstd::prelude::*;
use crate::builtin::{Builtin, WordFunc};
use crate::fastr::folded;
use crate::input::advanced;
use crate::num::{literal_spec, parse_literal, Literal};
use crate::stack::StackError;
use crate::vm::builtins::{BinOp, Touch, UnOp};
use crate::vm::compile::Plan;
use crate::vm::{CallContext, Error, Forth, HostWords, Mode, ProcessAction, Step};
use crate::word::Word;

verus! {

impl Touch {
    /// Every part of the machine that a word can change at all.
    pub open spec fn anything() -> Touch {
        Touch {
            data: true,
            ret: true,
            calls: true,
            control: true,
            dict: true,
            input: true,
            output: true,
            compiling: true,
            host: false,
        }
    }
}

/// The prompt that ends the output of a line: `ok.` and a line feed.
pub open spec fn prompt() -> Seq<u8> {
    seq![0x6fu8, 0x6bu8, 0x2eu8, 0x0au8]
}

impl<T: HostWords> Forth<T> {
    /// What the native word `b` does to the machine: `before` is the machine
    /// as the word finds it, `after` as it leaves it, and `r` what the word
    /// returns.
    pub open spec fn effect(b: Builtin, before: &Self, after: &Self, r: Result<(), Error>) -> bool {
        match b {
            Builtin::Add => Self::binary_effect(BinOp::Add, before, after, r),
            Builtin::Sub => Self::binary_effect(BinOp::Sub, before, after, r),
            Builtin::Mul => Self::binary_effect(BinOp::Mul, before, after, r),
            Builtin::Div => Self::binary_effect(BinOp::Div, before, after, r),
            Builtin::Mod => Self::binary_effect(BinOp::Mod, before, after, r),
            Builtin::Min => Self::binary_effect(BinOp::Min, before, after, r),
            Builtin::Max => Self::binary_effect(BinOp::Max, before, after, r),
            Builtin::And => Self::bitand_effect(before, after, r),
            Builtin::Or => Self::bitor_effect(before, after, r),
            Builtin::Xor => Self::bitxor_effect(before, after, r),
            Builtin::Lshift => Self::bitshl_effect(before, after, r),
            Builtin::Rshift => Self::bitshr_effect(before, after, r),
            Builtin::Equal => Self::binary_effect(BinOp::Equal, before, after, r),
            Builtin::NotEqual => Self::binary_effect(BinOp::NotEqual, before, after, r),
            Builtin::Less => Self::binary_effect(BinOp::Less, before, after, r),
            Builtin::Greater => Self::binary_effect(BinOp::Greater, before, after, r),
            Builtin::Abs => Self::unary_effect(UnOp::Abs, before, after, r),
            Builtin::Negate => Self::unary_effect(UnOp::Negate, before, after, r),
            Builtin::Invert => Self::unary_effect(UnOp::Invert, before, after, r),
            Builtin::ZeroEqual => Self::unary_effect(UnOp::ZeroEqual, before, after, r),
            Builtin::ZeroLess => Self::unary_effect(UnOp::ZeroLess, before, after, r),
            Builtin::Cells => Self::unary_effect(UnOp::Cells, before, after, r),
            Builtin::Dup => Self::dup_effect(before, after, r),
            Builtin::Drop => Self::drop_effect(before, after, r),
            Builtin::Swap => Self::swap_effect(before, after, r),
            Builtin::Over => Self::over_effect(before, after, r),
            Builtin::Rot => Self::rot_effect(before, after, r),
            Builtin::TwoDup => Self::two_dup_effect(before, after, r),
            Builtin::TwoDrop => Self::two_drop_effect(before, after, r),
            Builtin::Depth => Self::depth_effect(before, after, r),
            Builtin::ToR => Self::to_r_effect(before, after, r),
            Builtin::RFrom => Self::r_from_effect(before, after, r),
            Builtin::RFetch => Self::r_fetch_effect(before, after, r),
            Builtin::LoopIndex => Self::r_fetch_effect(before, after, r),
            Builtin::Emit => Self::emit_effect(before, after, r),
            Builtin::Dot => Self::dot_effect(before, after, r),
            Builtin::DotS => Self::dot_s_effect(before, after, r),
            Builtin::Cr => Self::cr_effect(before, after, r),
            Builtin::Space => Self::space_effect(before, after, r),
            Builtin::DotQuote => Self::dot_quote_effect(before, after, r),
            Builtin::Paren => Self::paren_effect(before, after, r),
            Builtin::Colon => Self::colon_effect(before, after, r),
            Builtin::Semicolon => Self::semicolon_effect(before, after, r),
            Builtin::Variable => Self::variable_effect(before, after, r),
            Builtin::Constant => Self::constant_effect(before, after, r),
            Builtin::Create => Self::create_effect(before, after, r),
            Builtin::See => Self::see_effect(before, after, r),
            Builtin::Words => Self::words_effect(before, after, r),
            Builtin::If => Self::compile_if_effect(before, after, r),
            Builtin::Else => Self::compile_else_effect(before, after, r),
            Builtin::Then => Self::compile_then_effect(before, after, r),
            Builtin::Do => Self::compile_do_effect(before, after, r),
            Builtin::Loop => Self::compile_loop_effect(before, after, r),
            Builtin::Begin => Self::compile_begin_effect(before, after, r),
            Builtin::Until => Self::compile_until_effect(before, after, r),
            Builtin::While => Self::compile_while_effect(before, after, r),
            Builtin::Repeat => Self::compile_repeat_effect(before, after, r),
            Builtin::Fetch => Self::fetch_effect(before, after, r),
            Builtin::Store => Self::store_effect(before, after, r),
            Builtin::CFetch => Self::c_fetch_effect(before, after, r),
            Builtin::CStore => Self::c_store_effect(before, after, r),
            Builtin::Allot => Self::allot_effect(before, after, r),
            Builtin::Here => Self::here_effect(before, after, r),
            Builtin::Comma => Self::comma_effect(before, after, r),
            Builtin::Interpret => Self::interpret_effect(before, after, r),
            Builtin::Literal => Self::literal_effect(before, after, r),
            Builtin::Branch => Self::branch_effect(before, after, r),
            Builtin::ZeroBranch => Self::zero_branch_effect(before, after, r),
            Builtin::DoRun => Self::do_run_effect(before, after, r),
            Builtin::LoopRun => Self::loop_run_effect(before, after, r),
            Builtin::Exit => Self::exit_effect(before, after, r),
            Builtin::WriteStr => Self::write_str_effect(before, after, r),
            Builtin::VariableRun => Self::variable_run_effect(before, after, r),
            Builtin::ConstantRun => Self::constant_run_effect(before, after, r),
        }
    }

    /// Runs the native word `b`. Every word leaves the machine well formed;
    /// every word but `!` and `c!`, which can store in the memory of the
    /// host, leaves the host context alone; and an immediate word leaves
    /// the data stack, the return stack and the call stack alone.
    pub fn native(&mut self, b: Builtin) -> (r: Result<(), Error>)
        requires
            old(self).wf(),
        ensures
            final(self).wf(),
            Self::effect(b, old(self), final(self), r),
            final(self).same_but(old(self), Touch { host: true, ..Touch::anything() }),
            b != Builtin::Store && b != Builtin::CStore ==> final(self).host_ctxt
                == old(self).host_ctxt,
            b.immediate() ==> final(self).data_stack == old(self).data_stack
                && final(self).return_stack == old(self).return_stack
                && final(self).call_stack == old(self).call_stack,
    {
        match b {
            Builtin::Add => self.binop(BinOp::Add),
            Builtin::Sub => self.binop(BinOp::Sub),
            Builtin::Mul => self.binop(BinOp::Mul),
            Builtin::Div => self.binop(BinOp::Div),
            Builtin::Mod => self.binop(BinOp::Mod),
            Builtin::Min => self.binop(BinOp::Min),
            Builtin::Max => self.binop(BinOp::Max),
            Builtin::And => self.bitand(),
            Builtin::Or => self.bitor(),
            Builtin::Xor => self.bitxor(),
            Builtin::Lshift => self.bitshl(),
            Builtin::Rshift => self.bitshr(),
            Builtin::Equal => self.binop(BinOp::Equal),
            Builtin::NotEqual => self.binop(BinOp::NotEqual),
            Builtin::Less => self.binop(BinOp::Less),
            Builtin::Greater => self.binop(BinOp::Greater),
            Builtin::Abs => self.unop(UnOp::Abs),
            Builtin::Negate => self.unop(UnOp::Negate),
            Builtin::Invert => self.unop(UnOp::Invert),
            Builtin::ZeroEqual => self.unop(UnOp::ZeroEqual),
            Builtin::ZeroLess => self.unop(UnOp::ZeroLess),
            Builtin::Cells => self.unop(UnOp::Cells),
            Builtin::Dup => self.dup(),
            Builtin::Drop => self.drop(),
            Builtin::Swap => self.swap(),
            Builtin::Over => self.over(),
            Builtin::Rot => self.rot(),
            Builtin::TwoDup => self.two_dup(),
            Builtin::TwoDrop => self.two_drop(),
            Builtin::Depth => self.depth(),
            Builtin::ToR => self.to_r(),
            Builtin::RFrom => self.r_from(),
            Builtin::RFetch => self.r_fetch(),
            Builtin::LoopIndex => self.r_fetch(),
            Builtin::Emit => self.emit(),
            Builtin::Dot => self.dot(),
            Builtin::DotS => self.dot_s(),
            Builtin::Cr => self.cr(),
            Builtin::Space => self.space(),
            Builtin::DotQuote => self.dot_quote(),
            Builtin::Paren => self.paren(),
            Builtin::Colon => self.colon(),
            Builtin::Semicolon => self.semicolon(),
            Builtin::Variable => self.variable(),
            Builtin::Constant => self.constant(),
            Builtin::Create => self.create(),
            Builtin::See => self.see(),
            Builtin::Words => self.words(),
            Builtin::If => self.compile_if(),
            Builtin::Else => self.compile_else(),
            Builtin::Then => self.compile_then(),
            Builtin::Do => self.compile_do(),
            Builtin::Loop => self.compile_loop(),
            Builtin::Begin => self.compile_begin(),
            Builtin::Until => self.compile_until(),
            Builtin::While => self.compile_while(),
            Builtin::Repeat => self.compile_repeat(),
            Builtin::Fetch => self.fetch(),
            Builtin::Store => self.store(),
            Builtin::CFetch => self.c_fetch(),
            Builtin::CStore => self.c_store(),
            Builtin::Allot => self.allot(),
            Builtin::Here => self.here(),
            Builtin::Comma => self.comma(),
            Builtin::Interpret => self.interpret(),
            Builtin::Literal => self.literal(),
            Builtin::Branch => self.branch(),
            Builtin::ZeroBranch => self.zero_branch(),
            Builtin::DoRun => self.do_run(),
            Builtin::LoopRun => self.loop_run(),
            Builtin::Exit => self.exit(),
            Builtin::WriteStr => self.write_str(),
            Builtin::VariableRun => self.variable_run(),
            Builtin::ConstantRun => self.constant_run(),
        }
    }

    /// What the machine does with the token `tok` outside a definition: a
    /// word is entered, anything else is read as a number and pushed.
    pub open spec fn interpret_plan(&self, tok: Seq<u8>) -> Result<Option<CallContext>, Error> {
        match self.find_spec(tok) {
            Some(e) => match self.info_spec(e) {
                Some(info) => Ok(Some(CallContext { eh: e, idx: 0, len: info.len })),
                None => Err(Error::BadAddress),
            },
            None => match literal_spec(tok) {
                Literal::Number(_) => Ok(None),
                Literal::Overflow => Err(Error::NumberOverflow),
                Literal::Malformed => Err(Error::BadLiteral),
                Literal::NotANumber => Err(Error::UnknownWord),
            },
        }
    }

    /// What `interpret_token` does with the token `tok`.
    pub open spec fn interpret_token_effect(
        before: &Self,
        after: &Self,
        tok: Seq<u8>,
        r: Result<ProcessAction, Error>,
    ) -> bool {
        &&& after.same_but(before, Touch::data_calls())
        &&& match before.interpret_plan(tok) {
            Err(e) => r == Err::<ProcessAction, Error>(e) && *after == *before,
            Ok(Some(f)) => after.data_stack == before.data_stack
                && if before.call_stack@.len() < before.call_stack.cap() {
                    r == Ok::<ProcessAction, Error>(ProcessAction::Execute)
                        && after.call_stack@ == before.call_stack@.push(f)
                } else {
                r == Err::<ProcessAction, Error>(Error::Stack(StackError::StackOverflow))
                    && after.call_stack@ == before.call_stack@
            },
            Ok(None) => after.call_stack == before.call_stack
                && if before.data_stack@.len() < before.data_stack.cap() {
                    r == Ok::<ProcessAction, Error>(ProcessAction::Continue)
                        && after.data_stack@ == before.data_stack@.push(
                            Word { data: literal_spec(tok)->Number_0 },
                        )
                } else {
                r == Err::<ProcessAction, Error>(Error::Stack(StackError::StackOverflow))
                    && after.data_stack@ == before.data_stack@
            },
        }
    }

    /// Deals with the token `tok` outside a definition: puts the word it
    /// names on the call stack, to be run, or pushes the number it spells.
    /// Fails, nothing changed, with `UnknownWord`, `BadLiteral` or
    /// `NumberOverflow` where the token is neither, and with `StackOverflow`
    /// where the stack in question is full.
    pub fn interpret_token(&mut self, tok: &[u8]) -> (r: Result<ProcessAction, Error>)
        requires
            old(self).wf(),
        ensures
            final(self).wf(),
            Self::interpret_token_effect(old(self), final(self), tok@, r),
    {
        match self.find_word(tok) {
            Some(e) => {
                let info = match self.info(e) {
                    Some(i) => i,
                    None => {
                        return Err(Error::BadAddress);
                    },
                };
                match self.call_stack.push(CallContext { eh: e, idx: 0, len: info.len }) {
                    Ok(()) => Ok(ProcessAction::Execute),
                    Err(err) => Err(Error::Stack(err)),
                }
            },
            None => match parse_literal(tok) {
                Literal::Number(n) => match self.push_data(Word { data: n }) {
                    Ok(()) => Ok(ProcessAction::Continue),
                    Err(e) => Err(e),
                },
                Literal::Overflow => Err(Error::NumberOverflow),
                Literal::Malformed => Err(Error::BadLiteral),
                Literal::NotANumber => Err(Error::UnknownWord),
            },
        }
    }

    /// What `compile_token` does with the token `tok`.
    pub open spec fn compile_token_effect(
        before: &Self,
        after: &Self,
        tok: Seq<u8>,
        r: Result<(), Error>,
    ) -> bool {
        &&& after.same_but(before, Touch::anything())
        &&& after.data_stack == before.data_stack
        &&& after.return_stack == before.return_stack
        &&& after.call_stack == before.call_stack
        &&& match before.compile_plan(tok) {
            Plan::Fail(e) => r == Err::<(), Error>(e) && *after == *before,
            Plan::Emit(w) => if before.can_emit(1) {
                &&& r == Ok::<(), Error>(())
                &&& after.emitted(before, seq![w])
                &&& after.control_stack == before.control_stack
                &&& after.input == before.input
                &&& after.output == before.output
            } else {
                &&& *after == *before
                &&& r == Err::<(), Error>(
                    if before.pending is None {
                        Error::CompileOnlyWord
                    } else {
                        Error::DictionaryFull
                    },
                )
            },
            Plan::Literal(n) => match before.ready_spec(Some(Builtin::Literal), 2, 0) {
                Err(e) => r == Err::<(), Error>(e) && *after == *before,
                Ok(xt) => r == Ok::<(), Error>(()) && after.emitted(
                    before,
                    seq![xt, Word { data: n }],
                ) && after.control_stack == before.control_stack && after.input == before.input
                    && after.output == before.output,
            },
            Plan::Immediate(b) => Self::effect(b, before, after, r),
        }
    }

    /// Deals with the token `tok` inside a definition, as `compile_plan`
    /// says: appends to the definition, or runs an immediate word. An
    /// immediate word does what its method states.
    pub fn compile_token(&mut self, tok: &[u8]) -> (r: Result<(), Error>)
        requires
            old(self).wf(),
        ensures
            final(self).wf(),
            Self::compile_token_effect(old(self), final(self), tok@, r),
    {
        match self.plan(tok) {
            Plan::Fail(e) => Err(e),
            Plan::Emit(w) => self.emit_cell(w),
            Plan::Literal(n) => self.compile_literal(n),
            Plan::Immediate(b) => {
                proof {
                    assert(b.immediate());
                }
                self.native(b)
            },
        }
    }

    /// Takes the next token of the line and deals with it. At the end of the
    /// line it reports `Done` and does nothing else. Outside a definition
    /// the token goes to `interpret_token`, inside one to `compile_token`,
    /// in both cases with its capital letters folded to small ones.
    pub fn start_processing_line(&mut self) -> (r: Result<ProcessAction, Error>)
        requires
            old(self).wf(),
        ensures
            final(self).wf(),
            final(self).same_but(old(self), Touch::anything()),
            final(self).return_stack == old(self).return_stack,
            r != Ok::<ProcessAction, Error>(ProcessAction::Execute) ==> final(self).call_stack@
                == old(self).call_stack@,
            r == Ok::<ProcessAction, Error>(ProcessAction::Execute) ==> old(self).mode
                == Mode::Interpret,
            advanced(old(self).input@.rest).cur is None <==> r == Ok::<ProcessAction, Error>(
                ProcessAction::Done,
            ),
            advanced(old(self).input@.rest).cur is None ==> final(self).input@ == advanced(
                old(self).input@.rest,
            ) && final(self).same_but(old(self), Touch { input: true, ..Touch::nothing() }),
            old(self).mode == Mode::Interpret ==> final(self).input@ == advanced(
                old(self).input@.rest,
            ) && final(self).same_but(
                old(self),
                Touch { input: true, data: true, calls: true, ..Touch::nothing() },
            ),
            Self::token_done(old(self), final(self), r),
    {
        self.input.advance();
        let ghost mid = *self;
        let tok = match self.input.cur_word() {
            Some(t) => t,
            None => {
                return Ok(ProcessAction::Done);
            },
        };
        match self.mode {
            Mode::Interpret => {
                let res = self.interpret_token(tok.as_slice());
                proof {
                    assert(Self::token_read(old(self), &mid));
                    assert(Self::interpret_token_effect(&mid, self, tok@, res));
                }
                res
            },
            Mode::Compile => {
                let res = self.compile_token(tok.as_slice());
                proof {
                    assert(Self::token_read(old(self), &mid));
                    assert(Self::compile_token_effect(&mid, self, tok@, res));
                }
                match res {
                    Ok(()) => Ok(ProcessAction::Continue),
                    Err(e) => Err(e),
                }
            },
        }
    }

    /// Whether `mid` is `before` with the next token of the line read.
    pub open spec fn token_read(before: &Self, mid: &Self) -> bool {
        &&& mid.wf()
        &&& mid.same_but(before, Touch { input: true, ..Touch::nothing() })
        &&& mid.input@ == advanced(before.input@.rest)
    }

    /// What `start_processing_line` does. At the end of the line it reports
    /// `Done`. Otherwise it reads the next token and folds its capital
    /// letters; outside a definition the token is dealt with as
    /// `interpret_token_effect` says, inside one as `compile_token_effect`
    /// says, which is reported as `Continue` where it succeeds.
    pub open spec fn token_done(
        before: &Self,
        after: &Self,
        r: Result<ProcessAction, Error>,
    ) -> bool {
        match advanced(before.input@.rest).cur {
            None => r == Ok::<ProcessAction, Error>(ProcessAction::Done) && Self::token_read(
                before,
                after,
            ),
            Some(t) => exists|mid: Self| #[trigger]
                Self::token_read(before, &mid) && match before.mode {
                    Mode::Interpret => Self::interpret_token_effect(&mid, after, folded(t), r),
                    Mode::Compile => exists|res: Result<(), Error>| #[trigger]
                        Self::compile_token_effect(&mid, after, folded(t), res) && r == (match res {
                            Ok(()) => Ok::<ProcessAction, Error>(ProcessAction::Continue),
                            Err(e) => Err::<ProcessAction, Error>(e),
                        }),
                },
        }
    }

    /// What `reset` does.
    pub open spec fn reset_effect(before: &Self, after: &Self) -> bool {
        &&& after.same_but(
            before,
            Touch {
                data: true,
                ret: true,
                calls: true,
                control: true,
                compiling: true,
                ..Touch::nothing()
            },
        )
        &&& after.is_reset()
    }

    /// Empties the four stacks and gives up the definition that is being
    /// compiled, if any: the arena keeps what the definition took, and
    /// nothing links to it.
    pub fn reset(&mut self)
        requires
            old(self).wf(),
        ensures
            final(self).wf(),
            Self::reset_effect(old(self), final(self)),
    {
        self.data_stack.clear();
        self.return_stack.clear();
        self.call_stack.clear();
        self.control_stack.clear();
        self.pending = None;
        self.mode = Mode::Interpret;
    }

    /// All four stacks are empty and no definition is being compiled.
    pub open spec fn is_reset(&self) -> bool {
        &&& self.data_stack@.len() == 0
        &&& self.return_stack@.len() == 0
        &&& self.call_stack@.len() == 0
        &&& self.control_stack@.len() == 0
        &&& self.pending is None
        &&& self.mode == Mode::Interpret
    }
}

impl<T: HostWords> Forth<T> {
    /// Runs the code field `f`: a native word of the machine, or one of the
    /// host.
    pub fn run_func(&mut self, f: WordFunc) -> (r: Result<(), Error>)
        requires
            old(self).wf(),
        ensures
            final(self).wf(),
            f matches WordFunc::Native(b) ==> Self::effect(b, old(self), final(self), r),
            f matches WordFunc::Host(id) ==> T::called(old(self), id, final(self), r),
    {
        match f {
            WordFunc::Native(b) => self.native(b),
            WordFunc::Host(id) => T::call(self, id),
        }
    }

    /// What a step of the inner interpreter does. With an empty call stack
    /// it reports `Done`. Otherwise the word on top of the call stack runs:
    /// a native word of the machine does what `effect` says, and then its
    /// frame is dealt with as `after_word_effect` says. A native word of the
    /// host does what the host says under `HostWords::called`, and then its
    /// frame is dealt with in the same way.
    pub open spec fn stepped(before: &Self, after: &Self, r: Result<Step, Error>) -> bool {
        match before.running() {
            None => r == Ok::<Step, Error>(Step::Done) && *after == *before,
            Some(f) => match before.info_spec(f.eh) {
                None => r == Err::<Step, Error>(Error::BadAddress) && *after == *before,
                Some(info) => match info.func {
                    None => r == Err::<Step, Error>(Error::UnknownWord) && *after == *before,
                    Some(WordFunc::Native(b)) => exists|mid: Self, res: Result<(), Error>|
                        #[trigger] Self::effect(b, before, &mid, res) && mid.wf()
                            && Self::after_word_effect(&mid, after, res, r),
                    Some(WordFunc::Host(id)) => exists|mid: Self, res: Result<(), Error>|
                        #[trigger] T::called(before, id, &mid, res) && mid.wf()
                            && Self::after_word_effect(&mid, after, res, r),
                },
            },
        }
    }

    /// One step of the inner interpreter: runs the code field of the word on
    /// top of the call stack. The word's frame is dropped when the word
    /// reports success, and kept when it asks to be entered again. With an
    /// empty call stack nothing happens and the step reports `Done`. Fails
    /// with `BadAddress` where the frame refers to no entry, with
    /// `UnknownWord` where it refers to a suspending native word, which this
    /// interpreter cannot run, and with the error of the word.
    pub fn steppa_pig(&mut self) -> (r: Result<Step, Error>)
        requires
            old(self).wf(),
        ensures
            final(self).wf(),
            old(self).call_stack@.len() == 0 <==> r == Ok::<Step, Error>(Step::Done),
            old(self).call_stack@.len() == 0 ==> *final(self) == *old(self),
            r != Err::<Step, Error>(Error::PendingCallAgain),
            Self::stepped(old(self), final(self), r),
    {
        let top = match self.call_stack.try_peek() {
            Ok(t) => t,
            Err(_) => {
                return Ok(Step::Done);
            },
        };
        let info = match self.info(top.eh) {
            Some(i) => i,
            None => {
                return Err(Error::BadAddress);
            },
        };
        let f = match info.func {
            Some(f) => f,
            None => {
                return Err(Error::UnknownWord);
            },
        };
        let res = self.run_func(f);
        let ghost mid = *self;
        let r = self.after_word(res);
        proof {
            assert(mid.wf());
            assert(Self::after_word_effect(&mid, self, res, r));
            match f {
                WordFunc::Native(b) => {
                    assert(Self::effect(b, old(self), &mid, res));
                },
                WordFunc::Host(id) => {
                    assert(T::called(old(self), id, &mid, res));
                },
            }
        }
        r
    }

    /// Whether the machine, from the state `state` and with `left` steps
    /// left, runs to the state `after` with the outcome `outcome`. While
    /// words are running, as `running` says, a step is a step of the inner
    /// interpreter, which ends the running when the call stack is empty.
    /// Otherwise a step deals with the next token of the line; the line ends
    /// with success when no token is left. The first step that fails ends
    /// the run with its error, and so does the lack of steps, with
    /// `StepLimit`.
    pub open spec fn ran(
        state: &Self,
        running: bool,
        left: nat,
        after: &Self,
        outcome: Result<(), Error>,
    ) -> bool
        decreases left,
    {
        if left == 0 {
            *after == *state && outcome == Err::<(), Error>(Error::StepLimit)
        } else if running {
            exists|mid: Self, r: Result<Step, Error>| #[trigger]
                Self::stepped(state, &mid, r) && mid.wf() && match r {
                    Ok(Step::Done) => Self::ran(&mid, false, (left - 1) as nat, after, outcome),
                    Ok(Step::NotDone) => Self::ran(&mid, true, (left - 1) as nat, after, outcome),
                    Err(e) => *after == mid && outcome == Err::<(), Error>(e),
                }
        } else {
            exists|mid: Self, r: Result<ProcessAction, Error>| #[trigger]
                Self::token_done(state, &mid, r) && mid.wf() && match r {
                    Ok(ProcessAction::Done) => *after == mid && outcome == Ok::<(), Error>(()),
                    Ok(ProcessAction::Continue) => Self::ran(
                        &mid,
                        false,
                        (left - 1) as nat,
                        after,
                        outcome,
                    ),
                    Ok(ProcessAction::Execute) => Self::ran(
                        &mid,
                        true,
                        (left - 1) as nat,
                        after,
                        outcome,
                    ),
                    Err(e) => *after == mid && outcome == Err::<(), Error>(
                        if e == Error::PendingCallAgain {
                            Error::BadAddress
                        } else {
                            e
                        },
                    ),
                }
        }
    }

    /// Whether the line that ran to the state `end` with the outcome
    /// `outcome` leaves the machine as `after` and returns `r`: a line that
    /// ran to its end is finished as `finish_line_effect` says; where the run
    /// or the finish failed, the machine is reset.
    pub open spec fn line_ended(
        end: &Self,
        after: &Self,
        outcome: Result<(), Error>,
        r: Result<(), Error>,
    ) -> bool {
        match outcome {
            Ok(()) => exists|mid: Self, res: Result<(), Error>| #[trigger]
                Self::finish_line_effect(end, &mid, res) && mid.wf() && r == res && match res {
                    Ok(()) => *after == mid,
                    Err(_) => Self::reset_effect(&mid, after),
                },
            Err(e) => r == Err::<(), Error>(e) && Self::reset_effect(end, after),
        }
    }

    /// What `process_line` does: the machine runs from where it is, with
    /// words running if the call stack holds any, for at most as many steps
    /// as its step limit, and the line ends as `line_ended` says.
    pub open spec fn line_processed(before: &Self, after: &Self, r: Result<(), Error>) -> bool {
        exists|end: Self, outcome: Result<(), Error>|
            Self::ran(
                before,
                before.call_stack@.len() != 0,
                before.step_limit as nat,
                &end,
                outcome,
            ) && end.wf() && #[trigger] Self::line_ended(&end, after, outcome, r)
    }

    /// Processes the text in the input buffer to its end: every token is
    /// compiled, pushed as a number, or run as a word, with all the words it
    /// calls. On success the prompt `ok.` and a line feed have been printed
    /// last, and the call stack and the return stack are empty. On failure
    /// all stacks are empty, and a definition that was being compiled is
    /// given up. The line fails with the error of the token or word that
    /// failed; with `StepLimit` where it takes more steps than the machine's
    /// step limit; with `UnbalancedControlFlow` where it leaves cells on the
    /// return stack; and with `OutputFull` where the prompt does not fit.
    pub fn process_line(&mut self) -> (r: Result<(), Error>)
        requires
            old(self).wf(),
        ensures
            final(self).wf(),
            r is Ok ==> final(self).call_stack@.len() == 0 && final(self).return_stack@.len() == 0
                && final(self).output@.len() >= 4 && final(self).output@.subrange(
                    final(self).output@.len() - 4,
                    final(self).output@.len() as int,
                ) == prompt(),
            r is Ok ==> final(self).input@.cur is None && final(self).input@.rest.len() == 0,
            r is Err ==> final(self).is_reset(),
            r != Err::<(), Error>(Error::PendingCallAgain),
            Self::line_processed(old(self), final(self), r),
    {
        let mut left = self.step_limit;
        let mut running = self.call_stack.depth() != 0;
        let mut outcome: Result<(), Error> = Err(Error::StepLimit);
        let ghost start = *self;
        let ghost running0 = running;
        let ghost limit = left as nat;
        loop
            invariant_except_break
                !running ==> self.call_stack@.len() == 0,
                outcome == Err::<(), Error>(Error::StepLimit),
                forall|a: Self, o: Result<(), Error>| #[trigger]
                    Self::ran(self, running, left as nat, &a, o) ==> Self::ran(
                        &start,
                        running0,
                        limit,
                        &a,
                        o,
                    ),
            invariant
                self.wf(),
            ensures
                self.wf(),
                outcome is Ok ==> self.call_stack@.len() == 0 && self.input@.cur is None
                    && self.input@.rest.len() == 0,
                outcome != Err::<(), Error>(Error::PendingCallAgain),
                Self::ran(&start, running0, limit, self, outcome),
            decreases left,
        {
            if left == 0 {
                proof {
                    assert(Self::ran(self, running, 0, self, outcome));
                }
                break ;
            }
            let ghost cur = *self;
            let ghost was_running = running;
            let ghost had = left as nat;
            left -= 1;
            if running {
                let step = self.steppa_pig();
                proof {
                    assert(Self::stepped(&cur, self, step));
                }
                match step {
                    Ok(Step::Done) => {
                        running = false;
                    },
                    Ok(Step::NotDone) => {},
                    Err(e) => {
                        outcome = Err(e);
                        proof {
                            assert(Self::ran(&cur, was_running, had, self, outcome));
                        }
                        break ;
                    },
                }
            } else {
                let action = self.start_processing_line();
                proof {
                    assert(Self::token_done(&cur, self, action));
                }
                match action {
                    Ok(ProcessAction::Done) => {
                        outcome = Ok(());
                        proof {
                            assert(Self::ran(&cur, was_running, had, self, outcome));
                        }
                        break ;
                    },
                    Ok(ProcessAction::Continue) => {},
                    Ok(ProcessAction::Execute) => {
                        running = true;
                    },
                    Err(e) => {
                        outcome = if e == Error::PendingCallAgain {
                            Err(Error::BadAddress)
                        } else {
                            Err(e)
                        };
                        proof {
                            assert(Self::ran(&cur, was_running, had, self, outcome));
                        }
                        break ;
                    },
                }
            }
            proof {
                assert forall|a: Self, o: Result<(), Error>| #[trigger]
                    Self::ran(self, running, left as nat, &a, o) implies Self::ran(
                    &start,
                    running0,
                    limit,
                    &a,
                    o,
                ) by {
                    assert(Self::ran(&cur, was_running, had, &a, o));
                }
            }
        }
        let ghost end = *self;
        let done = match outcome {
            Ok(()) => self.finish_line(),
            Err(e) => Err(e),
        };
        let ghost mid = *self;
        let r = match done {
            Ok(()) => Ok(()),
            Err(e) => {
                self.reset();
                Err(e)
            },
        };
        proof {
            if outcome is Ok {
                assert(Self::finish_line_effect(&end, &mid, done));
            }
            assert(Self::line_ended(&end, self, outcome, r));
        }
        r
    }
}

impl<T> Forth<T> {
    /// What `after_word` does.
    pub open spec fn after_word_effect(
        before: &Self,
        after: &Self,
        res: Result<(), Error>,
        r: Result<Step, Error>,
    ) -> bool {
        &&& after.same_but(before, Touch::calls())
        &&& match res {
            Ok(()) => r == Ok::<Step, Error>(Step::NotDone)
                && after.call_stack@ == (if before.call_stack@.len()
                > 0 {
                before.call_stack@.drop_last()
            } else {
                before.call_stack@
            }),
            Err(Error::PendingCallAgain) => r == Ok::<Step, Error>(Step::NotDone) && *after
                == *before,
            Err(e) => r == Err::<Step, Error>(e) && *after == *before,
        }
    }

    /// What follows a word that returned `res`: its frame is dropped on
    /// success and kept where the word asks to be entered again; any other
    /// error ends the step.
    pub fn after_word(&mut self, res: Result<(), Error>) -> (r: Result<Step, Error>)
        requires
            old(self).wf(),
        ensures
            final(self).wf(),
            final(self).same_but(old(self), Touch::calls()),
            match res {
                Ok(()) => r == Ok::<Step, Error>(Step::NotDone)
                    && final(self).call_stack@ == (if old(self).call_stack@.len() > 0 {
                        old(self).call_stack@.drop_last()
                    } else {
                    old(self).call_stack@
                }),
                Err(Error::PendingCallAgain) => r == Ok::<Step, Error>(Step::NotDone)
                    && *final(self)
                    == *old(self),
                Err(e) => r == Err::<Step, Error>(e) && *final(self) == *old(self),
            },
    {
        match res {
            Ok(()) => {
                let _ = self.call_stack.pop();
                Ok(Step::NotDone)
            },
            Err(Error::PendingCallAgain) => Ok(Step::NotDone),
            Err(e) => Err(e),
        }
    }

    /// What `finish_line` does.
    pub open spec fn finish_line_effect(before: &Self, after: &Self, r: Result<(), Error>) -> bool {
        &&& after.same_but(before, Touch::output())
        &&& if before.return_stack@.len() > 0 {
            r == Err::<(), Error>(Error::UnbalancedControlFlow) && after.output == before.output
        } else {
        Self::printed(before, after, prompt(), r)
        }
    }

    /// Ends a line that ran to its end: prints the prompt. Fails with
    /// `UnbalancedControlFlow`, nothing printed, where the return stack
    /// holds cells, and with `OutputFull` where the prompt does not fit.
    pub fn finish_line(&mut self) -> (r: Result<(), Error>)
        requires
            old(self).wf(),
        ensures
            final(self).wf(),
            final(self).same_but(old(self), Touch::output()),
            if old(self).return_stack@.len() > 0 {
                r == Err::<(), Error>(Error::UnbalancedControlFlow)
                    && final(self).output == old(self).output
            } else {
                Self::printed(old(self), final(self), prompt(), r)
            },
    {
        if self.return_stack.depth() != 0 {
            return Err(Error::UnbalancedControlFlow);
        }
        let mut v: Vec<u8> = Vec::new();
        v.push(0x6f);
        v.push(0x6b);
        v.push(0x2e);
        v.push(0x0a);
        assert(v@ =~= prompt());
        self.print(v.as_slice())
    }
}

} // verus!
