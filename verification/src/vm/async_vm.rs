//! The machine for hosts whose native words suspend.
//!
//! Some native words of a host take time: they wait for a timer, a device
//! or another task. The machine does not wait. When it comes to such a
//! word it hands the word's name to the host and returns; the host runs the
//! word, for as long as it takes, and then tells the machine how it ended.
//! The machine picks up where it left.

use vstd::prelude::*;
use vstd::string::StringSliceAdditionalSpecFns;
use crate::builtin::WordFunc;
use crate::dictionary::{AsyncBuiltinEntry, BuiltinEntry, OwnedDict};
use crate::fastr::FaStr;
use crate::input::WordStrBuf;
use crate::output::OutputBuf;
use crate::vm::builtins::Touch;
use crate::vm::process::prompt;
use crate::vm::{EntryRef, Error, Forth, HostWords, ProcessAction, Step};

verus! {

/// A machine that suspends on the native words of the host that take time.
pub struct AsyncForth<T> {
    pub vm: Forth<T>,
}

/// What a step of the machine found.
pub enum AsyncStep {
    /// The call stack is empty: nothing is left to run.
    Done,
    /// A step was taken.
    NotDone,
    /// The word on top of the call stack is the suspending native word of
    /// this name: the host is to run it and to report how it ended.
    Await(FaStr),
}

/// What the host tells the machine.
pub enum LineEvent {
    /// To process the line in the input buffer.
    Start,
    /// That the word the machine was waiting for has ended with this result.
    Resumed(Result<(), Error>),
}

/// What the machine tells the host.
pub enum LineAction {
    /// The line is done, with this result.
    Finished(Result<(), Error>),
    /// The line waits for the host to run the suspending native word of
    /// this name.
    Await(FaStr),
}

impl<T> AsyncForth<T> {
    /// The name of the suspending native word on top of the call stack, if
    /// that is what is on top.
    pub open spec fn awaited(&self) -> Option<Seq<u8>> {
        match self.vm.running() {
            Some(f) => match f.eh {
                EntryRef::AsyncBuiltin(i) => if i < self.vm.async_builtins@.len() {
                    Some(self.vm.async_builtins@[i as int].hdr.name@)
                } else {
                    None
                },
                _ => None,
            },
            None => None,
        }
    }

    /// A machine as `Forth::new_async` makes it.
    pub fn new(
        dstack_cap: usize,
        rstack_cap: usize,
        cstack_cap: usize,
        dict: OwnedDict,
        input: WordStrBuf,
        output: OutputBuf,
        host_ctxt: T,
        sync_builtins: Vec<BuiltinEntry>,
        async_builtins: Vec<AsyncBuiltinEntry>,
    ) -> (r: Result<Self, Error>)
        requires
            dict.dict.wf(),
            input.wf(),
            output.wf(),
        ensures
            sync_builtins@.len() > 0x1_0000 || async_builtins@.len() > 0x1_0000 ==> r is Err
                && r->Err_0 == Error::DictionaryFull,
            sync_builtins@.len() <= 0x1_0000 && async_builtins@.len() <= 0x1_0000 ==> r is Ok
                && r->Ok_0.vm.wf() && r->Ok_0.vm.started(dstack_cap, rstack_cap, cstack_cap)
                && r->Ok_0.vm.dict == dict && r->Ok_0.vm.input == input && r->Ok_0.vm.output
                == output && r->Ok_0.vm.host_ctxt == host_ctxt && r->Ok_0.vm.builtins
                == sync_builtins && r->Ok_0.vm.async_builtins == async_builtins,
    {
        match Forth::new_async(
            dstack_cap,
            rstack_cap,
            cstack_cap,
            dict,
            input,
            output,
            host_ctxt,
            sync_builtins,
            async_builtins,
        ) {
            Ok(vm) => Ok(AsyncForth { vm }),
            Err(e) => Err(e),
        }
    }

    /// The output buffer.
    pub fn output(&self) -> (o: &OutputBuf)
        ensures
            *o == self.vm.output,
    {
        &self.vm.output
    }

    /// The output buffer, to be changed.
    pub fn output_mut(&mut self) -> (o: &mut OutputBuf)
        ensures
            *o == old(self).vm.output,
            final(self).vm == (Forth { output: *final(o), ..old(self).vm }),
    {
        &mut self.vm.output
    }

    /// The input buffer, to be filled.
    pub fn input_mut(&mut self) -> (i: &mut WordStrBuf)
        ensures
            *i == old(self).vm.input,
            final(self).vm == (Forth { input: *final(i), ..old(self).vm }),
    {
        &mut self.vm.input
    }

    /// The machine itself.
    pub fn vm_mut(&mut self) -> (vm: &mut Forth<T>)
        ensures
            *vm == old(self).vm,
            final(self).vm == *final(vm),
    {
        &mut self.vm
    }

    /// Adds a native word as `Forth::add_builtin_static_name` does.
    pub fn add_sync_builtin_static_name(&mut self, name: &'static str, bi: WordFunc) -> (r: Result<
        (),
        Error,
    >)
        requires
            old(self).vm.wf(),
        ensures
            final(self).vm.wf(),
            final(self).vm.same_but(&old(self).vm, Touch::data_dict()),
            Forth::added_static_builtin(&old(self).vm, &final(self).vm, name.spec_bytes(), bi, r),
    {
        self.vm.add_builtin_static_name(name, bi)
    }

    /// Adds a native word as `Forth::add_builtin` does.
    pub fn add_sync_builtin(&mut self, name: &str, bi: WordFunc) -> (r: Result<(), Error>)
        requires
            old(self).vm.wf(),
        ensures
            final(self).vm.wf(),
            final(self).vm.same_but(&old(self).vm, Touch::data_dict()),
            Forth::added_builtin(&old(self).vm, &final(self).vm, name.spec_bytes(), bi, r),
    {
        self.vm.add_builtin(name, bi)
    }

    /// Tells the machine how the word it was waiting for has ended: as
    /// after any other word, the word's frame is dropped on success and kept
    /// where the word asks to be entered again; any other error ends the
    /// step.
    pub fn resume(&mut self, res: Result<(), Error>) -> (r: Result<Step, Error>)
        requires
            old(self).vm.wf(),
        ensures
            final(self).vm.wf(),
            final(self).vm.same_but(&old(self).vm, Touch::calls()),
            match res {
                Ok(()) => r == Ok::<Step, Error>(Step::NotDone) && final(self).vm.call_stack@ == (
                if old(self).vm.call_stack@.len() > 0 {
                    old(self).vm.call_stack@.drop_last()
                } else {
                    old(self).vm.call_stack@
                }),
                Err(Error::PendingCallAgain) => r == Ok::<Step, Error>(Step::NotDone)
                    && final(self).vm == old(self).vm,
                Err(e) => r == Err::<Step, Error>(e) && final(self).vm == old(self).vm,
            },
    {
        self.vm.after_word(res)
    }
}

impl<T: HostWords> AsyncForth<T> {
    /// What `async_pig` does: where the word on top of the call stack is a
    /// suspending native word, nothing changes and the step asks for the
    /// word by its name; otherwise the step is that of `Forth::steppa_pig`.
    pub open spec fn pig_stepped(before: &Self, after: &Self, r: Result<AsyncStep, Error>) -> bool {
        match before.awaited() {
            Some(name) => after.vm == before.vm && (r matches Ok(AsyncStep::Await(n)) && n@
                == name),
            None => exists|s: Result<Step, Error>| #[trigger]
                Forth::stepped(&before.vm, &after.vm, s) && match s {
                    Ok(Step::Done) => r matches Ok(AsyncStep::Done),
                    Ok(Step::NotDone) => r matches Ok(AsyncStep::NotDone),
                    Err(e) => r matches Err(x) && x == e,
                },
        }
    }

    /// One step of the inner interpreter, as `Forth::steppa_pig` takes it,
    /// but for a suspending native word on top of the call stack: then
    /// nothing changes, and the step asks the host to run the word.
    pub fn async_pig(&mut self) -> (r: Result<AsyncStep, Error>)
        requires
            old(self).vm.wf(),
        ensures
            final(self).vm.wf(),
            old(self).vm.call_stack@.len() == 0 <==> r matches Ok(AsyncStep::Done),
            old(self).vm.call_stack@.len() == 0 ==> final(self).vm == old(self).vm,
            old(self).awaited() is Some <==> r matches Ok(AsyncStep::Await(_)),
            !(r matches Err(Error::PendingCallAgain)),
            Self::pig_stepped(old(self), final(self), r),
    {
        let top = match self.vm.call_stack.try_peek() {
            Ok(t) => t,
            Err(_) => {
                proof {
                    assert(Forth::stepped(&old(self).vm, &self.vm, Ok(Step::Done)));
                }
                return Ok(AsyncStep::Done);
            },
        };
        match top.eh {
            EntryRef::AsyncBuiltin(i) => {
                if (i as usize) < self.vm.async_builtins.len() {
                    return Ok(AsyncStep::Await(self.vm.async_builtins[i as usize].hdr.name.clone()));
                }
            },
            _ => {},
        }
        let s = self.vm.steppa_pig();
        proof {
            assert(Forth::stepped(&old(self).vm, &self.vm, s));
        }
        match s {
            Ok(Step::Done) => Ok(AsyncStep::Done),
            Ok(Step::NotDone) => Ok(AsyncStep::NotDone),
            Err(e) => Err(e),
        }
    }

    /// Whether the machine, from the state `state` and with `left` steps
    /// left, runs to the state `after` and halts there as `halt` says. The
    /// run is that of `Forth::ran`, but for the steps of the inner
    /// interpreter, which are those of `async_pig`: the run halts at a
    /// suspending native word.
    pub open spec fn ran(
        state: &Self,
        running: bool,
        left: nat,
        after: &Self,
        halt: Halt,
    ) -> bool
        decreases left,
    {
        if left == 0 {
            after.vm == state.vm && halt == Halt::Finished(Err(Error::StepLimit))
        } else if running {
            exists|mid: Self, r: Result<AsyncStep, Error>| #[trigger]
                Self::pig_stepped(state, &mid, r) && mid.vm.wf() && match r {
                    Ok(AsyncStep::Done) => Self::ran(&mid, false, (left - 1) as nat, after, halt),
                    Ok(AsyncStep::NotDone) => Self::ran(&mid, true, (left - 1) as nat, after, halt),
                    Ok(AsyncStep::Await(n)) => after.vm == mid.vm && halt == Halt::Await(n@),
                    Err(e) => after.vm == mid.vm && halt == Halt::Finished(Err(e)),
                }
        } else {
            exists|mid: Self, r: Result<ProcessAction, Error>| #[trigger]
                Forth::token_done(&state.vm, &mid.vm, r) && mid.vm.wf() && match r {
                    Ok(ProcessAction::Done) => after.vm == mid.vm && halt == Halt::Finished(Ok(())),
                    Ok(ProcessAction::Continue) => Self::ran(
                        &mid,
                        false,
                        (left - 1) as nat,
                        after,
                        halt,
                    ),
                    Ok(ProcessAction::Execute) => Self::ran(
                        &mid,
                        true,
                        (left - 1) as nat,
                        after,
                        halt,
                    ),
                    Err(e) => after.vm == mid.vm && halt == Halt::Finished(
                        Err(
                            if e == Error::PendingCallAgain {
                                Error::BadAddress
                            } else {
                                e
                            },
                        ),
                    ),
                }
        }
    }

    /// Whether the run that halted in the state `end` as `halt` says leaves
    /// the machine as `after` and answers `a`: a run that halted at a
    /// suspending native word leaves the machine as it is and asks for the
    /// word; a line that ran to its end is finished as
    /// `Forth::line_ended` says.
    pub open spec fn halted(end: &Self, after: &Self, halt: Halt, a: LineAction) -> bool {
        match halt {
            Halt::Await(name) => after.vm == end.vm && (a matches LineAction::Await(n) && n@
                == name),
            Halt::Finished(outcome) => a matches LineAction::Finished(r) && Forth::line_ended(
                &end.vm,
                &after.vm,
                outcome,
                r,
            ),
        }
    }

    /// What `process_line` does. When the host reports the end of a word,
    /// the word's frame is dealt with as `Forth::after_word_effect` says,
    /// and an error of the word ends the line, the machine reset. Then, as
    /// at the start of a line, the machine runs as `ran` says from where it
    /// is, with words running if the call stack holds any, for at most as
    /// many steps as its step limit, and the run ends as `halted` says.
    pub open spec fn line_processed(
        before: &Self,
        event: LineEvent,
        after: &Self,
        a: LineAction,
    ) -> bool {
        exists|begun: Self, failed: Option<Error>| #[trigger]
            Self::begun(before, event, &begun, failed) && begun.vm.wf() && match failed {
                Some(e) => (a matches LineAction::Finished(r) && r == Err::<(), Error>(e))
                    && Forth::reset_effect(&begun.vm, &after.vm),
                None => exists|end: Self, halt: Halt|
                    Self::ran(
                        &begun,
                        begun.vm.call_stack@.len() != 0,
                        begun.vm.step_limit as nat,
                        &end,
                        halt,
                    ) && end.vm.wf() && #[trigger] Self::halted(&end, after, halt, a),
            }
    }

    /// Whether the event `event` takes the machine from `before` to `begun`,
    /// with the error `failed` if the word that the event reports has
    /// failed.
    pub open spec fn begun(
        before: &Self,
        event: LineEvent,
        begun: &Self,
        failed: Option<Error>,
    ) -> bool {
        match event {
            LineEvent::Start => begun.vm == before.vm && failed is None,
            LineEvent::Resumed(res) => exists|r: Result<Step, Error>| #[trigger]
                Forth::after_word_effect(&before.vm, &begun.vm, res, r) && failed == (match r {
                    Ok(_) => None::<Error>,
                    Err(e) => Some(e),
                }),
        }
    }

    /// Processes the line in the input buffer as `Forth::process_line`
    /// does, up to the next suspending native word or to the end of the
    /// line. The host starts a line with `LineEvent::Start`. Whenever the
    /// machine answers `LineAction::Await`, the host runs the word of that
    /// name and calls again with what the word returned. The line is over
    /// when the machine answers `LineAction::Finished`: on success the
    /// prompt has been printed last, and the call stack and the return
    /// stack are empty; on failure all stacks are empty and a definition
    /// that was being compiled is given up.
    pub fn process_line(&mut self, event: LineEvent) -> (a: LineAction)
        requires
            old(self).vm.wf(),
        ensures
            final(self).vm.wf(),
            a matches LineAction::Finished(Ok(_)) ==> final(self).vm.call_stack@.len() == 0
                && final(self).vm.return_stack@.len() == 0 && final(self).vm.output@.len() >= 4
                && final(self).vm.output@.subrange(
                    final(self).vm.output@.len() - 4,
                    final(self).vm.output@.len() as int,
                ) == prompt(),
            a matches LineAction::Finished(Err(e)) ==> final(self).vm.is_reset() && e
                != Error::PendingCallAgain,
            a matches LineAction::Await(name) ==> final(self).awaited() == Some(name@),
            Self::line_processed(old(self), event, final(self), a),
    {
        let mut failed: Option<Error> = None;
        match event {
            LineEvent::Start => {},
            LineEvent::Resumed(res) => {
                let r = self.vm.after_word(res);
                proof {
                    assert(Forth::after_word_effect(&old(self).vm, &self.vm, res, r));
                }
                match r {
                    Ok(_) => {},
                    Err(e) => {
                        failed = Some(e);
                    },
                }
            },
        }
        let ghost begun = *self;
        assert(Self::begun(old(self), event, &begun, failed));
        if let Some(e) = failed {
            self.vm.reset();
            return LineAction::Finished(Err(e));
        }
        let mut left = self.vm.step_limit;
        let mut running = self.vm.call_stack.depth() != 0;
        let mut outcome: Result<(), Error> = Err(Error::StepLimit);
        let ghost running0 = running;
        let ghost limit = left as nat;
        loop
            invariant_except_break
                !running ==> self.vm.call_stack@.len() == 0,
                outcome == Err::<(), Error>(Error::StepLimit),
                forall|x: Self, h: Halt| #[trigger]
                    Self::ran(self, running, left as nat, &x, h) ==> Self::ran(
                        &begun,
                        running0,
                        limit,
                        &x,
                        h,
                    ),
            invariant
                self.vm.wf(),
                begun.vm.wf(),
                Self::begun(old(self), event, &begun, None),
                running0 == (begun.vm.call_stack@.len() != 0),
                limit == begun.vm.step_limit,
            ensures
                self.vm.wf(),
                outcome is Ok ==> self.vm.call_stack@.len() == 0,
                outcome != Err::<(), Error>(Error::PendingCallAgain),
                Self::ran(&begun, running0, limit, self, Halt::Finished(outcome)),
            decreases left,
        {
            if left == 0 {
                proof {
                    assert(Self::ran(self, running, 0, self, Halt::Finished(outcome)));
                }
                break ;
            }
            let ghost cur = *self;
            let ghost was_running = running;
            let ghost had = left as nat;
            left -= 1;
            if running {
                let step = self.async_pig();
                proof {
                    assert(Self::pig_stepped(&cur, self, step));
                }
                match step {
                    Ok(AsyncStep::Done) => {
                        running = false;
                    },
                    Ok(AsyncStep::NotDone) => {},
                    Ok(AsyncStep::Await(name)) => {
                        proof {
                            let halt = Halt::Await(name@);
                            assert(Self::ran(&cur, was_running, had, self, halt));
                            assert(Self::ran(&begun, running0, limit, self, halt));
                            let a = LineAction::Await(name);
                            assert(Self::halted(self, self, halt, a));
                        }
                        return LineAction::Await(name);
                    },
                    Err(e) => {
                        outcome = Err(e);
                        proof {
                            assert(Self::ran(&cur, was_running, had, self,
                                Halt::Finished(outcome)));
                        }
                        break ;
                    },
                }
            } else {
                let action = self.vm.start_processing_line();
                proof {
                    assert(Forth::token_done(&cur.vm, &self.vm, action));
                }
                match action {
                    Ok(ProcessAction::Done) => {
                        outcome = Ok(());
                        proof {
                            assert(Self::ran(&cur, was_running, had, self,
                                Halt::Finished(outcome)));
                        }
                        break ;
                    },
                    Ok(ProcessAction::Continue) => {},
                    Ok(ProcessAction::Execute) => {
                        running = true;
                    },
                    Err(e) => {
                        outcome = if e == Error::PendingCallAgain {
                            Err(Error::BadAddress)
                        } else {
                            Err(e)
                        };
                        proof {
                            assert(Self::ran(&cur, was_running, had, self,
                                Halt::Finished(outcome)));
                        }
                        break ;
                    },
                }
            }
            proof {
                assert forall|x: Self, h: Halt| #[trigger]
                    Self::ran(self, running, left as nat, &x, h) implies Self::ran(
                    &begun,
                    running0,
                    limit,
                    &x,
                    h,
                ) by {
                    assert(Self::ran(&cur, was_running, had, &x, h));
                }
            }
        }
        let ghost end = *self;
        let done = match outcome {
            Ok(()) => self.vm.finish_line(),
            Err(e) => Err(e),
        };
        let ghost mid = *self;
        let r: Result<(), Error> = match done {
            Ok(()) => Ok(()),
            Err(e) => {
                self.vm.reset();
                Err(e)
            },
        };
        proof {
            if outcome is Ok {
                assert(Forth::finish_line_effect(&end.vm, &mid.vm, done));
            }
            assert(Forth::line_ended(&end.vm, &self.vm, outcome, r));
            assert(Self::halted(&end, self, Halt::Finished(outcome), LineAction::Finished(r)));
        }
        LineAction::Finished(r)
    }
}

/// How a run of the suspending machine halts.
pub ghost enum Halt {
    /// The line is over, with this outcome.
    Finished(Result<(), Error>),
    /// The run has come to the suspending native word of this name.
    Await(Seq<u8>),
}

/// The suspending native words of a host: their names, and the way to run
/// one. A host that waits in earnest runs the machine through
/// `AsyncForth::process_line` and does the waiting itself; `dispatch_async`
/// is for a host that can run a word to its end at once.
pub trait AsyncBuiltins<T> {
    /// Whether `table` is the table of the suspending native words. It is
    /// named for the proofs only: nothing ever calls it.
    spec fn is_table(&self, table: &Vec<AsyncBuiltinEntry>) -> bool;

    /// Whether the suspending native word named `id` can take the machine
    /// from `before` to `after` and return `r`. It is named for the proofs
    /// only: nothing ever calls it.
    spec fn dispatched(
        &self,
        id: &FaStr,
        before: &Forth<T>,
        after: &Forth<T>,
        r: Result<(), Error>,
    ) -> bool;

    /// The table of the suspending native words.
    fn builtins(&self) -> (v: Vec<AsyncBuiltinEntry>)
        ensures
            self.is_table(&v),
    ;

    /// Runs the suspending native word named `id` to its end. The word may
    /// do to the machine what it likes, as long as it leaves it well formed.
    fn dispatch_async(&self, id: &FaStr, forth: &mut Forth<T>) -> (r: Result<(), Error>)
        requires
            old(forth).wf(),
        ensures
            final(forth).wf(),
            self.dispatched(id, old(forth), final(forth), r),
    ;
}

/// A host without suspending native words.
pub struct NoAsyncBuiltins;

impl AsyncBuiltins<()> for NoAsyncBuiltins {
    open spec fn is_table(&self, table: &Vec<AsyncBuiltinEntry>) -> bool {
        table@.len() == 0
    }

    open spec fn dispatched(
        &self,
        id: &FaStr,
        before: &Forth<()>,
        after: &Forth<()>,
        r: Result<(), Error>,
    ) -> bool {
        *after == *before && r == Err::<(), Error>(Error::UnknownWord)
    }

    fn builtins(&self) -> (v: Vec<AsyncBuiltinEntry>) {
        Vec::new()
    }

    fn dispatch_async(&self, id: &FaStr, forth: &mut Forth<()>) -> (r: Result<(), Error>) {
        Err(Error::UnknownWord)
    }
}

impl<T: HostWords> AsyncForth<T> {
    /// Whether blocking on a line with the dispatcher `d` takes the machine
    /// from `state`, where the event `event` is due, to `after` and returns
    /// `r`, with `left` calls of `process_line` left: each call does what
    /// `line_processed` says; when the machine asks for a suspending native
    /// word, the line goes on as `resumes` says. Without calls left the
    /// machine is reset and the line fails with `StepLimit`.
    pub open spec fn blocked<D: AsyncBuiltins<T>>(
        d: &D,
        state: &Self,
        event: LineEvent,
        left: nat,
        after: &Self,
        r: Result<(), Error>,
    ) -> bool
        decreases left, 0nat,
    {
        if left == 0 {
            Forth::reset_effect(&state.vm, &after.vm) && r == Err::<(), Error>(Error::StepLimit)
        } else {
            exists|mid: Self, a: LineAction| #[trigger]
                Self::line_processed(state, event, &mid, a) && mid.vm.wf() && match a {
                    LineAction::Finished(res) => after.vm == mid.vm && r == res,
                    LineAction::Await(name) => Self::resumes(
                        d,
                        &mid,
                        name,
                        (left - 1) as nat,
                        after,
                        r,
                    ),
                }
        }
    }

    /// Whether a line that waits in the state `waiting` for the suspending
    /// native word `name` goes on to `after` and returns `r`: the
    /// dispatcher `d` runs the word, as `woke` says; the machine is told
    /// how the word ended, and blocks on from there.
    pub open spec fn resumes<D: AsyncBuiltins<T>>(
        d: &D,
        waiting: &Self,
        name: FaStr,
        left: nat,
        after: &Self,
        r: Result<(), Error>,
    ) -> bool
        decreases left, 1nat,
    {
        exists|woken: Self, res: Result<(), Error>| #[trigger]
            Self::woke(d, waiting, name, &woken, res) && Self::blocked(
                d,
                &woken,
                LineEvent::Resumed(res),
                left,
                after,
                r,
            )
    }

    /// Whether the dispatcher `d`, asked for the suspending native word
    /// `name`, takes the machine from `waiting` to `woken` and returns
    /// `res`: the word does what the dispatcher says under
    /// `AsyncBuiltins::dispatched`, and leaves a machine that is well
    /// formed.
    pub open spec fn woke<D: AsyncBuiltins<T>>(
        d: &D,
        waiting: &Self,
        name: FaStr,
        woken: &Self,
        res: Result<(), Error>,
    ) -> bool {
        d.dispatched(&name, &waiting.vm, &woken.vm, res) && woken.vm.wf()
    }

    /// Processes the line in the input buffer to its end, running every
    /// suspending native word through `dispatcher` as soon as the machine
    /// asks for it. Ends as `Forth::process_line` does. The line also fails
    /// with `StepLimit` where it asks for more suspending words than the
    /// machine's step limit.
    pub fn block_on_line<D: AsyncBuiltins<T>>(&mut self, dispatcher: &D) -> (r: Result<(), Error>)
        requires
            old(self).vm.wf(),
        ensures
            final(self).vm.wf(),
            r is Ok ==> final(self).vm.call_stack@.len() == 0
                && final(self).vm.return_stack@.len() == 0 && final(self).vm.output@.len() >= 4
                && final(self).vm.output@.subrange(
                final(self).vm.output@.len() - 4,
                final(self).vm.output@.len() as int,
            ) == prompt(),
            r is Err ==> final(self).vm.is_reset(),
            Self::blocked(
                dispatcher,
                old(self),
                LineEvent::Start,
                old(self).vm.step_limit as nat,
                final(self),
                r,
            ),
    {
        let mut left = self.vm.step_limit;
        let mut event = LineEvent::Start;
        let ghost start = *self;
        let ghost limit = left as nat;
        loop
            invariant_except_break
                forall|x: Self, o: Result<(), Error>| #[trigger]
                    Self::blocked(dispatcher, self, event, left as nat, &x, o) ==> Self::blocked(
                        dispatcher,
                        &start,
                        LineEvent::Start,
                        limit,
                        &x,
                        o,
                    ),
            invariant
                self.vm.wf(),
                start == *old(self),
                limit == old(self).vm.step_limit,
            ensures
                self.vm.wf(),
                self.vm.is_reset(),
                Self::blocked(
                    dispatcher,
                    &start,
                    LineEvent::Start,
                    limit,
                    self,
                    Err::<(), Error>(Error::StepLimit),
                ),
            decreases left,
        {
            if left == 0 {
                let ghost cur = *self;
                self.vm.reset();
                proof {
                    assert(Self::blocked(
                        dispatcher,
                        &cur,
                        event,
                        0,
                        self,
                        Err::<(), Error>(Error::StepLimit),
                    ));
                }
                break ;
            }
            let ghost cur = *self;
            let ghost due = event;
            let ghost had = left as nat;
            left -= 1;
            let action = self.process_line(event);
            let ghost mid = *self;
            let ghost act = action;
            proof {
                assert(Self::line_processed(&cur, due, &mid, act));
            }
            match action {
                LineAction::Finished(r) => {
                    proof {
                        assert(act is Finished);
                        assert(Self::blocked(dispatcher, &cur, due, had, self, r));
                    }
                    return r;
                },
                LineAction::Await(name) => {
                    let res = dispatcher.dispatch_async(&name, &mut self.vm);
                    event = LineEvent::Resumed(res);
                    proof {
                        assert(mid == (AsyncForth { vm: mid.vm }));
                        assert(*self == (AsyncForth { vm: self.vm }));
                        assert forall|x: Self, o: Result<(), Error>| #[trigger]
                            Self::blocked(dispatcher, self, event, left as nat, &x, o)
                            implies Self::blocked(
                            dispatcher,
                            &start,
                            LineEvent::Start,
                            limit,
                            &x,
                            o,
                        ) by {
                            assert(Self::blocked(
                                dispatcher,
                                self,
                                LineEvent::Resumed(res),
                                (had - 1) as nat,
                                &x,
                                o,
                            ));
                            assert(Self::woke(dispatcher, &mid, name, self, res));
                            assert(Self::resumes(
                                dispatcher,
                                &mid,
                                name,
                                (had - 1) as nat,
                                &x,
                                o,
                            ));
                            assert(Self::blocked(dispatcher, &cur, due, had, &x, o));
                        }
                    }
                },
            }
        }
        Err(Error::StepLimit)
    }
}

} // verus!
