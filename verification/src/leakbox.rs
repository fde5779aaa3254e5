//! Ready-made virtual machines that own all of their storage.

use vstd::prelude::*;
use crate::dictionary::{AsyncBuiltinEntry, BuiltinEntry, Dictionary, DropDict, OwnedDict};
use crate::input::{InputView, WordStrBuf};
use crate::output::OutputBuf;
use crate::vm::async_vm::AsyncForth;
use crate::vm::fork::{same_async_table, same_table};
use crate::vm::builtins::Touch;
use crate::vm::{Error, Forth};
use crate::word::ADDR_MAX;

verus! {

/// The capacities a virtual machine is built with.
#[derive(Debug, Clone, Copy, PartialEq, Eq, Structural)]
pub struct LBForthParams {
    pub data_stack_elems: usize,
    pub return_stack_elems: usize,
    pub control_stack_elems: usize,
    pub input_buf_elems: usize,
    pub output_buf_elems: usize,
    pub dict_buf_elems: usize,
}

impl LBForthParams {
    /// The capacities used when none are asked for.
    pub open spec fn standard() -> LBForthParams {
        LBForthParams {
            data_stack_elems: 256,
            return_stack_elems: 256,
            control_stack_elems: 256,
            input_buf_elems: 256,
            output_buf_elems: 256,
            dict_buf_elems: 4096,
        }
    }
}

impl Default for LBForthParams {
    fn default() -> (p: Self)
        ensures
            p == LBForthParams::standard(),
    {
        LBForthParams {
            data_stack_elems: 256,
            return_stack_elems: 256,
            control_stack_elems: 256,
            input_buf_elems: 256,
            output_buf_elems: 256,
            dict_buf_elems: 4096,
        }
    }
}

/// The address at which the dictionary of a machine made here starts. It is
/// not zero, so that no cell of a dictionary has the address zero.
pub const DICT_BOTTOM: usize = 0x1000;

/// An empty dictionary of `size` bytes from the address `bottom` on. `None`
/// where the dictionary would reach above the highest address.
pub fn alloc_dict(bottom: usize, size: usize) -> (r: Option<OwnedDict>)
    ensures
        bottom + size <= ADDR_MAX ==> r is Some && r.unwrap().dict.wf() && r.unwrap().dict.parent
            is None && r.unwrap().dict.entries@.len() == 0 && r.unwrap().dict.base == 0
            && r.unwrap().dict.alloc.start == bottom && r.unwrap().dict.alloc.cur == bottom
            && r.unwrap().dict.alloc.end == bottom + size,
        bottom + size > ADDR_MAX ==> r is None,
{
    if bottom > ADDR_MAX || size > ADDR_MAX - bottom {
        return None;
    }
    Some(OwnedDict::new(Dictionary::new(bottom, size)))
}

/// How the dictionaries made here are taken back: they own their storage,
/// which goes with them.
#[derive(Debug, Clone, Copy)]
pub struct LeakBoxDict;

impl DropDict for LeakBoxDict {
    fn drop_dict(dict: Dictionary) {
    }
}

/// A machine that owns all of its storage.
pub struct LBForth<T> {
    pub forth: Forth<T>,
}

/// A suspending machine that owns all of its storage.
pub struct AsyncLBForth<T> {
    pub forth: AsyncForth<T>,
}

/// Whether `forth` is a machine that has just been made with the capacities
/// `params`, its dictionary from `bottom` on.
pub open spec fn fresh<T>(forth: &Forth<T>, params: LBForthParams, bottom: usize) -> bool {
    &&& forth.wf()
    &&& forth.started(
        params.data_stack_elems,
        params.return_stack_elems,
        params.control_stack_elems,
    )
    &&& forth.input@ == (InputView { cur: None, taken: Seq::empty(), rest: Seq::empty() })
    &&& forth.input.cap() == params.input_buf_elems
    &&& forth.output@ == Seq::<u8>::empty()
    &&& forth.output.cap() == params.output_buf_elems
    &&& forth.dict.dict.entries@.len() == 0
    &&& forth.dict.dict.alloc.start == bottom
    &&& forth.dict.dict.alloc.cur == bottom
    &&& forth.dict.dict.alloc.end == bottom + params.dict_buf_elems
}

/// Whether the dictionary of `forth` is an empty one of `size` bytes that
/// starts where the dictionary of `before` ends, falls back on that
/// dictionary, and numbers its entries from the count of `before` on.
pub open spec fn falls_back<T>(forth: &Forth<T>, before: &Forth<T>, size: usize) -> bool {
    &&& forth.dict.dict.parent matches Some(p) && *p.inner == before.dict.dict
    &&& forth.dict.dict.base == before.dict.dict.count()
    &&& forth.dict.dict.entries@.len() == 0
    &&& forth.dict.dict.alloc.start == before.dict.dict.alloc.end
    &&& forth.dict.dict.alloc.cur == before.dict.dict.alloc.end
    &&& forth.dict.dict.alloc.end == before.dict.dict.alloc.end + size
}

/// What a fork with the capacities `params` does to the machine, which was
/// `before` and is `after`, and what it returns. Nothing but the dictionary
/// of the machine ever changes. The fork fails with `DictionaryFull`,
/// nothing changed, exactly where the new dictionaries would reach above
/// the highest address; else with `InterpretOnlyWord`, nothing changed,
/// inside a definition; and otherwise only with `DictionaryShared`, where
/// the counter of the dictionary does not let it be shared, nothing
/// changed, or not by two: then the machine has forked its dictionary all
/// the same. On success both machines have empty dictionaries that fall
/// back on the one that the machine had, and the new machine has just been
/// made, with the capacities `params`, the host context `host_ctxt` and
/// copies of the tables of native words.
pub open spec fn forked<T>(
    before: &Forth<T>,
    after: &Forth<T>,
    params: LBForthParams,
    host_ctxt: T,
    r: Result<Forth<T>, Error>,
) -> bool {
    let size = params.dict_buf_elems;
    &&& after.same_but(before, Touch { dict: true, ..Touch::nothing() })
    &&& if before.dict.dict.alloc.end + size > ADDR_MAX {
        r is Err && r->Err_0 == Error::DictionaryFull && *after == *before
    } else if before.pending is Some {
        r is Err && r->Err_0 == Error::InterpretOnlyWord && *after == *before
    } else {
        match r {
            Err(e) => e == Error::DictionaryShared && (after.dict == before.dict || falls_back(
                after,
                before,
                size,
            )),
            Ok(child) => {
                &&& falls_back(after, before, size)
                &&& falls_back(&child, before, size)
                &&& fresh(&child, params, before.dict.dict.alloc.end)
                &&& child.host_ctxt == host_ctxt
                &&& same_table(child.builtins@, before.builtins@)
                &&& same_async_table(child.async_builtins@, before.async_builtins@)
            },
        }
    }
}

/// Whether `forth` is a machine as `from_params` makes it with the
/// capacities `params`: a machine that has just been made, whose dictionary
/// starts at `DICT_BOTTOM`, has no parent to fall back on, and numbers its
/// entries from zero.
pub open spec fn made<T>(forth: &Forth<T>, params: LBForthParams) -> bool {
    &&& fresh(forth, params, DICT_BOTTOM)
    &&& forth.dict.dict.parent is None
    &&& forth.dict.dict.base == 0
}

impl<T> LBForth<T> {
    /// A machine with the capacities `params`, the host context `host_ctxt`
    /// and the native words `builtins`. Fails with `DictionaryFull` where
    /// the dictionary would reach above the highest address or the table
    /// has more than 65536 entries.
    pub fn from_params(params: LBForthParams, host_ctxt: T, builtins: Vec<BuiltinEntry>) -> (r:
        Result<Self, Error>)
        ensures
            DICT_BOTTOM + params.dict_buf_elems > ADDR_MAX || builtins@.len() > 0x1_0000 ==> r
                is Err && r->Err_0 == Error::DictionaryFull,
            !(DICT_BOTTOM + params.dict_buf_elems > ADDR_MAX || builtins@.len() > 0x1_0000) ==> r
                is Ok && made(&r->Ok_0.forth, params) && r->Ok_0.forth.host_ctxt == host_ctxt
                && r->Ok_0.forth.builtins == builtins && r->Ok_0.forth.async_builtins@.len()
                == 0,
    {
        let dict = match alloc_dict(DICT_BOTTOM, params.dict_buf_elems) {
            Some(d) => d,
            None => {
                return Err(Error::DictionaryFull);
            },
        };
        let input = WordStrBuf::new(params.input_buf_elems);
        let output = OutputBuf::new(params.output_buf_elems);
        match Forth::new(
            params.data_stack_elems,
            params.return_stack_elems,
            params.control_stack_elems,
            dict,
            input,
            output,
            host_ctxt,
            builtins,
        ) {
            Ok(forth) => Ok(LBForth { forth }),
            Err(e) => Err(e),
        }
    }

    /// Forks the machine as `Forth::fork` does. The dictionary that this
    /// machine goes on with and the dictionary of the new machine have
    /// `params.dict_buf_elems` bytes each and start where the dictionary
    /// that is now shared ends. The new machine has the capacities `params`
    /// and the host context `host_ctxt`. Fails with `DictionaryFull`,
    /// nothing changed, exactly where the new dictionaries would reach above
    /// the highest address; else with `InterpretOnlyWord`, nothing changed,
    /// inside a definition; and otherwise only with `DictionaryShared`,
    /// where the counter of the dictionary does not let it be shared.
    pub fn fork_with_params(&mut self, params: LBForthParams, host_ctxt: T) -> (r: Result<
        Self,
        Error,
    >)
        requires
            old(self).forth.wf(),
        ensures
            final(self).forth.wf(),
            forked(
                &old(self).forth,
                &final(self).forth,
                params,
                host_ctxt,
                match r {
                    Ok(child) => Ok(child.forth),
                    Err(e) => Err(e),
                },
            ),
    {
        let bottom = self.forth.dict.dict.alloc.end;
        let my_new_dict = match alloc_dict(bottom, params.dict_buf_elems) {
            Some(d) => d,
            None => {
                return Err(Error::DictionaryFull);
            },
        };
        let new_dict = match alloc_dict(bottom, params.dict_buf_elems) {
            Some(d) => d,
            None => {
                return Err(Error::DictionaryFull);
            },
        };
        let input = WordStrBuf::new(params.input_buf_elems);
        let output = OutputBuf::new(params.output_buf_elems);
        match self.forth.fork(
            my_new_dict,
            new_dict,
            params.data_stack_elems,
            params.return_stack_elems,
            params.control_stack_elems,
            input,
            output,
            host_ctxt,
        ) {
            Ok(forth) => Ok(LBForth { forth }),
            Err(e) => Err(e),
        }
    }
}

impl<T> LBForth<T> {
    /// Gives up the machine with its storage, as `Forth::release` does, and
    /// returns the host's context.
    pub fn release(self) -> (host: T)
        ensures
            host == self.forth.host_ctxt,
    {
        self.forth.release::<LeakBoxDict>()
    }
}

impl<T> AsyncLBForth<T> {
    /// Gives up the machine with its storage, as `Forth::release` does, and
    /// returns the host's context.
    pub fn release(self) -> (host: T)
        ensures
            host == self.forth.vm.host_ctxt,
    {
        self.forth.vm.release::<LeakBoxDict>()
    }

    /// A suspending machine with the capacities `params`, the host context
    /// `host_ctxt`, the native words `sync_builtins` and the suspending
    /// native words `async_builtins`. Fails with `DictionaryFull` where the
    /// dictionary would reach above the highest address or a table has more
    /// than 65536 entries.
    pub fn from_params(
        params: LBForthParams,
        host_ctxt: T,
        sync_builtins: Vec<BuiltinEntry>,
        async_builtins: Vec<AsyncBuiltinEntry>,
    ) -> (r: Result<Self, Error>)
        ensures
            DICT_BOTTOM + params.dict_buf_elems > ADDR_MAX || sync_builtins@.len() > 0x1_0000
                || async_builtins@.len() > 0x1_0000 ==> r is Err && r->Err_0
                == Error::DictionaryFull,
            !(DICT_BOTTOM + params.dict_buf_elems > ADDR_MAX || sync_builtins@.len() > 0x1_0000
                || async_builtins@.len() > 0x1_0000) ==> r is Ok && made(
                    &r->Ok_0.forth.vm,
                    params,
                ) && r->Ok_0.forth.vm.host_ctxt == host_ctxt && r->Ok_0.forth.vm.builtins
                == sync_builtins && r->Ok_0.forth.vm.async_builtins == async_builtins,
    {
        let dict = match alloc_dict(DICT_BOTTOM, params.dict_buf_elems) {
            Some(d) => d,
            None => {
                return Err(Error::DictionaryFull);
            },
        };
        let input = WordStrBuf::new(params.input_buf_elems);
        let output = OutputBuf::new(params.output_buf_elems);
        match AsyncForth::new(
            params.data_stack_elems,
            params.return_stack_elems,
            params.control_stack_elems,
            dict,
            input,
            output,
            host_ctxt,
            sync_builtins,
            async_builtins,
        ) {
            Ok(forth) => Ok(AsyncLBForth { forth }),
            Err(e) => Err(e),
        }
    }

    /// Forks the machine as `LBForth::fork_with_params` does.
    pub fn fork_with_params(&mut self, params: LBForthParams, host_ctxt: T) -> (r: Result<
        Self,
        Error,
    >)
        requires
            old(self).forth.vm.wf(),
        ensures
            final(self).forth.vm.wf(),
            forked(
                &old(self).forth.vm,
                &final(self).forth.vm,
                params,
                host_ctxt,
                match r {
                    Ok(child) => Ok(child.forth.vm),
                    Err(e) => Err(e),
                },
            ),
    {
        let bottom = self.forth.vm.dict.dict.alloc.end;
        let my_new_dict = match alloc_dict(bottom, params.dict_buf_elems) {
            Some(d) => d,
            None => {
                return Err(Error::DictionaryFull);
            },
        };
        let new_dict = match alloc_dict(bottom, params.dict_buf_elems) {
            Some(d) => d,
            None => {
                return Err(Error::DictionaryFull);
            },
        };
        let input = WordStrBuf::new(params.input_buf_elems);
        let output = OutputBuf::new(params.output_buf_elems);
        match self.forth.vm.fork(
            my_new_dict,
            new_dict,
            params.data_stack_elems,
            params.return_stack_elems,
            params.control_stack_elems,
            input,
            output,
            host_ctxt,
        ) {
            Ok(vm) => Ok(AsyncLBForth { forth: AsyncForth { vm } }),
            Err(e) => Err(e),
        }
    }
}

} // verus!
