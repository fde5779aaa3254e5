//! Forking: a second machine that shares the dictionary of the first.

use vstd::prelude::*;
use crate::dictionary::{
    AsyncBuiltinEntry, BuiltinEntry, Dictionary, DropDict, EntryHeader, OwnedDict, SharedDict,
};
use crate::stack::Stack;
use crate::input::WordStrBuf;
use crate::output::OutputBuf;
use crate::vm::{Error, Forth, Mode};

verus! {

/// Whether two tables of native words hold the same words under the same
/// names.
pub open spec fn same_table(a: Seq<BuiltinEntry>, b: Seq<BuiltinEntry>) -> bool {
    &&& a.len() == b.len()
    &&& forall|i: int|
        0 <= i < a.len() ==> (#[trigger] a[i]).hdr.name@ == b[i].hdr.name@ && a[i].hdr.kind
            == b[i].hdr.kind && a[i].hdr.len == b[i].hdr.len && a[i].func == b[i].func
}

/// Whether two tables of suspending native words hold the same names.
pub open spec fn same_async_table(a: Seq<AsyncBuiltinEntry>, b: Seq<AsyncBuiltinEntry>) -> bool {
    &&& a.len() == b.len()
    &&& forall|i: int|
        0 <= i < a.len() ==> (#[trigger] a[i]).hdr.name@ == b[i].hdr.name@ && a[i].hdr.kind
            == b[i].hdr.kind && a[i].hdr.len == b[i].hdr.len
}

/// A copy of a table of native words.
pub fn copy_table(t: &Vec<BuiltinEntry>) -> (c: Vec<BuiltinEntry>)
    ensures
        same_table(c@, t@),
{
    let mut c: Vec<BuiltinEntry> = Vec::new();
    let mut i: usize = 0;
    while i < t.len()
        invariant
            i <= t.len(),
            c@.len() == i,
            forall|j: int|
                0 <= j < i ==> (#[trigger] c@[j]).hdr.name@ == t@[j].hdr.name@ && c@[j].hdr.kind
                    == t@[j].hdr.kind && c@[j].hdr.len == t@[j].hdr.len && c@[j].func
                    == t@[j].func,
        decreases t.len() - i,
    {
        let e = &t[i];
        c.push(
            BuiltinEntry {
                hdr: EntryHeader { name: e.hdr.name.clone(), kind: e.hdr.kind, len: e.hdr.len },
                func: e.func,
            },
        );
        i += 1;
    }
    c
}

/// A copy of a table of suspending native words.
pub fn copy_async_table(t: &Vec<AsyncBuiltinEntry>) -> (c: Vec<AsyncBuiltinEntry>)
    ensures
        same_async_table(c@, t@),
{
    let mut c: Vec<AsyncBuiltinEntry> = Vec::new();
    let mut i: usize = 0;
    while i < t.len()
        invariant
            i <= t.len(),
            c@.len() == i,
            forall|j: int|
                0 <= j < i ==> (#[trigger] c@[j]).hdr.name@ == t@[j].hdr.name@ && c@[j].hdr.kind
                    == t@[j].hdr.kind && c@[j].hdr.len == t@[j].hdr.len,
        decreases t.len() - i,
    {
        let e = &t[i];
        c.push(
            AsyncBuiltinEntry {
                hdr: EntryHeader { name: e.hdr.name.clone(), kind: e.hdr.kind, len: e.hdr.len },
            },
        );
        i += 1;
    }
    c
}

/// A dictionary that is empty finds what its parent finds.
pub proof fn lemma_child_finds_parent(child: &Dictionary, name: Seq<u8>)
    requires
        child.entries@.len() == 0,
        child.parent is Some,
    ensures
        child.find_spec(name) == child.parent.unwrap().inner.find_spec(name),
{
}

impl<T> Forth<T> {
    /// Whether `dict` can become the dictionary of a machine that falls
    /// back on the dictionary of this one: it is empty, has no parent, and
    /// lies above this machine's dictionary in memory.
    pub open spec fn can_fork_into(&self, dict: &Dictionary) -> bool {
        &&& dict.parent is None
        &&& dict.entries@.len() == 0
        &&& self.dict.dict.alloc.end <= dict.alloc.start
    }

    /// Checks what `can_fork_into` describes.
    pub fn fits_fork(&self, dict: &Dictionary) -> (b: bool)
        ensures
            b == self.can_fork_into(dict),
    {
        dict.parent.is_none() && dict.entries.len() == 0 && self.dict.dict.alloc.end
            <= dict.alloc.start
    }

    /// Forks the machine: its dictionary becomes a shared one that never
    /// changes again; the machine goes on with the empty dictionary
    /// `my_new_dict`, and a new machine starts with the empty dictionary
    /// `new_dict`; both dictionaries fall back on the shared one, so that
    /// both machines know every word defined so far. The new machine gets
    /// the given stacks, buffers and host context, and copies of the tables
    /// of native words.
    ///
    /// Fails, nothing changed, with `InterpretOnlyWord` inside a definition
    /// and with `BadAddress` unless both dictionaries are empty, without a
    /// parent, and above this machine's dictionary in memory. Fails with
    /// `DictionaryShared` where the counter of the dictionary does not let
    /// it be shared, nothing changed, or not by two: then this machine has
    /// forked its dictionary all the same, and there is no second machine.
    pub fn fork(
        &mut self,
        my_new_dict: OwnedDict,
        new_dict: OwnedDict,
        dstack_cap: usize,
        rstack_cap: usize,
        cstack_cap: usize,
        input: WordStrBuf,
        output: OutputBuf,
        host_ctxt: T,
    ) -> (r: Result<Forth<T>, Error>)
        requires
            old(self).wf(),
            my_new_dict.dict.wf(),
            new_dict.dict.wf(),
            input.wf(),
            output.wf(),
        ensures
            final(self).wf(),
            final(self).same_but(
                old(self),
                crate::vm::builtins::Touch { dict: true, ..crate::vm::builtins::Touch::nothing() },
            ),
            old(self).pending is Some ==> r is Err && r->Err_0 == Error::InterpretOnlyWord
                && *final(self) == *old(self),
            old(self).pending is None && !(old(self).can_fork_into(&my_new_dict.dict)
                && old(self).can_fork_into(&new_dict.dict)) ==> r is Err
                && r->Err_0 == Error::BadAddress
                && *final(self) == *old(self),
            r is Err && old(self).pending is None && old(self).can_fork_into(&my_new_dict.dict)
                && old(self).can_fork_into(&new_dict.dict) ==> r->Err_0
                == Error::DictionaryShared,
            r is Err ==> final(self).dict == old(self).dict || final(self).forked_from(
                old(self),
                &my_new_dict.dict,
            ),
            r matches Ok(child) ==> final(self).forked_from(old(self), &my_new_dict.dict)
                && child.forked_from(old(self), &new_dict.dict) && child.wf() && child.started(
                    dstack_cap,
                    rstack_cap,
                    cstack_cap,
                ) && child.input == input && child.output == output && child.host_ctxt == host_ctxt
                && same_table(child.builtins@, old(self).builtins@) && same_async_table(
                    child.async_builtins@,
                    old(self).async_builtins@,
                ),
    {
        if self.pending.is_some() {
            return Err(Error::InterpretOnlyWord);
        }
        if !self.fits_fork(&my_new_dict.dict) || !self.fits_fork(&new_dict.dict) {
            return Err(Error::BadAddress);
        }
        let mut mine = my_new_dict;
        core::mem::swap(&mut self.dict, &mut mine);
        let shared = match mine.into_shared() {
            Ok(s) => s,
            Err(o) => {
                let mut back = o;
                core::mem::swap(&mut self.dict, &mut back);
                return Err(Error::DictionaryShared);
            },
        };
        match shared.try_clone() {
            Some(second) => Ok(
                self.fork_shared(
                    shared,
                    second,
                    new_dict,
                    dstack_cap,
                    rstack_cap,
                    cstack_cap,
                    input,
                    output,
                    host_ctxt,
                ),
            ),
            None => {
                let _ = self.dict.dict.adopt(shared);
                Err(Error::DictionaryShared)
            },
        }
    }

    /// Completes a fork with the two handles on the dictionary that has been
    /// shared: the machine, which has gone on to an empty dictionary, falls
    /// back on the shared one through `first`; the new machine starts with
    /// the empty dictionary `new_dict` and falls back on it through
    /// `second`. The new machine gets the given stacks, buffers and host
    /// context, and copies of the tables of native words.
    pub fn fork_shared(
        &mut self,
        first: SharedDict,
        second: SharedDict,
        new_dict: OwnedDict,
        dstack_cap: usize,
        rstack_cap: usize,
        cstack_cap: usize,
        input: WordStrBuf,
        output: OutputBuf,
        host_ctxt: T,
    ) -> (child: Forth<T>)
        requires
            old(self).wf(),
            old(self).pending is None,
            first.inner.wf(),
            second.inner == first.inner,
            old(self).dict.dict.can_adopt(&first),
            new_dict.dict.wf(),
            new_dict.dict.can_adopt(&second),
            input.wf(),
            output.wf(),
        ensures
            final(self).wf(),
            final(self).same_but(
                old(self),
                crate::vm::builtins::Touch { dict: true, ..crate::vm::builtins::Touch::nothing() },
            ),
            final(self).dict.dict.falls_back_on(&first, &old(self).dict.dict),
            child.dict.dict.falls_back_on(&second, &new_dict.dict),
            child.wf(),
            child.started(dstack_cap, rstack_cap, cstack_cap),
            child.input == input,
            child.output == output,
            child.host_ctxt == host_ctxt,
            same_table(child.builtins@, old(self).builtins@),
            same_async_table(child.async_builtins@, old(self).async_builtins@),
    {
        let _ = self.dict.dict.adopt(first);
        let mut theirs = new_dict;
        let _ = theirs.dict.adopt(second);
        let builtins = copy_table(&self.builtins);
        let async_builtins = copy_async_table(&self.async_builtins);
        Forth {
            mode: Mode::Interpret,
            data_stack: Stack::new(dstack_cap),
            return_stack: Stack::new(rstack_cap),
            call_stack: Stack::new(cstack_cap),
            control_stack: Stack::new(cstack_cap),
            dict: theirs,
            input,
            output,
            host_ctxt,
            builtins,
            async_builtins,
            pending: None,
            step_limit: u64::MAX,
        }
    }

    /// Gives up the machine: its dictionary goes back through `D`, and the
    /// dictionary that it fell back on, if any, counts one holder less, as
    /// `OwnedDict::release_to` says. Returns the host's context.
    pub fn release<D: DropDict>(self) -> (host: T)
        ensures
            host == self.host_ctxt,
    {
        let Forth { dict, host_ctxt, .. } = self;
        dict.release_to::<D>();
        host_ctxt
    }

    /// Whether the dictionary of `self` is `fresh` with the dictionary of
    /// `before` as its parent: it holds no entry of its own, and numbers its
    /// entries from the count of `before` on.
    pub open spec fn forked_from(&self, before: &Self, fresh: &Dictionary) -> bool {
        &&& self.dict.dict.parent matches Some(p)
        &&& *p.inner == before.dict.dict
        &&& self.dict.dict.base == before.dict.dict.count()
        &&& self.dict.dict.entries == fresh.entries
        &&& self.dict.dict.alloc == fresh.alloc
    }

    /// After a fork each of the two machines finds every name where the
    /// machine found it before the fork.
    pub proof fn lemma_fork_keeps_words(&self, before: &Self, fresh: &Dictionary, name: Seq<u8>)
        requires
            self.forked_from(before, fresh),
            fresh.entries@.len() == 0,
        ensures
            self.dict.dict.find_spec(name) == before.dict.dict.find_spec(name),
    {
        lemma_child_finds_parent(&self.dict.dict, name);
    }
}

} // verus!
