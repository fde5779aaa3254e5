//! The bitwise words.

use vstd::prelude::*;
use crate::vm::builtins::{BinOp, Touch};
use crate::vm::{Error, Forth};

verus! {

impl<T> Forth<T> {
    /// What `bitand` does to the machine: `before` is the machine as the word
    /// finds it, `after` as it leaves it, and `r` what it returns.
    pub open spec fn bitand_effect(before: &Self, after: &Self, r: Result<(), Error>) -> bool {
        &&& after.same_but(before, Touch::data())
        &&& Self::binop_effect(BinOp::And, before.data_stack@, after.data_stack@, r)
    }

    /// `and ( a b -- a&b )`.
    pub fn bitand(&mut self) -> (r: Result<(), Error>)
        requires
            old(self).wf(),
        ensures
            final(self).wf(),
            Self::bitand_effect(old(self), final(self), r),
    {
        self.binop(BinOp::And)
    }

    /// What `bitor` does to the machine: `before` is the machine as the word
    /// finds it, `after` as it leaves it, and `r` what it returns.
    pub open spec fn bitor_effect(before: &Self, after: &Self, r: Result<(), Error>) -> bool {
        &&& after.same_but(before, Touch::data())
        &&& Self::binop_effect(BinOp::Or, before.data_stack@, after.data_stack@, r)
    }

    /// `or ( a b -- a|b )`.
    pub fn bitor(&mut self) -> (r: Result<(), Error>)
        requires
            old(self).wf(),
        ensures
            final(self).wf(),
            Self::bitor_effect(old(self), final(self), r),
    {
        self.binop(BinOp::Or)
    }

    /// What `bitxor` does to the machine: `before` is the machine as the word
    /// finds it, `after` as it leaves it, and `r` what it returns.
    pub open spec fn bitxor_effect(before: &Self, after: &Self, r: Result<(), Error>) -> bool {
        &&& after.same_but(before, Touch::data())
        &&& Self::binop_effect(BinOp::Xor, before.data_stack@, after.data_stack@, r)
    }

    /// `xor ( a b -- a^b )`.
    pub fn bitxor(&mut self) -> (r: Result<(), Error>)
        requires
            old(self).wf(),
        ensures
            final(self).wf(),
            Self::bitxor_effect(old(self), final(self), r),
    {
        self.binop(BinOp::Xor)
    }

    /// What `bitshl` does to the machine: `before` is the machine as the word
    /// finds it, `after` as it leaves it, and `r` what it returns.
    pub open spec fn bitshl_effect(before: &Self, after: &Self, r: Result<(), Error>) -> bool {
        &&& after.same_but(before, Touch::data())
        &&& Self::binop_effect(BinOp::Lshift, before.data_stack@, after.data_stack@, r)
    }

    /// `lshift ( a n -- a<<n )`: `a` shifted left by `n` bits; zero where `n`
    /// is negative or more than 31.
    pub fn bitshl(&mut self) -> (r: Result<(), Error>)
        requires
            old(self).wf(),
        ensures
            final(self).wf(),
            Self::bitshl_effect(old(self), final(self), r),
    {
        self.binop(BinOp::Lshift)
    }

    /// What `bitshr` does to the machine: `before` is the machine as the word
    /// finds it, `after` as it leaves it, and `r` what it returns.
    pub open spec fn bitshr_effect(before: &Self, after: &Self, r: Result<(), Error>) -> bool {
        &&& after.same_but(before, Touch::data())
        &&& Self::binop_effect(BinOp::Rshift, before.data_stack@, after.data_stack@, r)
    }

    /// `rshift ( a n -- a>>n )`: `a` shifted right by `n` bits, the sign
    /// kept; zero where `n` is negative or more than 31.
    pub fn bitshr(&mut self) -> (r: Result<(), Error>)
        requires
            old(self).wf(),
        ensures
            final(self).wf(),
            Self::bitshr_effect(old(self), final(self), r),
    {
        self.binop(BinOp::Rshift)
    }
}

} // verus!
