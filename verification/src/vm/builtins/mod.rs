//! The native words that work on the stacks, on memory and on the output.

pub mod bitops;
pub mod memory;

use vstd::prelude::*;

use crate::num::{decimal_of, format_decimal};

use crate::stack::StackError;
use crate::vm::{Error, Forth};
use crate::word::{Word, WORD_SIZE};

verus! {

/// The parts of the machine that a word may change.
pub struct Touch {
    pub data: bool,
    pub ret: bool,
    pub calls: bool,
    pub control: bool,
    pub dict: bool,
    pub input: bool,
    pub output: bool,
    /// The mode and the definition that is being compiled.
    pub compiling: bool,
    /// The host's context.
    pub host: bool,
}

impl Touch {
    pub open spec fn nothing() -> Touch {
        Touch {
            data: false,
            ret: false,
            calls: false,
            control: false,
            dict: false,
            input: false,
            output: false,
            compiling: false,
            host: false,
        }
    }

    pub open spec fn data() -> Touch {
        Touch { data: true, ..Touch::nothing() }
    }

    pub open spec fn data_ret() -> Touch {
        Touch { data: true, ret: true, ..Touch::nothing() }
    }

    pub open spec fn data_output() -> Touch {
        Touch { data: true, output: true, ..Touch::nothing() }
    }

    pub open spec fn data_dict() -> Touch {
        Touch { data: true, dict: true, ..Touch::nothing() }
    }

    pub open spec fn output() -> Touch {
        Touch { output: true, ..Touch::nothing() }
    }
}

/// The words with two operands.
#[derive(Debug, Clone, Copy, PartialEq, Eq, Structural)]
pub enum BinOp {
    Add,
    Sub,
    Mul,
    Div,
    Mod,
    Min,
    Max,
    And,
    Or,
    Xor,
    Lshift,
    Rshift,
    Equal,
    NotEqual,
    Less,
    Greater,
}

/// The words with one operand.
#[derive(Debug, Clone, Copy, PartialEq, Eq, Structural)]
pub enum UnOp {
    Abs,
    Negate,
    Invert,
    ZeroEqual,
    ZeroLess,
    Cells,
}

/// The cell for a truth value: all bits set for true, none for false.
pub open spec fn flag(b: bool) -> i32 {
    if b {
        -1i32
    } else {
        0i32
    }
}

/// The quotient of `x` by `y`, rounded towards zero.
pub open spec fn quotient(x: int, y: int) -> int
    recommends
        y != 0,
{
    if x >= 0 {
        if y > 0 {
            x / y
        } else {
            -(x / (-y))
        }
    } else {
        if y > 0 {
            -((-x) / y)
        } else {
            (-x) / (-y)
        }
    }
}

/// What a word with two operands computes from `x`, the operand below, and
/// `y`, the operand on top. Sums, differences and products wrap around as
/// two's complement does. A shift by less than zero or more than 31 bits
/// gives zero. `None` stands for a division by zero.
pub open spec fn binary(op: BinOp, x: i32, y: i32) -> Option<i32> {
    match op {
        BinOp::Add => Some((x + y) as i32),
        BinOp::Sub => Some((x - y) as i32),
        BinOp::Mul => Some((x * y) as i32),
        BinOp::Div => if y == 0 {
            None
        } else {
            Some(quotient(x as int, y as int) as i32)
        },
        BinOp::Mod => if y == 0 {
            None
        } else {
            Some((x - quotient(x as int, y as int) * y) as i32)
        },
        BinOp::Min => Some(if x < y {
            x
        } else {
            y
        }),
        BinOp::Max => Some(if x > y {
            x
        } else {
            y
        }),
        BinOp::And => Some(x & y),
        BinOp::Or => Some(x | y),
        BinOp::Xor => Some(x ^ y),
        BinOp::Lshift => Some(if 0 <= y < 32 {
            x << y
        } else {
            0i32
        }),
        BinOp::Rshift => Some(if 0 <= y < 32 {
            x >> y
        } else {
            0i32
        }),
        BinOp::Equal => Some(flag(x == y)),
        BinOp::NotEqual => Some(flag(x != y)),
        BinOp::Less => Some(flag(x < y)),
        BinOp::Greater => Some(flag(x > y)),
    }
}

/// What a word with one operand computes.
pub open spec fn unary(op: UnOp, x: i32) -> i32 {
    match op {
        UnOp::Abs => if x < 0 {
            (-x) as i32
        } else {
            x
        },
        UnOp::Negate => (-x) as i32,
        UnOp::Invert => !x,
        UnOp::ZeroEqual => flag(x == 0),
        UnOp::ZeroLess => flag(x < 0),
        UnOp::Cells => (x * WORD_SIZE) as i32,
    }
}

/// The integer in the cell `n` places below the top of `s`.
pub open spec fn top(s: Seq<Word>, n: int) -> i32 {
    s[s.len() - 1 - n].data
}

/// `s` without its top `n` cells.
pub open spec fn below(s: Seq<Word>, n: int) -> Seq<Word> {
    s.take(s.len() - n)
}

/// The outcome of a word that needs `need` cells and found fewer on the
/// stack `before`: it fails with `StackEmpty`, and the cells that were
/// there are gone.
pub open spec fn ran_dry(
    before: Seq<Word>,
    after: Seq<Word>,
    r: Result<(), Error>,
    need: int,
) -> bool {
    &&& before.len() < need
    &&& r == Err::<(), Error>(Error::Stack(StackError::StackEmpty))
    &&& after == Seq::<Word>::empty()
}

/// The quotient of `x` by `y`, rounded towards zero.
fn quotient_of(x: i32, y: i32) -> (q: i64)
    requires
        y != 0,
    ensures
        q == quotient(x as int, y as int),
        -0x8000_0000 <= q <= 0x8000_0000,
{
    let a: i64 = x as i64;
    let b: i64 = y as i64;
    let ma: i64 = if a >= 0 {
        a
    } else {
        -a
    };
    let mb: i64 = if b > 0 {
        b
    } else {
        -b
    };
    let q = ma / mb;
    assert(0 <= q <= ma) by (nonlinear_arith)
        requires
            q == ma / mb,
            ma >= 0,
            mb > 0,
    ;
    if (a >= 0) == (b > 0) {
        q
    } else {
        -q
    }
}

/// Computes a word with two operands.
pub fn compute_binary(op: BinOp, x: i32, y: i32) -> (r: Option<i32>)
    ensures
        r == binary(op, x, y),
{
    match op {
        BinOp::Add => Some(#[verifier::truncate] ((x as i64 + y as i64) as i32)),
        BinOp::Sub => Some(#[verifier::truncate] ((x as i64 - y as i64) as i32)),
        BinOp::Mul => {
            assert(-0x4000_0000_0000_0000 <= (x as i64) * (y as i64) <= 0x4000_0000_0000_0000)
                by (nonlinear_arith)
                requires
                    -0x8000_0000 <= x <= 0x7fff_ffff,
                    -0x8000_0000 <= y <= 0x7fff_ffff,
            ;
            Some(#[verifier::truncate] ((x as i64 * y as i64) as i32))
        },
        BinOp::Div => {
            if y == 0 {
                None
            } else {
                Some(#[verifier::truncate] (quotient_of(x, y) as i32))
            }
        },
        BinOp::Mod => {
            if y == 0 {
                None
            } else {
                let q = quotient_of(x, y);
                assert(-0x4000_0000_0000_0000 <= q * (y as i64) <= 0x4000_0000_0000_0000)
                    by (nonlinear_arith)
                    requires
                        -0x8000_0000 <= q <= 0x8000_0000,
                        -0x8000_0000 <= y <= 0x7fff_ffff,
                ;
                Some(#[verifier::truncate] ((x as i64 - q * (y as i64)) as i32))
            }
        },
        BinOp::Min => Some(if x < y {
            x
        } else {
            y
        }),
        BinOp::Max => Some(if x > y {
            x
        } else {
            y
        }),
        BinOp::And => Some(x & y),
        BinOp::Or => Some(x | y),
        BinOp::Xor => Some(x ^ y),
        BinOp::Lshift => Some(if 0 <= y && y < 32 {
            x << y
        } else {
            0
        }),
        BinOp::Rshift => Some(if 0 <= y && y < 32 {
            x >> y
        } else {
            0
        }),
        BinOp::Equal => Some(if x == y {
            -1
        } else {
            0
        }),
        BinOp::NotEqual => Some(if x != y {
            -1
        } else {
            0
        }),
        BinOp::Less => Some(if x < y {
            -1
        } else {
            0
        }),
        BinOp::Greater => Some(if x > y {
            -1
        } else {
            0
        }),
    }
}

/// Computes a word with one operand.
pub fn compute_unary(op: UnOp, x: i32) -> (r: i32)
    ensures
        r == unary(op, x),
{
    match op {
        UnOp::Abs => if x < 0 {
            #[verifier::truncate] ((-(x as i64)) as i32)
        } else {
            x
        },
        UnOp::Negate => #[verifier::truncate] ((-(x as i64)) as i32),
        UnOp::Invert => !x,
        UnOp::ZeroEqual => if x == 0 {
            -1
        } else {
            0
        },
        UnOp::ZeroLess => if x < 0 {
            -1
        } else {
            0
        },
        UnOp::Cells => #[verifier::truncate] ((x as i64 * 4) as i32),
    }
}

impl<T> Forth<T> {
    /// Whether `self` is `before` but for the parts that `t` names. The
    /// tables of native words, the step limit and the capacities are never
    /// among them.
    pub open spec fn same_but(&self, before: &Self, t: Touch) -> bool {
        &&& t.data || self.data_stack == before.data_stack
        &&& t.ret || self.return_stack == before.return_stack
        &&& t.calls || self.call_stack == before.call_stack
        &&& t.control || self.control_stack == before.control_stack
        &&& t.dict || self.dict == before.dict
        &&& t.input || self.input == before.input
        &&& t.output || self.output == before.output
        &&& t.compiling || (self.mode == before.mode && self.pending == before.pending)
        &&& self.data_stack.cap() == before.data_stack.cap()
        &&& self.return_stack.cap() == before.return_stack.cap()
        &&& self.call_stack.cap() == before.call_stack.cap()
        &&& self.control_stack.cap() == before.control_stack.cap()
        &&& self.output.cap() == before.output.cap()
        &&& self.input.cap() == before.input.cap()
        &&& t.host || self.host_ctxt == before.host_ctxt
        &&& self.builtins == before.builtins
        &&& self.async_builtins == before.async_builtins
        &&& self.step_limit == before.step_limit
    }

    /// Pops a cell off the data stack.
    pub fn pop_data(&mut self) -> (r: Result<Word, Error>)
        requires
            old(self).wf(),
        ensures
            final(self).wf(),
            final(self).same_but(old(self), Touch::data()),
            old(self).data_stack@.len() > 0 ==> r == Ok::<Word, Error>(
                old(self).data_stack@.last(),
            ) && final(self).data_stack@ == old(self).data_stack@.drop_last(),
            old(self).data_stack@.len() == 0 ==> r == Err::<Word, Error>(
                Error::Stack(StackError::StackEmpty),
            ) && final(self).data_stack@ == old(self).data_stack@,
    {
        match self.data_stack.try_pop() {
            Ok(w) => Ok(w),
            Err(e) => Err(Error::Stack(e)),
        }
    }

    /// Pushes a cell onto the data stack.
    pub fn push_data(&mut self, w: Word) -> (r: Result<(), Error>)
        requires
            old(self).wf(),
        ensures
            final(self).wf(),
            final(self).same_but(old(self), Touch::data()),
            old(self).data_stack@.len() < old(self).data_stack.cap() ==> r == Ok::<(), Error>(())
                && final(self).data_stack@ == old(self).data_stack@.push(w),
            old(self).data_stack@.len() >= old(self).data_stack.cap() ==> r == Err::<(), Error>(
                Error::Stack(StackError::StackOverflow),
            ) && final(self).data_stack@ == old(self).data_stack@,
    {
        match self.data_stack.push(w) {
            Ok(()) => Ok(()),
            Err(e) => Err(Error::Stack(e)),
        }
    }

    /// Pops `n` cells, at most three, off the data stack and returns them,
    /// the lowest first; cells that were not asked for are zero. Where the
    /// stack holds fewer, the cells that were there are gone.
    fn pop_n(&mut self, n: usize) -> (r: Result<(Word, Word, Word), Error>)
        requires
            old(self).wf(),
            1 <= n <= 3,
        ensures
            final(self).wf(),
            final(self).same_but(old(self), Touch::data()),
            old(self).data_stack@.len() >= n ==> final(self).data_stack@ == below(
                old(self).data_stack@,
                n as int,
            ) && r is Ok
                && (n >= 1
                ==> r->Ok_0.0 == old(self).data_stack@[old(self).data_stack@.len() - n])
                && (n >= 2
                ==> r->Ok_0.1 == old(self).data_stack@[old(self).data_stack@.len() - n + 1])
                && (n >= 3
                ==> r->Ok_0.2 == old(self).data_stack@[old(self).data_stack@.len() - n + 2]),
            old(self).data_stack@.len() < n ==> r is Err && r->Err_0 == Error::Stack(
                StackError::StackEmpty,
            ) && final(self).data_stack@ == Seq::<Word>::empty(),
    {
        let zero = Word { data: 0 };
        let ghost s = self.data_stack@;
        let c = match self.data_stack.try_pop() {
            Ok(w) => w,
            Err(e) => {
                assert(self.data_stack@ =~= Seq::<Word>::empty());
                return Err(Error::Stack(e));
            },
        };
        if n == 1 {
            assert(self.data_stack@ =~= below(s, 1));
            return Ok((c, zero, zero));
        }
        let b = match self.data_stack.try_pop() {
            Ok(w) => w,
            Err(e) => {
                assert(self.data_stack@ =~= Seq::<Word>::empty());
                return Err(Error::Stack(e));
            },
        };
        if n == 2 {
            assert(self.data_stack@ =~= below(s, 2));
            return Ok((b, c, zero));
        }
        let a = match self.data_stack.try_pop() {
            Ok(w) => w,
            Err(e) => {
                assert(self.data_stack@ =~= Seq::<Word>::empty());
                return Err(Error::Stack(e));
            },
        };
        assert(self.data_stack@ =~= below(s, 3));
        Ok((a, b, c))
    }

    /// Runs a word with two operands: replaces the two cells on top of the
    /// data stack by what the word computes from them. A division by zero
    /// fails with `DivideByZero`, the two cells gone.
    pub fn binop(&mut self, op: BinOp) -> (r: Result<(), Error>)
        requires
            old(self).wf(),
        ensures
            final(self).wf(),
            Self::binary_effect(op, old(self), final(self), r),
    {
        let (x, y, _) = match self.pop_n(2) {
            Ok(t) => t,
            Err(e) => {
                return Err(e);
            },
        };
        match compute_binary(op, x.data, y.data) {
            Some(v) => self.push_data(Word { data: v }),
            None => Err(Error::DivideByZero),
        }
    }

    /// What `binop` does to the machine.
    pub open spec fn binary_effect(
        op: BinOp,
        before: &Self,
        after: &Self,
        r: Result<(), Error>,
    ) -> bool {
        &&& after.same_but(before, Touch::data())
        &&& Self::binop_effect(op, before.data_stack@, after.data_stack@, r)
    }

    /// What `unop` does to the machine.
    pub open spec fn unary_effect(
        op: UnOp,
        before: &Self,
        after: &Self,
        r: Result<(), Error>,
    ) -> bool {
        &&& after.same_but(before, Touch::data())
        &&& before.data_stack@.len() >= 1 ==> r == Ok::<(), Error>(()) && after.data_stack@
        == below(before.data_stack@, 1).push(
            Word { data: unary(op, top(before.data_stack@, 0)) },
        )
        &&& before.data_stack@.len() < 1 ==> ran_dry(
            before.data_stack@,
            after.data_stack@,
            r,
            1,
        )
    }

    /// What `binop` does to the data stack.
    pub open spec fn binop_effect(
        op: BinOp,
        before: Seq<Word>,
        after: Seq<Word>,
        r: Result<(), Error>,
    ) -> bool {
        if before.len() < 2 {
        ran_dry(before, after, r, 2)
        } else {
        match binary(op, top(before, 1), top(before, 0)) {
            Some(v) => r == Ok::<(), Error>(()) && after == below(before, 2).push(
                Word { data: v },
            ),
            None => r == Err::<(), Error>(Error::DivideByZero) && after == below(before, 2),
        }
        }
    }

    /// Runs a word with one operand: replaces the cell on top of the data
    /// stack by what the word computes from it.
    pub fn unop(&mut self, op: UnOp) -> (r: Result<(), Error>)
        requires
            old(self).wf(),
        ensures
            final(self).wf(),
            Self::unary_effect(op, old(self), final(self), r),
    {
        let (x, _, _) = match self.pop_n(1) {
            Ok(t) => t,
            Err(e) => {
                return Err(e);
            },
        };
        self.push_data(Word { data: compute_unary(op, x.data) })
    }

    /// What `dup` does to the machine: `before` is the machine as the word
    /// finds it, `after` as it leaves it, and `r` what it returns.
    pub open spec fn dup_effect(before: &Self, after: &Self, r: Result<(), Error>) -> bool {
        &&& after.same_but(before, Touch::data())
        &&& ({
            let s = before.data_stack@;
            if s.len() == 0 {
                r == Err::<(), Error>(Error::Stack(StackError::StackEmpty))
                    && after.data_stack@ == s
            } else if s.len() >= before.data_stack.cap() {
                r == Err::<(), Error>(Error::Stack(StackError::StackOverflow))
                    && after.data_stack@ == s
            } else {
                r == Ok::<(), Error>(()) && after.data_stack@ == s.push(s.last())
            }
        })
    }

    /// `dup ( a -- a a )`. Fails with `StackEmpty` or `StackOverflow`, the
    /// stack unchanged.
    pub fn dup(&mut self) -> (r: Result<(), Error>)
        requires
            old(self).wf(),
        ensures
            final(self).wf(),
            Self::dup_effect(old(self), final(self), r),
    {
        match self.data_stack.try_peek() {
            Ok(w) => self.push_data(w),
            Err(e) => Err(Error::Stack(e)),
        }
    }

    /// What `drop` does to the machine: `before` is the machine as the word
    /// finds it, `after` as it leaves it, and `r` what it returns.
    pub open spec fn drop_effect(before: &Self, after: &Self, r: Result<(), Error>) -> bool {
        &&& after.same_but(before, Touch::data())
        &&& before.data_stack@.len() >= 1 ==> r == Ok::<(), Error>(())
            && after.data_stack@ == below(before.data_stack@, 1)
        &&& before.data_stack@.len() < 1 ==> ran_dry(
            before.data_stack@,
            after.data_stack@,
            r,
            1,
        )
    }

    /// `drop ( a -- )`.
    pub fn drop(&mut self) -> (r: Result<(), Error>)
        requires
            old(self).wf(),
        ensures
            final(self).wf(),
            Self::drop_effect(old(self), final(self), r),
    {
        match self.pop_n(1) {
            Ok(_) => Ok(()),
            Err(e) => Err(e),
        }
    }

    /// What `swap` does to the machine: `before` is the machine as the word
    /// finds it, `after` as it leaves it, and `r` what it returns.
    pub open spec fn swap_effect(before: &Self, after: &Self, r: Result<(), Error>) -> bool {
        &&& after.same_but(before, Touch::data())
        &&& ({
            let s = before.data_stack@;
            if s.len() < 2 {
                ran_dry(s, after.data_stack@, r, 2)
            } else {
                r == Ok::<(), Error>(()) && after.data_stack@ == below(s, 2).push(
                    s[s.len() - 1],
                ).push(s[s.len() - 2])
            }
        })
    }

    /// `swap ( a b -- b a )`.
    pub fn swap(&mut self) -> (r: Result<(), Error>)
        requires
            old(self).wf(),
        ensures
            final(self).wf(),
            Self::swap_effect(old(self), final(self), r),
    {
        let (a, b, _) = match self.pop_n(2) {
            Ok(t) => t,
            Err(e) => {
                return Err(e);
            },
        };
        let _ = self.push_data(b);
        self.push_data(a)
    }

    /// What `over` does to the machine: `before` is the machine as the word
    /// finds it, `after` as it leaves it, and `r` what it returns.
    pub open spec fn over_effect(before: &Self, after: &Self, r: Result<(), Error>) -> bool {
        &&& after.same_but(before, Touch::data())
        &&& ({
            let s = before.data_stack@;
            if s.len() == 0 {
                r == Err::<(), Error>(Error::Stack(StackError::StackEmpty))
                    && after.data_stack@ == s
            } else if s.len() == 1 {
                r == Err::<(), Error>(Error::Stack(StackError::StackUnderflow))
                    && after.data_stack@ == s
            } else if s.len() >= before.data_stack.cap() {
                r == Err::<(), Error>(Error::Stack(StackError::StackOverflow))
                    && after.data_stack@ == s
            } else {
                r == Ok::<(), Error>(()) && after.data_stack@ == s.push(s[s.len() - 2])
            }
        })
    }

    /// `over ( a b -- a b a )`. Fails with `StackEmpty` on an empty stack,
    /// with `StackUnderflow` on a stack of one cell and with `StackOverflow`
    /// on a full one; the stack is then unchanged.
    pub fn over(&mut self) -> (r: Result<(), Error>)
        requires
            old(self).wf(),
        ensures
            final(self).wf(),
            Self::over_effect(old(self), final(self), r),
    {
        match self.data_stack.try_peek_back_n(1) {
            Ok(w) => self.push_data(w),
            Err(e) => Err(Error::Stack(e)),
        }
    }

    /// What `rot` does to the machine: `before` is the machine as the word
    /// finds it, `after` as it leaves it, and `r` what it returns.
    pub open spec fn rot_effect(before: &Self, after: &Self, r: Result<(), Error>) -> bool {
        &&& after.same_but(before, Touch::data())
        &&& ({
            let s = before.data_stack@;
            if s.len() < 3 {
                ran_dry(s, after.data_stack@, r, 3)
            } else {
                r == Ok::<(), Error>(()) && after.data_stack@ == below(s, 3).push(
                    s[s.len() - 2],
                ).push(s[s.len() - 1]).push(s[s.len() - 3])
            }
        })
    }

    /// `rot ( a b c -- b c a )`.
    pub fn rot(&mut self) -> (r: Result<(), Error>)
        requires
            old(self).wf(),
        ensures
            final(self).wf(),
            Self::rot_effect(old(self), final(self), r),
    {
        let (a, b, c) = match self.pop_n(3) {
            Ok(t) => t,
            Err(e) => {
                return Err(e);
            },
        };
        let _ = self.push_data(b);
        let _ = self.push_data(c);
        self.push_data(a)
    }

    /// What `two_dup` does to the machine: `before` is the machine as the word
    /// finds it, `after` as it leaves it, and `r` what it returns.
    pub open spec fn two_dup_effect(before: &Self, after: &Self, r: Result<(), Error>) -> bool {
        &&& after.same_but(before, Touch::data())
        &&& ({
            let s = before.data_stack@;
            if s.len() == 0 {
                r == Err::<(), Error>(Error::Stack(StackError::StackEmpty))
                    && after.data_stack@ == s
            } else if s.len() == 1 {
                r == Err::<(), Error>(Error::Stack(StackError::StackUnderflow))
                    && after.data_stack@ == s
            } else if s.len() + 2 > before.data_stack.cap() {
                r == Err::<(), Error>(Error::Stack(StackError::StackOverflow))
                    && after.data_stack@ == s
            } else {
                r == Ok::<(), Error>(()) && after.data_stack@ == s.push(
                    s[s.len() - 2],
                ).push(s[s.len() - 1])
            }
        })
    }

    /// `2dup ( a b -- a b a b )`. Fails with `StackEmpty` on an empty stack,
    /// with `StackUnderflow` on a stack of one cell and with `StackOverflow`
    /// where two more cells do not fit; the stack is then unchanged.
    pub fn two_dup(&mut self) -> (r: Result<(), Error>)
        requires
            old(self).wf(),
        ensures
            final(self).wf(),
            Self::two_dup_effect(old(self), final(self), r),
    {
        let a = match self.data_stack.try_peek_back_n(1) {
            Ok(w) => w,
            Err(e) => {
                return Err(Error::Stack(e));
            },
        };
        let b = match self.data_stack.try_peek() {
            Ok(w) => w,
            Err(e) => {
                return Err(Error::Stack(e));
            },
        };
        if self.data_stack.capacity() - self.data_stack.depth() < 2 {
            return Err(Error::Stack(StackError::StackOverflow));
        }
        let _ = self.push_data(a);
        self.push_data(b)
    }

    /// What `two_drop` does to the machine: `before` is the machine as the word
    /// finds it, `after` as it leaves it, and `r` what it returns.
    pub open spec fn two_drop_effect(before: &Self, after: &Self, r: Result<(), Error>) -> bool {
        &&& after.same_but(before, Touch::data())
        &&& before.data_stack@.len() >= 2 ==> r == Ok::<(), Error>(())
            && after.data_stack@ == below(before.data_stack@, 2)
        &&& before.data_stack@.len() < 2 ==> ran_dry(
            before.data_stack@,
            after.data_stack@,
            r,
            2,
        )
    }

    /// `2drop ( a b -- )`.
    pub fn two_drop(&mut self) -> (r: Result<(), Error>)
        requires
            old(self).wf(),
        ensures
            final(self).wf(),
            Self::two_drop_effect(old(self), final(self), r),
    {
        match self.pop_n(2) {
            Ok(_) => Ok(()),
            Err(e) => Err(e),
        }
    }

    /// What `depth` does to the machine: `before` is the machine as the word
    /// finds it, `after` as it leaves it, and `r` what it returns.
    pub open spec fn depth_effect(before: &Self, after: &Self, r: Result<(), Error>) -> bool {
        &&& after.same_but(before, Touch::data())
        &&& ({
            let s = before.data_stack@;
            if s.len() >= before.data_stack.cap() {
                r == Err::<(), Error>(Error::Stack(StackError::StackOverflow))
                    && after.data_stack@ == s
            } else {
                r == Ok::<(), Error>(()) && after.data_stack@ == s.push(
                    Word { data: s.len() as i32 },
                )
            }
        })
    }

    /// `depth ( -- n )`: pushes the number of cells on the data stack.
    pub fn depth(&mut self) -> (r: Result<(), Error>)
        requires
            old(self).wf(),
        ensures
            final(self).wf(),
            Self::depth_effect(old(self), final(self), r),
    {
        let n = self.data_stack.depth();
        self.push_data(Word { data: #[verifier::truncate] (n as i32) })
    }

    /// What `to_r` does to the machine: `before` is the machine as the word
    /// finds it, `after` as it leaves it, and `r` what it returns.
    pub open spec fn to_r_effect(before: &Self, after: &Self, r: Result<(), Error>) -> bool {
        &&& after.same_but(before, Touch::data_ret())
        &&& ({
            let s = before.data_stack@;
            let rs = before.return_stack@;
            if s.len() == 0 {
                r == Err::<(), Error>(Error::Stack(StackError::StackEmpty))
                    && after.data_stack@ == s && after.return_stack@ == rs
            } else if rs.len() >= before.return_stack.cap() {
                r == Err::<(), Error>(Error::Stack(StackError::StackOverflow))
                    && after.data_stack@ == s.drop_last() && after.return_stack@ == rs
            } else {
                r == Ok::<(), Error>(()) && after.data_stack@ == s.drop_last()
                    && after.return_stack@ == rs.push(s.last())
            }
        })
    }

    /// `>r ( a -- )`: moves the top of the data stack to the return stack.
    /// Where the return stack is full the cell is lost.
    pub fn to_r(&mut self) -> (r: Result<(), Error>)
        requires
            old(self).wf(),
        ensures
            final(self).wf(),
            Self::to_r_effect(old(self), final(self), r),
    {
        let w = match self.pop_data() {
            Ok(w) => w,
            Err(e) => {
                return Err(e);
            },
        };
        match self.return_stack.push(w) {
            Ok(()) => Ok(()),
            Err(e) => Err(Error::Stack(e)),
        }
    }

    /// What `r_from` does to the machine: `before` is the machine as the word
    /// finds it, `after` as it leaves it, and `r` what it returns.
    pub open spec fn r_from_effect(before: &Self, after: &Self, r: Result<(), Error>) -> bool {
        &&& after.same_but(before, Touch::data_ret())
        &&& ({
            let s = before.data_stack@;
            let rs = before.return_stack@;
            if rs.len() == 0 {
                r == Err::<(), Error>(Error::Stack(StackError::StackEmpty))
                    && after.data_stack@ == s && after.return_stack@ == rs
            } else if s.len() >= before.data_stack.cap() {
                r == Err::<(), Error>(Error::Stack(StackError::StackOverflow))
                    && after.data_stack@ == s && after.return_stack@ == rs
            } else {
                r == Ok::<(), Error>(()) && after.data_stack@ == s.push(rs.last())
                    && after.return_stack@ == rs.drop_last()
            }
        })
    }

    /// `r> ( -- a )`: moves the top of the return stack to the data stack.
    /// Fails, both stacks unchanged, where the return stack is empty or the
    /// data stack full.
    pub fn r_from(&mut self) -> (r: Result<(), Error>)
        requires
            old(self).wf(),
        ensures
            final(self).wf(),
            Self::r_from_effect(old(self), final(self), r),
    {
        let w = match self.return_stack.try_peek() {
            Ok(w) => w,
            Err(e) => {
                return Err(Error::Stack(e));
            },
        };
        match self.push_data(w) {
            Ok(()) => {},
            Err(e) => {
                return Err(e);
            },
        }
        let _ = self.return_stack.pop();
        Ok(())
    }

    /// What `r_fetch` does to the machine: `before` is the machine as the word
    /// finds it, `after` as it leaves it, and `r` what it returns.
    pub open spec fn r_fetch_effect(before: &Self, after: &Self, r: Result<(), Error>) -> bool {
        &&& after.same_but(before, Touch::data())
        &&& ({
            let s = before.data_stack@;
            let rs = before.return_stack@;
            if rs.len() == 0 {
                r == Err::<(), Error>(Error::Stack(StackError::StackEmpty))
                    && after.data_stack@ == s
            } else if s.len() >= before.data_stack.cap() {
                r == Err::<(), Error>(Error::Stack(StackError::StackOverflow))
                    && after.data_stack@ == s
            } else {
                r == Ok::<(), Error>(()) && after.data_stack@ == s.push(rs.last())
            }
        })
    }

    /// `r@ ( -- a )` and `i ( -- a )`: copies the top of the return stack,
    /// which inside a counted loop is the loop's index, to the data stack.
    pub fn r_fetch(&mut self) -> (r: Result<(), Error>)
        requires
            old(self).wf(),
        ensures
            final(self).wf(),
            Self::r_fetch_effect(old(self), final(self), r),
    {
        match self.return_stack.try_peek() {
            Ok(w) => self.push_data(w),
            Err(e) => Err(Error::Stack(e)),
        }
    }

    /// Appends `bytes` to the output.
    pub fn print(&mut self, bytes: &[u8]) -> (r: Result<(), Error>)
        requires
            old(self).wf(),
        ensures
            final(self).wf(),
            final(self).same_but(old(self), Touch::output()),
            Self::printed(old(self), final(self), bytes@, r),
    {
        match self.output.push_bstr(bytes) {
            Ok(()) => Ok(()),
            Err(_) => Err(Error::OutputFull),
        }
    }

    /// The outcome of printing `bytes`: they are appended to the output, or
    /// the word fails with `OutputFull` and prints nothing where they do not
    /// all fit.
    pub open spec fn printed(
        before: &Self,
        after: &Self,
        bytes: Seq<u8>,
        r: Result<(), Error>,
    ) -> bool {
        if before.output@.len() + bytes.len() <= before.output.cap() {
            r == Ok::<(), Error>(()) && after.output@ == before.output@ + bytes
        } else {
            r == Err::<(), Error>(Error::OutputFull) && after.output@ == before.output@
        }
    }

    /// What `emit` does to the machine: `before` is the machine as the word
    /// finds it, `after` as it leaves it, and `r` what it returns.
    pub open spec fn emit_effect(before: &Self, after: &Self, r: Result<(), Error>) -> bool {
        &&& after.same_but(before, Touch::data_output())
        &&& ({
            let s = before.data_stack@;
            if s.len() == 0 {
                ran_dry(s, after.data_stack@, r, 1) && after.output@ == before.output@
            } else {
                after.data_stack@ == s.drop_last() && Self::printed(
                    before,
                    after,
                    seq![s.last().data as u8],
                    r,
                )
            }
        })
    }

    /// `emit ( c -- )`: prints the byte whose number is the low eight bits
    /// of `c`.
    pub fn emit(&mut self) -> (r: Result<(), Error>)
        requires
            old(self).wf(),
        ensures
            final(self).wf(),
            Self::emit_effect(old(self), final(self), r),
    {
        let w = match self.pop_data() {
            Ok(w) => w,
            Err(e) => {
                assert(self.data_stack@ =~= Seq::<Word>::empty());
                return Err(e);
            },
        };
        let b: u8 = #[verifier::truncate] (w.data as u8);
        let mut v: Vec<u8> = Vec::new();
        v.push(b);
        assert(v@ =~= seq![b]);
        self.print(v.as_slice())
    }

    /// What `dot` does to the machine: `before` is the machine as the word
    /// finds it, `after` as it leaves it, and `r` what it returns.
    pub open spec fn dot_effect(before: &Self, after: &Self, r: Result<(), Error>) -> bool {
        &&& after.same_but(before, Touch::data_output())
        &&& ({
            let s = before.data_stack@;
            if s.len() == 0 {
                ran_dry(s, after.data_stack@, r, 1) && after.output@ == before.output@
            } else {
                after.data_stack@ == s.drop_last() && Self::printed(
                    before,
                    after,
                    decimal_of(s.last().data as int).push(0x20u8),
                    r,
                )
            }
        })
    }

    /// `. ( n -- )`: prints `n` in decimal, and a space.
    pub fn dot(&mut self) -> (r: Result<(), Error>)
        requires
            old(self).wf(),
        ensures
            final(self).wf(),
            Self::dot_effect(old(self), final(self), r),
    {
        let w = match self.pop_data() {
            Ok(w) => w,
            Err(e) => {
                assert(self.data_stack@ =~= Seq::<Word>::empty());
                return Err(e);
            },
        };
        let mut v = format_decimal(w.data);
        v.push(0x20);
        self.print(v.as_slice())
    }

    /// What `cr` does to the machine: `before` is the machine as the word
    /// finds it, `after` as it leaves it, and `r` what it returns.
    pub open spec fn cr_effect(before: &Self, after: &Self, r: Result<(), Error>) -> bool {
        &&& after.same_but(before, Touch::output())
        &&& Self::printed(before, after, seq![0x0au8], r)
    }

    /// `cr ( -- )`: prints a line feed.
    pub fn cr(&mut self) -> (r: Result<(), Error>)
        requires
            old(self).wf(),
        ensures
            final(self).wf(),
            Self::cr_effect(old(self), final(self), r),
    {
        let mut v: Vec<u8> = Vec::new();
        v.push(0x0a);
        assert(v@ =~= seq![0x0au8]);
        self.print(v.as_slice())
    }

    /// What `space` does to the machine: `before` is the machine as the word
    /// finds it, `after` as it leaves it, and `r` what it returns.
    pub open spec fn space_effect(before: &Self, after: &Self, r: Result<(), Error>) -> bool {
        &&& after.same_but(before, Touch::output())
        &&& Self::printed(before, after, seq![0x20u8], r)
    }

    /// `space ( -- )`: prints a space.
    pub fn space(&mut self) -> (r: Result<(), Error>)
        requires
            old(self).wf(),
        ensures
            final(self).wf(),
            Self::space_effect(old(self), final(self), r),
    {
        let mut v: Vec<u8> = Vec::new();
        v.push(0x20);
        assert(v@ =~= seq![0x20u8]);
        self.print(v.as_slice())
    }
}

/// The cells of `s` in decimal, lowest first, each followed by a space.
pub open spec fn listing(s: Seq<Word>) -> Seq<u8>
    decreases s.len(),
{
    if s.len() == 0 {
        Seq::empty()
    } else {
        listing(s.drop_last()) + decimal_of(s.last().data as int).push(0x20u8)
    }
}

impl<T> Forth<T> {
    /// What `dot_s` does to the machine: `before` is the machine as the word
    /// finds it, `after` as it leaves it, and `r` what it returns.
    pub open spec fn dot_s_effect(before: &Self, after: &Self, r: Result<(), Error>) -> bool {
        &&& after.same_but(before, Touch::output())
        &&& Self::printed(before, after, listing(before.data_stack@), r)
    }

    /// `.s ( -- )`: prints the cells of the data stack, lowest first, and
    /// leaves them where they are.
    pub fn dot_s(&mut self) -> (r: Result<(), Error>)
        requires
            old(self).wf(),
        ensures
            final(self).wf(),
            Self::dot_s_effect(old(self), final(self), r),
    {
        let n = self.data_stack.depth();
        let mut v: Vec<u8> = Vec::new();
        let mut i: usize = 0;
        while i < n
            invariant
                i <= n,
                n == self.data_stack@.len(),
                v@ == listing(self.data_stack@.take(i as int)),
            decreases n - i,
        {
            let w = match self.data_stack.peek_back_n(n - 1 - i) {
                Some(w) => w,
                None => Word { data: 0 },
            };
            let mut d = format_decimal(w.data);
            d.push(0x20);
            v.extend_from_slice(d.as_slice());
            i += 1;
            proof {
                let part = self.data_stack@.take(i as int);
                assert(part.drop_last() =~= self.data_stack@.take(i - 1));
                assert(part.last() == w);
            }
        }
        assert(self.data_stack@.take(n as int) =~= self.data_stack@);
        self.print(v.as_slice())
    }
}

} // verus!
