//! Fixed-capacity LIFO stacks.

use vstd::prelude::*;

verus! {

/// The ways a stack operation can fail.
#[derive(Debug, Clone, Copy, PartialEq, Eq, Structural)]
pub enum StackError {
    /// A push found the stack at capacity.
    StackOverflow,
    /// An access below the top reached past the bottom of a non-empty stack.
    StackUnderflow,
    /// A pop or peek found nothing on the stack.
    StackEmpty,
}

/// A stack of at most `capacity` items. Its view lists the items from the
/// bottom to the top.
pub struct Stack<T> {
    items: Vec<T>,
    cap: usize,
}

impl<T> View for Stack<T> {
    type V = Seq<T>;

    closed spec fn view(&self) -> Seq<T> {
        self.items@
    }
}

impl<T> Stack<T> {
    /// The capacity the stack was made with.
    pub closed spec fn cap(&self) -> nat {
        self.cap as nat
    }

    /// The stack never holds more than its capacity.
    pub open spec fn wf(&self) -> bool {
        self@.len() <= self.cap()
    }

    /// The item `n` places below the top of `s`.
    pub open spec fn back(s: Seq<T>, n: int) -> T
        recommends
            0 <= n < s.len(),
    {
        s[s.len() - 1 - n]
    }

    pub fn new(capacity: usize) -> (s: Self)
        ensures
            s@ == Seq::<T>::empty(),
            s.cap() == capacity,
            s.wf(),
    {
        Stack { items: Vec::new(), cap: capacity }
    }

    pub fn depth(&self) -> (n: usize)
        ensures
            n == self@.len(),
    {
        self.items.len()
    }

    pub fn capacity(&self) -> (n: usize)
        ensures
            n == self.cap(),
    {
        self.cap
    }

    pub fn clear(&mut self)
        ensures
            final(self)@ == Seq::<T>::empty(),
            final(self).cap() == old(self).cap(),
            final(self).wf(),
    {
        self.items.clear();
    }

    /// Pushes `item`, or fails with `StackOverflow` and leaves the stack as
    /// it was when it is full.
    pub fn push(&mut self, item: T) -> (r: Result<(), StackError>)
        ensures
            old(self).wf() ==> final(self).wf(),
            final(self).cap() == old(self).cap(),
            old(self)@.len() < old(self).cap() ==> r == Ok::<(), StackError>(()) && final(self)@
                == old(self)@.push(item),
            old(self)@.len() >= old(self).cap() ==> r == Err::<(), StackError>(
                StackError::StackOverflow,
            ) && final(self)@ == old(self)@,
    {
        if self.items.len() >= self.cap {
            return Err(StackError::StackOverflow);
        }
        self.items.push(item);
        Ok(())
    }

    /// Removes and returns the top item, or fails with `StackEmpty`.
    pub fn try_pop(&mut self) -> (r: Result<T, StackError>)
        ensures
            final(self).cap() == old(self).cap(),
            old(self).wf() ==> final(self).wf(),
            old(self)@.len() > 0 ==> r == Ok::<T, StackError>(old(self)@.last()) && final(self)@
                == old(self)@.drop_last(),
            old(self)@.len() == 0 ==> r == Err::<T, StackError>(StackError::StackEmpty)
                && final(self)@ == old(self)@,
    {
        match self.items.pop() {
            Some(item) => Ok(item),
            None => Err(StackError::StackEmpty),
        }
    }

    /// Removes and returns the top item, if there is one.
    pub fn pop(&mut self) -> (r: Option<T>)
        ensures
            final(self).cap() == old(self).cap(),
            old(self).wf() ==> final(self).wf(),
            old(self)@.len() > 0 ==> r == Some(old(self)@.last())
                && final(self)@ == old(self)@.drop_last(),
            old(self)@.len() == 0 ==> r == None::<T> && final(self)@ == old(self)@,
    {
        self.items.pop()
    }
}

impl<T: Copy> Stack<T> {
    /// A copy of the top item, or `StackEmpty`.
    pub fn try_peek(&self) -> (r: Result<T, StackError>)
        ensures
            self@.len() > 0 ==> r == Ok::<T, StackError>(self@.last()),
            self@.len() == 0 ==> r == Err::<T, StackError>(StackError::StackEmpty),
    {
        let n = self.items.len();
        if n == 0 {
            Err(StackError::StackEmpty)
        } else {
            Ok(self.items[n - 1])
        }
    }

    /// A copy of the top item, if there is one.
    pub fn peek(&self) -> (r: Option<T>)
        ensures
            self@.len() > 0 ==> r == Some(self@.last()),
            self@.len() == 0 ==> r == None::<T>,
    {
        let n = self.items.len();
        if n == 0 {
            None
        } else {
            Some(self.items[n - 1])
        }
    }

    /// A copy of the item `n` places below the top (`0` is the top itself).
    /// Fails with `StackEmpty` on an empty stack and with `StackUnderflow`
    /// when the stack holds items, but no more than `n` of them.
    pub fn try_peek_back_n(&self, n: usize) -> (r: Result<T, StackError>)
        ensures
            n < self@.len() ==> r == Ok::<T, StackError>(Self::back(self@, n as int)),
            self@.len() == 0 ==> r == Err::<T, StackError>(StackError::StackEmpty),
            0 < self@.len() <= n ==> r == Err::<T, StackError>(StackError::StackUnderflow),
    {
        let len = self.items.len();
        if len == 0 {
            Err(StackError::StackEmpty)
        } else if n >= len {
            Err(StackError::StackUnderflow)
        } else {
            Ok(self.items[len - 1 - n])
        }
    }

    /// A copy of the item `n` places below the top, if the stack is that deep.
    pub fn peek_back_n(&self, n: usize) -> (r: Option<T>)
        ensures
            n < self@.len() ==> r == Some(Self::back(self@, n as int)),
            n >= self@.len() ==> r == None::<T>,
    {
        let len = self.items.len();
        if n >= len {
            None
        } else {
            Some(self.items[len - 1 - n])
        }
    }

    /// Replaces the item `n` places below the top by `item`. Fails like
    /// `try_peek_back_n`, leaving the stack as it was.
    pub fn overwrite_back_n(&mut self, n: usize, item: T) -> (r: Result<(), StackError>)
        ensures
            final(self).cap() == old(self).cap(),
            old(self).wf() ==> final(self).wf(),
            n < old(self)@.len() ==> r == Ok::<(), StackError>(())
                && final(self)@ == old(self)@.update(old(self)@.len() - 1 - n, item),
            old(self)@.len() == 0 ==> r == Err::<(), StackError>(StackError::StackEmpty)
                && final(self)@ == old(self)@,
            0 < old(self)@.len() <= n ==> r == Err::<(), StackError>(StackError::StackUnderflow)
                && final(self)@ == old(self)@,
    {
        let len = self.items.len();
        if len == 0 {
            Err(StackError::StackEmpty)
        } else if n >= len {
            Err(StackError::StackUnderflow)
        } else {
            self.items.set(len - 1 - n, item);
            Ok(())
        }
    }
}

} // verus!
