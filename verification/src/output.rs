//! The output buffer: a bounded sink for the text the machine prints.

use vstd::prelude::*;
use vstd::string::StringSliceAdditionalSpecFns;
use crate::num::{decimal_of, format_decimal};

verus! {

/// Why the output buffer refused text.
#[derive(Debug, Clone, Copy, PartialEq, Eq, Structural)]
pub enum OutputError {
    /// The text would not fit.
    OutputFull,
}

/// A buffer of at most `capacity` bytes of output. Its view is the bytes
/// written so far.
pub struct OutputBuf {
    buf: Vec<u8>,
    cap: usize,
}

impl View for OutputBuf {
    type V = Seq<u8>;

    closed spec fn view(&self) -> Seq<u8> {
        self.buf@
    }
}

impl OutputBuf {
    /// The most bytes the buffer holds.
    pub closed spec fn cap(&self) -> nat {
        self.cap as nat
    }

    pub open spec fn wf(&self) -> bool {
        self@.len() <= self.cap()
    }

    /// An empty buffer for at most `capacity` bytes.
    pub fn new(capacity: usize) -> (b: Self)
        ensures
            b.wf(),
            b.cap() == capacity,
            b@ == Seq::<u8>::empty(),
    {
        OutputBuf { buf: Vec::new(), cap: capacity }
    }

    pub fn capacity(&self) -> (n: usize)
        ensures
            n == self.cap(),
    {
        self.cap
    }

    /// Drops what was written.
    pub fn clear(&mut self)
        ensures
            final(self).wf(),
            final(self).cap() == old(self).cap(),
            final(self)@ == Seq::<u8>::empty(),
    {
        self.buf.clear();
    }

    /// The bytes written so far.
    pub fn as_bytes(&self) -> (b: &[u8])
        ensures
            b@ == self@,
    {
        self.buf.as_slice()
    }

    /// Appends `bytes`. Fails with `OutputFull`, the buffer unchanged, where
    /// they do not all fit.
    pub fn push_bstr(&mut self, bytes: &[u8]) -> (r: Result<(), OutputError>)
        requires
            old(self).wf(),
        ensures
            final(self).wf(),
            final(self).cap() == old(self).cap(),
            old(self)@.len() + bytes@.len() <= old(self).cap() ==> r == Ok::<(), OutputError>(())
                && final(self)@ == old(self)@ + bytes@,
            old(self)@.len() + bytes@.len() > old(self).cap() ==> r == Err::<(), OutputError>(
                OutputError::OutputFull,
            ) && final(self)@ == old(self)@,
    {
        if bytes.len() > self.cap - self.buf.len() {
            return Err(OutputError::OutputFull);
        }
        self.buf.extend_from_slice(bytes);
        Ok(())
    }

    /// Appends the bytes of `text` as `push_bstr` does.
    pub fn push_str(&mut self, text: &str) -> (r: Result<(), OutputError>)
        requires
            old(self).wf(),
        ensures
            final(self).wf(),
            final(self).cap() == old(self).cap(),
            old(self)@.len() + text.spec_bytes().len() <= old(self).cap() ==> r == Ok::<
                (),
                OutputError,
            >(()) && final(self)@ == old(self)@ + text.spec_bytes(),
            old(self)@.len() + text.spec_bytes().len() > old(self).cap() ==> r == Err::<
                (),
                OutputError,
            >(OutputError::OutputFull) && final(self)@ == old(self)@,
    {
        self.push_bstr(text.as_bytes())
    }

    /// Appends `n` in decimal. Fails with `OutputFull`, the buffer unchanged,
    /// where the digits do not all fit.
    pub fn push_decimal(&mut self, n: i32) -> (r: Result<(), OutputError>)
        requires
            old(self).wf(),
        ensures
            final(self).wf(),
            final(self).cap() == old(self).cap(),
            old(self)@.len() + decimal_of(n as int).len() <= old(self).cap() ==> r == Ok::<
                (),
                OutputError,
            >(()) && final(self)@ == old(self)@ + decimal_of(n as int),
            old(self)@.len() + decimal_of(n as int).len() > old(self).cap() ==> r == Err::<
                (),
                OutputError,
            >(OutputError::OutputFull) && final(self)@ == old(self)@,
    {
        let digits = format_decimal(n);
        self.push_bstr(digits.as_slice())
    }

    /// Appends the one byte `b`.
    pub fn push_u8(&mut self, b: u8) -> (r: Result<(), OutputError>)
        requires
            old(self).wf(),
        ensures
            final(self).wf(),
            final(self).cap() == old(self).cap(),
            old(self)@.len() < old(self).cap() ==> r == Ok::<(), OutputError>(()) && final(self)@
                == old(self)@.push(b),
            old(self)@.len() >= old(self).cap() ==> r == Err::<(), OutputError>(
                OutputError::OutputFull,
            ) && final(self)@ == old(self)@,
    {
        if self.buf.len() >= self.cap {
            return Err(OutputError::OutputFull);
        }
        self.buf.push(b);
        Ok(())
    }
}

} // verus!
