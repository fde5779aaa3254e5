//! The cell: one machine word of the virtual machine.

use vstd::prelude::*;

verus! {

/// Bytes in a cell.
pub const WORD_SIZE: usize = 4;

/// The highest address a cell can name.
pub const ADDR_MAX: usize = 0x7fff_ffff;

/// A cell. What it stands for is decided by the word that reads it: a signed
/// integer, a byte address, or a reference to a dictionary entry.
#[derive(Debug, Clone, Copy, PartialEq, Eq, Structural)]
pub struct Word {
    pub data: i32,
}

impl Word {
    /// The cell holding the integer `data`.
    pub fn data(data: i32) -> (w: Word)
        ensures
            w.data == data,
    {
        Word { data }
    }

    /// The cell naming the byte address `addr`, if a cell can hold it.
    pub fn ptr(addr: usize) -> (w: Option<Word>)
        ensures
            addr <= ADDR_MAX ==> w == Some(Word { data: addr as i32 }),
            addr > ADDR_MAX ==> w == None::<Word>,
    {
        if addr <= ADDR_MAX {
            Some(Word { data: addr as i32 })
        } else {
            None
        }
    }

    /// The byte address the cell names, if it names one.
    pub fn addr(self) -> (a: Option<usize>)
        ensures
            self.data >= 0 ==> a == Some(self.data as usize),
            self.data < 0 ==> a == None::<usize>,
    {
        if self.data >= 0 {
            Some(self.data as usize)
        } else {
            None
        }
    }

    /// The truth value Forth reads from a cell: anything but zero is true.
    pub fn is_true(self) -> (b: bool)
        ensures
            b == (self.data != 0),
    {
        self.data != 0
    }

    /// The cell for a truth value: `-1` for true, `0` for false.
    pub fn flag(b: bool) -> (w: Word)
        ensures
            w.data == if b { -1i32 } else { 0i32 },
    {
        Word { data: if b { -1 } else { 0 } }
    }
}

} // verus!
