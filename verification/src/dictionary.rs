//! The dictionary: a bump arena, and the list of entries that live in it.

use vstd::prelude::*;
use vstd::string::StringSliceAdditionalSpecFns;
use crate::builtin::WordFunc;
use crate::fastr::{all_ascii, folded, is_all_ascii, is_name, lemma_folded_is_name, FaStr,
    MAX_NAME_LEN};
use crate::word::{Word, WORD_SIZE, ADDR_MAX};
use crate::refcount::{MUTABLE, counter_new, counter_load, counter_fetch_add, counter_fetch_sub,
    counter_compare_exchange, counter_fence, is_mutable_count, admits_holder, was_last_holder};
use std::sync::Arc;
use vstd::slice::slice_subrange;

verus! {

/// Why the arena refused an allocation.
#[derive(Debug, Clone, Copy, PartialEq, Eq, Structural)]
pub enum BumpError {
    /// The arena has too little room left.
    OutOfMemory,
    /// A name holds a byte that is not ASCII.
    CantAllocUtf8,
}

/// The kinds of entries.
#[derive(Debug, Clone, Copy, PartialEq, Eq, Structural)]
pub enum EntryKind {
    /// A native word from the table the machine was built with.
    StaticBuiltin,
    /// A native word added while the machine ran.
    RuntimeBuiltin,
    /// A word defined in the dictionary.
    Dictionary,
    /// A native word that suspends the machine until the host has run it.
    AsyncBuiltin,
}

/// Bytes that an entry header takes in the arena.
pub const ENTRY_HEADER_SIZE: usize = 3 * WORD_SIZE;

/// Bytes that the entry of a native word takes.
pub const BUILTIN_ENTRY_SIZE: usize = 4 * WORD_SIZE;

/// Bytes that the entry of a suspending native word takes.
pub const ASYNC_BUILTIN_ENTRY_SIZE: usize = 3 * WORD_SIZE;

/// Bytes that a dictionary entry takes in the arena, its parameter field not
/// counted.
pub const DICTIONARY_ENTRY_SIZE: usize = 5 * WORD_SIZE;

/// The alignment of entries and cells in the arena.
pub const ENTRY_ALIGN: usize = WORD_SIZE;

/// What every entry starts with.
#[derive(Debug)]
pub struct EntryHeader {
    pub name: FaStr,
    pub kind: EntryKind,
    /// Cells in the parameter field.
    pub len: u16,
}

/// A native word with its name.
#[derive(Debug)]
pub struct BuiltinEntry {
    pub hdr: EntryHeader,
    pub func: WordFunc,
}

/// The name of a native word that suspends the machine.
#[derive(Debug)]
pub struct AsyncBuiltinEntry {
    pub hdr: EntryHeader,
}

impl BuiltinEntry {
    /// The entry of a native word with the code field `func` under the name
    /// that `name` folds to. `None` where `name` has more than 31 bytes or
    /// one that is not ASCII.
    pub fn new(name: &str, func: WordFunc) -> (r: Option<BuiltinEntry>)
        ensures
            name.spec_bytes().len() <= MAX_NAME_LEN && all_ascii(name.spec_bytes()) ==> (
            r matches Some(e) && e.hdr.name@ == folded(name.spec_bytes()) && e.hdr.name.wf()
                && e.hdr.kind == EntryKind::StaticBuiltin && e.hdr.len == 0 && e.func == func),
            !(name.spec_bytes().len() <= MAX_NAME_LEN && all_ascii(name.spec_bytes())) ==> r
                is None,
    {
        match FaStr::new(name.as_bytes()) {
            Some(n) => Some(
                BuiltinEntry {
                    hdr: EntryHeader { name: n, kind: EntryKind::StaticBuiltin, len: 0 },
                    func,
                },
            ),
            None => None,
        }
    }
}

impl AsyncBuiltinEntry {
    /// The entry of a suspending native word under the name that `name`
    /// folds to. `None` where `name` has more than 31 bytes or one that is
    /// not ASCII.
    pub fn new(name: &str) -> (r: Option<AsyncBuiltinEntry>)
        ensures
            name.spec_bytes().len() <= MAX_NAME_LEN && all_ascii(name.spec_bytes()) ==> (
            r matches Some(e) && e.hdr.name@ == folded(name.spec_bytes()) && e.hdr.name.wf()
                && e.hdr.kind == EntryKind::AsyncBuiltin && e.hdr.len == 0),
            !(name.spec_bytes().len() <= MAX_NAME_LEN && all_ascii(name.spec_bytes())) ==> r
                is None,
    {
        match FaStr::new(name.as_bytes()) {
            Some(n) => Some(
                AsyncBuiltinEntry {
                    hdr: EntryHeader { name: n, kind: EntryKind::AsyncBuiltin, len: 0 },
                },
            ),
            None => None,
        }
    }
}

/// An entry of the dictionary.
#[derive(Debug)]
pub struct DictionaryEntry {
    pub hdr: EntryHeader,
    /// The code field.
    pub func: WordFunc,
    /// The link field: the position of the entry defined before this one.
    pub link: Option<usize>,
    /// The address of the entry in the arena.
    pub addr: usize,
}

impl DictionaryEntry {
    /// The address of the parameter field: the cells that follow the entry.
    pub open spec fn spec_pfa(&self) -> int {
        self.addr + DICTIONARY_ENTRY_SIZE
    }

    /// The address of the parameter field.
    pub fn pfa(&self) -> (a: usize)
        requires
            self.addr + DICTIONARY_ENTRY_SIZE <= usize::MAX,
        ensures
            a == self.spec_pfa(),
    {
        self.addr + DICTIONARY_ENTRY_SIZE
    }
}

impl DictionaryEntry {
    /// The cells of the parameter field, as `dict` stores them, if it
    /// stores them all.
    pub open spec fn parameters_spec(&self, dict: &Dictionary) -> Option<Seq<Word>> {
        if forall|i: int|
            0 <= i < self.hdr.len ==> (#[trigger] dict.word_spec(self.spec_pfa() + WORD_SIZE * i))
                is Some {
            Some(
                Seq::new(
                    self.hdr.len as nat,
                    |i: int| dict.word_spec(self.spec_pfa() + WORD_SIZE * i).unwrap(),
                ),
            )
        } else {
            None
        }
    }

    /// The cells of the parameter field, read from the dictionary `dict`
    /// that holds the entry or from its parents. `None` where `dict` does
    /// not store all of them.
    pub fn parameters(&self, dict: &Dictionary) -> (r: Option<Vec<Word>>)
        requires
            dict.wf(),
            self.addr + DICTIONARY_ENTRY_SIZE + WORD_SIZE * self.hdr.len <= usize::MAX,
        ensures
            match self.parameters_spec(dict) {
                Some(p) => r is Some && r.unwrap()@ == p,
                None => r is None,
            },
    {
        let pfa = self.pfa();
        let mut v: Vec<Word> = Vec::new();
        let mut i: usize = 0;
        while i < self.hdr.len as usize
            invariant
                i <= self.hdr.len,
                dict.wf(),
                pfa == self.spec_pfa(),
                pfa + WORD_SIZE * self.hdr.len <= usize::MAX,
                v@.len() == i,
                forall|j: int|
                    0 <= j < i ==> (#[trigger] dict.word_spec(self.spec_pfa() + WORD_SIZE * j))
                        == Some(v@[j]),
            decreases self.hdr.len - i,
        {
            match dict.read_word(pfa + WORD_SIZE * i) {
                Some(w) => {
                    v.push(w);
                },
                None => {
                    assert(dict.word_spec(self.spec_pfa() + WORD_SIZE * i) is None);
                    return None;
                },
            }
            i += 1;
        }
        proof {
            let p = self.parameters_spec(dict);
            assert(p is Some);
            assert(v@ =~= p.unwrap());
        }
        Some(v)
    }
}

/// The least multiple of `align` that is not below `addr`.
pub open spec fn align_up(addr: int, align: int) -> int
    recommends
        align > 0,
{
    if addr % align == 0 {
        addr
    } else {
        addr + (align - addr % align)
    }
}

/// Aligning gives a multiple of the alignment, at most one alignment above
/// the address.
pub proof fn lemma_align_up(addr: int, align: int)
    requires
        addr >= 0,
        align > 0,
    ensures
        align_up(addr, align) % align == 0,
        addr <= align_up(addr, align) < addr + align,
{
    let r = addr % align;
    if r != 0 {
        assert((addr + (align - r)) % align == 0) by (nonlinear_arith)
            requires
                r == addr % align,
                align > 0,
                0 < r < align,
        ;
    }
}

/// `n` zero bytes.
pub open spec fn zeros(n: int) -> Seq<u8> {
    Seq::new(n as nat, |i: int| 0u8)
}

/// The cell that four bytes spell, least significant byte first.
pub open spec fn word_of_bytes(s: Seq<u8>) -> Word
    recommends
        s.len() == 4,
{
    let u = s[0] + 0x100 * s[1] + 0x1_0000 * s[2] + 0x100_0000 * s[3];
    if u >= 0x8000_0000 {
        Word { data: (u - 0x1_0000_0000) as i32 }
    } else {
        Word { data: u as i32 }
    }
}

/// The four bytes that spell a cell, least significant byte first.
pub open spec fn bytes_of_word(w: Word) -> Seq<u8> {
    let u: int = if w.data < 0 {
        w.data + 0x1_0000_0000
    } else {
        w.data as int
    };
    seq![
        (u % 0x100) as u8,
        ((u / 0x100) % 0x100) as u8,
        (((u / 0x100) / 0x100) % 0x100) as u8,
        ((((u / 0x100) / 0x100) / 0x100) % 0x100) as u8,
    ]
}

/// The cell that the bytes `b0` to `b3` spell, least significant byte first.
pub fn word_from_bytes(b0: u8, b1: u8, b2: u8, b3: u8) -> (w: Word)
    ensures
        w == word_of_bytes(seq![b0, b1, b2, b3]),
{
    let u: i64 = b0 as i64 + 0x100 * (b1 as i64) + 0x1_0000 * (b2 as i64) + 0x100_0000 * (b3
        as i64);
    let data: i32 = if u >= 0x8000_0000 {
        (u - 0x1_0000_0000) as i32
    } else {
        u as i32
    };
    Word { data }
}

/// The four bytes that spell the cell `w`, least significant byte first.
pub fn word_to_bytes(w: Word) -> (b: (u8, u8, u8, u8))
    ensures
        seq![b.0, b.1, b.2, b.3] == bytes_of_word(w),
{
    let u: i64 = if w.data < 0 {
        w.data as i64 + 0x1_0000_0000
    } else {
        w.data as i64
    };
    let q1 = u / 0x100;
    let q2 = q1 / 0x100;
    let q3 = q2 / 0x100;
    let b = ((u % 0x100) as u8, (q1 % 0x100) as u8, (q2 % 0x100) as u8, (q3 % 0x100) as u8);
    assert(seq![b.0, b.1, b.2, b.3] =~= bytes_of_word(w));
    b
}

/// Reading back the bytes of a cell gives the cell.
pub proof fn lemma_word_bytes_roundtrip(w: Word)
    ensures
        bytes_of_word(w).len() == 4,
        word_of_bytes(bytes_of_word(w)) == w,
{
    let u: int = if w.data < 0 {
        w.data + 0x1_0000_0000
    } else {
        w.data as int
    };
    let q1 = u / 0x100;
    let q2 = q1 / 0x100;
    let q3 = q2 / 0x100;
    assert(u == 0x100 * q1 + u % 0x100);
    assert(q1 == 0x100 * q2 + q1 % 0x100);
    assert(q2 == 0x100 * q3 + q2 % 0x100);
    assert(0 <= q3 < 0x100);
    assert(q3 % 0x100 == q3);
    let s = bytes_of_word(w);
    assert(s[0] == u % 0x100);
    assert(s[1] == q1 % 0x100);
    assert(s[2] == q2 % 0x100);
    assert(s[3] == q3);
    assert(s[0] + 0x100 * s[1] + 0x1_0000 * s[2] + 0x100_0000 * s[3] == u);
}

/// A bump arena: a range of addresses handed out from the bottom up and never
/// taken back, with the bytes stored at the addresses handed out so far.
pub struct DictionaryBump {
    pub start: usize,
    pub cur: usize,
    pub end: usize,
    pub mem: Vec<u8>,
}

impl DictionaryBump {
    /// The cursor lies within the arena, every address fits a cell, and the
    /// arena stores one byte for each address handed out.
    pub open spec fn wf(&self) -> bool {
        &&& self.start <= self.cur <= self.end <= ADDR_MAX
        &&& self.mem@.len() == self.cur - self.start
    }

    /// Whether `len` bytes from address `addr` on have all been handed out.
    pub open spec fn holds(&self, addr: int, len: int) -> bool {
        self.start <= addr && addr + len <= self.cur && len >= 0
    }

    /// The bytes stored from address `addr` on.
    pub open spec fn bytes_at(&self, addr: int, len: int) -> Seq<u8> {
        self.mem@.subrange(addr - self.start, addr - self.start + len)
    }

    /// An empty arena of `size` bytes whose first address is `bottom`.
    pub fn new(bottom: usize, size: usize) -> (b: Self)
        requires
            bottom + size <= ADDR_MAX,
        ensures
            b.wf(),
            b.start == bottom,
            b.cur == bottom,
            b.end == bottom + size,
            b.mem@ == Seq::<u8>::empty(),
    {
        DictionaryBump { start: bottom, cur: bottom, end: bottom + size, mem: Vec::new() }
    }

    /// Stores `n` more zero bytes.
    fn grow(&mut self, n: usize)
        ensures
            final(self).mem@ == old(self).mem@ + zeros(n as int),
            final(self).start == old(self).start,
            final(self).cur == old(self).cur,
            final(self).end == old(self).end,
    {
        let mut i: usize = 0;
        while i < n
            invariant
                i <= n,
                self.mem@ == old(self).mem@ + zeros(i as int),
                self.start == old(self).start,
                self.cur == old(self).cur,
                self.end == old(self).end,
            decreases n - i,
        {
            self.mem.push(0);
            i += 1;
            assert(self.mem@ =~= old(self).mem@ + zeros(i as int));
        }
    }

    /// Hands out `n` bytes, zeroed, and returns the address of the first.
    /// `None`, with the arena unchanged, where `n` is zero or more than is
    /// left.
    pub fn bump_u8s(&mut self, n: usize) -> (r: Option<usize>)
        requires
            old(self).wf(),
        ensures
            final(self).wf(),
            final(self).start == old(self).start,
            final(self).end == old(self).end,
            0 < n <= old(self).end - old(self).cur ==> r == Some(old(self).cur) && final(self).cur
                == old(self).cur + n && final(self).mem@ == old(self).mem@ + zeros(n as int),
            !(0 < n <= old(self).end - old(self).cur) ==> r == None::<usize> && *final(self)
                == *old(self),
    {
        if n == 0 || n > self.end - self.cur {
            return None;
        }
        let ptr = self.cur;
        self.grow(n);
        self.cur = self.cur + n;
        Some(ptr)
    }

    /// Hands out one byte, zeroed, and returns its address. `None`, with the
    /// arena unchanged, where the arena is full.
    pub fn bump_u8(&mut self) -> (r: Option<usize>)
        requires
            old(self).wf(),
        ensures
            final(self).wf(),
            final(self).start == old(self).start,
            final(self).end == old(self).end,
            old(self).cur < old(self).end ==> r == Some(old(self).cur)
                && final(self).cur == old(self).cur + 1
                && final(self).mem@ == old(self).mem@.push(0u8),
            old(self).cur >= old(self).end ==> r == None::<usize> && *final(self) == *old(self),
    {
        if self.cur >= self.end {
            return None;
        }
        let ptr = self.cur;
        self.mem.push(0);
        self.cur = self.cur + 1;
        Some(ptr)
    }

    /// Hands out `size` bytes at the next address that is a multiple of
    /// `align`, and returns that address. The bytes handed out and those
    /// skipped to reach the address are zeroed. Fails with `OutOfMemory`, the
    /// arena unchanged, where they do not all fit.
    pub fn bump(&mut self, size: usize, align: usize) -> (r: Result<usize, BumpError>)
        requires
            old(self).wf(),
            align > 0,
        ensures
            final(self).wf(),
            final(self).start == old(self).start,
            final(self).end == old(self).end,
            align_up(old(self).cur as int, align as int) + size <= old(self).end ==> r == Ok::<
                usize,
                BumpError,
            >(align_up(old(self).cur as int, align as int) as usize) && final(self).cur
                == align_up(old(self).cur as int, align as int) + size
                    && final(self).mem@ == old(self).mem@ + zeros(final(self).cur - old(self).cur),
            align_up(old(self).cur as int, align as int) + size > old(self).end ==> r == Err::<
                usize,
                BumpError,
            >(BumpError::OutOfMemory) && *final(self) == *old(self),
    {
        let rem = self.cur % align;
        let offset = if rem == 0 {
            0
        } else {
            align - rem
        };
        let left = self.end - self.cur;
        if offset > left || size > left - offset {
            return Err(BumpError::OutOfMemory);
        }
        let aligned = self.cur + offset;
        self.grow(offset + size);
        self.cur = aligned + size;
        Ok(aligned)
    }

    /// Hands out an aligned cell and stores `val` in it.
    pub fn bump_write(&mut self, val: Word) -> (r: Result<(), BumpError>)
        requires
            old(self).wf(),
        ensures
            final(self).wf(),
            final(self).start == old(self).start,
            final(self).end == old(self).end,
            align_up(old(self).cur as int, WORD_SIZE as int) + WORD_SIZE <= old(self).end ==> r
                == Ok::<(), BumpError>(()) && final(self).cur == align_up(
                    old(self).cur as int,
                    WORD_SIZE as int,
                ) + WORD_SIZE && final(self).mem@ == old(self).mem@ + zeros(
                align_up(old(self).cur as int, WORD_SIZE as int) - old(self).cur,
            ) + bytes_of_word(val),
            align_up(old(self).cur as int, WORD_SIZE as int) + WORD_SIZE > old(self).end ==> r
                == Err::<(), BumpError>(BumpError::OutOfMemory) && *final(self) == *old(self),
    {
        match self.bump(WORD_SIZE, WORD_SIZE) {
            Ok(addr) => {
                let ok = self.write_word(addr, val);
                assert(ok);
                assert(self.mem@ =~= old(self).mem@ + zeros(addr - old(self).cur) + bytes_of_word(
                    val,
                ));
                Ok(())
            },
            Err(e) => Err(e),
        }
    }

    /// Hands out room for the first 31 bytes of `s` and stores them there,
    /// capital letters folded to small ones; returns the name they spell.
    /// Fails with `CantAllocUtf8` where any byte of `s` is not ASCII, and
    /// with `OutOfMemory` where `s` is empty or the bytes do not fit; the
    /// arena is then unchanged.
    pub fn bump_str(&mut self, s: &[u8]) -> (r: Result<FaStr, BumpError>)
        requires
            old(self).wf(),
        ensures
            final(self).wf(),
            final(self).start == old(self).start,
            final(self).end == old(self).end,
            ({
                let head = FaStr::head(s@);
                if !all_ascii(s@) {
                    r is Err && r.unwrap_err() == BumpError::CantAllocUtf8
                        && *final(self) == *old(self)
                } else if head.len() == 0 || head.len() > old(self).end - old(self).cur {
                    r is Err && r.unwrap_err() == BumpError::OutOfMemory
                        && *final(self) == *old(self)
                } else {
                    r is Ok && r.unwrap()@ == folded(head) && r.unwrap().wf() && final(self).cur
                        == old(self).cur + head.len() && final(self).mem@ == old(self).mem@
                        + folded(head)
                }
            }),
    {
        let name = match FaStr::truncated(s) {
            Some(n) => n,
            None => {
                return Err(BumpError::CantAllocUtf8);
            },
        };
        let len = name.len();
        let addr = match self.bump_u8s(len) {
            Some(a) => a,
            None => {
                return Err(BumpError::OutOfMemory);
            },
        };
        let bytes = name.as_bytes();
        let mut i: usize = 0;
        while i < len
            invariant
                i <= len,
                len == bytes@.len(),
                bytes@ == name@,
                self.wf(),
                self.start == old(self).start,
                self.end == old(self).end,
                self.cur == old(self).cur + len,
                addr == old(self).cur,
                old(self).wf(),
                self.mem@ == old(self).mem@ + bytes@.take(i as int) + zeros(len - i),
            decreases len - i,
        {
            let ok = self.write_u8(addr + i, bytes[i]);
            assert(ok);
            i += 1;
            assert(self.mem@ =~= old(self).mem@ + bytes@.take(i as int) + zeros(len - i));
        }
        assert(self.mem@ =~= old(self).mem@ + name@);
        Ok(name)
    }

    /// Whether `ptr` is an address of the arena.
    pub fn contains(&self, ptr: usize) -> (r: bool)
        ensures
            r == (self.start <= ptr < self.end),
    {
        ptr >= self.start && ptr < self.end
    }

    /// Bytes in the arena.
    pub fn capacity(&self) -> (n: usize)
        requires
            self.wf(),
        ensures
            n == self.end - self.start,
    {
        self.end - self.start
    }

    /// Bytes handed out.
    pub fn used(&self) -> (n: usize)
        requires
            self.wf(),
        ensures
            n == self.cur - self.start,
            n <= self.end - self.start,
    {
        self.cur - self.start
    }

    /// The byte stored at `addr`, if that address has been handed out.
    pub fn read_u8(&self, addr: usize) -> (r: Option<u8>)
        requires
            self.wf(),
        ensures
            self.holds(addr as int, 1) ==> r == Some(self.mem@[addr - self.start]),
            !self.holds(addr as int, 1) ==> r == None::<u8>,
    {
        if addr >= self.start && addr < self.cur {
            Some(self.mem[addr - self.start])
        } else {
            None
        }
    }

    /// Stores `val` at `addr`. Returns `false`, with nothing stored, where
    /// that address has not been handed out.
    pub fn write_u8(&mut self, addr: usize, val: u8) -> (ok: bool)
        requires
            old(self).wf(),
        ensures
            final(self).wf(),
            final(self).start == old(self).start,
            final(self).cur == old(self).cur,
            final(self).end == old(self).end,
            ok == old(self).holds(addr as int, 1),
            ok ==> final(self).mem@ == old(self).mem@.update(addr - old(self).start, val),
            !ok ==> *final(self) == *old(self),
    {
        if addr >= self.start && addr < self.cur {
            self.mem.set(addr - self.start, val);
            true
        } else {
            false
        }
    }

    /// The cell stored in the four bytes from `addr` on, if they have all
    /// been handed out.
    pub fn read_word(&self, addr: usize) -> (r: Option<Word>)
        requires
            self.wf(),
        ensures
            self.holds(addr as int, 4) ==> r == Some(word_of_bytes(self.bytes_at(addr as int, 4))),
            !self.holds(addr as int, 4) ==> r == None::<Word>,
    {
        if addr < self.start || self.cur - self.start < 4 || addr - self.start > self.cur
            - self.start - 4 {
            return None;
        }
        let off = addr - self.start;
        let b0 = self.mem[off] as i64;
        let b1 = self.mem[off + 1] as i64;
        let b2 = self.mem[off + 2] as i64;
        let b3 = self.mem[off + 3] as i64;
        let u: i64 = b0 + 0x100 * b1 + 0x1_0000 * b2 + 0x100_0000 * b3;
        let data: i32 = if u >= 0x8000_0000 {
            (u - 0x1_0000_0000) as i32
        } else {
            u as i32
        };
        Some(Word { data })
    }

    /// Stores `val` in the four bytes from `addr` on. Returns `false`, with
    /// nothing stored, where they have not all been handed out.
    pub fn write_word(&mut self, addr: usize, val: Word) -> (ok: bool)
        requires
            old(self).wf(),
        ensures
            final(self).wf(),
            final(self).start == old(self).start,
            final(self).cur == old(self).cur,
            final(self).end == old(self).end,
            ok == old(self).holds(addr as int, 4),
            ok ==> final(self).mem@ == old(self).mem@.subrange(0, addr - old(self).start)
                + bytes_of_word(val) + old(self).mem@.subrange(
                    addr - old(self).start + 4,
                    old(self).mem@.len() as int,
                ),
            !ok ==> *final(self) == *old(self),
    {
        if addr < self.start || self.cur - self.start < 4 || addr - self.start > self.cur
            - self.start - 4 {
            return false;
        }
        let off = addr - self.start;
        let u: i64 = if val.data < 0 {
            val.data as i64 + 0x1_0000_0000
        } else {
            val.data as i64
        };
        let q1 = u / 0x100;
        let q2 = q1 / 0x100;
        let q3 = q2 / 0x100;
        self.mem.set(off, (u % 0x100) as u8);
        self.mem.set(off + 1, (q1 % 0x100) as u8);
        self.mem.set(off + 2, (q2 % 0x100) as u8);
        self.mem.set(off + 3, (q3 % 0x100) as u8);
        assert(self.mem@ =~= old(self).mem@.subrange(0, off as int) + bytes_of_word(val)
            + old(self).mem@.subrange(off + 4, old(self).mem@.len() as int));
        true
    }
}

/// The most entries a dictionary and its parents can hold together.
pub const MAX_ENTRIES: usize = 0x3fff_ffff;

/// The position of the last of `entries` whose name is `name`.
pub open spec fn last_named(entries: Seq<DictionaryEntry>, name: Seq<u8>) -> Option<int>
    decreases entries.len(),
{
    if entries.len() == 0 {
        None
    } else if entries.last().hdr.name@ == name {
        Some(entries.len() - 1)
    } else {
        last_named(entries.drop_last(), name)
    }
}

/// `last_named` finds the last entry of that name, or `None` where no entry
/// has that name.
pub proof fn lemma_last_named(entries: Seq<DictionaryEntry>, name: Seq<u8>)
    ensures
        match last_named(entries, name) {
            Some(i) => 0 <= i < entries.len() && entries[i].hdr.name@ == name && forall|j: int|
                i < j < entries.len() ==> (#[trigger] entries[j]).hdr.name@ != name,
            None => forall|j: int|
                0 <= j < entries.len() ==> (#[trigger] entries[j]).hdr.name@ != name,
        },
    decreases entries.len(),
{
    if entries.len() != 0 && entries.last().hdr.name@ != name {
        let rest = entries.drop_last();
        lemma_last_named(rest, name);
        match last_named(rest, name) {
            Some(i) => {
                assert forall|j: int| i < j < entries.len() implies (#[trigger] entries[j]).hdr.name@
                    != name by {
                    if j < rest.len() {
                        assert(rest[j] == entries[j]);
                    }
                }
            },
            None => {
                assert forall|j: int| 0 <= j < entries.len() implies (#[trigger] entries[j]).hdr.name@
                    != name by {
                    if j < rest.len() {
                        assert(rest[j] == entries[j]);
                    }
                }
            },
        }
    }
}

/// A dictionary: an arena, the entries defined in it, oldest first, and the
/// dictionary it falls back on, if any.
///
/// Entries are numbered through a dictionary and its parents: the oldest
/// ancestor's entries come first, and `base` is the number of the first entry
/// of this dictionary.
pub struct Dictionary {
    pub alloc: DictionaryBump,
    pub entries: Vec<DictionaryEntry>,
    /// The position of the entry defined last: where a search starts.
    pub tail: Option<usize>,
    pub base: usize,
    /// The count of holders, or the mark of a dictionary that may be changed.
    pub refs: portable_atomic::AtomicUsize,
    pub parent: Option<SharedDict>,
}

/// A dictionary that several holders read and none changes.
pub struct SharedDict {
    pub inner: Arc<Dictionary>,
}

/// A dictionary with one holder, who may change it.
pub struct OwnedDict {
    pub dict: Dictionary,
}

/// An entry under construction: its place in the arena is taken, its
/// parameter field grows cell by cell, and nothing links to it yet.
#[derive(Debug, Clone, Copy)]
pub struct EntryBuilder {
    pub len: u16,
    pub base: usize,
    pub kind: EntryKind,
}

impl Dictionary {
    /// Whether `self` is `before` with `bytes` more handed out and stored at
    /// the end of its arena.
    pub open spec fn grown_by(&self, before: &Self, bytes: Seq<u8>) -> bool {
        &&& self.entries == before.entries
        &&& self.tail == before.tail
        &&& self.base == before.base
        &&& self.parent == before.parent
        &&& self.refs == before.refs
        &&& self.alloc.start == before.alloc.start
        &&& self.alloc.end == before.alloc.end
        &&& self.alloc.cur == before.alloc.cur + bytes.len()
        &&& self.alloc.mem@ == before.alloc.mem@ + bytes
    }

    /// Whether `self` is `before` but for its arena, which has handed out
    /// the addresses up to `cur` and stores `mem`.
    pub open spec fn holds_now(&self, before: &Self, cur: int, mem: Seq<u8>) -> bool {
        &&& self.entries == before.entries
        &&& self.tail == before.tail
        &&& self.base == before.base
        &&& self.parent == before.parent
        &&& self.refs == before.refs
        &&& self.alloc.start == before.alloc.start
        &&& self.alloc.end == before.alloc.end
        &&& self.alloc.cur == cur
        &&& self.alloc.mem@ == mem
    }

    /// Whether `self` is `before` but for the bytes stored in its arena,
    /// which are now `mem`.
    pub open spec fn stores(&self, before: &Self, mem: Seq<u8>) -> bool {
        &&& self.entries == before.entries
        &&& self.tail == before.tail
        &&& self.base == before.base
        &&& self.parent == before.parent
        &&& self.refs == before.refs
        &&& self.alloc.start == before.alloc.start
        &&& self.alloc.end == before.alloc.end
        &&& self.alloc.cur == before.alloc.cur
        &&& self.alloc.mem@ == mem
    }

    /// What entry `i` must satisfy: a proper name, a link to the entry just
    /// before it, and an aligned place in the arena after that entry and its
    /// cells.
    pub open spec fn entry_ok(&self, i: int) -> bool {
        let e = self.entries@[i];
        &&& e.hdr.name.wf()
        &&& e.addr as int % ENTRY_ALIGN as int == 0
        &&& e.link == (if i == 0 {
            None
        } else {
            Some((i - 1) as usize)
        })
        &&& self.alloc.start <= e.addr
        &&& e.addr + DICTIONARY_ENTRY_SIZE + WORD_SIZE * e.hdr.len <= self.alloc.cur
        &&& i > 0 ==> self.entries@[i - 1].addr + DICTIONARY_ENTRY_SIZE + WORD_SIZE
            * self.entries@[i - 1].hdr.len <= e.addr
    }

    /// The invariant of a dictionary and of all its parents.
    pub open spec fn wf(&self) -> bool
        decreases self,
    {
        &&& self.alloc.wf()
        &&& self.base + self.entries@.len() <= MAX_ENTRIES
        &&& self.tail == (if self.entries@.len() == 0 {
            None
        } else {
            Some((self.entries@.len() - 1) as usize)
        })
        &&& forall|i: int| 0 <= i < self.entries@.len() ==> #[trigger] self.entry_ok(i)
        &&& match self.parent {
            Some(p) => p.inner.wf() && self.base == p.inner.base + p.inner.entries@.len()
                && p.inner.alloc.end <= self.alloc.start,
            None => self.base == 0,
        }
    }

    /// The number of the entry that `name` stands for: the entry of that name
    /// defined last in this dictionary or, where it has none, what the name
    /// stands for in the parent.
    pub open spec fn find_spec(&self, name: Seq<u8>) -> Option<int>
        decreases self,
    {
        match last_named(self.entries@, name) {
            Some(i) => Some(self.base + i),
            None => match self.parent {
                Some(p) => p.inner.find_spec(name),
                None => None,
            },
        }
    }

    /// The entry numbered `n` in this dictionary or its parents.
    pub open spec fn entry_spec(&self, n: int) -> Option<DictionaryEntry>
        decreases self,
    {
        if self.base <= n < self.base + self.entries@.len() {
            Some(self.entries@[n - self.base])
        } else if n >= self.base {
            None
        } else {
            match self.parent {
                Some(p) => p.inner.entry_spec(n),
                None => None,
            }
        }
    }

    /// Entries in this dictionary and its parents.
    pub open spec fn count(&self) -> int {
        self.base + self.entries@.len()
    }

    /// The byte stored at `addr` in this dictionary or its parents.
    pub open spec fn byte_spec(&self, addr: int) -> Option<u8>
        decreases self,
    {
        if self.alloc.holds(addr, 1) {
            Some(self.alloc.mem@[addr - self.alloc.start])
        } else {
            match self.parent {
                Some(p) => p.inner.byte_spec(addr),
                None => None,
            }
        }
    }

    /// The cell stored from `addr` on in this dictionary or its parents.
    pub open spec fn word_spec(&self, addr: int) -> Option<Word>
        decreases self,
    {
        if self.alloc.holds(addr, 4) {
            Some(word_of_bytes(self.alloc.bytes_at(addr, 4)))
        } else {
            match self.parent {
                Some(p) => p.inner.word_spec(addr),
                None => None,
            }
        }
    }

    /// An empty dictionary without a parent, over `size` bytes from address
    /// `bottom` on.
    pub fn new(bottom: usize, size: usize) -> (d: Self)
        requires
            bottom + size <= ADDR_MAX,
        ensures
            d.wf(),
            d.alloc.start == bottom,
            d.alloc.cur == bottom,
            d.alloc.end == bottom + size,
            d.entries@.len() == 0,
            d.base == 0,
            d.parent is None,
    {
        Dictionary {
            alloc: DictionaryBump::new(bottom, size),
            entries: Vec::new(),
            tail: None,
            base: 0,
            refs: counter_new(MUTABLE),
            parent: None,
        }
    }

    /// Makes `parent` the dictionary that this one falls back on. Refused,
    /// with `parent` handed back, unless this dictionary is empty, has no
    /// parent yet, and lies above `parent` in memory.
    pub fn adopt(&mut self, parent: SharedDict) -> (r: Result<(), SharedDict>)
        requires
            old(self).wf(),
            parent.inner.wf(),
        ensures
            final(self).wf(),
            final(self).alloc == old(self).alloc,
            final(self).entries == old(self).entries,
            old(self).can_adopt(&parent) ==> r is Ok && final(self).parent == Some(parent)
                && final(self).base == parent.inner.count(),
            !old(self).can_adopt(&parent) ==> r == Err::<(), SharedDict>(parent)
                && final(self).parent == old(self).parent && final(self).base == old(self).base,
    {
        if self.parent.is_some() || self.entries.len() != 0 || parent.get().alloc.end
            > self.alloc.start {
            return Err(parent);
        }
        self.base = parent.get().base + parent.get().entries.len();
        self.parent = Some(parent);
        Ok(())
    }

    /// Whether the dictionary is `fresh` with `parent` as the dictionary it
    /// falls back on: it holds what `fresh` holds, and numbers its entries
    /// from the count of `parent` on.
    pub open spec fn falls_back_on(&self, parent: &SharedDict, fresh: &Dictionary) -> bool {
        &&& self.parent == Some(*parent)
        &&& self.base == parent.inner.count()
        &&& self.entries == fresh.entries
        &&& self.alloc == fresh.alloc
    }

    /// Whether `adopt` accepts `parent`.
    pub open spec fn can_adopt(&self, parent: &SharedDict) -> bool {
        &&& self.parent is None
        &&& self.entries@.len() == 0
        &&& parent.inner.alloc.end <= self.alloc.start
    }

    /// Whether the counter marks the dictionary as one that may be changed,
    /// at the moment of the call.
    pub fn is_mutable(&self) -> bool {
        is_mutable_count(counter_load(&self.refs))
    }

    /// Adds a native word named `name` with the code field `bi`, linked after
    /// the latest entry. Fails with `OutOfMemory`, the dictionary unchanged,
    /// where the arena has no room for the entry or the dictionary can count
    /// no more entries.
    pub fn add_bi_fastr(&mut self, name: FaStr, bi: WordFunc) -> (r: Result<(), BumpError>)
        requires
            old(self).wf(),
            name.wf(),
        ensures
            final(self).wf(),
            final(self).base == old(self).base,
            final(self).refs == old(self).refs,
            final(self).parent == old(self).parent,
            final(self).alloc.start == old(self).alloc.start,
            final(self).alloc.end == old(self).alloc.end,
            old(self).has_room_for_entry() ==> r == Ok::<(), BumpError>(())
                && final(self).entries@ == old(self).entries@.push(
                    DictionaryEntry {
                        hdr: EntryHeader { name, kind: EntryKind::RuntimeBuiltin, len: 0 },
                        func: bi,
                        link: old(self).tail,
                        addr: align_up(old(self).alloc.cur as int, ENTRY_ALIGN as int) as usize,
                    },
                ) && final(self).alloc.cur == align_up(old(self).alloc.cur as int, ENTRY_ALIGN as int)
                + DICTIONARY_ENTRY_SIZE && final(self).alloc.mem@ == old(self).alloc.mem@ + zeros(
                    final(self).alloc.cur - old(self).alloc.cur,
                ),
            !old(self).has_room_for_entry() ==> r == Err::<(), BumpError>(BumpError::OutOfMemory)
                && final(self).entries == old(self).entries
                    && final(self).alloc == old(self).alloc && final(self).tail == old(self).tail,
    {
        if self.base + self.entries.len() >= MAX_ENTRIES {
            return Err(BumpError::OutOfMemory);
        }
        let dict_base = match self.alloc.bump(DICTIONARY_ENTRY_SIZE, ENTRY_ALIGN) {
            Ok(a) => a,
            Err(e) => {
                return Err(e);
            },
        };
        let link = self.tail;
        let idx = self.entries.len();
        self.entries.push(
            DictionaryEntry {
                hdr: EntryHeader { name, kind: EntryKind::RuntimeBuiltin, len: 0 },
                func: bi,
                link,
                addr: dict_base,
            },
        );
        self.tail = Some(idx);
        proof {
            lemma_align_up(old(self).alloc.cur as int, ENTRY_ALIGN as int);
            assert forall|i: int| 0 <= i < self.entries@.len() implies #[trigger] self.entry_ok(
                i,
            ) by {
                if i < idx {
                    assert(old(self).entry_ok(i));
                } else if idx > 0 {
                    assert(old(self).entry_ok(idx - 1));
                }
            }
        }
        Ok(())
    }

    /// Whether the arena has room for one more entry, and the dictionary a
    /// number for it.
    pub open spec fn has_room_for_entry(&self) -> bool {
        &&& self.count() < MAX_ENTRIES
        &&& align_up(self.alloc.cur as int, ENTRY_ALIGN as int) + DICTIONARY_ENTRY_SIZE
            <= self.alloc.end
    }

    /// Takes the place in the arena for a new entry and returns the builder
    /// that will fill it in. Fails as `add_bi_fastr` does.
    pub fn build_entry(&mut self) -> (r: Result<EntryBuilder, BumpError>)
        requires
            old(self).wf(),
        ensures
            final(self).wf(),
            final(self).base == old(self).base,
            final(self).refs == old(self).refs,
            final(self).parent == old(self).parent,
            final(self).entries == old(self).entries,
            final(self).tail == old(self).tail,
            final(self).alloc.start == old(self).alloc.start,
            final(self).alloc.end == old(self).alloc.end,
            old(self).has_room_for_entry() ==> r is Ok && r.unwrap() == (EntryBuilder {
                len: 0,
                base: align_up(old(self).alloc.cur as int, ENTRY_ALIGN as int) as usize,
                kind: EntryKind::Dictionary,
            }) && r.unwrap().fits(final(self)) && final(self).alloc.mem@ == old(self).alloc.mem@
                + zeros(final(self).alloc.cur - old(self).alloc.cur),
            !old(self).has_room_for_entry() ==> r is Err && r.unwrap_err()
                == BumpError::OutOfMemory && final(self).alloc == old(self).alloc,
    {
        if self.base + self.entries.len() >= MAX_ENTRIES {
            return Err(BumpError::OutOfMemory);
        }
        let base = match self.alloc.bump(DICTIONARY_ENTRY_SIZE, ENTRY_ALIGN) {
            Ok(a) => a,
            Err(e) => {
                return Err(e);
            },
        };
        proof {
            lemma_align_up(old(self).alloc.cur as int, ENTRY_ALIGN as int);
            assert forall|i: int| 0 <= i < self.entries@.len() implies #[trigger] self.entry_ok(
                i,
            ) by {
                assert(old(self).entry_ok(i));
            }
            let n = self.entries@.len() as int;
            if n > 0 {
                assert(old(self).entry_ok(n - 1));
            }
        }
        Ok(EntryBuilder { len: 0, base, kind: EntryKind::Dictionary })
    }

    /// The number of the entry that `name` stands for: a search from the
    /// latest entry back along the links, then through the parents.
    pub fn find(&self, name: &[u8]) -> (r: Option<usize>)
        requires
            self.wf(),
        ensures
            match self.find_spec(name@) {
                Some(n) => r == Some(n as usize) && 0 <= n < self.count(),
                None => r == None::<usize>,
            },
        decreases self,
    {
        let mut cur = self.tail;
        let ghost mut seen: int = self.entries@.len() as int;
        assert(self.entries@.take(seen) =~= self.entries@);
        loop
            invariant
                self.wf(),
                0 <= seen <= self.entries@.len(),
                cur == (if seen == 0 {
                    None
                } else {
                    Some((seen - 1) as usize)
                }),
                last_named(self.entries@, name@) == last_named(self.entries@.take(seen), name@),
            ensures
                seen == 0,
            decreases seen,
        {
            match cur {
                None => {
                    break ;
                },
                Some(i) => {
                    let ghost part = self.entries@.take(seen);
                    assert(part.last() == self.entries@[i as int]);
                    assert(part.drop_last() =~= self.entries@.take(seen - 1));
                    if self.entries[i].hdr.name.is(name) {
                        return Some(self.base + i);
                    }
                    assert(self.entry_ok(i as int));
                    cur = self.entries[i].link;
                    proof {
                        seen = seen - 1;
                    }
                },
            }
        }
        assert(self.entries@.take(0) =~= Seq::<DictionaryEntry>::empty());
        match &self.parent {
            Some(p) => {
                let r = p.get().find(name);
                r
            },
            None => None,
        }
    }

    /// The entry numbered `n`, in this dictionary or its parents.
    pub fn entry(&self, n: usize) -> (r: Option<&DictionaryEntry>)
        requires
            self.wf(),
        ensures
            match self.entry_spec(n as int) {
                Some(e) => r is Some && *r.unwrap() == e,
                None => r is None,
            },
        decreases self,
    {
        if n >= self.base {
            if n - self.base < self.entries.len() {
                Some(&self.entries[n - self.base])
            } else {
                None
            }
        } else {
            match &self.parent {
                Some(p) => p.get().entry(n),
                None => None,
            }
        }
    }

    /// The byte stored at `addr`, in this dictionary or its parents.
    pub fn read_u8(&self, addr: usize) -> (r: Option<u8>)
        requires
            self.wf(),
        ensures
            r == self.byte_spec(addr as int),
        decreases self,
    {
        match self.alloc.read_u8(addr) {
            Some(b) => Some(b),
            None => match &self.parent {
                Some(p) => p.get().read_u8(addr),
                None => None,
            },
        }
    }

    /// The cell stored from `addr` on, in this dictionary or its parents.
    pub fn read_word(&self, addr: usize) -> (r: Option<Word>)
        requires
            self.wf(),
        ensures
            r == self.word_spec(addr as int),
        decreases self,
    {
        match self.alloc.read_word(addr) {
            Some(w) => Some(w),
            None => match &self.parent {
                Some(p) => p.get().read_word(addr),
                None => None,
            },
        }
    }
}

impl SharedDict {
    /// The dictionary that is shared.
    pub fn get(&self) -> (d: &Dictionary)
        ensures
            *d == *self.inner,
    {
        &*self.inner
    }
}

impl EntryBuilder {
    /// The builder's entry is the last thing in the arena of `dict`: its
    /// cells end where the arena's cursor stands.
    pub open spec fn fits(&self, dict: &Dictionary) -> bool {
        &&& dict.count() < MAX_ENTRIES
        &&& dict.alloc.start <= self.base
        &&& self.base as int % ENTRY_ALIGN as int == 0
        &&& self.base + DICTIONARY_ENTRY_SIZE + WORD_SIZE * self.len == dict.alloc.cur
        &&& dict.entries@.len() > 0 ==> dict.entries@.last().addr + DICTIONARY_ENTRY_SIZE
            + WORD_SIZE * dict.entries@.last().hdr.len <= self.base
    }

    /// The address of cell `i` of the parameter field.
    pub open spec fn cell_addr(&self, i: int) -> int {
        self.base + DICTIONARY_ENTRY_SIZE + WORD_SIZE * i
    }
}

/// A dictionary stays well formed when its arena hands out more bytes and
/// nothing else changes.
pub proof fn lemma_wf_after_bump(before: &Dictionary, after: &Dictionary)
    requires
        before.wf(),
        after.entries == before.entries,
        after.tail == before.tail,
        after.base == before.base,
        after.parent == before.parent,
        after.alloc.wf(),
        after.alloc.start == before.alloc.start,
        after.alloc.cur >= before.alloc.cur,
    ensures
        after.wf(),
{
    assert forall|i: int| 0 <= i < after.entries@.len() implies #[trigger] after.entry_ok(i) by {
        assert(before.entry_ok(i));
    }
}

impl EntryBuilder {
    /// Whether the arena and the entry have room for `cells` more cells.
    pub open spec fn has_room(&self, dict: &Dictionary, cells: int) -> bool {
        &&& self.len + cells <= u16::MAX
        &&& dict.alloc.cur + WORD_SIZE * cells <= dict.alloc.end
    }

    /// Appends `word` to the parameter field. Fails with `OutOfMemory`, the
    /// dictionary unchanged, where the arena or the entry is full.
    pub fn write_word(self, dict: &mut Dictionary, word: Word) -> (r: Result<Self, BumpError>)
        requires
            old(dict).wf(),
            self.fits(old(dict)),
        ensures
            final(dict).wf(),
            final(dict).entries == old(dict).entries,
            final(dict).tail == old(dict).tail,
            final(dict).base == old(dict).base,
            final(dict).refs == old(dict).refs,
            final(dict).parent == old(dict).parent,
            final(dict).alloc.start == old(dict).alloc.start,
            final(dict).alloc.end == old(dict).alloc.end,
            self.has_room(old(dict), 1) ==> r == Ok::<Self, BumpError>(
                EntryBuilder { len: (self.len + 1) as u16, ..self },
            ) && r.unwrap().fits(final(dict)) && final(dict).alloc.mem@ == old(dict).alloc.mem@
                + bytes_of_word(word),
            !self.has_room(old(dict), 1) ==> r == Err::<Self, BumpError>(BumpError::OutOfMemory)
                && final(dict).alloc == old(dict).alloc,
    {
        if self.len == u16::MAX {
            return Err(BumpError::OutOfMemory);
        }
        assert(dict.alloc.cur as int % 4 == 0);
        assert(align_up(dict.alloc.cur as int, WORD_SIZE as int) == dict.alloc.cur);
        match dict.alloc.bump_write(word) {
            Ok(()) => {
                proof {
                    lemma_wf_after_bump(old(dict), dict);
                    assert(zeros(0) =~= Seq::<u8>::empty());
                    assert(dict.alloc.mem@ =~= old(dict).alloc.mem@ + bytes_of_word(word));
                }
                Ok(EntryBuilder { len: self.len + 1, base: self.base, kind: self.kind })
            },
            Err(e) => Err(e),
        }
    }

    /// Cells that `n` bytes take.
    pub open spec fn cells_for(n: int) -> int {
        (n + WORD_SIZE - 1) / WORD_SIZE as int
    }

    /// Appends a counted string to the parameter field: a cell holding the
    /// number of bytes, the bytes, and zero bytes up to the next cell. Fails
    /// with `OutOfMemory`, the dictionary unchanged, where the arena or the
    /// entry has no room for all of it.
    pub fn write_str(self, dict: &mut Dictionary, bytes: &[u8]) -> (r: Result<Self, BumpError>)
        requires
            old(dict).wf(),
            self.fits(old(dict)),
        ensures
            final(dict).wf(),
            final(dict).entries == old(dict).entries,
            final(dict).tail == old(dict).tail,
            final(dict).base == old(dict).base,
            final(dict).refs == old(dict).refs,
            final(dict).parent == old(dict).parent,
            final(dict).alloc.start == old(dict).alloc.start,
            final(dict).alloc.end == old(dict).alloc.end,
            self.has_room(old(dict), 1 + Self::cells_for(bytes@.len() as int)) ==> r == Ok::<
                Self,
                BumpError,
            >(
                EntryBuilder {
                    len: (self.len + 1 + Self::cells_for(bytes@.len() as int)) as u16,
                    ..self
                },
            ) && r.unwrap().fits(final(dict)) && final(dict).alloc.mem@ == old(dict).alloc.mem@
                + bytes_of_word(Word { data: bytes@.len() as i32 }) + bytes@ + zeros(
                    WORD_SIZE * Self::cells_for(bytes@.len() as int) - bytes@.len(),
                ),
            !self.has_room(old(dict), 1 + Self::cells_for(bytes@.len() as int)) ==> r == Err::<
                Self,
                BumpError,
            >(BumpError::OutOfMemory) && final(dict).alloc == old(dict).alloc,
    {
        let n = bytes.len();
        let left = dict.alloc.end - dict.alloc.cur;
        if n > left {
            return Err(BumpError::OutOfMemory);
        }
        let cells = (n + WORD_SIZE - 1) / WORD_SIZE;
        if cells + 1 > (u16::MAX - self.len) as usize || (cells + 1) * WORD_SIZE > left {
            return Err(BumpError::OutOfMemory);
        }
        match self.write_word(dict, Word { data: n as i32 }) {
            Ok(_) => {},
            Err(e) => {
                assert(false);
                return Err(e);
            },
        }
        let ghost mid = dict.alloc.mem@;
        let ghost mid_cur = dict.alloc.cur;
        let padded = cells * WORD_SIZE;
        if padded > 0 {
            let addr = match dict.alloc.bump_u8s(padded) {
                Some(a) => a,
                None => {
                    assert(false);
                    return Err(BumpError::OutOfMemory);
                },
            };
            let mut i: usize = 0;
            while i < n
                invariant
                    i <= n <= padded,
                    n == bytes@.len(),
                    dict.alloc.wf(),
                    dict.alloc.start == old(dict).alloc.start,
                    dict.alloc.end == old(dict).alloc.end,
                    dict.alloc.cur == mid_cur + padded,
                    addr == mid_cur,
                    mid.len() == mid_cur - dict.alloc.start,
                    dict.entries == old(dict).entries,
                    dict.tail == old(dict).tail,
                    dict.base == old(dict).base,
                    dict.refs == old(dict).refs,
                    dict.parent == old(dict).parent,
                    dict.alloc.mem@ == mid + bytes@.take(i as int) + zeros(padded - i),
                decreases n - i,
            {
                let ok = dict.alloc.write_u8(addr + i, bytes[i]);
                assert(ok);
                i += 1;
                assert(dict.alloc.mem@ =~= mid + bytes@.take(i as int) + zeros(padded - i));
            }
            assert(bytes@.take(n as int) =~= bytes@);
        } else {
            assert(bytes@ =~= Seq::<u8>::empty());
            assert(dict.alloc.mem@ =~= mid + bytes@ + zeros(0));
        }
        proof {
            lemma_wf_after_bump(old(dict), dict);
        }
        Ok(EntryBuilder { len: self.len + 1 + cells as u16, base: self.base, kind: self.kind })
    }

    /// The builder with the kind of its entry set to `kind`.
    pub fn kind(self, kind: EntryKind) -> (r: Self)
        ensures
            r == (EntryBuilder { kind, ..self }),
    {
        EntryBuilder { len: self.len, base: self.base, kind }
    }

    /// Completes the entry: gives it the name `name` and the code field
    /// `func`, and links it after the latest entry, so that a search finds it
    /// first.
    pub fn finish(self, dict: &mut Dictionary, name: FaStr, func: WordFunc)
        requires
            old(dict).wf(),
            self.fits(old(dict)),
            name.wf(),
        ensures
            final(dict).wf(),
            final(dict).alloc == old(dict).alloc,
            final(dict).base == old(dict).base,
            final(dict).refs == old(dict).refs,
            final(dict).parent == old(dict).parent,
            final(dict).entries@ == old(dict).entries@.push(
                DictionaryEntry {
                    hdr: EntryHeader { name, kind: self.kind, len: self.len },
                    func,
                    link: old(dict).tail,
                    addr: self.base,
                },
            ),
    {
        let link = dict.tail;
        let idx = dict.entries.len();
        dict.entries.push(
            DictionaryEntry {
                hdr: EntryHeader { name, kind: self.kind, len: self.len },
                func,
                link,
                addr: self.base,
            },
        );
        dict.tail = Some(idx);
        proof {
            assert forall|i: int| 0 <= i < dict.entries@.len() implies #[trigger] dict.entry_ok(
                i,
            ) by {
                if i < idx {
                    assert(old(dict).entry_ok(i));
                }
            }
        }
    }
}

/// `std::sync::Arc::into_inner`: the dictionary itself, where this was the
/// only pointer to it.
#[verifier::external_body]
fn arc_into_inner(a: Arc<Dictionary>) -> (r: Option<Dictionary>)
    ensures
        r matches Some(d) ==> d == *a,
{
    Arc::into_inner(a)
}

/// What becomes of a dictionary that nobody holds any more. The host that
/// made the dictionary says here how it takes it back.
pub trait DropDict {
    /// Takes back `dict`, which has no holder left and no handle on the
    /// dictionary that it fell back on.
    fn drop_dict(dict: Dictionary);
}

/// `std::sync::Arc::clone`: one more pointer to the same dictionary.
#[verifier::external_body]
fn arc_clone(a: &Arc<Dictionary>) -> (r: Arc<Dictionary>)
    ensures
        r == *a,
{
    Arc::clone(a)
}

impl Dictionary {
    /// Hands the dictionary, which has no holder left, to `D`, without the
    /// handle on the dictionary that it fell back on: that one counts one
    /// holder less, and where this was its last holder, it goes the same
    /// way, and so on up the chain.
    pub fn give_back<D: DropDict>(self) {
        let mut cur = self;
        loop
            decreases cur.depth(),
        {
            let ghost depth = cur.depth();
            let mut parent: Option<SharedDict> = None;
            core::mem::swap(&mut parent, &mut cur.parent);
            D::drop_dict(cur);
            let p = match parent {
                Some(p) => p,
                None => {
                    return ;
                },
            };
            let before = counter_fetch_sub(&p.get().refs, 1);
            if !was_last_holder(before) {
                return ;
            }
            counter_fence();
            match arc_into_inner(p.inner) {
                Some(d) => {
                    assert(d.depth() < depth);
                    cur = d;
                },
                None => {
                    return ;
                },
            }
        }
    }
}

impl OwnedDict {
    /// Takes `dict` as a dictionary with one holder.
    pub fn new(dict: Dictionary) -> (o: Self)
        ensures
            o.dict == dict,
    {
        OwnedDict { dict }
    }

    /// Hands the dictionary to `D`: its one holder has no use for it any
    /// more. The dictionary that it fell back on has one holder less, as
    /// `Dictionary::give_back` says.
    pub fn release_to<D: DropDict>(self) {
        self.dict.give_back::<D>();
    }

    /// Turns the dictionary into one that is shared and never changes again,
    /// where the exchange on its counter, whose result is `exchanged`, found
    /// the mark of a dictionary that may be changed and set the count to
    /// one. Hands the dictionary back where it did not.
    pub fn shared_if(self, exchanged: Result<usize, usize>) -> (r: Result<SharedDict, OwnedDict>)
        ensures
            exchanged is Ok ==> (r matches Ok(s) && *s.inner == self.dict),
            exchanged is Err ==> r == Err::<SharedDict, OwnedDict>(self),
    {
        match exchanged {
            Ok(_) => Ok(SharedDict { inner: Arc::new(self.dict) }),
            Err(_) => Err(self),
        }
    }

    /// Gives up the right to change the dictionary and shares it, counting
    /// one holder. The dictionary comes back untouched in the error where its
    /// counter did not mark it as one that may be changed.
    pub fn into_shared(self) -> (r: Result<SharedDict, OwnedDict>)
        ensures
            r matches Ok(s) ==> *s.inner == self.dict,
            r matches Err(o) ==> o == self,
    {
        let exchanged = counter_compare_exchange(&self.dict.refs, MUTABLE, 1);
        self.shared_if(exchanged)
    }
}

impl SharedDict {
    /// One more handle on the dictionary for a holder who found the count
    /// `before` when it was counted: `None` where the count of holders was at
    /// its highest value.
    pub fn handle_if(&self, before: usize) -> (r: Option<SharedDict>)
        ensures
            before != crate::refcount::MAX_REFCOUNT ==> r is Some && r.unwrap().inner
                == self.inner,
            before == crate::refcount::MAX_REFCOUNT ==> r is None,
    {
        if admits_holder(before) {
            Some(SharedDict { inner: arc_clone(&self.inner) })
        } else {
            None
        }
    }

    /// Counts one more holder and returns its handle on the same dictionary.
    /// `None` where the count of holders was at its highest value.
    pub fn try_clone(&self) -> (r: Option<SharedDict>)
        ensures
            r matches Some(s) ==> s.inner == self.inner,
    {
        let before = counter_fetch_add(&self.get().refs, 1);
        self.handle_if(before)
    }

    /// Counts one holder less as `release` does, and hands the dictionary to
    /// `D` where this was the last holder. Returns whether it was.
    pub fn release_to<D: DropDict>(self) -> (last: bool) {
        let before = counter_fetch_sub(&self.get().refs, 1);
        if !was_last_holder(before) {
            return false;
        }
        counter_fence();
        match arc_into_inner(self.inner) {
            Some(dict) => {
                dict.give_back::<D>();
            },
            None => {},
        }
        true
    }

    /// Counts one holder less. Returns whether this was the last holder, with
    /// whom the dictionary goes.
    pub fn release(self) -> (last: bool) {
        let before = counter_fetch_sub(&self.get().refs, 1);
        if !was_last_holder(before) {
            return false;
        }
        counter_fence();
        true
    }
}

/// A walk over the entries of a dictionary and of its parents, from the
/// latest entry back.
pub struct Entries<'dict> {
    /// The position in `dict` of the entry that comes next.
    pub next: Option<usize>,
    /// The dictionary the walk has come to.
    pub dict: &'dict Dictionary,
}

impl Dictionary {
    /// How many parents, grandparents and so on the dictionary has.
    pub open spec fn depth(&self) -> nat
        decreases self,
    {
        match self.parent {
            Some(p) => 1 + p.inner.depth(),
            None => 0,
        }
    }

    /// The entries of the parents, latest first.
    pub open spec fn parent_chain(&self) -> Seq<DictionaryEntry>
        decreases self, 0nat,
    {
        match self.parent {
            Some(p) => p.inner.chain(),
            None => Seq::empty(),
        }
    }

    /// The entries of the dictionary and of its parents in the order in which
    /// a search meets them: latest first, then the parent's.
    pub open spec fn chain(&self) -> Seq<DictionaryEntry>
        decreases self, 1nat,
    {
        self.entries@.reverse() + self.parent_chain()
    }

    /// A walk over all entries, from the latest back.
    pub fn entries(&self) -> (e: Entries<'_>)
        requires
            self.wf(),
        ensures
            e.wf(),
            e.remaining() == self.chain(),
    {
        proof {
            if self.entries@.len() > 0 {
                assert(self.entries@.take(self.entries@.len() as int) =~= self.entries@);
            } else {
                assert(self.entries@.reverse() =~= Seq::<DictionaryEntry>::empty());
            }
        }
        Entries { next: self.tail, dict: self }
    }
}

impl<'dict> Entries<'dict> {
    pub open spec fn wf(&self) -> bool {
        &&& self.dict.wf()
        &&& self.next matches Some(i) ==> i < self.dict.entries@.len()
    }

    /// The entries that the walk has yet to visit, in order.
    pub open spec fn remaining(&self) -> Seq<DictionaryEntry> {
        (match self.next {
            Some(i) => self.dict.entries@.take(i + 1).reverse(),
            None => Seq::empty(),
        }) + self.dict.parent_chain()
    }

    /// The next entry of the walk, or `None` at its end.
    pub fn next(&mut self) -> (r: Option<&'dict DictionaryEntry>)
        requires
            old(self).wf(),
        ensures
            final(self).wf(),
            old(self).remaining().len() == 0 ==> r is None && final(self).remaining().len() == 0,
            old(self).remaining().len() > 0 ==> (r matches Some(e) && *e == old(
                self
            ).remaining()[0] && final(self).remaining() == old(self).remaining().drop_first()),
    {
        while self.next.is_none()
            invariant
                self.wf(),
                self.remaining() == old(self).remaining(),
            decreases self.dict.depth(),
        {
            match &self.dict.parent {
                Some(p) => {
                    let parent: &'dict Dictionary = p.get();
                    let ghost before = self.remaining();
                    proof {
                        reveal_with_fuel(Dictionary::wf, 2);
                        assert(parent.wf());
                        let n = parent.entries@.len() as int;
                        assert(before =~= parent.chain());
                        if n > 0 {
                            assert(parent.entries@.take(n) =~= parent.entries@);
                        } else {
                            assert(parent.entries@.reverse() =~= Seq::<DictionaryEntry>::empty());
                            assert(parent.chain() =~= Seq::<DictionaryEntry>::empty()
                                + parent.parent_chain());
                        }
                    }
                    self.dict = parent;
                    self.next = parent.tail;
                    assert(self.remaining() =~= before);
                },
                None => {
                    return None;
                },
            }
        }
        let i = self.next.unwrap();
        let e = &self.dict.entries[i];
        proof {
            assert(self.dict.entry_ok(i as int));
            let part = self.dict.entries@.take(i + 1);
            assert(part.reverse()[0] == self.dict.entries@[i as int]);
            assert(part.reverse().drop_first() =~= self.dict.entries@.take(i as int).reverse());
            assert(self.dict.entries@.take(0).reverse() =~= Seq::<DictionaryEntry>::empty());
            assert(self.remaining().drop_first() =~= self.dict.entries@.take(i as int).reverse()
                + self.dict.parent_chain());
        }
        self.next = e.link;
        Some(e)
    }
}

/// Every entry lies at an address that is a multiple of the alignment of
/// entries.
pub proof fn lemma_entries_aligned(d: &Dictionary, i: int)
    requires
        d.wf(),
        0 <= i < d.entries@.len(),
    ensures
        d.entries@[i].addr as int % ENTRY_ALIGN as int == 0,
        d.entries@[i].spec_pfa() % WORD_SIZE as int == 0,
{
    assert(d.entry_ok(i));
}

/// The link of every entry is empty or leads to an entry that was defined
/// earlier and lies at a lower address of the arena.
pub proof fn lemma_links_lead_back(d: &Dictionary, i: int)
    requires
        d.wf(),
        0 <= i < d.entries@.len(),
    ensures
        match d.entries@[i].link {
            Some(j) => j < i && d.entries@[j as int].addr < d.entries@[i].addr,
            None => i == 0,
        },
{
    assert(d.entry_ok(i));
}

/// Every entry, in a dictionary or one of its parents, has a name of at most
/// 31 bytes, all of them ASCII and none a capital letter.
pub proof fn lemma_names_are_names(d: &Dictionary, n: int)
    requires
        d.wf(),
        d.entry_spec(n) is Some,
    ensures
        is_name(d.entry_spec(n).unwrap().hdr.name@),
        d.entry_spec(n).unwrap().hdr.name@.len() <= 31,
    decreases d,
{
    if d.base <= n < d.base + d.entries@.len() {
        assert(d.entry_ok(n - d.base));
    } else {
        lemma_names_are_names(&*d.parent.unwrap().inner, n);
    }
}

/// The arena never has more bytes in use than it has.
pub proof fn lemma_used_within_capacity(d: &Dictionary)
    requires
        d.wf(),
    ensures
        d.alloc.cur - d.alloc.start <= d.alloc.end - d.alloc.start,
        d.alloc.mem@.len() == d.alloc.cur - d.alloc.start,
{
}

/// Entries are numbered from zero up to the count, without gaps.
pub proof fn lemma_entry_numbers(d: &Dictionary, n: int)
    requires
        d.wf(),
    ensures
        d.entry_spec(n) is Some <==> 0 <= n < d.count(),
    decreases d,
{
    if n < d.base {
        match d.parent {
            Some(p) => {
                lemma_entry_numbers(&*p.inner, n);
            },
            None => {},
        }
    }
}

/// A search returns the latest definition: the entry found has the name, and
/// no entry with a higher number has it. A search that finds nothing means
/// that no entry has the name.
pub proof fn lemma_find_latest(d: &Dictionary, name: Seq<u8>)
    requires
        d.wf(),
    ensures
        match d.find_spec(name) {
            Some(n) => 0 <= n < d.count() && d.entry_spec(n) is Some && d.entry_spec(
                n,
            ).unwrap().hdr.name@ == name && forall|m: int|
                n < m < d.count() ==> (#[trigger] d.entry_spec(m)).unwrap().hdr.name@ != name,
            None => forall|m: int|
                0 <= m < d.count() ==> (#[trigger] d.entry_spec(m)).unwrap().hdr.name@ != name,
        },
    decreases d,
{
    lemma_last_named(d.entries@, name);
    match last_named(d.entries@, name) {
        Some(i) => {
            assert forall|m: int| d.base + i < m < d.count() implies (#[trigger] d.entry_spec(
                m,
            )).unwrap().hdr.name@ != name by {
                assert(d.entries@[m - d.base].hdr.name@ != name);
            }
        },
        None => {
            match d.parent {
                Some(p) => {
                    lemma_find_latest(&*p.inner, name);
                    match d.find_spec(name) {
                        Some(n) => {
                            assert forall|m: int| n < m < d.count() implies (
                            #[trigger] d.entry_spec(m)).unwrap().hdr.name@ != name by {
                                if m >= d.base {
                                    assert(d.entries@[m - d.base].hdr.name@ != name);
                                } else {
                                    assert(d.entry_spec(m) == p.inner.entry_spec(m));
                                }
                            }
                        },
                        None => {
                            assert forall|m: int| 0 <= m < d.count() implies (
                            #[trigger] d.entry_spec(m)).unwrap().hdr.name@ != name by {
                                if m >= d.base {
                                    assert(d.entries@[m - d.base].hdr.name@ != name);
                                } else {
                                    assert(d.entry_spec(m) == p.inner.entry_spec(m));
                                }
                            }
                        },
                    }
                },
                None => {
                    assert forall|m: int| 0 <= m < d.count() implies (#[trigger] d.entry_spec(
                        m,
                    )).unwrap().hdr.name@ != name by {
                        assert(d.entries@[m - d.base].hdr.name@ != name);
                    }
                },
            }
        },
    }
}

/// Every entry, with its parameter field, lies within the arena of its
/// dictionary; so its addresses fit a cell.
pub proof fn lemma_entry_in_arena(d: &Dictionary, n: int)
    requires
        d.wf(),
        d.entry_spec(n) is Some,
    ensures
        d.entry_spec(n).unwrap().addr + DICTIONARY_ENTRY_SIZE + WORD_SIZE * d.entry_spec(
            n,
        ).unwrap().hdr.len <= ADDR_MAX,
    decreases d,
{
    if d.base <= n < d.base + d.entries@.len() {
        assert(d.entry_ok(n - d.base));
    } else {
        lemma_entry_in_arena(&*d.parent.unwrap().inner, n);
    }
}

impl Dictionary {
    /// The address that the entry of a definition gets whose name has
    /// `name_len` bytes: the name comes first, the entry at the next aligned
    /// address.
    pub open spec fn definition_base(&self, name_len: int) -> int {
        align_up(self.alloc.cur + name_len, ENTRY_ALIGN as int)
    }

    /// Whether the dictionary has room for a definition whose name has
    /// `name_len` bytes and whose parameter field has `cells` cells.
    pub open spec fn has_room_for_definition(&self, name_len: int, cells: int) -> bool {
        &&& cells <= u16::MAX
        &&& self.count() < MAX_ENTRIES
        &&& self.definition_base(name_len) + DICTIONARY_ENTRY_SIZE + WORD_SIZE * cells
            <= self.alloc.end
    }

    /// Whether the dictionary has room for a definition whose name has
    /// `name_len` bytes and whose parameter field has `cells` cells.
    pub fn room_for_definition(&self, name_len: usize, cells: usize) -> (b: bool)
        requires
            self.wf(),
        ensures
            b == self.has_room_for_definition(name_len as int, cells as int),
    {
        if cells > 0xffff || self.base + self.entries.len() >= MAX_ENTRIES {
            return false;
        }
        let left = self.alloc.end - self.alloc.cur;
        if name_len > left {
            return false;
        }
        let after_name = self.alloc.cur + name_len;
        let rem = after_name % ENTRY_ALIGN;
        let pad = if rem == 0 {
            0
        } else {
            ENTRY_ALIGN - rem
        };
        pad + DICTIONARY_ENTRY_SIZE + WORD_SIZE * cells <= left - name_len
    }

    /// Starts a definition: stores the name that the first 31 bytes of `name`
    /// fold to in the arena, takes the place for the entry after it, and
    /// returns the name and the builder of the entry. Fails with
    /// `CantAllocUtf8` where any byte of `name` is not ASCII, and with
    /// `OutOfMemory` where `name` is empty or there is no room for the name,
    /// the entry and `cells` cells of a parameter field; the dictionary is
    /// then unchanged.
    pub fn define(&mut self, name: &[u8], cells: usize) -> (r: Result<
        (FaStr, EntryBuilder),
        BumpError,
    >)
        requires
            old(self).wf(),
        ensures
            final(self).wf(),
            ({
                let head = FaStr::head(name@);
                if !all_ascii(name@) {
                    r is Err && r->Err_0 == BumpError::CantAllocUtf8 && *final(self) == *old(self)
                } else if head.len() == 0 || !old(self).has_room_for_definition(
                    head.len() as int,
                    cells as int,
                ) {
                    r is Err && r->Err_0 == BumpError::OutOfMemory && *final(self) == *old(self)
                } else {
                    r matches Ok((n, b)) && n@ == folded(head) && n.wf() && b == (EntryBuilder {
                        len: 0,
                        base: old(self).definition_base(head.len() as int) as usize,
                        kind: EntryKind::Dictionary,
                    }) && b.fits(final(self)) && b.has_room(final(self), cells as int)
                        && final(self).grown_by(
                        old(self),
                        folded(head) + zeros(
                            old(self).definition_base(head.len() as int) - old(self).alloc.cur
                                - head.len() + DICTIONARY_ENTRY_SIZE,
                        ),
                    )
                }
            }),
    {
        let n = if name.len() < MAX_NAME_LEN {
            name.len()
        } else {
            MAX_NAME_LEN
        };
        let head = slice_subrange(name, 0, n);
        assert(head@ =~= FaStr::head(name@));
        assert(FaStr::head(head@) =~= head@);
        if !is_all_ascii(name) {
            return Err(BumpError::CantAllocUtf8);
        }
        assert(all_ascii(head@)) by {
            assert forall|i: int| 0 <= i < head@.len() implies #[trigger] head@[i] < 0x80 by {
                assert(name@[i] < 0x80);
            }
        }
        if n == 0 || !self.room_for_definition(n, cells) {
            return Err(BumpError::OutOfMemory);
        }
        proof {
            lemma_folded_is_name(head@);
        }
        let fastr = match self.alloc.bump_str(head) {
            Ok(f) => f,
            Err(e) => {
                assert(false);
                return Err(e);
            },
        };
        proof {
            lemma_wf_after_bump(old(self), self);
        }
        let b = match self.build_entry() {
            Ok(b) => b,
            Err(e) => {
                assert(false);
                return Err(e);
            },
        };
        proof {
            let total = old(self).definition_base(n as int) - old(self).alloc.cur - n
                + DICTIONARY_ENTRY_SIZE;
            assert(self.alloc.mem@ =~= old(self).alloc.mem@ + (folded(head@) + zeros(total)));
        }
        Ok((fastr, b))
    }
}

} // verus!
