//! The words that read and write memory: that of the dictionary, and that
//! of the host at the addresses at which the dictionary stores nothing.

use vstd::prelude::*;
use crate::dictionary::{
    align_up, bytes_of_word, lemma_wf_after_bump, word_from_bytes, word_of_bytes, word_to_bytes,
    zeros,
};
use crate::stack::StackError;
use crate::vm::builtins::{ran_dry, top, below, Touch};
use crate::vm::{Error, Forth, HostWords};
use crate::word::{Word, ADDR_MAX, WORD_SIZE};

verus! {

/// `mem` with the bytes `bytes` stored from offset `off` on.
pub open spec fn patched(mem: Seq<u8>, off: int, bytes: Seq<u8>) -> Seq<u8> {
    mem.subrange(0, off) + bytes + mem.subrange(off + bytes.len(), mem.len() as int)
}

impl Touch {
    /// The data stack and memory: the dictionary's and the host's.
    pub open spec fn memory() -> Touch {
        Touch { data: true, dict: true, host: true, ..Touch::nothing() }
    }
}

impl<T: HostWords> Forth<T> {
    /// The cell that `host` keeps in the four bytes from `addr` on, least
    /// significant byte first, if it keeps a byte at each of them.
    pub open spec fn host_cell(host: &T, addr: int) -> Option<Word> {
        let b0 = host.byte_at(addr as usize);
        let b1 = host.byte_at((addr + 1) as usize);
        let b2 = host.byte_at((addr + 2) as usize);
        let b3 = host.byte_at((addr + 3) as usize);
        if b0 is Some && b1 is Some && b2 is Some && b3 is Some {
            Some(word_of_bytes(seq![b0.unwrap(), b1.unwrap(), b2.unwrap(), b3.unwrap()]))
        } else {
            None
        }
    }

    /// Whether the memory of `after` is that of `before` with `bytes`
    /// stored from `addr` on.
    pub open spec fn host_stored(before: &T, after: &T, addr: int, bytes: Seq<u8>) -> bool {
        forall|a: usize| #[trigger]
            after.byte_at(a) == if addr <= a < addr + bytes.len() {
                Some(bytes[a - addr])
            } else {
                before.byte_at(a)
            }
    }

    /// The cell stored from `addr` on: in the dictionary or one of its
    /// parents, or else in the memory of the host.
    pub open spec fn memory_cell(&self, addr: int) -> Option<Word> {
        match self.dict.dict.word_spec(addr) {
            Some(w) => Some(w),
            None => Self::host_cell(&self.host_ctxt, addr),
        }
    }

    /// The byte stored at `addr`: in the dictionary or one of its parents,
    /// or else in the memory of the host.
    pub open spec fn memory_byte(&self, addr: int) -> Option<u8> {
        match self.dict.dict.byte_spec(addr) {
            Some(b) => Some(b),
            None => self.host_ctxt.byte_at(addr as usize),
        }
    }

    /// Reads the cell stored from `addr` on.
    pub fn cell_at(&self, addr: usize) -> (r: Option<Word>)
        requires
            self.wf(),
            addr <= ADDR_MAX,
        ensures
            r == self.memory_cell(addr as int),
    {
        match self.dict.dict.read_word(addr) {
            Some(w) => Some(w),
            None => {
                let b0 = self.host_ctxt.peek(addr);
                let b1 = self.host_ctxt.peek(addr + 1);
                let b2 = self.host_ctxt.peek(addr + 2);
                let b3 = self.host_ctxt.peek(addr + 3);
                match (b0, b1, b2, b3) {
                    (Some(b0), Some(b1), Some(b2), Some(b3)) => Some(
                        word_from_bytes(b0, b1, b2, b3),
                    ),
                    _ => None,
                }
            },
        }
    }

    /// Reads the byte stored at `addr`.
    pub fn byte_at(&self, addr: usize) -> (r: Option<u8>)
        requires
            self.wf(),
        ensures
            r == self.memory_byte(addr as int),
    {
        match self.dict.dict.read_u8(addr) {
            Some(b) => Some(b),
            None => self.host_ctxt.peek(addr),
        }
    }

    /// Stores the cell `x` in the four bytes from `addr` on in the memory
    /// of the host, and says whether the host keeps those bytes. Where it
    /// does not, nothing has changed.
    pub fn store_in_host(&mut self, addr: usize, x: Word) -> (ok: bool)
        requires
            addr <= ADDR_MAX,
        ensures
            ok == (Self::host_cell(&old(self).host_ctxt, addr as int) is Some),
            !ok ==> *final(self) == *old(self),
            final(self).same_but(old(self), Touch { host: true, ..Touch::nothing() }),
            ok ==> Self::host_stored(
                &old(self).host_ctxt,
                &final(self).host_ctxt,
                addr as int,
                bytes_of_word(x),
            ),
    {
        if self.host_ctxt.peek(addr).is_none() || self.host_ctxt.peek(addr + 1).is_none()
            || self.host_ctxt.peek(addr + 2).is_none() || self.host_ctxt.peek(addr + 3).is_none() {
            return false;
        }
        let b = word_to_bytes(x);
        let ghost bytes = seq![b.0, b.1, b.2, b.3];
        let _ = self.host_ctxt.poke(addr, b.0);
        let ghost h1 = self.host_ctxt;
        assert(h1.byte_at((addr + 1) as usize) is Some);
        let _ = self.host_ctxt.poke(addr + 1, b.1);
        let ghost h2 = self.host_ctxt;
        assert(h2.byte_at((addr + 2) as usize) is Some);
        let _ = self.host_ctxt.poke(addr + 2, b.2);
        let ghost h3 = self.host_ctxt;
        assert(h3.byte_at((addr + 3) as usize) is Some);
        let _ = self.host_ctxt.poke(addr + 3, b.3);
        proof {
            let h0 = old(self).host_ctxt;
            let h4 = self.host_ctxt;
            assert forall|a: usize| #[trigger]
                h4.byte_at(a) == if addr <= a < addr + bytes.len() {
                    Some(bytes[a - addr])
                } else {
                    h0.byte_at(a)
                } by {
                let _ = h3.byte_at(a);
                let _ = h2.byte_at(a);
                let _ = h1.byte_at(a);
            }
        }
        true
    }

    /// What `fetch` does to the machine: `before` is the machine as the word
    /// finds it, `after` as it leaves it, and `r` what it returns.
    pub open spec fn fetch_effect(before: &Self, after: &Self, r: Result<(), Error>) -> bool {
        &&& after.same_but(before, Touch::data())
        &&& ({
            let s = before.data_stack@;
            if s.len() == 0 {
                ran_dry(s, after.data_stack@, r, 1)
            } else if top(s, 0) >= 0 && before.memory_cell(top(s, 0) as int) is Some {
                r == Ok::<(), Error>(()) && after.data_stack@ == below(s, 1).push(
                    before.memory_cell(top(s, 0) as int).unwrap(),
                )
            } else {
                r == Err::<(), Error>(Error::BadAddress) && after.data_stack@ == below(
                    s,
                    1,
                )
            }
        })
    }

    /// `@ ( addr -- x )`: replaces an address by the cell stored there, in
    /// the dictionary or one of its parents, or else in the memory of the
    /// host. Fails with `BadAddress`, the address gone, where no cell is
    /// stored there.
    pub fn fetch(&mut self) -> (r: Result<(), Error>)
        requires
            old(self).wf(),
        ensures
            final(self).wf(),
            Self::fetch_effect(old(self), final(self), r),
    {
        let a = match self.pop_data() {
            Ok(w) => w,
            Err(e) => {
                assert(self.data_stack@ =~= Seq::<Word>::empty());
                return Err(e);
            },
        };
        let addr = match a.addr() {
            Some(x) => x,
            None => {
                return Err(Error::BadAddress);
            },
        };
        match self.cell_at(addr) {
            Some(w) => self.push_data(w),
            None => Err(Error::BadAddress),
        }
    }

    /// What `c_fetch` does to the machine: `before` is the machine as the word
    /// finds it, `after` as it leaves it, and `r` what it returns.
    pub open spec fn c_fetch_effect(before: &Self, after: &Self, r: Result<(), Error>) -> bool {
        &&& after.same_but(before, Touch::data())
        &&& ({
            let s = before.data_stack@;
            if s.len() == 0 {
                ran_dry(s, after.data_stack@, r, 1)
            } else if top(s, 0) >= 0 && before.memory_byte(top(s, 0) as int) is Some {
                r == Ok::<(), Error>(()) && after.data_stack@ == below(s, 1).push(
                    Word { data: before.memory_byte(top(s, 0) as int).unwrap() as i32 },
                )
            } else {
                r == Err::<(), Error>(Error::BadAddress) && after.data_stack@ == below(
                    s,
                    1,
                )
            }
        })
    }

    /// `c@ ( addr -- c )`: replaces an address by the byte stored there.
    /// Fails as `@` does.
    pub fn c_fetch(&mut self) -> (r: Result<(), Error>)
        requires
            old(self).wf(),
        ensures
            final(self).wf(),
            Self::c_fetch_effect(old(self), final(self), r),
    {
        let a = match self.pop_data() {
            Ok(w) => w,
            Err(e) => {
                assert(self.data_stack@ =~= Seq::<Word>::empty());
                return Err(e);
            },
        };
        let addr = match a.addr() {
            Some(x) => x,
            None => {
                return Err(Error::BadAddress);
            },
        };
        match self.byte_at(addr) {
            Some(b) => self.push_data(Word { data: b as i32 }),
            None => Err(Error::BadAddress),
        }
    }

    /// What `store` does to the machine: `before` is the machine as the word
    /// finds it, `after` as it leaves it, and `r` what it returns.
    pub open spec fn store_effect(before: &Self, after: &Self, r: Result<(), Error>) -> bool {
        &&& after.same_but(before, Touch::memory())
        &&& ({
            let s = before.data_stack@;
            let d = before.dict.dict;
            if s.len() < 2 {
                ran_dry(s, after.data_stack@, r, 2) && after.dict == before.dict
                    && after.host_ctxt == before.host_ctxt
            } else if top(s, 0) >= 0 && d.alloc.holds(top(s, 0) as int, 4) {
                r == Ok::<(), Error>(()) && after.data_stack@ == below(s, 2)
                    && after.host_ctxt == before.host_ctxt && after.dict.dict.stores(
                    &d,
                    patched(
                        d.alloc.mem@,
                        top(s, 0) - d.alloc.start,
                        bytes_of_word(s[s.len() - 2]),
                    ),
                )
            } else if top(s, 0) >= 0 && Self::host_cell(&before.host_ctxt, top(s, 0) as int)
                is Some {
                r == Ok::<(), Error>(()) && after.data_stack@ == below(s, 2) && after.dict
                    == before.dict && Self::host_stored(
                    &before.host_ctxt,
                    &after.host_ctxt,
                    top(s, 0) as int,
                    bytes_of_word(s[s.len() - 2]),
                )
            } else {
                r == Err::<(), Error>(Error::BadAddress) && after.data_stack@ == below(
                    s,
                    2,
                ) && after.dict == before.dict && after.host_ctxt == before.host_ctxt
            }
        })
    }

    /// `! ( x addr -- )`: stores the cell `x` at an address of the machine's
    /// own dictionary, or else of the memory of the host. Fails with
    /// `BadAddress`, both cells gone and nothing stored, where the four
    /// bytes from `addr` on have not all been handed out by the arena and
    /// the host does not keep them all either.
    pub fn store(&mut self) -> (r: Result<(), Error>)
        requires
            old(self).wf(),
        ensures
            final(self).wf(),
            Self::store_effect(old(self), final(self), r),
    {
        let (x, a, _) = match self.pop_n(2) {
            Ok(t) => t,
            Err(e) => {
                return Err(e);
            },
        };
        let addr = match a.addr() {
            Some(v) => v,
            None => {
                return Err(Error::BadAddress);
            },
        };
        if self.dict.dict.alloc.write_word(addr, x) {
            proof {
                lemma_wf_after_bump(&old(self).dict.dict, &self.dict.dict);
            }
            Ok(())
        } else if self.store_in_host(addr, x) {
            Ok(())
        } else {
            Err(Error::BadAddress)
        }
    }

    /// What `c_store` does to the machine: `before` is the machine as the word
    /// finds it, `after` as it leaves it, and `r` what it returns.
    pub open spec fn c_store_effect(before: &Self, after: &Self, r: Result<(), Error>) -> bool {
        &&& after.same_but(before, Touch::memory())
        &&& ({
            let s = before.data_stack@;
            let d = before.dict.dict;
            if s.len() < 2 {
                ran_dry(s, after.data_stack@, r, 2) && after.dict == before.dict
                    && after.host_ctxt == before.host_ctxt
            } else if top(s, 0) >= 0 && d.alloc.holds(top(s, 0) as int, 1) {
                r == Ok::<(), Error>(()) && after.data_stack@ == below(s, 2)
                    && after.host_ctxt == before.host_ctxt && after.dict.dict.stores(
                    &d,
                    d.alloc.mem@.update(top(s, 0) - d.alloc.start, top(s, 1) as u8),
                )
            } else if top(s, 0) >= 0 && before.host_ctxt.byte_at(top(s, 0) as usize) is Some {
                r == Ok::<(), Error>(()) && after.data_stack@ == below(s, 2) && after.dict
                    == before.dict && Self::host_stored(
                    &before.host_ctxt,
                    &after.host_ctxt,
                    top(s, 0) as int,
                    seq![top(s, 1) as u8],
                )
            } else {
                r == Err::<(), Error>(Error::BadAddress) && after.data_stack@ == below(
                    s,
                    2,
                ) && after.dict == before.dict && after.host_ctxt == before.host_ctxt
            }
        })
    }

    /// `c! ( c addr -- )`: stores the low eight bits of `c` at an address of
    /// the machine's own dictionary, or else of the memory of the host.
    /// Fails as `!` does.
    pub fn c_store(&mut self) -> (r: Result<(), Error>)
        requires
            old(self).wf(),
        ensures
            final(self).wf(),
            Self::c_store_effect(old(self), final(self), r),
    {
        let (x, a, _) = match self.pop_n(2) {
            Ok(t) => t,
            Err(e) => {
                return Err(e);
            },
        };
        let addr = match a.addr() {
            Some(v) => v,
            None => {
                return Err(Error::BadAddress);
            },
        };
        let b: u8 = #[verifier::truncate] (x.data as u8);
        if self.dict.dict.alloc.write_u8(addr, b) {
            proof {
                lemma_wf_after_bump(&old(self).dict.dict, &self.dict.dict);
            }
            Ok(())
        } else if self.host_ctxt.poke(addr, b) {
            Ok(())
        } else {
            Err(Error::BadAddress)
        }
    }

    /// What `here` does to the machine: `before` is the machine as the word
    /// finds it, `after` as it leaves it, and `r` what it returns.
    pub open spec fn here_effect(before: &Self, after: &Self, r: Result<(), Error>) -> bool {
        &&& after.same_but(before, Touch::data())
        &&& ({
            let s = before.data_stack@;
            if s.len() >= before.data_stack.cap() {
                r == Err::<(), Error>(Error::Stack(StackError::StackOverflow))
                    && after.data_stack@ == s
            } else {
                r == Ok::<(), Error>(()) && after.data_stack@ == s.push(
                    Word { data: before.dict.dict.alloc.cur as i32 },
                )
            }
        })
    }

    /// `here ( -- addr )`: pushes the address that the arena hands out next.
    pub fn here(&mut self) -> (r: Result<(), Error>)
        requires
            old(self).wf(),
        ensures
            final(self).wf(),
            Self::here_effect(old(self), final(self), r),
    {
        let cur = self.dict.dict.alloc.cur;
        self.push_data(Word { data: cur as i32 })
    }

    /// What `allot` does to the machine: `before` is the machine as the word
    /// finds it, `after` as it leaves it, and `r` what it returns.
    pub open spec fn allot_effect(before: &Self, after: &Self, r: Result<(), Error>) -> bool {
        &&& after.same_but(before, Touch::data_dict())
        &&& ({
            let s = before.data_stack@;
            let d = before.dict.dict;
            if before.pending is Some {
                r == Err::<(), Error>(Error::InterpretOnlyWord) && after.data_stack@ == s
                    && after.dict == before.dict
            } else if s.len() == 0 {
                ran_dry(s, after.data_stack@, r, 1) && after.dict == before.dict
            } else if top(s, 0) < 0 {
                r == Err::<(), Error>(Error::BadAddress) && after.data_stack@ == below(
                    s,
                    1,
                ) && after.dict == before.dict
            } else if top(s, 0) > d.alloc.end - d.alloc.cur {
                r == Err::<(), Error>(Error::DictionaryFull) && after.data_stack@
                    == below(s, 1) && after.dict == before.dict
            } else {
                r == Ok::<(), Error>(()) && after.data_stack@ == below(s, 1)
                    && after.dict.dict.grown_by(&d, zeros(top(s, 0) as int))
            }
        })
    }

    /// `allot ( n -- )`: hands out `n` more bytes of the arena, zeroed.
    /// Fails with `InterpretOnlyWord`, nothing changed, inside a definition;
    /// with `BadAddress` where `n` is negative; with `DictionaryFull` where
    /// the arena has fewer than `n` bytes left. In the last two cases `n` is
    /// gone from the stack.
    pub fn allot(&mut self) -> (r: Result<(), Error>)
        requires
            old(self).wf(),
        ensures
            final(self).wf(),
            Self::allot_effect(old(self), final(self), r),
    {
        if self.pending.is_some() {
            return Err(Error::InterpretOnlyWord);
        }
        let n = match self.pop_data() {
            Ok(w) => w,
            Err(e) => {
                assert(self.data_stack@ =~= Seq::<Word>::empty());
                return Err(e);
            },
        };
        if n.data < 0 {
            return Err(Error::BadAddress);
        }
        if n.data == 0 {
            assert(self.dict.dict.alloc.mem@ =~= self.dict.dict.alloc.mem@ + zeros(0));
            return Ok(());
        }
        match self.dict.dict.alloc.bump_u8s(n.data as usize) {
            Some(_) => {
                proof {
                    lemma_wf_after_bump(&old(self).dict.dict, &self.dict.dict);
                }
                Ok(())
            },
            None => Err(Error::DictionaryFull),
        }
    }

    /// What `comma` does to the machine: `before` is the machine as the word
    /// finds it, `after` as it leaves it, and `r` what it returns.
    pub open spec fn comma_effect(before: &Self, after: &Self, r: Result<(), Error>) -> bool {
        &&& after.same_but(before, Touch::data_dict())
        &&& ({
            let s = before.data_stack@;
            let d = before.dict.dict;
            let at = align_up(d.alloc.cur as int, WORD_SIZE as int);
            if before.pending is Some {
                r == Err::<(), Error>(Error::InterpretOnlyWord) && after.data_stack@ == s
                    && after.dict == before.dict
            } else if s.len() == 0 {
                ran_dry(s, after.data_stack@, r, 1) && after.dict == before.dict
            } else if at + WORD_SIZE > d.alloc.end {
                r == Err::<(), Error>(Error::DictionaryFull) && after.data_stack@
                    == below(s, 1) && after.dict == before.dict
            } else {
                r == Ok::<(), Error>(()) && after.data_stack@ == below(s, 1)
                    && after.dict.dict.grown_by(&d, zeros(at - d.alloc.cur)
                    + bytes_of_word(s.last()))
            }
        })
    }

    /// `, ( x -- )`: hands out the next aligned cell of the arena and stores
    /// `x` in it. Fails with `InterpretOnlyWord`, nothing changed, inside a
    /// definition, and with `DictionaryFull`, `x` gone, where the arena has
    /// no room for the cell.
    pub fn comma(&mut self) -> (r: Result<(), Error>)
        requires
            old(self).wf(),
        ensures
            final(self).wf(),
            Self::comma_effect(old(self), final(self), r),
    {
        if self.pending.is_some() {
            return Err(Error::InterpretOnlyWord);
        }
        let x = match self.pop_data() {
            Ok(w) => w,
            Err(e) => {
                assert(self.data_stack@ =~= Seq::<Word>::empty());
                return Err(e);
            },
        };
        match self.dict.dict.alloc.bump_write(x) {
            Ok(()) => {
                proof {
                    lemma_wf_after_bump(&old(self).dict.dict, &self.dict.dict);
                    let d = old(self).dict.dict;
                    let at = align_up(d.alloc.cur as int, WORD_SIZE as int);
                    assert(self.dict.dict.alloc.mem@ =~= d.alloc.mem@ + (zeros(at - d.alloc.cur)
                        + bytes_of_word(x)));
                }
                Ok(())
            },
            Err(_) => Err(Error::DictionaryFull),
        }
    }
}

} // verus!
