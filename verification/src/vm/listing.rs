//! The words that print what the dictionary holds, and the word that prints
//! a compiled string.

use vstd::prelude::*;

use crate::dictionary::{Dictionary, DictionaryEntry, EntryBuilder};
use crate::fastr::folded;
use crate::input::advanced;
use crate::num::{decimal_of, format_decimal};
use crate::vm::builtins::Touch;

use crate::vm::{async_names, builtin_names, CallContext, Error, Forth};
use crate::word::{Word, WORD_SIZE};

verus! {

/// The names `names`, each followed by a space.
pub open spec fn names_text(names: Seq<Seq<u8>>) -> Seq<u8>
    decreases names.len(),
{
    if names.len() == 0 {
        Seq::empty()
    } else {
        names[0].push(0x20u8) + names_text(names.drop_first())
    }
}

/// The names of the entries `entries`.
pub open spec fn entry_names(entries: Seq<DictionaryEntry>) -> Seq<Seq<u8>> {
    Seq::new(entries.len(), |i: int| entries[i].hdr.name@)
}

/// The `n` bytes stored from address `addr` on in the dictionary `d` or its
/// parents, if all of them are stored.
pub open spec fn bytes_spec(d: &Dictionary, addr: int, n: int) -> Option<Seq<u8>> {
    if forall|i: int| 0 <= i < n ==> (#[trigger] d.byte_spec(addr + i)) is Some {
        Some(Seq::new(n as nat, |i: int| d.byte_spec(addr + i).unwrap()))
    } else {
        None
    }
}

/// The cells `cells` in decimal, each after a space.
pub open spec fn cells_text(cells: Seq<Word>) -> Seq<u8>
    decreases cells.len(),
{
    if cells.len() == 0 {
        Seq::empty()
    } else {
        cells_text(cells.drop_last()) + seq![0x20u8] + decimal_of(cells.last().data as int)
    }
}

impl<T> Forth<T> {
    /// Reads the `n` bytes stored from `addr` on.
    pub fn read_bytes(&self, addr: usize, n: usize) -> (r: Option<Vec<u8>>)
        requires
            self.wf(),
            addr + n <= usize::MAX,
        ensures
            match bytes_spec(&self.dict.dict, addr as int, n as int) {
                Some(b) => r is Some && r.unwrap()@ == b,
                None => r is None,
            },
    {
        let mut v: Vec<u8> = Vec::new();
        let mut i: usize = 0;
        while i < n
            invariant
                i <= n,
                addr + n <= usize::MAX,
                self.wf(),
                v@.len() == i,
                forall|j: int| 0 <= j < i ==> (#[trigger] self.dict.dict.byte_spec(addr + j))
                    == Some(v@[j]),
            decreases n - i,
        {
            match self.dict.dict.read_u8(addr + i) {
                Some(b) => {
                    v.push(b);
                },
                None => {
                    assert(self.dict.dict.byte_spec(addr + i) is None);
                    return None;
                },
            }
            i += 1;
        }
        proof {
            let b = bytes_spec(&self.dict.dict, addr as int, n as int);
            assert(b is Some);
            assert(v@ =~= b.unwrap());
        }
        Some(v)
    }

    /// The string that the word that prints a string finds behind its
    /// operand: the operand is the length, the bytes follow it in the
    /// caller's parameter field, padded to whole cells, all within the
    /// caller's cells.
    pub open spec fn string_operand(&self) -> Option<Seq<u8>> {
        match self.operand_spec() {
            Some(w) => {
                let f = self.caller().unwrap();
                let cells = EntryBuilder::cells_for(w.data as int);
                if w.data >= 0 && f.idx + 1 + cells <= f.len {
                    bytes_spec(
                        &self.dict.dict,
                        self.info_spec(f.eh).unwrap().pfa + WORD_SIZE * (f.idx + 1),
                        w.data as int,
                    )
                } else {
                    None
                }
            },
            None => None,
        }
    }

    /// What `write_str` does to the machine: `before` is the machine as the word
    /// finds it, `after` as it leaves it, and `r` what it returns.
    pub open spec fn write_str_effect(before: &Self, after: &Self, r: Result<(), Error>) -> bool {
        &&& after.same_but(before, Touch { output: true, calls: true, ..Touch::nothing() })
        &&& match before.string_operand() {
            None => r == Err::<(), Error>(Error::BadAddress) && *after == *before,
            Some(text) => Self::printed(before, after, text, r) && if r is Ok {
                after.caller_at(
                    before,
                    before.caller().unwrap().idx + 1 + EntryBuilder::cells_for(
                        text.len() as int,
                    ),
                )
            } else {
                after.call_stack == before.call_stack
            },
        }
    }

    /// The word that prints a compiled string: prints the string behind its
    /// operand and steps over it. Fails, nothing changed, with `BadAddress`
    /// where there is no such string, and with `OutputFull` where it does not
    /// fit the output.
    pub fn write_str(&mut self) -> (r: Result<(), Error>)
        requires
            old(self).wf(),
        ensures
            final(self).wf(),
            Self::write_str_effect(old(self), final(self), r),
    {
        let (f, w) = match self.operand() {
            Ok(x) => x,
            Err(e) => {
                return Err(e);
            },
        };
        if w.data < 0 {
            return Err(Error::BadAddress);
        }
        let n = w.data as usize;
        let cells = n / WORD_SIZE + (if n % WORD_SIZE != 0 {
            1
        } else {
            0
        });
        assert(cells == EntryBuilder::cells_for(n as int));
        if cells > (f.len - f.idx - 1) as usize {
            return Err(Error::BadAddress);
        }
        let info = match self.info(f.eh) {
            Some(i) => i,
            None => {
                return Err(Error::BadAddress);
            },
        };
        let addr = info.pfa + WORD_SIZE * (f.idx as usize + 1);
        let text = match self.read_bytes(addr, n) {
            Some(t) => t,
            None => {
                return Err(Error::BadAddress);
            },
        };
        match self.print(text.as_slice()) {
            Ok(()) => {},
            Err(e) => {
                return Err(e);
            },
        }
        self.jump(f, f.idx + 1 + cells as u16);
        Ok(())
    }

    /// What `words` prints: the names of the dictionary's entries, latest
    /// first and on through the parents, then those of the suspending native
    /// words, then those of the native words, each followed by a space.
    pub open spec fn words_text(&self) -> Seq<u8> {
        names_text(entry_names(self.dict.dict.chain())) + names_text(
            async_names(self.async_builtins@),
        ) + names_text(builtin_names(self.builtins@))
    }

    /// What `words` does to the machine: `before` is the machine as the word
    /// finds it, `after` as it leaves it, and `r` what it returns.
    pub open spec fn words_effect(before: &Self, after: &Self, r: Result<(), Error>) -> bool {
        &&& after.same_but(before, Touch::output())
        &&& Self::printed(before, after, before.words_text(), r)
    }

    /// `words ( -- )`: prints the names of all words.
    pub fn words(&mut self) -> (r: Result<(), Error>)
        requires
            old(self).wf(),
        ensures
            final(self).wf(),
            Self::words_effect(old(self), final(self), r),
    {
        let mut v: Vec<u8> = Vec::new();
        let mut it = self.dict.dict.entries();
        let ghost all = entry_names(self.dict.dict.chain());
        loop
            invariant
                it.wf(),
                names_text(all) == v@ + names_text(entry_names(it.remaining())),
            ensures
                v@ == names_text(all),
            decreases it.remaining().len(),
        {
            let ghost rem = it.remaining();
            match it.next() {
                Some(e) => {
                    v.extend_from_slice(e.hdr.name.as_bytes());
                    v.push(0x20);
                    proof {
                        let names = entry_names(rem);
                        assert(names[0] == e.hdr.name@);
                        assert(names.drop_first() =~= entry_names(rem.drop_first()));
                        assert(names_text(all) =~= v@ + names_text(entry_names(it.remaining())));
                    }
                },
                None => {
                    assert(entry_names(rem) =~= Seq::<Seq<u8>>::empty());
                    assert(v@ =~= names_text(all));
                    break ;
                },
            }
        }
        let ghost first = v@;
        let ghost an = async_names(self.async_builtins@);
        assert(an.skip(0) =~= an);
        let mut i: usize = 0;
        while i < self.async_builtins.len()
            invariant
                i <= self.async_builtins@.len(),
                an == async_names(self.async_builtins@),
                first + names_text(an) == v@ + names_text(an.skip(i as int)),
            decreases self.async_builtins@.len() - i,
        {
            v.extend_from_slice(self.async_builtins[i].hdr.name.as_bytes());
            v.push(0x20);
            proof {
                let s = an.skip(i as int);
                assert(s[0] == self.async_builtins@[i as int].hdr.name@);
                assert(s.drop_first() =~= an.skip(i + 1));
                assert(first + names_text(an) =~= v@ + names_text(an.skip(i + 1)));
            }
            i += 1;
        }
        assert(an.skip(an.len() as int) =~= Seq::<Seq<u8>>::empty());
        let ghost second = v@;
        let ghost bn = builtin_names(self.builtins@);
        assert(bn.skip(0) =~= bn);
        let mut k: usize = 0;
        while k < self.builtins.len()
            invariant
                k <= self.builtins@.len(),
                bn == builtin_names(self.builtins@),
                second + names_text(bn) == v@ + names_text(bn.skip(k as int)),
            decreases self.builtins@.len() - k,
        {
            v.extend_from_slice(self.builtins[k].hdr.name.as_bytes());
            v.push(0x20);
            proof {
                let s = bn.skip(k as int);
                assert(s[0] == self.builtins@[k as int].hdr.name@);
                assert(s.drop_first() =~= bn.skip(k + 1));
                assert(second + names_text(bn) =~= v@ + names_text(bn.skip(k + 1)));
            }
            k += 1;
        }
        proof {
            assert(an.skip(an.len() as int) =~= Seq::<Seq<u8>>::empty());
            assert(bn.skip(bn.len() as int) =~= Seq::<Seq<u8>>::empty());
            assert(second =~= first + names_text(an));
            assert(v@ =~= self.words_text());
        }
        self.print(v.as_slice())
    }

    /// The cells of the parameter field of the frame `f`, if all of them can
    /// be read.
    pub open spec fn cells_spec(&self, f: CallContext) -> Option<Seq<Word>> {
        if forall|i: int| 0 <= i < f.len ==> (#[trigger] self.cell_of(f, i)) is Some {
            Some(Seq::new(f.len as nat, |i: int| self.cell_of(f, i).unwrap()))
        } else {
            None
        }
    }

    /// What is read from the dictionary and the tables of native words
    /// depends on nothing else of the machine.
    pub proof fn lemma_cells_depend_on_dict(a: &Self, b: &Self, f: CallContext)
        requires
            a.dict == b.dict,
            a.builtins == b.builtins,
            a.async_builtins == b.async_builtins,
        ensures
            a.cells_spec(f) == b.cells_spec(f),
    {
        assert forall|i: int| a.cell_of(f, i) == b.cell_of(f, i) by {}
        if a.cells_spec(f) is Some {
            assert forall|i: int| 0 <= i < f.len implies (#[trigger] b.cell_of(f, i)) is Some by {
                assert(a.cell_of(f, i) is Some);
            }
            assert(a.cells_spec(f).unwrap() =~= b.cells_spec(f).unwrap());
        } else {
            let i = choose|i: int| 0 <= i < f.len && !((#[trigger] a.cell_of(f, i)) is Some);
            assert(!(b.cell_of(f, i) is Some));
        }
    }

    /// The cells of the parameter field of the frame `f` in decimal, each
    /// after a space; `None` where one of them cannot be read.
    pub fn list_cells(&self, f: CallContext) -> (r: Option<Vec<u8>>)
        requires
            self.wf(),
        ensures
            match self.cells_spec(f) {
                Some(cells) => r is Some && r.unwrap()@ == cells_text(cells),
                None => r is None,
            },
    {
        let mut v: Vec<u8> = Vec::new();
        let ghost mut cells: Seq<Word> = Seq::empty();
        let mut i: u16 = 0;
        while i < f.len
            invariant
                i <= f.len,
                self.wf(),
                cells.len() == i,
                forall|j: int| 0 <= j < i ==> (#[trigger] self.cell_of(f, j)) == Some(cells[j]),
                v@ == cells_text(cells),
            decreases f.len - i,
        {
            match self.read_cell(f, i) {
                Some(w) => {
                    v.push(0x20);
                    let d = format_decimal(w.data);
                    v.extend_from_slice(d.as_slice());
                    proof {
                        let next = cells.push(w);
                        assert(next.drop_last() =~= cells);
                        assert(v@ =~= cells_text(next));
                        cells = next;
                    }
                },
                None => {
                    assert(self.cell_of(f, i as int) is None);
                    return None;
                },
            }
            i += 1;
        }
        proof {
            let c = self.cells_spec(f);
            assert(c is Some);
            assert(c.unwrap() =~= cells);
        }
        Some(v)
    }

    /// What `see` prints of the word `name` whose parameter field holds
    /// `cells`: a colon, the name, each cell in decimal, a semicolon and a
    /// line feed, all parted by spaces.
    pub open spec fn see_text(name: Seq<u8>, cells: Seq<Word>) -> Seq<u8> {
        seq![0x3au8, 0x20u8] + name + cells_text(cells) + seq![0x20u8, 0x3bu8, 0x0au8]
    }

    /// What `see` does to the machine: `before` is the machine as the word
    /// finds it, `after` as it leaves it, and `r` what it returns.
    pub open spec fn see_effect(before: &Self, after: &Self, r: Result<(), Error>) -> bool {
        &&& after.same_but(before, Touch { input: true, output: true, ..Touch::nothing() })
        &&& after.input@ == advanced(before.input@.rest)
        &&& ({
            let v = advanced(before.input@.rest);
            match v.cur {
                None => r == Err::<(), Error>(Error::UnknownWord) && after.output == before.output,
                Some(t) => match before.find_spec(folded(t)) {
                    None => r == Err::<(), Error>(Error::UnknownWord) && after.output
                        == before.output,
                    Some(e) => match before.info_spec(e) {
                        None => r == Err::<(), Error>(Error::BadAddress) && after.output
                            == before.output,
                        Some(info) => match before.cells_spec(
                            CallContext { eh: e, idx: 0, len: info.len },
                        ) {
                            None => r == Err::<(), Error>(Error::BadAddress)
                                && after.output == before.output,
                            Some(cells) => Self::printed(
                                before,
                                after,
                                Self::see_text(folded(t), cells),
                                r,
                            ),
                        },
                    },
                },
            }
        })
    }

    /// `see name`: prints the cells of the definition of `name`, which is
    /// read from the input. Fails with `UnknownWord` where the input has no
    /// token left or the token names no word, with `BadAddress` where a cell
    /// of the word cannot be read, and with `OutputFull`; nothing is printed
    /// then.
    pub fn see(&mut self) -> (r: Result<(), Error>)
        requires
            old(self).wf(),
        ensures
            final(self).wf(),
            Self::see_effect(old(self), final(self), r),
    {
        self.input.advance();
        let tok = match self.input.cur_word() {
            Some(t) => t,
            None => {
                return Err(Error::UnknownWord);
            },
        };
        let e = match self.find_word(tok.as_slice()) {
            Some(e) => e,
            None => {
                return Err(Error::UnknownWord);
            },
        };
        let info = match self.info(e) {
            Some(i) => i,
            None => {
                return Err(Error::BadAddress);
            },
        };
        let f = CallContext { eh: e, idx: 0, len: info.len };
        proof {
            Self::lemma_cells_depend_on_dict(&*old(self), self, f);
        }
        let listing = match self.list_cells(f) {
            Some(l) => l,
            None => {
                return Err(Error::BadAddress);
            },
        };
        let mut v: Vec<u8> = Vec::new();
        v.push(0x3a);
        v.push(0x20);
        v.extend_from_slice(tok.as_slice());
        v.extend_from_slice(listing.as_slice());
        v.push(0x20);
        v.push(0x3b);
        v.push(0x0a);
        proof {
            assert(v@ =~= Self::see_text(tok@, self.cells_spec(f).unwrap()));
        }
        self.print(v.as_slice())
    }
}

} // verus!
