//! The input buffer: a line of text and the tokenizer that walks it.

use vstd::prelude::*;
use vstd::string::StringSliceAdditionalSpecFns;
use crate::fastr::{folded, fold_bytes};
use crate::text::{Scan, find, scan};
use vstd::slice::slice_subrange;
use vstd::slice::slice_to_vec;

verus! {

/// What an input buffer holds.
pub struct InputView {
    /// The current token, as it stands in the text.
    pub cur: Option<Seq<u8>>,
    /// The text from the start of the current token up to `rest`.
    pub taken: Seq<u8>,
    /// The text that no token has been read from yet.
    pub rest: Seq<u8>,
}

/// A buffer of input text with a tokenizer. Tokens are runs of bytes other
/// than the space, the tab and the line feed, which part them.
pub struct WordStrBuf {
    buf: Vec<u8>,
    cap: usize,
    tok_start: usize,
    tok_end: usize,
    has_tok: bool,
    pos: usize,
}

impl View for WordStrBuf {
    type V = InputView;

    closed spec fn view(&self) -> InputView {
        InputView {
            cur: if self.has_tok {
                Some(self.buf@.subrange(self.tok_start as int, self.tok_end as int))
            } else {
                None
            },
            taken: self.buf@.subrange(self.tok_start as int, self.pos as int),
            rest: self.buf@.skip(self.pos as int),
        }
    }
}

/// The state after a step of the tokenizer from the text `rest`: spaces,
/// tabs and line feeds are skipped, and the token runs up to the next of them
/// or to the end of the text. Without a token all of the text is used up.
pub open spec fn advanced(rest: Seq<u8>) -> InputView {
    let a = find(rest, Scan::NotBlank);
    if 0 <= a < rest.len() {
        let t = rest.skip(a);
        let b = find(t, Scan::Blank);
        InputView { cur: Some(t.take(b)), taken: t.take(b), rest: t.skip(b) }
    } else {
        InputView { cur: None, taken: Seq::empty(), rest: Seq::empty() }
    }
}

/// The state after reading up to the byte `delim` from the text `rest`, if
/// `delim` occurs after the first byte of `rest`: that first byte, which
/// parts the text from the token before it, is dropped; what stands before
/// `delim` becomes the current token, unsplit; `delim` itself is used up.
pub open spec fn consumed(rest: Seq<u8>, delim: u8) -> Option<InputView> {
    if rest.len() == 0 {
        None
    } else {
        let t = rest.skip(1);
        let d = find(t, Scan::Byte(delim));
        if 0 <= d < t.len() {
            Some(InputView { cur: Some(t.take(d)), taken: t.take(d + 1), rest: t.skip(d + 1) })
        } else {
            None
        }
    }
}

impl WordStrBuf {
    /// The most bytes of text the buffer holds.
    pub closed spec fn cap(&self) -> nat {
        self.cap as nat
    }

    pub closed spec fn wf(&self) -> bool {
        &&& self.tok_start <= self.tok_end <= self.pos <= self.buf@.len() <= self.cap
        &&& !self.has_tok ==> self.tok_start == self.tok_end
    }

    /// An empty buffer for at most `capacity` bytes of text.
    pub fn new(capacity: usize) -> (b: Self)
        ensures
            b.wf(),
            b.cap() == capacity,
            b@ == (InputView { cur: None, taken: Seq::empty(), rest: Seq::empty() }),
    {
        let b = WordStrBuf {
            buf: Vec::new(),
            cap: capacity,
            tok_start: 0,
            tok_end: 0,
            has_tok: false,
            pos: 0,
        };
        assert(b@.taken =~= Seq::<u8>::empty());
        assert(b@.rest =~= Seq::<u8>::empty());
        b
    }

    pub fn capacity(&self) -> (n: usize)
        ensures
            n == self.cap(),
    {
        self.cap
    }

    /// Appends `text` to the text that no token has been read from yet. The
    /// text already read is dropped, and with it the current token. Fails,
    /// with the buffer unchanged, where the result would be longer than the
    /// capacity.
    pub fn fill_bytes(&mut self, text: &[u8]) -> (r: Result<(), ()>)
        requires
            old(self).wf(),
        ensures
            final(self).wf(),
            final(self).cap() == old(self).cap(),
            old(self)@.rest.len() + text@.len() <= old(self).cap() ==> r is Ok && final(self)@ == (
            InputView { cur: None, taken: Seq::empty(), rest: old(self)@.rest + text@ }),
            old(self)@.rest.len() + text@.len() > old(self).cap() ==> r is Err && final(self)@
                == old(self)@,
    {
        let left = self.buf.len() - self.pos;
        if text.len() > self.cap || left > self.cap - text.len() {
            return Err(());
        }
        let mut next: Vec<u8> = slice_to_vec(slice_subrange(self.buf.as_slice(), self.pos,
            self.buf.len()));
        next.extend_from_slice(text);
        self.buf = next;
        self.tok_start = 0;
        self.tok_end = 0;
        self.has_tok = false;
        self.pos = 0;
        assert(self@.rest =~= old(self)@.rest + text@);
        assert(self@.taken =~= Seq::<u8>::empty());
        Ok(())
    }

    /// Appends the bytes of `text` as `fill_bytes` does.
    pub fn fill(&mut self, text: &str) -> (r: Result<(), ()>)
        requires
            old(self).wf(),
        ensures
            final(self).wf(),
            final(self).cap() == old(self).cap(),
            old(self)@.rest.len() + text.spec_bytes().len() <= old(self).cap() ==> r is Ok
                && final(self)@ == (InputView {
                    cur: None,
                    taken: Seq::empty(),
                    rest: old(self)@.rest + text.spec_bytes(),
                }),
            old(self)@.rest.len() + text.spec_bytes().len() > old(self).cap() ==> r is Err
                && final(self)@ == old(self)@,
    {
        self.fill_bytes(text.as_bytes())
    }

    /// Moves on to the next token.
    pub fn advance(&mut self)
        requires
            old(self).wf(),
        ensures
            final(self).wf(),
            final(self).cap() == old(self).cap(),
            final(self)@ == advanced(old(self)@.rest),
    {
        let ghost rest = self@.rest;
        let a = scan(self.buf.as_slice(), self.pos, Scan::NotBlank);
        if a < self.buf.len() {
            let b = scan(self.buf.as_slice(), a, Scan::Blank);
            proof {
                let t = rest.skip(a - self.pos);
                assert(t =~= self.buf@.skip(a as int));
                assert(t.take(b - a) =~= self.buf@.subrange(a as int, b as int));
                assert(t.skip(b - a) =~= self.buf@.skip(b as int));
            }
            self.tok_start = a;
            self.tok_end = b;
            self.has_tok = true;
            self.pos = b;
        } else {
            self.tok_start = a;
            self.tok_end = a;
            self.has_tok = false;
            self.pos = a;
            assert(self@.taken =~= Seq::<u8>::empty());
            assert(self@.rest =~= Seq::<u8>::empty());
        }
    }

    /// The current token with its capital letters folded to small ones.
    pub fn cur_word(&self) -> (r: Option<Vec<u8>>)
        requires
            self.wf(),
        ensures
            match self@.cur {
                Some(t) => r is Some && r.unwrap()@ == folded(t),
                None => r is None,
            },
    {
        if self.has_tok {
            Some(fold_bytes(slice_subrange(self.buf.as_slice(), self.tok_start, self.tok_end)))
        } else {
            None
        }
    }

    /// The current token as it stands in the text.
    pub fn cur_raw(&self) -> (r: Option<Vec<u8>>)
        requires
            self.wf(),
        ensures
            match self@.cur {
                Some(t) => r is Some && r.unwrap()@ == t,
                None => r is None,
            },
    {
        if self.has_tok {
            Some(slice_to_vec(slice_subrange(self.buf.as_slice(), self.tok_start, self.tok_end)))
        } else {
            None
        }
    }

    /// Puts the current token back: the next `advance` reads it again.
    pub fn push_back(&mut self)
        requires
            old(self).wf(),
        ensures
            final(self).wf(),
            final(self).cap() == old(self).cap(),
            final(self)@ == (InputView {
                cur: None,
                taken: Seq::empty(),
                rest: old(self)@.taken + old(self)@.rest,
            }),
    {
        self.pos = self.tok_start;
        self.tok_end = self.tok_start;
        self.has_tok = false;
        assert(self@.rest =~= old(self)@.taken + old(self)@.rest);
        assert(self@.taken =~= Seq::<u8>::empty());
    }

    /// Reads on to the byte `delim` without splitting into tokens, and
    /// makes what was read the current token. Returns `false`, with the
    /// buffer unchanged, where `delim` does not occur after the first byte of
    /// the text that is left.
    pub fn consume_until(&mut self, delim: u8) -> (found: bool)
        requires
            old(self).wf(),
        ensures
            final(self).wf(),
            final(self).cap() == old(self).cap(),
            match consumed(old(self)@.rest, delim) {
                Some(v) => found && final(self)@ == v,
                None => !found && final(self)@ == old(self)@,
            },
    {
        if self.pos >= self.buf.len() {
            return false;
        }
        let from = self.pos + 1;
        let d = scan(self.buf.as_slice(), from, Scan::Byte(delim));
        proof {
            let t = self@.rest.skip(1);
            assert(t =~= self.buf@.skip(from as int));
        }
        if d >= self.buf.len() {
            return false;
        }
        proof {
            let t = self@.rest.skip(1);
            assert(t.take(d - from) =~= self.buf@.subrange(from as int, d as int));
            assert(t.take(d - from + 1) =~= self.buf@.subrange(from as int, d + 1));
            assert(t.skip(d - from + 1) =~= self.buf@.skip(d + 1));
        }
        self.tok_start = from;
        self.tok_end = d;
        self.has_tok = true;
        self.pos = d + 1;
        true
    }

    /// Drops all text and the current token.
    pub fn clear(&mut self)
        ensures
            final(self).wf(),
            final(self).cap() == old(self).cap(),
            final(self)@ == (InputView { cur: None, taken: Seq::empty(), rest: Seq::empty() }),
    {
        self.buf.clear();
        self.tok_start = 0;
        self.tok_end = 0;
        self.has_tok = false;
        self.pos = 0;
        assert(self@.taken =~= Seq::<u8>::empty());
        assert(self@.rest =~= Seq::<u8>::empty());
    }
}

} // verus!
