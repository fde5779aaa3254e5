//! A block device behind a cache of two pages.
//!
//! `block` opens a block: its contents are read into a page of the cache,
//! and the page becomes the active one. `buffer` opens a block without
//! reading it, for contents that are about to be written. `mark_dirty`
//! marks the active page as changed; a changed page is written back when
//! its place is needed for another block, or by `flush`. `empty_buffers`
//! forgets both pages without writing anything.
//!
//! Of the two pages the first is the active one, the second the older one.
//! Opening a block that is in neither page takes the place of the older
//! page.
//!
//! A page is memory of the host: it takes up the addresses from the one it
//! is known by on, and a machine whose host is the cache reads and writes
//! it there with `@`, `!`, `c@` and `c!`.
//!
//! The cache keeps an account of what it asked of its driver and of what
//! the driver answered. The account is there for the proofs only: the
//! contracts say through it which reads and writes an operation asks for,
//! in which order, and which error it returns.

use vstd::prelude::*;
use crate::builtin::WordFunc;

use crate::vm::builtins::{below, ran_dry, Touch};
use crate::vm::{Error, Forth, HostWords, Step};
use crate::word::{Word, ADDR_MAX};

verus! {

/// Why the block cache failed.
#[derive(Debug, Clone, Copy, PartialEq, Eq, Structural)]
pub enum DiskError {
    /// A block number is out of range.
    OutOfRange,
    /// The driver failed.
    InternalDriverError,
}

/// An operation that the cache asks of its driver.
pub enum DiskOp {
    /// To read block `idx` into the page at address `dest`.
    Read { idx: u16, dest: usize, len: usize },
    /// To write block `idx` from the page at address `source`.
    Write { idx: u16, source: usize, len: usize },
}

/// A call of the driver: what the cache asked of it, and the error that the
/// driver answered with, if it did.
pub struct DiskCall {
    pub op: DiskOp,
    pub failed: Option<DiskError>,
}

/// The error in the driver's answer `res`, if it is one.
pub open spec fn error_of(res: Result<(), DiskError>) -> Option<DiskError> {
    match res {
        Ok(_) => None,
        Err(e) => Some(e),
    }
}

/// A block device.
pub trait DiskDriver {
    /// Reads block `idx` into `data`, the contents of the page at address
    /// `dest`, which holds `len` bytes.
    fn read(&mut self, idx: u16, dest: usize, data: &mut Vec<u8>, len: usize) -> Result<
        (),
        DiskError,
    >;

    /// Writes `data`, the contents of the page at address `source`, which
    /// holds `len` bytes, to block `idx`.
    fn write(&mut self, idx: u16, source: usize, data: &Vec<u8>, len: usize) -> Result<
        (),
        DiskError,
    >;
}

/// What a page of the cache holds.
#[derive(Debug, Clone, Copy, PartialEq, Eq, Structural)]
pub enum PageState {
    /// Nothing.
    Empty,
    /// A block that was opened without being read.
    Buffer(u16),
    /// A block as it is on the device.
    Clean(u16),
    /// A block with changes that the device does not have yet.
    Dirty(u16),
}

impl PageState {
    /// The block that the page holds, if it holds one.
    pub open spec fn block(self) -> Option<u16> {
        match self {
            PageState::Empty => None,
            PageState::Buffer(i) => Some(i),
            PageState::Clean(i) => Some(i),
            PageState::Dirty(i) => Some(i),
        }
    }

    /// The state of the page after `mark_dirty`: a page that holds a block
    /// has changes; an empty page stays empty.
    pub open spec fn dirtied(self) -> PageState {
        match self {
            PageState::Empty => PageState::Empty,
            PageState::Buffer(i) => PageState::Dirty(i),
            PageState::Clean(i) => PageState::Dirty(i),
            PageState::Dirty(i) => PageState::Dirty(i),
        }
    }
}

/// A page of the cache: the address it is known by, its contents, and what
/// they are.
pub struct Cache {
    pub buf: usize,
    pub data: Vec<u8>,
    pub page: PageState,
}

impl Cache {
    /// Whether the page holds block `idx`.
    pub fn is_page(&self, idx: u16) -> (b: bool)
        ensures
            b == (self.page.block() == Some(idx)),
    {
        let i = match self.page {
            PageState::Empty => {
                return false;
            },
            PageState::Buffer(i) => i,
            PageState::Clean(i) => i,
            PageState::Dirty(i) => i,
        };
        i == idx
    }
}

/// The cache with its driver.
pub struct Disk<D: DiskDriver> {
    /// The active page.
    pub first: Cache,
    /// The older page.
    pub second: Cache,
    /// Bytes in a page.
    pub size: usize,
    pub driver: D,
    /// The account, for the proofs only, of the calls of the driver, in
    /// their order.
    pub done: Ghost<Seq<DiskCall>>,
}

/// A host context that holds a block cache.
pub trait BorrowDiskMut {
    type Driver: DiskDriver;

    /// The cache that the context holds. It is named for the proofs only:
    /// nothing ever calls it.
    spec fn disk(&self) -> Disk<Self::Driver>;

    /// Lends the cache: what is done to it is done to the cache of the
    /// context.
    fn borrow_disk_mut(&mut self) -> (r: &mut Disk<Self::Driver>)
        ensures
            *r == old(self).disk(),
            final(self).disk() == *final(r),
    ;
}

impl<D: DiskDriver> BorrowDiskMut for Disk<D> {
    type Driver = D;

    open spec fn disk(&self) -> Disk<D> {
        *self
    }

    fn borrow_disk_mut(&mut self) -> (r: &mut Disk<D>) {
        self
    }
}

/// `n` spaces.
pub open spec fn spaces(n: int) -> Seq<u8> {
    Seq::new(n as nat, |i: int| 0x20u8)
}

/// What opening a block does to the pages, before any transfer.
pub enum Opening {
    /// The block is in the active page: nothing changes.
    Active,
    /// The block is in the older page: the pages change places.
    Older,
    /// The block is in neither page: the pages change places, and the page
    /// that is now active is given up; it had no changes to write back.
    Evict,
    /// As `Evict`, after the changes of the page given up have been written
    /// back to the block that is named.
    WriteBack(u16),
}

impl<D: DiskDriver> Disk<D> {
    /// A cache with two empty pages of `size` bytes, known by the addresses
    /// `caches` and filled with spaces, over the device `driver`.
    pub fn new(caches: [usize; 2], size: usize, driver: D) -> (d: Self)
        ensures
            d.first.buf == caches[0],
            d.second.buf == caches[1],
            d.first.data@ == spaces(size as int),
            d.second.data@ == spaces(size as int),
            d.first.page == PageState::Empty,
            d.second.page == PageState::Empty,
            d.size == size,
            d.driver == driver,
            d.done@ == Seq::<DiskCall>::empty(),
    {
        let mut a: Vec<u8> = Vec::new();
        let mut b: Vec<u8> = Vec::new();
        let mut i: usize = 0;
        while i < size
            invariant
                i <= size,
                a@ == spaces(i as int),
                b@ == spaces(i as int),
            decreases size - i,
        {
            a.push(0x20);
            b.push(0x20);
            i += 1;
            assert(a@ =~= spaces(i as int));
            assert(b@ =~= spaces(i as int));
        }
        Disk {
            first: Cache { buf: caches[0], data: a, page: PageState::Empty },
            second: Cache { buf: caches[1], data: b, page: PageState::Empty },
            size,
            driver,
            done: Ghost(Seq::empty()),
        }
    }

    /// The address of the active page.
    pub fn active_buf(&self) -> (a: usize)
        ensures
            a == self.first.buf,
    {
        self.first.buf
    }

    /// Whether the active page holds block `idx`.
    pub fn matches_first(&self, idx: u16) -> (b: bool)
        ensures
            b == (self.first.page.block() == Some(idx)),
    {
        self.first.is_page(idx)
    }

    /// What opening block `idx` does to the pages.
    pub open spec fn opening(&self, idx: u16) -> Opening {
        if self.first.page.block() == Some(idx) {
            Opening::Active
        } else if self.second.page.block() == Some(idx) {
            Opening::Older
        } else {
            match self.second.page {
                PageState::Dirty(i) => Opening::WriteBack(i),
                _ => Opening::Evict,
            }
        }
    }

    /// Whether the driver of `self` is that of `before`, and was asked
    /// nothing in between.
    pub open spec fn quiet(&self, before: &Self) -> bool {
        &&& self.driver == before.driver
        &&& self.done@ == before.done@
    }

    /// Whether `self` has the pages of `before` in each other's place.
    pub open spec fn swapped(&self, before: &Self) -> bool {
        &&& self.first == before.second
        &&& self.second == before.first
        &&& self.size == before.size
    }

    /// Whether `self` has the pages of `before`.
    pub open spec fn same_pages(&self, before: &Self) -> bool {
        &&& self.first == before.first
        &&& self.second == before.second
        &&& self.size == before.size
        &&& self.done@ == before.done@
    }

    /// The calls of the driver that `self` has made since it was `before`.
    pub open spec fn calls_since(&self, before: &Self) -> Seq<DiskCall> {
        self.done@.skip(before.done@.len() as int)
    }

    /// Whether `self` has asked exactly `ops` of the driver since it was
    /// `before`, in this order, and the driver answered all but the last
    /// with success.
    pub open spec fn asked(&self, before: &Self, ops: Seq<DiskOp>) -> bool {
        let calls = self.calls_since(before);
        &&& self.done@ == before.done@ + calls
        &&& calls.len() == ops.len()
        &&& forall|k: int| 0 <= k < ops.len() ==> (#[trigger] calls[k]).op == ops[k]
        &&& forall|k: int| 0 <= k < ops.len() - 1 ==> (#[trigger] calls[k]).failed is None
    }

    /// The error that the driver answered with to the last call that `self`
    /// has made since it was `before`, if it has made one and that one
    /// failed.
    pub open spec fn last_error(&self, before: &Self) -> Option<DiskError> {
        let calls = self.calls_since(before);
        if calls.len() == 0 {
            None
        } else {
            calls.last().failed
        }
    }

    /// What `make_space_for_idx` does.
    pub open spec fn make_space_effect(
        before: &Self,
        after: &Self,
        idx: u16,
        r: Result<bool, DiskError>,
    ) -> bool {
        match before.opening(idx) {
            Opening::Active => r == Ok::<bool, DiskError>(false) && *after == *before,
            Opening::Older => r == Ok::<bool, DiskError>(false) && after.swapped(before)
                && after.quiet(before),
            Opening::Evict => r == Ok::<bool, DiskError>(true) && after.swapped(before)
                && after.quiet(before),
            Opening::WriteBack(i) => after.swapped(before) && after.asked(
                before,
                seq![DiskOp::Write { idx: i, source: before.second.buf, len: before.size }],
            ) && r == match after.last_error(before) {
                None => Ok::<bool, DiskError>(true),
                Some(e) => Err::<bool, DiskError>(e),
            },
        }
    }

    /// Makes the page for block `idx` the active one, and reports whether
    /// the block is yet to be brought into it. A block that is in neither
    /// page takes the place of the older page, whose changes, if it has any,
    /// the driver is asked to write back first. Fails with the driver's
    /// error where that write fails; the pages have changed places then, and
    /// nothing else has changed.
    pub fn make_space_for_idx(&mut self, idx: u16) -> (r: Result<bool, DiskError>)
        ensures
            Self::make_space_effect(old(self), final(self), idx, r),
    {
        if self.matches_first(idx) {
            return Ok(false);
        }
        core::mem::swap(&mut self.first, &mut self.second);
        if self.first.is_page(idx) {
            return Ok(false);
        }
        match self.first.page {
            PageState::Empty => Ok(true),
            PageState::Buffer(_) => Ok(true),
            PageState::Clean(_) => Ok(true),
            PageState::Dirty(i) => {
                let ghost swapped = *self;
                let res = self.driver.write(i, self.first.buf, &self.first.data, self.size);
                let r = self.wrote_back(i, res);
                proof {
                    let w = DiskOp::Write { idx: i, source: old(self).second.buf, len: self.size };
                    assert(self.calls_since(old(self)) =~= seq![
                        DiskCall { op: w, failed: error_of(res) },
                    ]);
                    assert(self.done@ =~= old(self).done@ + self.calls_since(old(self)));
                }
                r
            },
        }
    }

    /// Takes the driver's answer `res` to the request to write back block
    /// `i` from the active page, whose place is wanted for another block:
    /// enters the call in the account, and reports that the place is free,
    /// or fails with the driver's error. The pages are as they were.
    pub fn wrote_back(&mut self, i: u16, res: Result<(), DiskError>) -> (r: Result<bool, DiskError>)
        ensures
            final(self).first == old(self).first,
            final(self).second == old(self).second,
            final(self).size == old(self).size,
            final(self).driver == old(self).driver,
            final(self).done@ == old(self).done@.push(
                DiskCall {
                    op: DiskOp::Write { idx: i, source: old(self).first.buf, len: old(self).size },
                    failed: error_of(res),
                },
            ),
            r == match res {
                Ok(()) => Ok::<bool, DiskError>(true),
                Err(e) => Err::<bool, DiskError>(e),
            },
    {
        self.done = Ghost(
            self.done@.push(
                DiskCall {
                    op: DiskOp::Write { idx: i, source: self.first.buf, len: self.size },
                    failed: error_of(res),
                },
            ),
        );
        match res {
            Ok(()) => Ok(true),
            Err(e) => Err(e),
        }
    }

    /// The writes that a flush asks of the driver where none fails: one for
    /// each page with changes, the active page first.
    pub open spec fn flush_ops(&self) -> Seq<DiskOp> {
        let a: Seq<DiskOp> = match self.first.page {
            PageState::Dirty(i) => seq![
                DiskOp::Write { idx: i, source: self.first.buf, len: self.size },
            ],
            _ => Seq::empty(),
        };
        let b: Seq<DiskOp> = match self.second.page {
            PageState::Dirty(i) => seq![
                DiskOp::Write { idx: i, source: self.second.buf, len: self.size },
            ],
            _ => Seq::empty(),
        };
        a + b
    }

    /// What `flush` does, where `failed` is the error it fails with, if it
    /// does: the driver is asked for the writes of `flush_ops` one after the
    /// other, up to the first that fails, whose error is `failed`. A page is
    /// empty afterwards unless its write failed or was not asked for any
    /// more: such a page is as it was.
    pub open spec fn flush_effect(before: &Self, after: &Self, failed: Option<DiskError>) -> bool {
        let ops = before.flush_ops();
        let calls = after.calls_since(before);
        &&& after.size == before.size
        &&& after.first.buf == before.first.buf
        &&& after.second.buf == before.second.buf
        &&& after.first.data == before.first.data
        &&& after.second.data == before.second.data
        &&& calls.len() <= ops.len()
        &&& ops.len() > 0 ==> calls.len() > 0
        &&& after.asked(before, ops.take(calls.len() as int))
        &&& calls.len() == 0 ==> after.driver == before.driver
        &&& failed == after.last_error(before)
        &&& failed is None ==> calls.len() == ops.len()
        &&& after.first.page == if before.first.page is Dirty && calls[0].failed is Some {
            before.first.page
        } else {
            PageState::Empty
        }
        &&& after.second.page == if failed is None {
            PageState::Empty
        } else {
            before.second.page
        }
    }

    /// Takes the driver's answer `res` to the request to write block `i`
    /// from a page that is being flushed, the older page where `older` is
    /// set and the active one where not: enters the call in the account,
    /// and empties the page where the write succeeded. Returns the answer.
    pub fn flush_done(&mut self, older: bool, i: u16, res: Result<(), DiskError>) -> (r: Result<
        (),
        DiskError,
    >)
        ensures
            r == res,
            final(self).size == old(self).size,
            final(self).driver == old(self).driver,
            final(self).first.buf == old(self).first.buf,
            final(self).second.buf == old(self).second.buf,
            final(self).first.data == old(self).first.data,
            final(self).second.data == old(self).second.data,
            final(self).done@ == old(self).done@.push(
                DiskCall {
                    op: DiskOp::Write {
                        idx: i,
                        source: if older {
                            old(self).second.buf
                        } else {
                            old(self).first.buf
                        },
                        len: old(self).size,
                    },
                    failed: error_of(res),
                },
            ),
            final(self).first.page == if !older && res is Ok {
                PageState::Empty
            } else {
                old(self).first.page
            },
            final(self).second.page == if older && res is Ok {
                PageState::Empty
            } else {
                old(self).second.page
            },
    {
        let source = if older {
            self.second.buf
        } else {
            self.first.buf
        };
        self.done = Ghost(
            self.done@.push(
                DiskCall {
                    op: DiskOp::Write { idx: i, source, len: self.size },
                    failed: error_of(res),
                },
            ),
        );
        if res.is_ok() {
            if older {
                self.second.page = PageState::Empty;
            } else {
                self.first.page = PageState::Empty;
            }
        }
        res
    }

    /// Writes back the pages that have changes, the active one first, and
    /// empties both. Fails with the driver's error where a write fails: the
    /// page whose write failed and the page after it are then as they were.
    pub fn flush(&mut self) -> (r: Result<(), DiskError>)
        ensures
            Self::flush_effect(old(self), final(self), error_of(r)),
    {
        let ghost ops = self.flush_ops();
        match self.first.page {
            PageState::Dirty(i) => {
                let res = self.driver.write(i, self.first.buf, &self.first.data, self.size);
                let r = self.flush_done(false, i, res);
                proof {
                    assert(self.calls_since(old(self)) =~= seq![
                        DiskCall { op: ops[0], failed: error_of(res) },
                    ]);
                    assert(self.done@ =~= old(self).done@ + self.calls_since(old(self)));
                    assert(ops.take(1) =~= seq![ops[0]]);
                }
                match r {
                    Ok(()) => {},
                    Err(e) => {
                        return Err(e);
                    },
                }
            },
            _ => {
                self.first.page = PageState::Empty;
                proof {
                    assert(self.calls_since(old(self)) =~= Seq::<DiskCall>::empty());
                    assert(self.done@ =~= old(self).done@ + self.calls_since(old(self)));
                }
            },
        }
        let ghost mid = *self;
        let ghost head = self.calls_since(old(self));
        assert(self.done@ == old(self).done@ + head);
        assert(head.len() == 1 ==> head[0].op == ops[0] && head[0].failed is None);
        assert(head.len() == if old(self).first.page is Dirty {
            1int
        } else {
            0int
        });
        match self.second.page {
            PageState::Dirty(i) => {
                let res = self.driver.write(i, self.second.buf, &self.second.data, self.size);
                let r = self.flush_done(true, i, res);
                proof {
                    let c = DiskCall {
                        op: DiskOp::Write { idx: i, source: self.second.buf, len: self.size },
                        failed: error_of(res),
                    };
                    let calls = self.calls_since(old(self));
                    assert(calls =~= head.push(c));
                    assert(self.done@ =~= old(self).done@ + calls);
                    assert(ops.take(ops.len() as int) =~= ops);
                    assert(ops.len() == head.len() + 1);
                    assert(ops[head.len() as int] == c.op);
                    assert(calls.last() == c);
                    assert forall|k: int| 0 <= k < ops.len() implies (#[trigger] calls[k]).op
                        == ops[k] by {
                        if k < head.len() {
                            assert(calls[k] == head[k]);
                        }
                    }
                    assert forall|k: int| 0 <= k < ops.len() - 1 implies (#[trigger] calls[
                        k
                    ]).failed is None by {
                        assert(calls[k] == head[k]);
                    }
                    assert(self.asked(old(self), ops.take(calls.len() as int)));
                }
                r
            },
            _ => {
                self.second.page = PageState::Empty;
                proof {
                    assert(ops.take(ops.len() as int) =~= ops);
                    assert(self.calls_since(old(self)) == head);
                    assert(ops.len() == head.len());
                    assert(self.asked(old(self), ops.take(head.len() as int)));
                }
                Ok(())
            },
        }
    }

    /// What `buffer` does.
    pub open spec fn buffer_effect(
        before: &Self,
        after: &Self,
        idx: u16,
        r: Result<usize, DiskError>,
    ) -> bool {
        match before.opening(idx) {
            Opening::Active => r == Ok::<usize, DiskError>(before.first.buf) && *after
                == *before,
            Opening::Older => r == Ok::<usize, DiskError>(before.second.buf)
                && after.swapped(before) && after.quiet(before),
            Opening::Evict => r == Ok::<usize, DiskError>(before.second.buf)
                && after.taken(before, PageState::Buffer(idx))
                && after.first.data == before.second.data && after.quiet(before),
            Opening::WriteBack(i) => after.asked(
                before,
                seq![DiskOp::Write { idx: i, source: before.second.buf, len: before.size }],
            ) && match after.last_error(before) {
                None => r == Ok::<usize, DiskError>(before.second.buf) && after.taken(
                    before,
                    PageState::Buffer(idx),
                ) && after.first.data == before.second.data,
                Some(e) => r == Err::<usize, DiskError>(e) && after.swapped(before),
            },
        }
    }

    /// Opens block `idx` without reading it, and returns the address of its
    /// page, which is now the active one. A block that was in neither page
    /// is now in the active page as a block that was not read. Fails as
    /// `make_space_for_idx` does, with the driver's error.
    pub fn buffer(&mut self, idx: u16) -> (r: Result<usize, DiskError>)
        ensures
            final(self).size == old(self).size,
            Self::buffer_effect(old(self), final(self), idx, r),
    {
        match self.make_space_for_idx(idx) {
            Ok(true) => {
                self.first.page = PageState::Buffer(idx);
            },
            Ok(false) => {},
            Err(e) => {
                return Err(e);
            },
        }
        Ok(self.active_buf())
    }

    /// Whether `self` has the pages of `before` in each other's place, the
    /// page that is now active in the state `page`.
    pub open spec fn taken(&self, before: &Self, page: PageState) -> bool {
        &&& self.first.buf == before.second.buf
        &&& self.first.page == page
        &&& self.second == before.first
        &&& self.size == before.size
    }

    /// Forgets both pages, whatever changes they have.
    pub fn empty_buffers(&mut self)
        ensures
            final(self).first.page == PageState::Empty,
            final(self).second.page == PageState::Empty,
            final(self).first.buf == old(self).first.buf,
            final(self).second.buf == old(self).second.buf,
            final(self).first.data == old(self).first.data,
            final(self).second.data == old(self).second.data,
            final(self).size == old(self).size,
            final(self).quiet(old(self)),
    {
        self.first.page = PageState::Empty;
        self.second.page = PageState::Empty;
    }

    /// Marks the active page as changed. An empty page stays empty.
    pub fn mark_dirty(&mut self)
        ensures
            final(self).first.page == old(self).first.page.dirtied(),
            final(self).first.buf == old(self).first.buf,
            final(self).first.data == old(self).first.data,
            final(self).second == old(self).second,
            final(self).size == old(self).size,
            final(self).quiet(old(self)),
    {
        let next = match self.first.page {
            PageState::Empty => PageState::Empty,
            PageState::Buffer(i) => PageState::Dirty(i),
            PageState::Clean(i) => PageState::Dirty(i),
            PageState::Dirty(i) => PageState::Dirty(i),
        };
        self.first.page = next;
    }

    /// What `block` does.
    pub open spec fn block_effect(
        before: &Self,
        after: &Self,
        idx: u16,
        r: Result<usize, DiskError>,
    ) -> bool {
        match before.opening(idx) {
            Opening::Active => r == Ok::<usize, DiskError>(before.first.buf) && *after
                == *before,
            Opening::Older => r == Ok::<usize, DiskError>(before.second.buf)
                && after.swapped(before) && after.quiet(before),
            Opening::Evict => after.asked(
                before,
                seq![DiskOp::Read { idx, dest: before.second.buf, len: before.size }],
            ) && Self::read_effect(before, after, idx, r),
            Opening::WriteBack(i) => {
                let w = DiskOp::Write { idx: i, source: before.second.buf, len: before.size };
                let read = DiskOp::Read { idx, dest: before.second.buf, len: before.size };
                if after.calls_since(before).len() == 1 {
                    &&& after.asked(before, seq![w])
                    &&& after.last_error(before) is Some
                    &&& r == Err::<usize, DiskError>(after.last_error(before)->0)
                    &&& after.swapped(before)
                } else {
                    &&& after.asked(before, seq![w, read])
                    &&& Self::read_effect(before, after, idx, r)
                }
            },
        }
    }

    /// What `block` returns and how the pages stand after the driver has
    /// answered the request to read block `idx`, the last call since
    /// `before`: on success the address of the page that is now active,
    /// which holds the block as it is on the device. Where the read failed,
    /// the driver's error: the pages have changed places, and are in the
    /// states they were in.
    pub open spec fn read_effect(
        before: &Self,
        after: &Self,
        idx: u16,
        r: Result<usize, DiskError>,
    ) -> bool {
        match after.last_error(before) {
            None => r == Ok::<usize, DiskError>(before.second.buf) && after.taken(
                before,
                PageState::Clean(idx),
            ),
            Some(e) => r == Err::<usize, DiskError>(e) && after.taken(before, before.second.page),
        }
    }

    /// Takes the driver's answer `res` to the request to read block `idx`
    /// into the active page: enters the call in the account. On success the
    /// page holds the block as it is on the device, and its address is
    /// returned. Fails with the driver's error; the page is then in the
    /// state it was in.
    pub fn read_done(&mut self, idx: u16, res: Result<(), DiskError>) -> (r: Result<
        usize,
        DiskError,
    >)
        ensures
            final(self).first.buf == old(self).first.buf,
            final(self).first.data == old(self).first.data,
            final(self).second == old(self).second,
            final(self).size == old(self).size,
            final(self).driver == old(self).driver,
            final(self).done@ == old(self).done@.push(
                DiskCall {
                    op: DiskOp::Read { idx, dest: old(self).first.buf, len: old(self).size },
                    failed: error_of(res),
                },
            ),
            match res {
                Ok(()) => r == Ok::<usize, DiskError>(old(self).first.buf)
                    && final(self).first.page == PageState::Clean(idx),
                Err(e) => r == Err::<usize, DiskError>(e)
                    && final(self).first.page == old(self).first.page,
            },
    {
        self.done = Ghost(
            self.done@.push(
                DiskCall {
                    op: DiskOp::Read { idx, dest: self.first.buf, len: self.size },
                    failed: error_of(res),
                },
            ),
        );
        match res {
            Ok(()) => {
                self.first.page = PageState::Clean(idx);
                Ok(self.first.buf)
            },
            Err(e) => Err(e),
        }
    }

    /// Opens block `idx`, and returns the address of its page, which is now
    /// the active one. A block that was in neither page is read from the
    /// device, after the changes of the page it replaces have been written
    /// back. Fails with the driver's error where that write or the read
    /// fails: the pages have then changed places, and are in the states
    /// they were in. After a write that failed the driver is not asked to
    /// read.
    pub fn block(&mut self, idx: u16) -> (r: Result<usize, DiskError>)
        ensures
            final(self).size == old(self).size,
            Self::block_effect(old(self), final(self), idx, r),
    {
        match self.make_space_for_idx(idx) {
            Ok(true) => {
                let ghost mid = *self;
                let res = self.driver.read(idx, self.first.buf, &mut self.first.data, self.size);
                let r = self.read_done(idx, res);
                proof {
                    let read = DiskCall {
                        op: DiskOp::Read { idx, dest: old(self).second.buf, len: self.size },
                        failed: error_of(res),
                    };
                    assert(self.calls_since(old(self)) =~= mid.calls_since(old(self)).push(read));
                    assert(self.done@ =~= old(self).done@ + self.calls_since(old(self)));
                }
                r
            },
            Ok(false) => Ok(self.active_buf()),
            Err(e) => Err(e),
        }
    }

    /// The byte at the address `addr`, where that is an address of a page:
    /// a page takes up the addresses from the one it is known by on, one
    /// for each byte it holds. Where both pages have the address, the byte
    /// of the active one.
    pub open spec fn byte_spec(&self, addr: int) -> Option<u8> {
        if self.first.buf <= addr < self.first.buf + self.first.data@.len() {
            Some(self.first.data@[addr - self.first.buf])
        } else if self.second.buf <= addr < self.second.buf + self.second.data@.len() {
            Some(self.second.data@[addr - self.second.buf])
        } else {
            None
        }
    }

    /// The byte at the address `addr` of a page.
    pub fn read_u8(&self, addr: usize) -> (r: Option<u8>)
        ensures
            r == self.byte_spec(addr as int),
    {
        if addr >= self.first.buf && addr - self.first.buf < self.first.data.len() {
            Some(self.first.data[addr - self.first.buf])
        } else if addr >= self.second.buf && addr - self.second.buf < self.second.data.len() {
            Some(self.second.data[addr - self.second.buf])
        } else {
            None
        }
    }

    /// Stores `val` at the address `addr` of a page, and says whether that
    /// is one. Nothing else changes: to have the page written back, mark it
    /// with `mark_dirty`.
    pub fn write_u8(&mut self, addr: usize, val: u8) -> (ok: bool)
        ensures
            ok == (old(self).byte_spec(addr as int) is Some),
            !ok ==> *final(self) == *old(self),
            ok ==> forall|a: int| #[trigger]
                final(self).byte_spec(a) == if a == addr {
                    Some(val)
                } else {
                    old(self).byte_spec(a)
                },
            final(self).first.buf == old(self).first.buf,
            final(self).second.buf == old(self).second.buf,
            final(self).first.page == old(self).first.page,
            final(self).second.page == old(self).second.page,
            final(self).first.data@.len() == old(self).first.data@.len(),
            final(self).second.data@.len() == old(self).second.data@.len(),
            final(self).size == old(self).size,
            final(self).quiet(old(self)),
    {
        if addr >= self.first.buf && addr - self.first.buf < self.first.data.len() {
            let off = addr - self.first.buf;
            self.first.data.set(off, val);
            true
        } else if addr >= self.second.buf && addr - self.second.buf < self.second.data.len() {
            let off = addr - self.second.buf;
            self.second.data.set(off, val);
            true
        } else {
            false
        }
    }

    /// The driver.
    pub fn driver(&mut self) -> (d: &mut D)
        ensures
            *d == old(self).driver,
            final(self).driver == *final(d),
            final(self).same_pages(old(self)),
    {
        &mut self.driver
    }

    /// Gives up the cache, whatever changes its pages have, and returns the
    /// driver.
    pub fn release(self) -> (d: D)
        ensures
            d == self.driver,
    {
        self.driver
    }
}

impl Touch {
    /// The data stack and the host's context.
    pub open spec fn data_host() -> Touch {
        Touch { data: true, host: true, ..Touch::nothing() }
    }

    /// The host's context.
    pub open spec fn host() -> Touch {
        Touch { host: true, ..Touch::nothing() }
    }
}

/// The block number that the cell `w` holds, if it holds one.
pub open spec fn block_number(w: Word) -> Option<u16> {
    if 0 <= w.data <= u16::MAX {
        Some(w.data as u16)
    } else {
        None
    }
}

/// What a word that opens a block leaves on the data stack, which was
/// `below` under the block number, when the cache answers `res`: the address
/// of the page on success. Fails with the error of the cache, and with
/// `BadAddress` where no cell can hold the address.
pub open spec fn opened(
    below: Seq<Word>,
    after: Seq<Word>,
    res: Result<usize, DiskError>,
    r: Result<(), Error>,
) -> bool {
    match res {
        Ok(a) => if a <= ADDR_MAX {
            r == Ok::<(), Error>(()) && after == below.push(Word { data: a as i32 })
        } else {
            r == Err::<(), Error>(Error::BadAddress) && after == below
        },
        Err(e) => r == Err::<(), Error>(Error::Disk(e)) && after == below,
    }
}

/// Pops the block number that a word of the cache works on.
fn pop_block_number<T>(f: &mut Forth<T>) -> (r: Result<u16, Error>)
    requires
        old(f).wf(),
    ensures
        final(f).wf(),
        final(f).same_but(old(f), Touch::data()),
        ({
            let s = old(f).data_stack@;
            if s.len() == 0 {
                r is Err && ran_dry(s, final(f).data_stack@, Err(r->Err_0), 1)
            } else {
                final(f).data_stack@ == below(s, 1) && match block_number(s.last()) {
                    Some(i) => r == Ok::<u16, Error>(i),
                    None => r == Err::<u16, Error>(Error::Disk(DiskError::OutOfRange)),
                }
            }
        }),
{
    let w = match f.pop_data() {
        Ok(w) => w,
        Err(e) => {
            assert(f.data_stack@ =~= Seq::<Word>::empty());
            return Err(e);
        },
    };
    assert(f.data_stack@ =~= below(old(f).data_stack@, 1));
    if 0 <= w.data && w.data <= 0xffff {
        Ok(w.data as u16)
    } else {
        Err(Error::Disk(DiskError::OutOfRange))
    }
}

/// Pushes the address that the cache answered with.
fn push_page<T>(f: &mut Forth<T>, res: Result<usize, DiskError>) -> (r: Result<(), Error>)
    requires
        old(f).wf(),
        old(f).data_stack@.len() < old(f).data_stack.cap(),
    ensures
        final(f).wf(),
        final(f).same_but(old(f), Touch::data()),
        opened(old(f).data_stack@, final(f).data_stack@, res, r),
{
    match res {
        Ok(a) => match Word::ptr(a) {
            Some(w) => f.push_data(w),
            None => Err(Error::BadAddress),
        },
        Err(e) => Err(Error::Disk(e)),
    }
}

/// `block ( n -- addr )`: opens block `n` of the cache in the host's
/// context, and leaves the address of its page. Fails with `StackEmpty` on
/// an empty stack and with `OutOfRange` where `n` is no block number; the
/// cache is untouched then. Otherwise the cache does what `Disk::block`
/// does, and the word fails where the cache fails.
pub fn block<BDM: BorrowDiskMut>(f: &mut Forth<BDM>) -> (r: Result<(), Error>)
    requires
        old(f).wf(),
    ensures
        final(f).wf(),
        DiskWord::Block.effect(old(f), final(f), r),
{
    let idx = match pop_block_number(f) {
        Ok(i) => i,
        Err(e) => {
            return Err(e);
        },
    };
    let res = f.host_ctxt.borrow_disk_mut().block(idx);
    push_page(f, res)
}

/// `buffer ( n -- addr )`: opens block `n` without reading it, and leaves
/// the address of its page. Fails as `block` does; the cache does what
/// `Disk::buffer` does.
pub fn buffer<BDM: BorrowDiskMut>(f: &mut Forth<BDM>) -> (r: Result<(), Error>)
    requires
        old(f).wf(),
    ensures
        final(f).wf(),
        DiskWord::Buffer.effect(old(f), final(f), r),
{
    let idx = match pop_block_number(f) {
        Ok(i) => i,
        Err(e) => {
            return Err(e);
        },
    };
    let res = f.host_ctxt.borrow_disk_mut().buffer(idx);
    push_page(f, res)
}

/// `empty-buffers ( -- )`: forgets both pages of the cache, whatever
/// changes they have.
pub fn empty_buffers<BDM: BorrowDiskMut>(f: &mut Forth<BDM>) -> (r: Result<(), Error>)
    requires
        old(f).wf(),
    ensures
        final(f).wf(),
        DiskWord::EmptyBuffers.effect(old(f), final(f), r),
{
    f.host_ctxt.borrow_disk_mut().empty_buffers();
    Ok(())
}

/// `update ( -- )`: marks the active page of the cache as changed.
pub fn update<BDM: BorrowDiskMut>(f: &mut Forth<BDM>) -> (r: Result<(), Error>)
    requires
        old(f).wf(),
    ensures
        final(f).wf(),
        DiskWord::Update.effect(old(f), final(f), r),
{
    f.host_ctxt.borrow_disk_mut().mark_dirty();
    Ok(())
}

/// `flush ( -- )`: writes back the pages of the cache that have changes,
/// and empties both. Fails with the error of the cache where a write fails.
pub fn flush<BDM: BorrowDiskMut>(f: &mut Forth<BDM>) -> (r: Result<(), Error>)
    requires
        old(f).wf(),
    ensures
        final(f).wf(),
        DiskWord::Flush.effect(old(f), final(f), r),
{
    match f.host_ctxt.borrow_disk_mut().flush() {
        Ok(()) => Ok(()),
        Err(e) => Err(Error::Disk(e)),
    }
}

/// The words of the cache by the numbers under which `disk_word` runs them.
#[derive(Debug, Clone, Copy, PartialEq, Eq, Structural)]
pub enum DiskWord {
    Block,
    Buffer,
    EmptyBuffers,
    Update,
    Flush,
}

impl DiskWord {
    /// The number of the word.
    pub open spec fn id(self) -> u16 {
        match self {
            DiskWord::Block => 0,
            DiskWord::Buffer => 1,
            DiskWord::EmptyBuffers => 2,
            DiskWord::Update => 3,
            DiskWord::Flush => 4,
        }
    }

    /// The word with the number `id`, if there is one.
    pub open spec fn numbered(id: u16) -> Option<DiskWord> {
        match id {
            0 => Some(DiskWord::Block),
            1 => Some(DiskWord::Buffer),
            2 => Some(DiskWord::EmptyBuffers),
            3 => Some(DiskWord::Update),
            4 => Some(DiskWord::Flush),
            _ => None,
        }
    }

    /// The word with the number `id`, if there is one.
    pub fn from_id(id: u16) -> (w: Option<DiskWord>)
        ensures
            w == DiskWord::numbered(id),
            w matches Some(x) ==> x.id() == id,
            w is None <==> id > 4,
    {
        match id {
            0 => Some(DiskWord::Block),
            1 => Some(DiskWord::Buffer),
            2 => Some(DiskWord::EmptyBuffers),
            3 => Some(DiskWord::Update),
            4 => Some(DiskWord::Flush),
            _ => None,
        }
    }

    /// What the word does to the machine: `before` is the machine as the word
    /// finds it, `after` as it leaves it, and `r` what it returns.
    pub open spec fn effect<BDM: BorrowDiskMut>(
        self,
        before: &Forth<BDM>,
        after: &Forth<BDM>,
        r: Result<(), Error>,
    ) -> bool {
        match self {
            DiskWord::Block => opened_block(before, after, r),
            DiskWord::Buffer => opened_buffer(before, after, r),
            DiskWord::EmptyBuffers => emptied(before, after, r),
            DiskWord::Update => updated(before, after, r),
            DiskWord::Flush => flushed(before, after, r),
        }
    }
}

/// What `update` does: the active page counts as changed, and nothing else does.
pub open spec fn updated<BDM: BorrowDiskMut>(
    before: &Forth<BDM>,
    after: &Forth<BDM>,
    r: Result<(), Error>,
) -> bool {
    &&& after.same_but(before, Touch::host())
    &&& r == Ok::<(), Error>(())
    &&& after.host_ctxt.disk().first.page == before.host_ctxt.disk().first.page.dirtied()
    &&& after.host_ctxt.disk().first.buf == before.host_ctxt.disk().first.buf
    &&& after.host_ctxt.disk().first.data == before.host_ctxt.disk().first.data
    &&& after.host_ctxt.disk().second == before.host_ctxt.disk().second
    &&& after.host_ctxt.disk().driver == before.host_ctxt.disk().driver
}

/// What the word of the cache with the number `id` does; for a number that
/// stands for no word, nothing, and the call fails with `UnknownWord`.
pub open spec fn disk_word_effect<BDM: BorrowDiskMut>(
    before: &Forth<BDM>,
    after: &Forth<BDM>,
    id: u16,
    r: Result<(), Error>,
) -> bool {
    match DiskWord::numbered(id) {
        Some(w) => w.effect(before, after, r),
        None => r == Err::<(), Error>(Error::UnknownWord) && *after == *before,
    }
}

/// Runs the word of the cache with the number `id`; the words are numbered from zero
/// as `DiskWord` lists them. Fails with `UnknownWord`, nothing changed, for any other.
pub fn disk_word<BDM: BorrowDiskMut>(f: &mut Forth<BDM>, id: u16) -> (r: Result<(), Error>)
    requires
        old(f).wf(),
    ensures
        final(f).wf(),
        final(f).same_but(old(f), Touch::data_host()),
        disk_word_effect(old(f), final(f), id, r),
{
    match DiskWord::from_id(id) {
        Some(DiskWord::Block) => block(f),
        Some(DiskWord::Buffer) => buffer(f),
        Some(DiskWord::EmptyBuffers) => empty_buffers(f),
        Some(DiskWord::Update) => update(f),
        Some(DiskWord::Flush) => flush(f),
        None => Err(Error::UnknownWord),
    }
}

/// A machine whose host context is the cache itself knows the words of the
/// cache as its host's words.
impl<D: DiskDriver> HostWords for Disk<D> {
    open spec fn called(
        before: &Forth<Self>,
        id: u16,
        after: &Forth<Self>,
        r: Result<(), Error>,
    ) -> bool {
        disk_word_effect(before, after, id, r)
    }

    fn call(forth: &mut Forth<Self>, id: u16) -> (r: Result<(), Error>) {
        disk_word(forth, id)
    }

    open spec fn byte_at(&self, addr: usize) -> Option<u8> {
        self.byte_spec(addr as int)
    }

    fn peek(&self, addr: usize) -> (r: Option<u8>) {
        self.read_u8(addr)
    }

    fn poke(&mut self, addr: usize, val: u8) -> (ok: bool) {
        self.write_u8(addr, val)
    }
}

impl<D: DiskDriver> Forth<Disk<D>> {
    /// A word of the cache that is entered reaches the cache: on a machine
    /// whose host is the cache, the step that finds the word numbered `id`
    /// on top of the call stack does to the machine, cache and driver what
    /// `disk_word_effect` says, and then deals with the word's frame.
    pub proof fn lemma_a_step_reaches_the_cache(
        before: &Self,
        after: &Self,
        id: u16,
        r: Result<Step, Error>,
    )
        requires
            before.running() matches Some(f) && before.info_spec(f.eh) matches Some(info)
                && info.func == Some(WordFunc::Host(id)),
            Self::stepped(before, after, r),
        ensures
            exists|mid: Self, res: Result<(), Error>| #[trigger]
                disk_word_effect(before, &mid, id, res) && mid.wf() && Self::after_word_effect(
                    &mid,
                    after,
                    res,
                    r,
                ),
    {
        let (mid, res) = choose|mid: Self, res: Result<(), Error>| #[trigger]
            Disk::<D>::called(before, id, &mid, res) && mid.wf() && Self::after_word_effect(
                &mid,
                after,
                res,
                r,
            );
        assert(disk_word_effect(before, &mid, id, res));
    }
}

impl<BDM: BorrowDiskMut> Forth<BDM> {
    /// The words of the cache with their names, as `add_builtin_static_name`
    /// takes them.
    pub fn disk_builtins() -> (v: Vec<(&'static str, WordFunc)>)
        ensures
            v@.len() == 5,
            v@[0].1 == WordFunc::Host(DiskWord::Block.id()),
            v@[1].1 == WordFunc::Host(DiskWord::Buffer.id()),
            v@[2].1 == WordFunc::Host(DiskWord::EmptyBuffers.id()),
            v@[3].1 == WordFunc::Host(DiskWord::Update.id()),
            v@[4].1 == WordFunc::Host(DiskWord::Flush.id()),
            v@[0].0@ == "block"@,
            v@[1].0@ == "buffer"@,
            v@[2].0@ == "empty_buffers"@,
            v@[3].0@ == "update"@,
            v@[4].0@ == "flush"@,
    {
        let mut v: Vec<(&'static str, WordFunc)> = Vec::new();
        v.push(("block", WordFunc::Host(0)));
        v.push(("buffer", WordFunc::Host(1)));
        v.push(("empty_buffers", WordFunc::Host(2)));
        v.push(("update", WordFunc::Host(3)));
        v.push(("flush", WordFunc::Host(4)));
        v
    }
}

/// What `block` does: on an empty stack and on a cell that is no block
/// number it fails and leaves the cache alone; else the cache opens the
/// block as `Disk::block` does, and the address of the page takes the place
/// of the number.
pub open spec fn opened_block<BDM: BorrowDiskMut>(
    before: &Forth<BDM>,
    after: &Forth<BDM>,
    r: Result<(), Error>,
) -> bool {
    &&& after.same_but(before, Touch::data_host())
    &&& ({
        let s = before.data_stack@;
        if s.len() == 0 {
            ran_dry(s, after.data_stack@, r, 1) && after.host_ctxt == before.host_ctxt
        } else {
            match block_number(s.last()) {
                None => r == Err::<(), Error>(Error::Disk(DiskError::OutOfRange))
                    && after.data_stack@ == below(s, 1) && after.host_ctxt == before.host_ctxt,
                Some(i) => exists|res: Result<usize, DiskError>|
                    #[trigger] Disk::block_effect(
                        &before.host_ctxt.disk(),
                        &after.host_ctxt.disk(),
                        i,
                        res,
                    ) && opened(below(s, 1), after.data_stack@, res, r),
            }
        }
    })
}

/// What `buffer` does: as `block`, but that the cache opens the block as
/// `Disk::buffer` does.
pub open spec fn opened_buffer<BDM: BorrowDiskMut>(
    before: &Forth<BDM>,
    after: &Forth<BDM>,
    r: Result<(), Error>,
) -> bool {
    &&& after.same_but(before, Touch::data_host())
    &&& ({
        let s = before.data_stack@;
        if s.len() == 0 {
            ran_dry(s, after.data_stack@, r, 1) && after.host_ctxt == before.host_ctxt
        } else {
            match block_number(s.last()) {
                None => r == Err::<(), Error>(Error::Disk(DiskError::OutOfRange))
                    && after.data_stack@ == below(s, 1) && after.host_ctxt == before.host_ctxt,
                Some(i) => exists|res: Result<usize, DiskError>|
                    #[trigger] Disk::buffer_effect(
                        &before.host_ctxt.disk(),
                        &after.host_ctxt.disk(),
                        i,
                        res,
                    ) && opened(below(s, 1), after.data_stack@, res, r),
            }
        }
    })
}

/// What `empty-buffers` does: both pages are empty, and nothing else of the
/// cache has changed.
pub open spec fn emptied<BDM: BorrowDiskMut>(
    before: &Forth<BDM>,
    after: &Forth<BDM>,
    r: Result<(), Error>,
) -> bool {
    &&& after.same_but(before, Touch::host())
    &&& r == Ok::<(), Error>(())
    &&& after.host_ctxt.disk().first.page == PageState::Empty
    &&& after.host_ctxt.disk().second.page == PageState::Empty
    &&& after.host_ctxt.disk().first.buf == before.host_ctxt.disk().first.buf
    &&& after.host_ctxt.disk().second.buf == before.host_ctxt.disk().second.buf
    &&& after.host_ctxt.disk().first.data == before.host_ctxt.disk().first.data
    &&& after.host_ctxt.disk().second.data == before.host_ctxt.disk().second.data
    &&& after.host_ctxt.disk().driver == before.host_ctxt.disk().driver
}

/// What `flush` does: the cache does what `Disk::flush` does, and the word
/// fails with the error of the cache where the cache fails.
pub open spec fn flushed<BDM: BorrowDiskMut>(
    before: &Forth<BDM>,
    after: &Forth<BDM>,
    r: Result<(), Error>,
) -> bool {
    &&& after.same_but(before, Touch::host())
    &&& match r {
        Ok(_) => Disk::flush_effect(&before.host_ctxt.disk(), &after.host_ctxt.disk(), None),
        Err(Error::Disk(e)) => Disk::flush_effect(
            &before.host_ctxt.disk(),
            &after.host_ctxt.disk(),
            Some(e),
        ),
        Err(_) => false,
    }
}

} // verus!
