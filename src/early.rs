//! The double-ended early allocator.
//!
//! ```text
//! [ bytes-used | avail-area | pages-used ]
//! |            | -->    <-- |            |
//! start       b_pos        p_pos       end
//! ```
use vstd::prelude::*;
use vstd::multiset::Multiset;

use crate::align::{
    align_down, align_down_spec, align_up, align_up_spec, lemma_align_down, lemma_align_up,
    lemma_align_up_within,
};

verus! {

broadcast use vstd::multiset::group_multiset_axioms;

/// Why a request to the allocator was turned down.
#[derive(Debug, Clone, Copy, PartialEq, Eq, Structural)]
pub enum AllocError {
    /// The request would cross the cursor of the other side.
    NoMemory,
    /// The operation is deliberately not provided by this allocator.
    Unsupported,
}

/// Two address ranges, each written as `(base, size)`, share no byte.
pub open spec fn blocks_disjoint(b1: (int, int), b2: (int, int)) -> bool {
    b1.0 + b1.1 <= b2.0 || b2.0 + b2.1 <= b1.0
}

/// Early memory allocator, for use before the general byte and page
/// allocators can work.
///
/// Bytes are handed out forward from `start`, pages backward from `end`.
/// `count` records the byte allocations that are still live; when it goes
/// back to zero the whole byte area is free again. Pages are never freed.
pub struct EarlyAllocator<const PAGE_SIZE: usize> {
    start: usize,
    end: usize,
    b_pos: usize,
    p_pos: usize,
    count: usize,
    /// The live byte allocations, each as `(base, size)`.
    live: Ghost<Multiset<(int, int)>>,
}

impl<const PAGE_SIZE: usize> EarlyAllocator<PAGE_SIZE> {
    /// Lowest address of the managed range.
    pub closed spec fn start(&self) -> int {
        self.start as int
    }

    /// One past the highest address of the managed range.
    pub closed spec fn end(&self) -> int {
        self.end as int
    }

    /// Next free address for a byte allocation.
    pub closed spec fn byte_cursor(&self) -> int {
        self.b_pos as int
    }

    /// Lowest address handed out as pages so far (or the page-aligned end).
    pub closed spec fn page_cursor(&self) -> int {
        self.p_pos as int
    }

    /// Number of byte allocations not yet released.
    pub closed spec fn live_count(&self) -> nat {
        self.count as nat
    }

    /// The byte allocations not yet released, each as `(base, size)`.
    pub closed spec fn live_blocks(&self) -> Multiset<(int, int)> {
        self.live@
    }

    /// The cursors are ordered inside the range, the page cursor is page
    /// aligned, and the live byte allocations lie below the byte cursor
    /// without overlapping one another.
    pub open spec fn wf(&self) -> bool {
        let live = self.live_blocks();
        &&& PAGE_SIZE > 0
        &&& self.start() <= self.byte_cursor() <= self.page_cursor() <= self.end() <= usize::MAX
        &&& self.page_cursor() % (PAGE_SIZE as int) == 0
        &&& self.live_count() == live.len()
        &&& self.live_count() == 0 ==> self.byte_cursor() == self.start()
        &&& forall|b: (int, int)|
            #[trigger] live.contains(b) ==> self.start() <= b.0 && 0 <= b.1 && b.0 + b.1
                <= self.byte_cursor()
        &&& forall|b1: (int, int), b2: (int, int)|
            #![trigger live.count(b1), live.count(b2)]
            live.contains(b1) && live.contains(b2) && (b1 != b2 || live.count(b1) > 1)
                ==> blocks_disjoint(b1, b2)
    }

    /// A range `(start, size)` that the allocator can manage: it is not
    /// empty, fits in the address space, and its page-aligned end does not
    /// fall below its start.
    pub open spec fn valid_region(start: int, size: int) -> bool {
        &&& size > 0
        &&& start >= 0
        &&& start + size <= usize::MAX
        &&& start <= align_down_spec(start + size, PAGE_SIZE as int)
    }

    /// Both states manage the same range and have the same page cursor.
    pub open spec fn same_range(&self, other: &Self) -> bool {
        &&& self.start() == other.start()
        &&& self.end() == other.end()
        &&& self.page_cursor() == other.page_cursor()
    }
}

/// Lifecycle: creating the allocator and handing it its range.
impl<const PAGE_SIZE: usize> EarlyAllocator<PAGE_SIZE> {
    /// Creates an allocator that manages an empty range at address zero.
    pub fn new() -> (r: Self)
        requires
            PAGE_SIZE > 0,
        ensures
            r.wf(),
            r.start() == 0,
            r.end() == 0,
            r.byte_cursor() == 0,
            r.page_cursor() == 0,
            r.live_count() == 0,
    {
        proof {
            vstd::arithmetic::div_mod::lemma_mod_multiples_basic(0, PAGE_SIZE as int);
        }
        Self { start: 0, end: 0, b_pos: 0, p_pos: 0, count: 0, live: Ghost(Multiset::empty()) }
    }

    /// Takes the range `[start, start + size)` under management. Calling it
    /// again starts over on the new range.
    pub fn init(&mut self, start: usize, size: usize)
        requires
            old(self).wf(),
            Self::valid_region(start as int, size as int),
        ensures
            final(self).wf(),
            final(self).start() == start,
            final(self).end() == start + size,
            final(self).byte_cursor() == start,
            final(self).page_cursor() == align_down_spec(start + size, PAGE_SIZE as int),
            final(self).live_count() == 0,
    {
        proof {
            lemma_align_down(start + size, PAGE_SIZE as int);
        }
        self.start = start;
        self.end = start + size;
        self.b_pos = start;
        self.p_pos = align_down(self.end, PAGE_SIZE);
        self.count = 0;
        self.live = Ghost(Multiset::empty());
    }

    /// Growing the range is not supported: always fails with
    /// `Unsupported` and changes nothing.
    pub fn add_memory(&mut self, start: usize, size: usize) -> (r: Result<(), AllocError>)
        ensures
            r == Err::<(), AllocError>(AllocError::Unsupported),
            *final(self) == *old(self),
    {
        Err(AllocError::Unsupported)
    }
}

/// Byte allocation, forward from `start`.
impl<const PAGE_SIZE: usize> EarlyAllocator<PAGE_SIZE> {
    /// Where a byte allocation of `size` bytes aligned to `align` would
    /// start.
    pub open spec fn byte_candidate(&self, align: int) -> int {
        align_up_spec(self.byte_cursor(), align)
    }

    /// A byte allocation of `size` bytes aligned to `align` stays below the
    /// page cursor.
    pub open spec fn bytes_fit(&self, size: int, align: int) -> bool {
        self.byte_candidate(align) + size <= self.page_cursor()
    }

    /// What `alloc_bytes(size, align)` does when called on `pre` and leaving
    /// `post`: on success the block starts at the first aligned address at
    /// or above the byte cursor and the cursor moves past it; otherwise it
    /// fails with `NoMemory` and changes nothing.
    pub open spec fn alloc_post(
        pre: Self,
        size: int,
        align: int,
        r: Result<usize, AllocError>,
        post: Self,
    ) -> bool {
        match r {
            Ok(addr) => {
                &&& pre.bytes_fit(size, align)
                &&& addr == pre.byte_candidate(align)
                &&& post.same_range(&pre)
                &&& post.byte_cursor() == addr + size
                &&& post.live_count() == pre.live_count() + 1
                &&& post.live_blocks() == pre.live_blocks().insert((addr as int, size))
            },
            Err(e) => {
                &&& !pre.bytes_fit(size, align)
                &&& e == AllocError::NoMemory
                &&& post == pre
            },
        }
    }

    /// What `dealloc(pos, size, _)` does when called on `pre` and leaving
    /// `post`: one live allocation fewer, and the byte cursor back at
    /// `start` exactly when none is left.
    pub open spec fn dealloc_post(pre: Self, pos: int, size: int, post: Self) -> bool {
        &&& post.same_range(&pre)
        &&& post.live_count() == pre.live_count() - 1
        &&& post.live_blocks() == pre.live_blocks().remove((pos, size))
        &&& post.byte_cursor() == if post.live_count() == 0 {
            pre.start()
        } else {
            pre.byte_cursor()
        }
    }

    /// Allocates `size` bytes aligned to `align` from the low end and
    /// returns the address. Fails with `NoMemory`, changing nothing, when
    /// the block would cross the page cursor. The count of live
    /// allocations must have room for one more.
    pub fn alloc_bytes(&mut self, size: usize, align: usize) -> (r: Result<usize, AllocError>)
        requires
            old(self).wf(),
            align > 0,
            old(self).live_count() < usize::MAX,
        ensures
            final(self).wf(),
            Self::alloc_post(*old(self), size as int, align as int, r, *final(self)),
    {
        proof {
            lemma_align_up_within(self.b_pos as int, self.p_pos as int, align as int);
            lemma_align_up(self.b_pos as int, align as int);
        }
        if self.b_pos > align_down(self.p_pos, align) {
            return Err(AllocError::NoMemory);
        }
        let pos = align_up(self.b_pos, align);
        if size > self.p_pos - pos {
            return Err(AllocError::NoMemory);
        }
        let ghost pre = *self;
        let ghost blk = (pos as int, size as int);
        self.b_pos = pos + size;
        self.count = self.count + 1;
        self.live = Ghost(self.live@.insert(blk));
        proof {
            let live = self.live@;
            assert forall|b: (int, int)| #[trigger] live.contains(b) implies self.start()
                <= b.0 && 0 <= b.1 && b.0 + b.1 <= self.byte_cursor() by {
                if b != blk {
                    assert(pre.live@.contains(b));
                }
            }
            assert forall|b1: (int, int), b2: (int, int)|
                #![trigger live.count(b1), live.count(b2)]
                live.contains(b1) && live.contains(b2) && (b1 != b2 || live.count(b1) > 1)
                    implies blocks_disjoint(b1, b2) by {
                if b1 != blk && b2 != blk {
                    assert(pre.live@.count(b1) == live.count(b1));
                    assert(pre.live@.count(b2) == live.count(b2));
                } else if b1 == blk && b2 == blk {
                    assert(pre.live@.contains(blk));
                } else if b1 == blk {
                    assert(pre.live@.contains(b2));
                } else {
                    assert(pre.live@.contains(b1));
                }
            }
        }
        Ok(pos)
    }

    /// Releases the byte allocation `(pos, size)` made with `align`. The
    /// memory is not reused at once: when the last live allocation is
    /// released, the byte cursor goes back to `start`.
    pub fn dealloc(&mut self, pos: usize, size: usize, align: usize)
        requires
            old(self).wf(),
            old(self).live_blocks().contains((pos as int, size as int)),
        ensures
            final(self).wf(),
            Self::dealloc_post(*old(self), pos as int, size as int, *final(self)),
    {
        let ghost pre = *self;
        let ghost blk = (pos as int, size as int);
        proof {
            assert(self.live@.count(blk) <= self.live@.len());
        }
        self.count = self.count - 1;
        self.live = Ghost(self.live@.remove(blk));
        if self.count == 0 {
            self.b_pos = self.start;
        }
        proof {
            let live = self.live@;
            assert forall|b: (int, int)| #[trigger] live.contains(b) implies self.start()
                <= b.0 && 0 <= b.1 && b.0 + b.1 <= self.byte_cursor() by {
                assert(pre.live@.contains(b));
                assert(live.count(b) <= live.len());
            }
            assert forall|b1: (int, int), b2: (int, int)|
                #![trigger live.count(b1), live.count(b2)]
                live.contains(b1) && live.contains(b2) && (b1 != b2 || live.count(b1) > 1)
                    implies blocks_disjoint(b1, b2) by {
                assert(live.count(b1) <= pre.live@.count(b1));
                assert(live.count(b2) <= pre.live@.count(b2));
            }
        }
    }

    /// The most the byte area could ever reach: from `start` up to the page
    /// cursor.
    pub open spec fn spec_total_bytes(&self) -> int {
        self.page_cursor() - self.start()
    }

    /// Bytes taken by the byte area so far.
    pub open spec fn spec_used_bytes(&self) -> int {
        self.byte_cursor() - self.start()
    }

    /// Bytes between the two cursors.
    pub open spec fn spec_available_bytes(&self) -> int {
        self.page_cursor() - self.byte_cursor()
    }

    /// The most the byte area could ever reach.
    pub fn total_bytes(&self) -> (r: usize)
        requires
            self.wf(),
        ensures
            r == self.spec_total_bytes(),
    {
        self.p_pos - self.start
    }

    /// Bytes taken by the byte area so far.
    pub fn used_bytes(&self) -> (r: usize)
        requires
            self.wf(),
        ensures
            r == self.spec_used_bytes(),
    {
        self.b_pos - self.start
    }

    /// Bytes still free between the two cursors.
    pub fn available_bytes(&self) -> (r: usize)
        requires
            self.wf(),
        ensures
            r == self.spec_available_bytes(),
    {
        self.p_pos - self.b_pos
    }

    /// Number of byte allocations not yet released.
    pub fn live_allocations(&self) -> (r: usize)
        ensures
            r == self.live_count(),
    {
        self.count
    }
}

/// Page allocation, backward from `end`.
impl<const PAGE_SIZE: usize> EarlyAllocator<PAGE_SIZE> {
    /// Where `alloc_pages(num_pages, align_pow2)` would place its pages:
    /// `num_pages` pages below the page cursor, rounded down to a multiple
    /// of `align_pow2` pages.
    pub open spec fn page_candidate(&self, num_pages: int, align_pow2: int) -> int {
        align_down_spec(
            self.page_cursor() - num_pages * (PAGE_SIZE as int),
            align_pow2 * (PAGE_SIZE as int),
        )
    }

    /// The pages of such a request stay at or above the byte cursor.
    pub open spec fn pages_fit(&self, num_pages: int, align_pow2: int) -> bool {
        self.page_candidate(num_pages, align_pow2) >= self.byte_cursor()
    }

    /// What `alloc_pages(num_pages, align_pow2)` does when called on `pre`
    /// and leaving `post`: on success the page cursor moves down to the
    /// returned address; otherwise it fails with `NoMemory` and changes
    /// nothing. The byte side is never touched.
    pub open spec fn alloc_pages_post(
        pre: Self,
        num_pages: int,
        align_pow2: int,
        r: Result<usize, AllocError>,
        post: Self,
    ) -> bool {
        match r {
            Ok(addr) => {
                &&& pre.pages_fit(num_pages, align_pow2)
                &&& addr == pre.page_candidate(num_pages, align_pow2)
                &&& post.start() == pre.start()
                &&& post.end() == pre.end()
                &&& post.page_cursor() == addr
                &&& post.byte_cursor() == pre.byte_cursor()
                &&& post.live_count() == pre.live_count()
                &&& post.live_blocks() == pre.live_blocks()
            },
            Err(e) => {
                &&& !pre.pages_fit(num_pages, align_pow2)
                &&& e == AllocError::NoMemory
                &&& post == pre
            },
        }
    }

    /// Allocates `num_pages` pages from the high end, at an address that is
    /// a multiple of `align_pow2` pages, and returns that address.
    pub fn alloc_pages(&mut self, num_pages: usize, align_pow2: usize) -> (r: Result<
        usize,
        AllocError,
    >)
        requires
            old(self).wf(),
            num_pages > 0,
            align_pow2 > 0,
            align_pow2 * PAGE_SIZE <= usize::MAX,
        ensures
            final(self).wf(),
            Self::alloc_pages_post(*old(self), num_pages as int, align_pow2 as int, r, *final(self)),
    {
        let ghost ps = PAGE_SIZE as int;
        let ghost al = align_pow2 * ps;
        proof {
            assert(al > 0) by (nonlinear_arith)
                requires
                    align_pow2 > 0,
                    ps > 0,
                    al == align_pow2 * ps,
            ;
            lemma_align_down(self.p_pos - num_pages * ps, al);
        }
        let bytes = match num_pages.checked_mul(PAGE_SIZE) {
            Some(b) => b,
            None => {
                return Err(AllocError::NoMemory);
            },
        };
        if bytes > self.p_pos {
            return Err(AllocError::NoMemory);
        }
        let align = align_pow2 * PAGE_SIZE;
        let base = align_down(self.p_pos - bytes, align);
        if base < self.b_pos {
            return Err(AllocError::NoMemory);
        }
        proof {
            let q = (base as int) / al;
            vstd::arithmetic::div_mod::lemma_fundamental_div_mod(base as int, al);
            vstd::arithmetic::mul::lemma_mul_is_associative(ps, align_pow2 as int, q);
            vstd::arithmetic::mul::lemma_mul_is_commutative(ps, align_pow2 as int);
            vstd::arithmetic::mul::lemma_mul_is_commutative(align_pow2 * q, ps);
            vstd::arithmetic::div_mod::lemma_mod_multiples_basic(align_pow2 * q, ps);
        }
        self.p_pos = base;
        Ok(base)
    }

    /// Pages are never given back: always fails with `Unsupported` and
    /// changes nothing.
    pub fn dealloc_pages(&mut self, pos: usize, num_pages: usize) -> (r: Result<(), AllocError>)
        ensures
            r == Err::<(), AllocError>(AllocError::Unsupported),
            *final(self) == *old(self),
    {
        Err(AllocError::Unsupported)
    }

    /// Whole pages from the page containing the byte cursor up to `end`.
    pub open spec fn spec_total_pages(&self) -> int {
        (self.end() - align_down_spec(self.byte_cursor(), PAGE_SIZE as int)) / (PAGE_SIZE as int)
    }

    /// Whole pages between the page cursor and `end`.
    pub open spec fn spec_used_pages(&self) -> int {
        (self.end() - self.page_cursor()) / (PAGE_SIZE as int)
    }

    /// Pages from the page containing the byte cursor up to the page cursor.
    pub open spec fn spec_available_pages(&self) -> int {
        (self.page_cursor() - align_down_spec(self.byte_cursor(), PAGE_SIZE as int)) / (
        PAGE_SIZE as int)
    }

    /// Pages that the page area could ever cover.
    pub fn total_pages(&self) -> (r: usize)
        requires
            self.wf(),
        ensures
            r == self.spec_total_pages(),
    {
        proof {
            lemma_align_down(self.b_pos as int, PAGE_SIZE as int);
        }
        (self.end - align_down(self.b_pos, PAGE_SIZE)) / PAGE_SIZE
    }

    /// Pages handed out so far.
    pub fn used_pages(&self) -> (r: usize)
        requires
            self.wf(),
        ensures
            r == self.spec_used_pages(),
    {
        (self.end - self.p_pos) / PAGE_SIZE
    }

    /// Pages between the page containing the byte cursor and the page
    /// cursor.
    pub fn available_pages(&self) -> (r: usize)
        requires
            self.wf(),
        ensures
            r == self.spec_available_pages(),
    {
        proof {
            lemma_align_down(self.b_pos as int, PAGE_SIZE as int);
        }
        (self.p_pos - align_down(self.b_pos, PAGE_SIZE)) / PAGE_SIZE
    }
}

} // verus!
