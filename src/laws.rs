//! Properties of the allocator that span several calls.
use vstd::prelude::*;

use crate::align::{align_down_spec, lemma_align_down, lemma_align_up};
use crate::early::{blocks_disjoint, AllocError, EarlyAllocator};

verus! {

/// `states` is a run of successful byte allocations: step `i` turns
/// `states[i]` into `states[i + 1]` and returns `addrs[i]`.
pub open spec fn byte_run<const PAGE_SIZE: usize>(
    states: Seq<EarlyAllocator<PAGE_SIZE>>,
    sizes: Seq<int>,
    aligns: Seq<int>,
    addrs: Seq<usize>,
) -> bool {
    &&& states.len() == sizes.len() + 1
    &&& aligns.len() == sizes.len()
    &&& addrs.len() == sizes.len()
    &&& forall|i: int|
        0 <= i < sizes.len() ==> aligns[i] > 0 && sizes[i] >= 0 && #[trigger] EarlyAllocator::<
            PAGE_SIZE,
        >::alloc_post(states[i], sizes[i], aligns[i], Ok(addrs[i]), states[i + 1])
}

proof fn lemma_byte_cursor_grows<const PAGE_SIZE: usize>(
    states: Seq<EarlyAllocator<PAGE_SIZE>>,
    sizes: Seq<int>,
    aligns: Seq<int>,
    addrs: Seq<usize>,
    i: int,
    j: int,
)
    requires
        byte_run(states, sizes, aligns, addrs),
        0 <= i <= j < states.len(),
    ensures
        states[i].byte_cursor() <= states[j].byte_cursor(),
        states[i].page_cursor() == states[j].page_cursor(),
    decreases j - i,
{
    if i < j {
        lemma_byte_cursor_grows(states, sizes, aligns, addrs, i, j - 1);
        let k = j - 1;
        assert(EarlyAllocator::<PAGE_SIZE>::alloc_post(
            states[k],
            sizes[k],
            aligns[k],
            Ok(addrs[k]),
            states[k + 1],
        ));
        lemma_align_up(states[k].byte_cursor(), aligns[k]);
    }
}

/// Every address that a run of successful byte allocations returns is a
/// multiple of its requested alignment, and no two of the blocks handed out
/// overlap.
pub proof fn lemma_byte_allocations_disjoint<const PAGE_SIZE: usize>(
    states: Seq<EarlyAllocator<PAGE_SIZE>>,
    sizes: Seq<int>,
    aligns: Seq<int>,
    addrs: Seq<usize>,
)
    requires
        byte_run(states, sizes, aligns, addrs),
    ensures
        forall|i: int| 0 <= i < addrs.len() ==> (#[trigger] addrs[i]) as int % aligns[i] == 0,
        forall|i: int, j: int|
            0 <= i < j < addrs.len() ==> blocks_disjoint(
                (#[trigger] addrs[i] as int, sizes[i]),
                (#[trigger] addrs[j] as int, sizes[j]),
            ),
{
    assert forall|i: int| 0 <= i < addrs.len() implies (#[trigger] addrs[i]) as int % aligns[i] == 0 by {
        assert(EarlyAllocator::<PAGE_SIZE>::alloc_post(
            states[i],
            sizes[i],
            aligns[i],
            Ok(addrs[i]),
            states[i + 1],
        ));
        lemma_align_up(states[i].byte_cursor(), aligns[i]);
    }
    assert forall|i: int, j: int| 0 <= i < j < addrs.len() implies blocks_disjoint(
        (#[trigger] addrs[i] as int, sizes[i]),
        (#[trigger] addrs[j] as int, sizes[j]),
    ) by {
        assert(EarlyAllocator::<PAGE_SIZE>::alloc_post(
            states[i],
            sizes[i],
            aligns[i],
            Ok(addrs[i]),
            states[i + 1],
        ));
        assert(EarlyAllocator::<PAGE_SIZE>::alloc_post(
            states[j],
            sizes[j],
            aligns[j],
            Ok(addrs[j]),
            states[j + 1],
        ));
        lemma_byte_cursor_grows(states, sizes, aligns, addrs, i + 1, j);
        lemma_align_up(states[j].byte_cursor(), aligns[j]);
    }
}

/// A byte allocation of at least one byte returns an address below the page
/// cursor, both before and after the call.
pub proof fn lemma_byte_allocation_below_pages<const PAGE_SIZE: usize>(
    pre: EarlyAllocator<PAGE_SIZE>,
    size: int,
    align: int,
    addr: usize,
    post: EarlyAllocator<PAGE_SIZE>,
)
    requires
        size > 0,
        EarlyAllocator::<PAGE_SIZE>::alloc_post(pre, size, align, Ok(addr), post),
    ensures
        addr < pre.page_cursor(),
        addr < post.page_cursor(),
{
}

/// A byte allocation that fails leaves the allocator as it was, so the
/// same request made again fails again in the same way.
pub proof fn lemma_failed_byte_allocation_repeats<const PAGE_SIZE: usize>(
    s0: EarlyAllocator<PAGE_SIZE>,
    size: int,
    align: int,
    r1: Result<usize, AllocError>,
    s1: EarlyAllocator<PAGE_SIZE>,
    r2: Result<usize, AllocError>,
    s2: EarlyAllocator<PAGE_SIZE>,
)
    requires
        EarlyAllocator::<PAGE_SIZE>::alloc_post(s0, size, align, r1, s1),
        r1.is_err(),
        EarlyAllocator::<PAGE_SIZE>::alloc_post(s1, size, align, r2, s2),
    ensures
        r1 == Err::<usize, AllocError>(AllocError::NoMemory),
        r2 == r1,
        s1 == s0,
        s2 == s0,
{
}

/// `states` is a run of successful page allocations: step `i` takes
/// `counts[i]` pages aligned to `aligns[i]` pages, turns `states[i]` into
/// `states[i + 1]` and returns `addrs[i]`.
pub open spec fn page_run<const PAGE_SIZE: usize>(
    states: Seq<EarlyAllocator<PAGE_SIZE>>,
    counts: Seq<int>,
    aligns: Seq<int>,
    addrs: Seq<usize>,
) -> bool {
    &&& states.len() == counts.len() + 1
    &&& aligns.len() == counts.len()
    &&& addrs.len() == counts.len()
    &&& forall|k: int| 0 <= k < states.len() ==> (#[trigger] states[k]).wf()
    &&& forall|i: int|
        0 <= i < counts.len() ==> counts[i] > 0 && aligns[i] > 0 && #[trigger] EarlyAllocator::<
            PAGE_SIZE,
        >::alloc_pages_post(states[i], counts[i], aligns[i], Ok(addrs[i]), states[i + 1])
}

proof fn lemma_page_cursor_shrinks<const PAGE_SIZE: usize>(
    states: Seq<EarlyAllocator<PAGE_SIZE>>,
    counts: Seq<int>,
    aligns: Seq<int>,
    addrs: Seq<usize>,
    i: int,
    j: int,
)
    requires
        page_run(states, counts, aligns, addrs),
        0 <= i <= j < states.len(),
    ensures
        states[j].page_cursor() <= states[i].page_cursor(),
        states[j].end() == states[i].end(),
    decreases j - i,
{
    if i < j {
        lemma_page_cursor_shrinks(states, counts, aligns, addrs, i, j - 1);
        let k = j - 1;
        assert(EarlyAllocator::<PAGE_SIZE>::alloc_pages_post(
            states[k],
            counts[k],
            aligns[k],
            Ok(addrs[k]),
            states[k + 1],
        ));
        assert(states[k].wf());
        lemma_page_step_descends(states[k], counts[k], aligns[k], addrs[k], states[k + 1]);
    }
}

/// Each page allocation lands strictly below the page cursor it started
/// from.
proof fn lemma_page_step_descends<const PAGE_SIZE: usize>(
    pre: EarlyAllocator<PAGE_SIZE>,
    count: int,
    align: int,
    addr: usize,
    post: EarlyAllocator<PAGE_SIZE>,
)
    requires
        pre.wf(),
        count > 0,
        align > 0,
        EarlyAllocator::<PAGE_SIZE>::alloc_pages_post(pre, count, align, Ok(addr), post),
    ensures
        addr < pre.page_cursor(),
{
    let ps = PAGE_SIZE as int;
    assert(count * ps >= ps && align * ps > 0) by (nonlinear_arith)
        requires
            count > 0,
            align > 0,
            ps > 0,
    ;
    lemma_align_down(pre.page_cursor() - count * ps, align * ps);
}

/// A run of successful page allocations returns page-aligned addresses
/// below `end`, each strictly below the one before.
pub proof fn lemma_page_allocations_descend<const PAGE_SIZE: usize>(
    states: Seq<EarlyAllocator<PAGE_SIZE>>,
    counts: Seq<int>,
    aligns: Seq<int>,
    addrs: Seq<usize>,
)
    requires
        page_run(states, counts, aligns, addrs),
    ensures
        forall|i: int|
            0 <= i < addrs.len() ==> (#[trigger] addrs[i]) as int % (PAGE_SIZE as int) == 0
                && addrs[i] < states[0].end(),
        forall|i: int, j: int|
            0 <= i < j < addrs.len() ==> #[trigger] addrs[j] < #[trigger] addrs[i],
{
    assert forall|i: int| 0 <= i < addrs.len() implies (#[trigger] addrs[i]) as int % (
    PAGE_SIZE as int) == 0 && addrs[i] < states[0].end() by {
        assert(EarlyAllocator::<PAGE_SIZE>::alloc_pages_post(
            states[i],
            counts[i],
            aligns[i],
            Ok(addrs[i]),
            states[i + 1],
        ));
        assert(states[i].wf());
        assert(states[i + 1].wf());
        lemma_page_step_descends(states[i], counts[i], aligns[i], addrs[i], states[i + 1]);
        lemma_page_cursor_shrinks(states, counts, aligns, addrs, 0, i);
    }
    assert forall|i: int, j: int| 0 <= i < j < addrs.len() implies #[trigger] addrs[j]
        < #[trigger] addrs[i] by {
        assert(EarlyAllocator::<PAGE_SIZE>::alloc_pages_post(
            states[i],
            counts[i],
            aligns[i],
            Ok(addrs[i]),
            states[i + 1],
        ));
        assert(EarlyAllocator::<PAGE_SIZE>::alloc_pages_post(
            states[j],
            counts[j],
            aligns[j],
            Ok(addrs[j]),
            states[j + 1],
        ));
        assert(states[j].wf());
        lemma_page_step_descends(states[j], counts[j], aligns[j], addrs[j], states[j + 1]);
        lemma_page_cursor_shrinks(states, counts, aligns, addrs, i + 1, j);
    }
}

/// A page allocation that does not fit above the byte cursor fails with
/// `NoMemory`.
pub proof fn lemma_page_allocation_fails_below_bytes<const PAGE_SIZE: usize>(
    pre: EarlyAllocator<PAGE_SIZE>,
    count: int,
    align: int,
    r: Result<usize, AllocError>,
    post: EarlyAllocator<PAGE_SIZE>,
)
    requires
        EarlyAllocator::<PAGE_SIZE>::alloc_pages_post(pre, count, align, r, post),
        pre.page_candidate(count, align) < pre.byte_cursor(),
    ensures
        r == Err::<usize, AllocError>(AllocError::NoMemory),
        post == pre,
{
}

/// `states` is a run of releases: step `k` releases the live block
/// `(addrs[k], sizes[k])` and turns `states[k]` into `states[k + 1]`.
pub open spec fn free_run<const PAGE_SIZE: usize>(
    states: Seq<EarlyAllocator<PAGE_SIZE>>,
    addrs: Seq<int>,
    sizes: Seq<int>,
) -> bool {
    &&& states.len() == addrs.len() + 1
    &&& sizes.len() == addrs.len()
    &&& forall|k: int|
        0 <= k < addrs.len() ==> states[k].live_blocks().contains((addrs[k], sizes[k]))
            && #[trigger] EarlyAllocator::<PAGE_SIZE>::dealloc_post(
            states[k],
            addrs[k],
            sizes[k],
            states[k + 1],
        )
}

proof fn lemma_free_run_counts<const PAGE_SIZE: usize>(
    states: Seq<EarlyAllocator<PAGE_SIZE>>,
    addrs: Seq<int>,
    sizes: Seq<int>,
    k: int,
)
    requires
        free_run(states, addrs, sizes),
        0 <= k < states.len(),
    ensures
        states[k].live_count() == states[0].live_count() - k,
        states[k].start() == states[0].start(),
        states[k].live_count() > 0 ==> states[k].byte_cursor() == states[0].byte_cursor(),
    decreases k,
{
    if k > 0 {
        let p = k - 1;
        lemma_free_run_counts(states, addrs, sizes, p);
        assert(EarlyAllocator::<PAGE_SIZE>::dealloc_post(
            states[p],
            addrs[p],
            sizes[p],
            states[p + 1],
        ));
    }
}

/// After `n` byte allocations from an allocator with no live allocation,
/// followed by `n` releases of live blocks, no allocation is live and the
/// byte cursor is back at `start`; before the last release the byte cursor
/// has not moved.
pub proof fn lemma_matching_releases_reclaim<const PAGE_SIZE: usize>(
    alloc_states: Seq<EarlyAllocator<PAGE_SIZE>>,
    sizes: Seq<int>,
    aligns: Seq<int>,
    addrs: Seq<usize>,
    free_states: Seq<EarlyAllocator<PAGE_SIZE>>,
    free_addrs: Seq<int>,
    free_sizes: Seq<int>,
)
    requires
        byte_run(alloc_states, sizes, aligns, addrs),
        alloc_states[0].wf(),
        alloc_states[0].live_count() == 0,
        free_run(free_states, free_addrs, free_sizes),
        free_addrs.len() == addrs.len(),
        free_states[0] == alloc_states[addrs.len() as int],
    ensures
        free_states[addrs.len() as int].live_count() == 0,
        free_states[addrs.len() as int].byte_cursor() == alloc_states[0].start(),
        forall|k: int|
            0 < k < addrs.len() ==> (#[trigger] free_states[k]).live_count() > 0
                && free_states[k].byte_cursor() == free_states[0].byte_cursor(),
{
    let n = addrs.len() as int;
    assert forall|k: int| 0 <= k <= n implies (#[trigger] alloc_states[k]).live_count() == k
        && alloc_states[k].start() == alloc_states[0].start() by {
        lemma_byte_run_counts(alloc_states, sizes, aligns, addrs, k);
    }
    assert(alloc_states[n].live_count() == n);
    lemma_free_run_counts(free_states, free_addrs, free_sizes, n);
    if n > 0 {
        let p = n - 1;
        assert(EarlyAllocator::<PAGE_SIZE>::dealloc_post(
            free_states[p],
            free_addrs[p],
            free_sizes[p],
            free_states[p + 1],
        ));
        lemma_free_run_counts(free_states, free_addrs, free_sizes, p);
    }
    assert forall|k: int| 0 < k < n implies (#[trigger] free_states[k]).live_count() > 0
        && free_states[k].byte_cursor() == free_states[0].byte_cursor() by {
        lemma_free_run_counts(free_states, free_addrs, free_sizes, k);
    }
}

proof fn lemma_byte_run_counts<const PAGE_SIZE: usize>(
    states: Seq<EarlyAllocator<PAGE_SIZE>>,
    sizes: Seq<int>,
    aligns: Seq<int>,
    addrs: Seq<usize>,
    k: int,
)
    requires
        byte_run(states, sizes, aligns, addrs),
        0 <= k < states.len(),
    ensures
        states[k].live_count() == states[0].live_count() + k,
        states[k].start() == states[0].start(),
    decreases k,
{
    if k > 0 {
        let p = k - 1;
        lemma_byte_run_counts(states, sizes, aligns, addrs, p);
        assert(EarlyAllocator::<PAGE_SIZE>::alloc_post(
            states[p],
            sizes[p],
            aligns[p],
            Ok(addrs[p]),
            states[p + 1],
        ));
    }
}

/// In every well-formed state the bytes in use and the bytes available add
/// up to the total.
pub proof fn lemma_byte_statistics_add_up<const PAGE_SIZE: usize>(s: EarlyAllocator<PAGE_SIZE>)
    requires
        s.wf(),
    ensures
        s.spec_used_bytes() + s.spec_available_bytes() == s.spec_total_bytes(),
        s.spec_used_bytes() >= 0,
        s.spec_available_bytes() >= 0,
{
}

/// In every well-formed state the pages in use and the pages available add
/// up to the total.
pub proof fn lemma_page_statistics_add_up<const PAGE_SIZE: usize>(s: EarlyAllocator<PAGE_SIZE>)
    requires
        s.wf(),
    ensures
        s.spec_used_pages() + s.spec_available_pages() == s.spec_total_pages(),
{
    let ps = PAGE_SIZE as int;
    let d = align_down_spec(s.byte_cursor(), ps);
    lemma_align_down(s.byte_cursor(), ps);
    let m = (s.page_cursor() - d) / ps;
    vstd::arithmetic::div_mod::lemma_fundamental_div_mod(s.page_cursor(), ps);
    vstd::arithmetic::div_mod::lemma_fundamental_div_mod(d, ps);
    let q = s.page_cursor() / ps - d / ps;
    assert(s.page_cursor() - d == q * ps) by (nonlinear_arith)
        requires
            s.page_cursor() == ps * (s.page_cursor() / ps),
            d == ps * (d / ps),
            q == s.page_cursor() / ps - d / ps,
    ;
    vstd::arithmetic::div_mod::lemma_div_multiples_vanish(q, ps);
    vstd::arithmetic::mul::lemma_mul_is_commutative(q, ps);
    vstd::arithmetic::div_mod::lemma_hoist_over_denominator(
        s.end() - s.page_cursor(),
        q,
        ps as nat,
    );
}
} // verus!
