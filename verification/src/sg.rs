//! Scatter-gather region descriptions for I/O into foreign backing memory.
//! A region names (offset, length) within a backing-memory object; the
//! backing-memory owner resolves each region to a transient raw view just
//! before the syscall. A region that fails to resolve is skipped, not fatal:
//! `keep_resolved` states exactly which regions survive.

use vstd::prelude::*;

verus! {

/// One (offset, length) region of backing memory for a vectored operation.
#[derive(Clone, Copy, PartialEq, Eq, Structural, Debug)]
pub struct MemRegion {
    pub offset: u64,
    pub len: u64,
}

/// The total byte length of a region set: what a vectored operation over it
/// can move at most.
pub open spec fn spec_region_total(regions: Seq<MemRegion>) -> int
    decreases regions.len(),
{
    if regions.len() == 0 {
        0
    } else {
        spec_region_total(regions.drop_last()) + regions.last().len
    }
}

/// The total byte length of a region set, saturating at `u64::MAX`: the
/// result never exceeds the true total, and equals it whenever that total
/// fits in 64 bits.
pub fn region_total(regions: &Vec<MemRegion>) -> (r: u64)
    ensures
        r <= spec_region_total(regions@),
        spec_region_total(regions@) <= u64::MAX ==> r == spec_region_total(regions@),
        spec_region_total(regions@) > u64::MAX ==> r == u64::MAX,
{
    let n = regions.len();
    let mut total: u64 = 0;
    let mut i: usize = 0;
    while i < n
        invariant
            n == regions@.len(),
            i <= n,
            total <= spec_region_total(regions@.take(i as int)),
            spec_region_total(regions@.take(i as int)) <= u64::MAX ==> total == spec_region_total(
                regions@.take(i as int),
            ),
            spec_region_total(regions@.take(i as int)) > u64::MAX ==> total == u64::MAX,
        decreases n - i,
    {
        proof {
            let t = i + 1;
            assert(regions@.take(t as int).drop_last() =~= regions@.take(i as int));
            assert(regions@.take(t as int).last() == regions@[i as int]);
            lemma_region_total_nonneg(regions@.take(i as int));
        }
        total = total.saturating_add(regions[i].len);
        i = i + 1;
    }
    proof {
        assert(regions@.take(n as int) =~= regions@);
    }
    total
}

/// A region total is never negative.
proof fn lemma_region_total_nonneg(regions: Seq<MemRegion>)
    ensures
        spec_region_total(regions) >= 0,
    decreases regions.len(),
{
    if regions.len() > 0 {
        lemma_region_total_nonneg(regions.drop_last());
    }
}

/// The subsequence of `regions` whose resolution succeeded, in order.
pub open spec fn kept_regions(regions: Seq<MemRegion>, ok: Seq<bool>) -> Seq<MemRegion>
    decreases regions.len(),
{
    if regions.len() == 0 {
        Seq::empty()
    } else if ok.len() != regions.len() {
        Seq::empty()
    } else if ok.last() {
        kept_regions(regions.drop_last(), ok.drop_last()).push(regions.last())
    } else {
        kept_regions(regions.drop_last(), ok.drop_last())
    }
}

/// Keeps the regions whose resolution succeeded: entry `i` of `ok` says
/// whether the backing-memory owner resolved region `i`. The unresolved ones
/// are skipped, preserving the order of the rest.
pub fn keep_resolved(regions: &Vec<MemRegion>, ok: &Vec<bool>) -> (r: Vec<MemRegion>)
    requires
        ok@.len() == regions@.len(),
    ensures
        r@ == kept_regions(regions@, ok@),
{
    let n = regions.len();
    let mut out: Vec<MemRegion> = Vec::new();
    let mut i: usize = 0;
    while i < n
        invariant
            n == regions@.len(),
            ok@.len() == n,
            i <= n,
            out@ == kept_regions(regions@.take(i as int), ok@.take(i as int)),
        decreases n - i,
    {
        if ok[i] {
            out.push(regions[i]);
        }
        proof {
            let t = i + 1;
            assert(regions@.take(t as int).drop_last() =~= regions@.take(i as int));
            assert(ok@.take(t as int).drop_last() =~= ok@.take(i as int));
            assert(regions@.take(t as int).last() == regions@[i as int]);
            assert(ok@.take(t as int).last() == ok@[i as int]);
        }
        i = i + 1;
    }
    proof {
        assert(regions@.take(n as int) =~= regions@);
        assert(ok@.take(n as int) =~= ok@);
    }
    out
}

} // verus!
