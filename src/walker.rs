//! The program-header walk: every entry in table order, `Load` entries
//! materialized, the first error ending the walk.
use vstd::prelude::*;
use crate::segment::{
    materialize, pages_needed, placement_of, process_load, segment_bytes, source_in_bounds, LoadError, Placement,
    SegmentHeader, SegmentType,
};

verus! {

/// A parsed kernel image: its declared entry address and its program-header
/// entries in table order.
pub struct KernelImage {
    pub entry: u64,
    pub segments: Vec<SegmentHeader>,
}

/// Everything the kernel needs before control is handed to it: the
/// placements in table order, then a jump to `entry`.
pub struct LoadPlan {
    pub placements: Vec<Placement>,
    pub entry: u64,
}

/// What one entry contributes to the walk.
pub open spec fn walk_step(h: SegmentHeader, image_len: nat) -> Result<Option<Placement>, LoadError> {
    match h.kind {
        None => Err(LoadError::MalformedProgramHeader),
        Some(SegmentType::Load) => materialize(h, image_len),
        Some(_) => Ok(None),
    }
}

/// The placements of a whole table, or the error of its first failing entry.
pub open spec fn plan_of(segs: Seq<SegmentHeader>, image_len: nat) -> Result<Seq<Placement>, LoadError>
    decreases segs.len(),
{
    if segs.len() == 0 {
        Ok(Seq::empty())
    } else {
        match plan_of(segs.drop_last(), image_len) {
            Err(e) => Err(e),
            Ok(prefix) => match walk_step(segs.last(), image_len) {
                Err(e) => Err(e),
                Ok(None) => Ok(prefix),
                Ok(Some(p)) => Ok(prefix.push(p)),
            },
        }
    }
}

/// An entry that takes physical memory: a `Load` entry of nonzero size.
pub open spec fn allocates(h: SegmentHeader) -> bool {
    h.kind == Some(SegmentType::Load) && h.mem_size > 0
}

/// Walks the table of `kernel` in order and returns the placement of every
/// `Load` entry that takes memory, with the entry address; entries of other
/// types are skipped. The first entry whose type is unknown fails the walk
/// with `MalformedProgramHeader`, the first `Load` entry whose bytes are out
/// of bounds with `SegmentDataUnavailable`.
pub fn load_kernel(image: &[u8], kernel: &KernelImage) -> (r: Result<LoadPlan, LoadError>)
    ensures
        match r {
            Ok(plan) => plan_of(kernel.segments@, image@.len()) == Ok::<Seq<Placement>, LoadError>(plan.placements@)
                && plan.entry == kernel.entry,
            Err(e) => plan_of(kernel.segments@, image@.len()) == Err::<Seq<Placement>, LoadError>(e),
        },
{
    let mut placements: Vec<Placement> = Vec::new();
    let n: usize = kernel.segments.len();
    let mut i: usize = 0;
    while i < n
        invariant
            n == kernel.segments@.len(),
            i <= n,
            plan_of(kernel.segments@.subrange(0, i as int), image@.len()) == Ok::<Seq<Placement>, LoadError>(placements@),
        decreases n - i,
    {
        let h: SegmentHeader = kernel.segments[i];
        proof {
            assert(kernel.segments@.subrange(0, i + 1).drop_last() =~= kernel.segments@.subrange(0, i as int));
            assert(kernel.segments@.subrange(0, i + 1).last() == h);
        }
        match h.kind {
            None => {
                proof { lemma_error_persists(kernel.segments@, i + 1, image@.len()); }
                return Err(LoadError::MalformedProgramHeader);
            },
            Some(SegmentType::Load) => {
                match process_load(image, &h) {
                    Err(e) => {
                        proof { lemma_error_persists(kernel.segments@, i + 1, image@.len()); }
                        return Err(e);
                    },
                    Ok(None) => {},
                    Ok(Some(p)) => {
                        placements.push(p);
                    },
                }
            },
            Some(_) => {},
        }
        i = i + 1;
    }
    assert(kernel.segments@.subrange(0, n as int) =~= kernel.segments@);
    Ok(LoadPlan { placements, entry: kernel.entry })
}

/// Once a prefix of the table fails, the whole table fails with the same error.
proof fn lemma_error_persists(segs: Seq<SegmentHeader>, k: int, image_len: nat)
    requires
        0 <= k <= segs.len(),
        plan_of(segs.subrange(0, k), image_len) is Err,
    ensures
        plan_of(segs, image_len) == plan_of(segs.subrange(0, k), image_len),
    decreases segs.len() - k,
{
    if k < segs.len() {
        assert(segs.subrange(0, k + 1).drop_last() =~= segs.subrange(0, k));
        lemma_error_persists(segs, k + 1, image_len);
    } else {
        assert(segs.subrange(0, k) =~= segs);
    }
}

/// The walk keeps, in table order, exactly the `Load` entries that take
/// memory, each turned into its placement; every `Load` entry of a
/// successful walk has its bytes in bounds.
pub proof fn lemma_plan_selects_allocating_entries(segs: Seq<SegmentHeader>, image_len: nat)
    requires
        plan_of(segs, image_len) is Ok,
    ensures
        plan_of(segs, image_len)->Ok_0 == segs.filter(|h: SegmentHeader| allocates(h)).map_values(
            |h: SegmentHeader| placement_of(h),
        ),
        forall|i: int|
            0 <= i < segs.len() && segs[i].kind == Some(SegmentType::Load) ==> source_in_bounds(
                segs[i],
                image_len,
            ),
    decreases segs.len(),
{
    reveal(Seq::filter);
    if segs.len() > 0 {
        let rest = segs.drop_last();
        lemma_plan_selects_allocating_entries(rest, image_len);
        let f = |h: SegmentHeader| allocates(h);
        let g = |h: SegmentHeader| placement_of(h);
        if allocates(segs.last()) {
            assert(rest.filter(f).push(segs.last()).map_values(g) =~= rest.filter(f).map_values(g).push(
                placement_of(segs.last()),
            ));
        }
        assert forall|i: int|
            0 <= i < segs.len() && segs[i].kind == Some(SegmentType::Load) implies source_in_bounds(
            segs[i],
            image_len,
        ) by {
            if i < segs.len() - 1 {
                assert(segs[i] == rest[i]);
            }
        }
    }
}

/// `p` allocates for some `Load` entry of `segs`, at that entry's declared
/// physical address and for `ceil(mem_size / 4096)` pages.
pub open spec fn allocated_for_entry(segs: Seq<SegmentHeader>, p: Placement) -> bool {
    exists|i: int|
        0 <= i < segs.len() && allocates(#[trigger] segs[i]) && p.phys_addr == segs[i].phys_addr
            && p.pages == pages_needed(segs[i].mem_size as nat)
}

/// `p` copies, unchanged, the file-resident bytes of some `Load` entry of
/// `segs`, which lie inside `image`.
pub open spec fn copies_entry_bytes(image: Seq<u8>, segs: Seq<SegmentHeader>, p: Placement) -> bool {
    exists|i: int|
        0 <= i < segs.len() && allocates(#[trigger] segs[i]) && p.phys_addr == segs[i].phys_addr
            && p.source_len == segs[i].file_size && p.source_start + p.source_len <= image.len()
            && image.subrange(p.source_start as int, p.source_start + p.source_len) == segment_bytes(image, segs[i])
}

/// Every allocation of a successful walk is made for one `Load` entry of the
/// table, at that entry's declared physical address and for
/// `ceil(mem_size / 4096)` pages.
pub proof fn lemma_allocation_at_declared_address(
    segs: Seq<SegmentHeader>,
    image_len: nat,
    plan: Seq<Placement>,
)
    requires
        plan_of(segs, image_len) == Ok::<Seq<Placement>, LoadError>(plan),
    ensures
        forall|k: int| 0 <= k < plan.len() ==> allocated_for_entry(segs, #[trigger] plan[k]),
    decreases segs.len(),
{
    if segs.len() > 0 {
        let rest = segs.drop_last();
        let prefix = plan_of(rest, image_len)->Ok_0;
        lemma_allocation_at_declared_address(rest, image_len, prefix);
        assert forall|k: int| 0 <= k < plan.len() implies allocated_for_entry(segs, #[trigger] plan[k]) by {
            if k < prefix.len() {
                assert(plan[k] == prefix[k]);
                assert(allocated_for_entry(rest, prefix[k]));
                let i = choose|i: int|
                    0 <= i < rest.len() && allocates(#[trigger] rest[i]) && prefix[k].phys_addr
                        == rest[i].phys_addr && prefix[k].pages == pages_needed(rest[i].mem_size as nat);
                assert(segs[i] == rest[i]);
            } else {
                lemma_last_placement(segs, image_len, plan);
                assert(allocates(segs[segs.len() - 1]));
            }
        }
    }
}

/// The bytes that each placement of a successful walk copies are exactly the
/// file-resident bytes of its `Load` entry, unchanged, and lie inside the image.
pub proof fn lemma_copy_is_segment_bytes(image: Seq<u8>, segs: Seq<SegmentHeader>, plan: Seq<Placement>)
    requires
        image.len() <= usize::MAX,
        plan_of(segs, image.len()) == Ok::<Seq<Placement>, LoadError>(plan),
    ensures
        forall|k: int| 0 <= k < plan.len() ==> copies_entry_bytes(image, segs, #[trigger] plan[k]),
    decreases segs.len(),
{
    if segs.len() > 0 {
        let rest = segs.drop_last();
        let prefix = plan_of(rest, image.len())->Ok_0;
        lemma_copy_is_segment_bytes(image, rest, prefix);
        assert forall|k: int| 0 <= k < plan.len() implies copies_entry_bytes(image, segs, #[trigger] plan[k]) by {
            if k < prefix.len() {
                assert(plan[k] == prefix[k]);
                assert(copies_entry_bytes(image, rest, prefix[k]));
                let p = prefix[k];
                let i = choose|i: int|
                    0 <= i < rest.len() && allocates(#[trigger] rest[i]) && p.phys_addr == rest[i].phys_addr
                        && p.source_len == rest[i].file_size && p.source_start + p.source_len <= image.len()
                        && image.subrange(p.source_start as int, p.source_start + p.source_len)
                        == segment_bytes(image, rest[i]);
                assert(segs[i] == rest[i]);
            } else {
                let h = segs.last();
                lemma_last_placement(segs, image.len(), plan);
                assert(allocates(segs[segs.len() - 1]));
                if h.file_size == 0 {
                    assert(image.subrange(0, 0) =~= Seq::<u8>::empty());
                }
            }
        }
    }
}

/// A successful walk whose plan is longer than that of the table without its
/// last entry ends with the placement of that entry.
proof fn lemma_last_placement(segs: Seq<SegmentHeader>, image_len: nat, plan: Seq<Placement>)
    requires
        segs.len() > 0,
        plan_of(segs, image_len) == Ok::<Seq<Placement>, LoadError>(plan),
        plan_of(segs.drop_last(), image_len) is Ok,
        plan.len() > plan_of(segs.drop_last(), image_len)->Ok_0.len(),
    ensures
        segs[segs.len() - 1] == segs.last(),
        allocates(segs.last()),
        source_in_bounds(segs.last(), image_len),
        plan == plan_of(segs.drop_last(), image_len)->Ok_0.push(placement_of(segs.last())),
        placement_of(segs.last()).pages == pages_needed(segs.last().mem_size as nat),
{
    let m = segs.last().mem_size;
    assert((m + 4095) / 4096 <= m) by (nonlinear_arith)
        requires m > 0;
}

/// An entry that contributes nothing to the walk can stand anywhere in the
/// table without changing the walk's outcome.
pub proof fn lemma_skipped_entry_anywhere(segs: Seq<SegmentHeader>, h: SegmentHeader, i: int, image_len: nat)
    requires
        walk_step(h, image_len) == Ok::<Option<Placement>, LoadError>(None),
        0 <= i <= segs.len(),
    ensures
        plan_of(segs.insert(i, h), image_len) == plan_of(segs, image_len),
    decreases segs.len(),
{
    let t = segs.insert(i, h);
    if i == segs.len() {
        assert(t.drop_last() =~= segs);
    } else {
        assert(t.drop_last() =~= segs.drop_last().insert(i, h));
        assert(t.last() == segs.last());
        lemma_skipped_entry_anywhere(segs.drop_last(), h, i, image_len);
    }
}

/// An entry of a type other than `Load`, wherever it stands, leads to no
/// allocation and no copy, and to no error.
pub proof fn lemma_non_load_entry_ignored(segs: Seq<SegmentHeader>, h: SegmentHeader, i: int, image_len: nat)
    requires
        h.kind is Some,
        h.kind != Some(SegmentType::Load),
        0 <= i <= segs.len(),
    ensures
        plan_of(segs.insert(i, h), image_len) == plan_of(segs, image_len),
{
    lemma_skipped_entry_anywhere(segs, h, i, image_len);
}

/// An entry of a known type other than `Load`.
pub open spec fn is_other_type(h: SegmentHeader) -> bool {
    h.kind is Some && h.kind != Some(SegmentType::Load)
}

/// Removing every entry of a type other than `Load` from the table leaves
/// the walk's outcome unchanged: the same placements, or the same error.
pub proof fn lemma_non_load_entries_removed(segs: Seq<SegmentHeader>, image_len: nat)
    ensures
        plan_of(segs.filter(|h: SegmentHeader| !is_other_type(h)), image_len) == plan_of(segs, image_len),
    decreases segs.len(),
{
    reveal(Seq::filter);
    if segs.len() > 0 {
        let f = |h: SegmentHeader| !is_other_type(h);
        lemma_non_load_entries_removed(segs.drop_last(), image_len);
        if f(segs.last()) {
            let q = segs.drop_last().filter(f).push(segs.last());
            assert(q.drop_last() =~= segs.drop_last().filter(f));
        }
    }
}

/// A `Load` entry with no in-memory size (and so no file bytes) is not an
/// error and, wherever it stands, leads to no allocation and no copy.
pub proof fn lemma_empty_segment_ignored(segs: Seq<SegmentHeader>, h: SegmentHeader, i: int, image_len: nat)
    requires
        h.kind == Some(SegmentType::Load),
        h.mem_size == 0,
        h.file_size <= h.mem_size,
        0 <= i <= segs.len(),
    ensures
        materialize(h, image_len) == Ok::<Option<Placement>, LoadError>(None),
        plan_of(segs.insert(i, h), image_len) == plan_of(segs, image_len),
{
    lemma_skipped_entry_anywhere(segs, h, i, image_len);
}

} // verus!
