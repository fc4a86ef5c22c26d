use vstd::prelude::*;
use crate::boot_info::MemoryRegion;
use crate::bits::{word_bit, lemma_word_ext};
use crate::frame::{
    bitmap_encodes, frame_bit, free_memory_end, bitmap_bytes, bitmap_placement, initial_frame_map, managed_frames, mark_free_regions,
    usable_memory_map,
};
use crate::frame_model::{
    FrameMap, FrameState, FRAME_SIZE, lemma_set_state_wf, lemma_set_range_wf,
};

verus! {

/// Which frames `set_state` leaves free: it adds or removes the one frame,
/// if it is in range, and touches no other.
pub proof fn lemma_set_state_free(m: FrameMap, i: int, state: FrameState)
    ensures
        m.set_state(i, state).frames == m.frames,
        m.set_state(i, state).free == (if 0 <= i < m.frames {
            match state {
                FrameState::Allocated => m.free.remove(i),
                FrameState::Free => m.free.insert(i),
            }
        } else {
            m.free
        }),
{
}

/// The frames of `start..start + count` that lie in `0..frames`.
pub open spec fn frame_range(start: int, count: int, frames: int) -> Set<int> {
    Set::new(|i: int| start <= i < start + count && 0 <= i < frames)
}

/// Which frames `set_range` leaves free: those of the range in range join
/// the free frames, or leave them.
pub proof fn lemma_set_range_free(m: FrameMap, start: int, count: nat, state: FrameState)
    ensures
        m.set_range(start, count, state).frames == m.frames,
        m.set_range(start, count, state).free == (match state {
            FrameState::Allocated => m.free.difference(frame_range(start, count as int, m.frames as int)),
            FrameState::Free => m.free.union(frame_range(start, count as int, m.frames as int)),
        }),
    decreases count,
{
    if count > 0 {
        let prev = m.set_range(start, (count - 1) as nat, state);
        lemma_set_range_free(m, start, (count - 1) as nat, state);
        lemma_set_state_free(prev, start + count - 1, state);
        match state {
            FrameState::Allocated => {
                assert(m.set_range(start, count, state).free =~= m.free.difference(
                    frame_range(start, count as int, m.frames as int),
                ));
            },
            FrameState::Free => {
                assert(m.set_range(start, count, state).free =~= m.free.union(
                    frame_range(start, count as int, m.frames as int),
                ));
            },
        }
    }
}

/// The frames that the `len` bytes from `addr` touch, in `0..frames`.
pub open spec fn byte_frames(addr: int, len: int, frames: int) -> Set<int> {
    frame_range(addr / FRAME_SIZE as int, (len + FRAME_SIZE - 1) / FRAME_SIZE as int, frames)
}

/// Whether frame `i` is one of the frames that region `r` touches: from the
/// frame of its start, as many frames as its length rounds up to.
pub open spec fn region_frame(r: MemoryRegion, i: int) -> bool {
    r.start as int / FRAME_SIZE as int <= i < r.start as int / FRAME_SIZE as int + (r.len + FRAME_SIZE - 1) / FRAME_SIZE as int
}

/// Whether frame `i` lies in one of the free regions of `regions`.
pub open spec fn in_free_region(regions: Seq<MemoryRegion>, i: int) -> bool {
    exists|k: int| 0 <= k < regions.len() && (#[trigger] regions[k]).kind is Free && region_frame(regions[k], i)
}

/// Marking the free regions frees exactly the frames in them.
proof fn lemma_mark_free_regions(m: FrameMap, regions: Seq<MemoryRegion>)
    ensures
        mark_free_regions(m, regions).frames == m.frames,
        mark_free_regions(m, regions).free == m.free.union(
            Set::new(|i: int| 0 <= i < m.frames && in_free_region(regions, i)),
        ),
    decreases regions.len(),
{
    if regions.len() > 0 {
        let rest = regions.drop_last();
        lemma_mark_free_regions(m, rest);
        let before = mark_free_regions(m, rest);
        let r = regions.last();
        let target = m.free.union(Set::new(|i: int| 0 <= i < m.frames && in_free_region(regions, i)));
        if r.kind is Free {
            lemma_set_range_free(
                before,
                r.start as int / FRAME_SIZE as int,
                ((r.len + FRAME_SIZE - 1) / FRAME_SIZE as int) as nat,
                FrameState::Free,
            );
        }
        assert forall|i: int| #[trigger] mark_free_regions(m, regions).free.contains(i) == target.contains(i) by {
            if 0 <= i < m.frames {
                if in_free_region(regions, i) {
                    let k = choose|k: int|
                        0 <= k < regions.len() && (#[trigger] regions[k]).kind is Free && region_frame(regions[k], i);
                    if k < rest.len() {
                        assert(rest[k] == regions[k]);
                        assert(in_free_region(rest, i));
                    }
                }
                if in_free_region(rest, i) {
                    let k = choose|k: int|
                        0 <= k < rest.len() && (#[trigger] rest[k]).kind is Free && region_frame(rest[k], i);
                    assert(regions[k] == rest[k]);
                    assert(in_free_region(regions, i));
                }
                if r.kind is Free && region_frame(r, i) {
                    assert(regions[regions.len() - 1] == r);
                    assert(in_free_region(regions, i));
                }
            }
        }
        assert(mark_free_regions(m, regions).free =~= target);
    } else {
        assert(mark_free_regions(m, regions).free =~= m.free.union(
            Set::new(|i: int| 0 <= i < m.frames && in_free_region(regions, i)),
        ));
    }
}

/// Marking the free regions keeps the model well formed.
proof fn lemma_mark_free_regions_wf(m: FrameMap, regions: Seq<MemoryRegion>)
    requires
        m.wf(),
    ensures
        mark_free_regions(m, regions).wf(),
    decreases regions.len(),
{
    if regions.len() > 0 {
        lemma_mark_free_regions_wf(m, regions.drop_last());
        let before = mark_free_regions(m, regions.drop_last());
        let r = regions.last();
        lemma_set_range_wf(
            before,
            r.start as int / FRAME_SIZE as int,
            ((r.len + FRAME_SIZE - 1) / FRAME_SIZE as int) as nat,
            FrameState::Free,
        );
    }
}

/// The end of the highest free region is never negative.
proof fn lemma_free_memory_end_nonneg(regions: Seq<MemoryRegion>)
    ensures
        free_memory_end(regions) >= 0,
    decreases regions.len(),
{
    if regions.len() > 0 {
        lemma_free_memory_end_nonneg(regions.drop_last());
    }
}

/// The frames of the bitmap for `regions`.
pub open spec fn bitmap_frame(regions: Seq<MemoryRegion>, i: int) -> bool {
    let size = bitmap_bytes(regions);
    let site = bitmap_placement(regions, 0, size)->0;
    site / FRAME_SIZE as int <= i < site / FRAME_SIZE as int + (size + FRAME_SIZE - 1) / FRAME_SIZE as int
}

/// A freshly built allocator is well formed, manages the frames below the
/// end of the highest free region, and has free exactly the frames of the
/// free regions, except frame 0 (address 0 is never handed out) and the
/// frames that hold the bitmap.
pub proof fn law_initial_free_frames(regions: Seq<MemoryRegion>)
    requires
        usable_memory_map(regions),
    ensures
        initial_frame_map(regions).wf(),
        initial_frame_map(regions).frames == managed_frames(regions),
        initial_frame_map(regions).free == Set::new(
            |i: int|
                0 < i < managed_frames(regions) && in_free_region(regions, i) && !bitmap_frame(
                    regions,
                    i,
                ),
        ),
        !initial_frame_map(regions).free.contains(0),
{
    lemma_free_memory_end_nonneg(regions);
    let n = managed_frames(regions);
    let empty = FrameMap { frames: n as nat, free: Set::empty(), next: None };
    let size = bitmap_bytes(regions);
    let site = bitmap_placement(regions, 0, size)->0;
    let m1 = mark_free_regions(empty, regions);
    let m2 = m1.set_state(0, FrameState::Allocated);
    lemma_mark_free_regions(empty, regions);
    lemma_mark_free_regions_wf(empty, regions);
    lemma_set_state_free(m1, 0, FrameState::Allocated);
    lemma_set_state_wf(m1, 0, FrameState::Allocated);
    let start = site / FRAME_SIZE as int;
    let count = ((size + FRAME_SIZE - 1) / FRAME_SIZE as int) as nat;
    lemma_set_range_free(m2, start, count, FrameState::Allocated);
    lemma_set_range_wf(m2, start, count, FrameState::Allocated);
    assert(m1.free =~= Set::new(|i: int| 0 <= i < n && in_free_region(regions, i)));
    assert(initial_frame_map(regions).free =~= Set::new(
        |i: int| 0 < i < n && in_free_region(regions, i) && !bitmap_frame(regions, i),
    ));
}

/// Allocation hands out a free frame, in range, and takes exactly that
/// frame out of the free frames; it fails exactly when no frame is free, and
/// then changes nothing.
pub proof fn law_allocate_takes_a_free_frame(m: FrameMap)
    requires
        m.wf(),
    ensures
        m.allocate().0.wf(),
        m.allocate().0.frames == m.frames,
        m.allocate().1 is None <==> m.exhausted(),
        match m.allocate().1 {
            Some(k) => {
                &&& 0 <= k < m.frames
                &&& m.free.contains(k)
                &&& m.allocate().0.free == m.free.remove(k)
            },
            None => m.allocate().0 == m,
        },
{
    if let Some(k) = m.next {
        lemma_set_state_free(m, k, FrameState::Allocated);
        lemma_set_state_wf(m, k, FrameState::Allocated);
    }
}

/// Freeing the frame that an allocation handed out gives back the free
/// frames as they were before the allocation.
pub proof fn law_free_undoes_allocate(m: FrameMap)
    requires
        m.wf(),
        m.allocate().1 is Some,
    ensures
        m.allocate().0.free_addr(m.allocate().1->0 * FRAME_SIZE).free == m.free,
        m.allocate().0.free_addr(m.allocate().1->0 * FRAME_SIZE).wf(),
{
    let k = m.allocate().1->0;
    law_allocate_takes_a_free_frame(m);
    let a = m.allocate().0;
    assert((k * FRAME_SIZE) / FRAME_SIZE as int == k) by (nonlinear_arith);
    lemma_set_state_free(a, k, FrameState::Free);
    lemma_set_state_wf(a, k, FrameState::Free);
    assert(a.free_addr(k * FRAME_SIZE).free =~= m.free);
}

/// Two allocations in a row never hand out the same frame.
pub proof fn law_allocations_are_distinct(m: FrameMap)
    requires
        m.wf(),
        m.allocate().1 is Some,
        m.allocate().0.allocate().1 is Some,
    ensures
        m.allocate().1->0 != m.allocate().0.allocate().1->0,
{
    law_allocate_takes_a_free_frame(m);
    law_allocate_takes_a_free_frame(m.allocate().0);
}

/// Freeing an address frees the frame that holds it when that frame is
/// managed, and changes no other frame; addresses beyond the managed memory
/// change nothing.
pub proof fn law_free_frame(m: FrameMap, addr: int)
    requires
        m.wf(),
        0 <= addr,
    ensures
        m.free_addr(addr).wf(),
        m.free_addr(addr).frames == m.frames,
        m.free_addr(addr).free == (if addr / FRAME_SIZE as int >= m.frames {
            m.free
        } else {
            m.free.insert(addr / FRAME_SIZE as int)
        }),
        addr / FRAME_SIZE as int >= m.frames ==> m.free_addr(addr) == m,
{
    lemma_set_state_free(m, addr / FRAME_SIZE as int, FrameState::Free);
    lemma_set_state_wf(m, addr / FRAME_SIZE as int, FrameState::Free);
}

/// Frame 0 stays allocated: an allocator without frame 0 among its free
/// frames never hands it out, and neither allocation nor freeing an
/// address from frame 1 on makes it free.
pub proof fn law_frame_zero_stays_allocated(m: FrameMap, addr: int)
    requires
        m.wf(),
        !m.free.contains(0),
        addr >= FRAME_SIZE,
    ensures
        m.allocate().1 != Some(0int),
        !m.allocate().0.free.contains(0),
        !m.free_addr(addr).free.contains(0),
{
    law_allocate_takes_a_free_frame(m);
    law_free_frame(m, addr);
}

/// The bitmap is determined by the frames it encodes: two bitmaps that
/// encode the same frames are the same words.
pub proof fn law_bitmap_determined(w1: Seq<u64>, w2: Seq<u64>, m: FrameMap)
    requires
        bitmap_encodes(w1, m),
        bitmap_encodes(w2, m),
    ensures
        w1 == w2,
{
    assert forall|k: int| 0 <= k < w1.len() implies w1[k] == w2[k] by {
        assert forall|b: u64| b < 64 implies word_bit(w1[k], b) == word_bit(w2[k], b) by {
            let i = 64 * k + b;
            assert(i / 64 == k && i % 64 == b);
            assert(frame_bit(w1, i) == frame_bit(w2, i));
        }
        lemma_word_ext(w1[k], w2[k]);
    }
    assert(w1 =~= w2);
}

/// Setting a frame's state twice is the same as setting it once; since the
/// bitmap is determined by the frames it encodes (`law_bitmap_determined`),
/// this holds of the whole allocator.
pub proof fn law_set_state_idempotent(m: FrameMap, i: int, state: FrameState)
    requires
        m.wf(),
    ensures
        m.set_state(i, state).set_state(i, state) == m.set_state(i, state),
{
    let m1 = m.set_state(i, state);
    lemma_set_state_wf(m, i, state);
    lemma_set_state_free(m, i, state);
    lemma_set_state_free(m1, i, state);
    if 0 <= i < m.frames {
        match state {
            FrameState::Allocated => {
                assert(m1.free.remove(i) =~= m1.free);
                if let Some(k) = m1.next {
                    assert(m1.free.contains(k));
                }
            },
            FrameState::Free => {
                assert(m1.free.insert(i) =~= m1.free);
            },
        }
    }
}

/// Frames are accounted for: the free frames and the frames `held` by the
/// allocator's users are apart, and together they are the frames that were
/// free when the allocator was built from `regions`.
pub open spec fn frames_accounted(m: FrameMap, held: Set<int>, regions: Seq<MemoryRegion>) -> bool {
    &&& m.frames == managed_frames(regions)
    &&& m.free.disjoint(held)
    &&& m.free.union(held) == initial_frame_map(regions).free
}

/// At start-up every frame is accounted for, with none held.
pub proof fn law_start_accounted(regions: Seq<MemoryRegion>)
    requires
        usable_memory_map(regions),
    ensures
        frames_accounted(initial_frame_map(regions), Set::empty(), regions),
        initial_frame_map(regions).wf(),
{
    law_initial_free_frames(regions);
    assert(initial_frame_map(regions).free.union(Set::empty()) =~= initial_frame_map(regions).free);
}

/// Allocation keeps every frame accounted for. The frame it hands out is not
/// held already, is not frame 0, lies in a free region of the memory map and
/// does not hold the bitmap. So over any run of allocations and frees of
/// held frames, no frame is handed out twice or from outside usable memory.
pub proof fn law_allocate_accounted(m: FrameMap, held: Set<int>, regions: Seq<MemoryRegion>)
    requires
        usable_memory_map(regions),
        m.wf(),
        frames_accounted(m, held, regions),
    ensures
        m.allocate().0.wf(),
        match m.allocate().1 {
            Some(k) => {
                &&& !held.contains(k)
                &&& 0 < k < managed_frames(regions)
                &&& in_free_region(regions, k)
                &&& !bitmap_frame(regions, k)
                &&& frames_accounted(m.allocate().0, held.insert(k), regions)
            },
            None => frames_accounted(m.allocate().0, held, regions),
        },
{
    law_allocate_takes_a_free_frame(m);
    law_initial_free_frames(regions);
    if let Some(k) = m.allocate().1 {
        let a = m.allocate().0;
        assert(initial_frame_map(regions).free.contains(k));
        assert(a.free.union(held.insert(k)) =~= m.free.union(held));
    }
}

/// Freeing a held frame keeps every frame accounted for, with the frame no
/// longer held.
pub proof fn law_free_accounted(m: FrameMap, held: Set<int>, regions: Seq<MemoryRegion>, k: int)
    requires
        usable_memory_map(regions),
        m.wf(),
        frames_accounted(m, held, regions),
        held.contains(k),
    ensures
        m.free_addr(k * FRAME_SIZE).wf(),
        frames_accounted(m.free_addr(k * FRAME_SIZE), held.remove(k), regions),
{
    law_initial_free_frames(regions);
    assert(initial_frame_map(regions).free.contains(k));
    assert(0 <= k < m.frames);
    assert((k * FRAME_SIZE) / FRAME_SIZE as int == k) by (nonlinear_arith);
    law_free_frame(m, k * FRAME_SIZE);
    let f = m.free_addr(k * FRAME_SIZE);
    assert(f.free.union(held.remove(k)) =~= m.free.union(held));
}

/// The end of the managed memory is the highest end of a free region: no
/// free region of the map ends above it, in whatever order the map lists
/// the regions, and it is the end of one of them (or 0 when none is free).
pub proof fn law_free_memory_end_is_highest(regions: Seq<MemoryRegion>)
    ensures
        forall|k: int|
            0 <= k < regions.len() && (#[trigger] regions[k]).kind is Free ==> regions[k].start
                + regions[k].len <= free_memory_end(regions),
        free_memory_end(regions) == 0 || exists|k: int|
            0 <= k < regions.len() && (#[trigger] regions[k]).kind is Free && free_memory_end(regions)
                == regions[k].start + regions[k].len,
    decreases regions.len(),
{
    if regions.len() > 0 {
        let rest = regions.drop_last();
        law_free_memory_end_is_highest(rest);
        assert forall|k: int|
            0 <= k < regions.len() && (#[trigger] regions[k]).kind is Free implies regions[k].start
                + regions[k].len <= free_memory_end(regions) by {
            if k < rest.len() {
                assert(rest[k] == regions[k]);
            }
        }
        if free_memory_end(regions) != 0 {
            if free_memory_end(regions) == free_memory_end(rest) {
                let k = choose|k: int|
                    0 <= k < rest.len() && (#[trigger] rest[k]).kind is Free && free_memory_end(rest)
                        == rest[k].start + rest[k].len;
                assert(regions[k] == rest[k]);
            } else {
                assert(regions[regions.len() - 1] == regions.last());
            }
        }
    }
}

/// Every whole frame of every free region is managed: it lies below the
/// number of frames that the allocator keeps.
pub proof fn law_free_frames_are_managed(regions: Seq<MemoryRegion>, k: int, i: int)
    requires
        0 <= k < regions.len(),
        regions[k].kind is Free,
        0 <= i,
        (i + 1) * FRAME_SIZE <= regions[k].start + regions[k].len,
    ensures
        i < managed_frames(regions),
{
    law_free_memory_end_is_highest(regions);
    assert(regions[k].start + regions[k].len <= free_memory_end(regions));
    let e = free_memory_end(regions);
    assert((i + 1) * 4096 <= e ==> i < e / 4096) by (nonlinear_arith);
}

/// The bitmap goes into free memory: the address that the placement
/// picks is not 0, and the bitmap's bytes lie inside one free region of the
/// map.
pub proof fn law_bitmap_in_free_region(regions: Seq<MemoryRegion>, j: int, size: int)
    requires
        0 <= j,
        0 <= size,
    ensures
        bitmap_placement(regions, j, size) matches Some(site) ==> site != 0 && exists|k: int|
            j <= k < regions.len() && (#[trigger] regions[k]).kind is Free && regions[k].start <= site
                && site + size <= regions[k].start + regions[k].len,
    decreases regions.len() - j,
{
    if j < regions.len() {
        law_bitmap_in_free_region(regions, j + 1, size);
        let r = regions[j];
        if r.kind is Free && r.start == 0 && r.len >= FRAME_SIZE + size {
            assert(regions[j].kind is Free);
        } else if r.kind is Free && r.start != 0 && r.len >= size {
            assert(regions[j].kind is Free);
        }
    }
}

/// Every frame of the bitmap lies in a free region of the map.
pub proof fn law_bitmap_frames_are_free_memory(regions: Seq<MemoryRegion>, i: int)
    requires
        usable_memory_map(regions),
        bitmap_frame(regions, i),
    ensures
        in_free_region(regions, i),
{
    lemma_free_memory_end_nonneg(regions);
    let size = bitmap_bytes(regions);
    assert(size >= 0) by (nonlinear_arith)
        requires
            size == ((free_memory_end(regions) / 4096) + 63) / 64 * 8,
            free_memory_end(regions) >= 0,
    ;
    let site = bitmap_placement(regions, 0, size)->0;
    lemma_placement_site(regions, 0, size);
    let k = choose|k: int|
        0 <= k < regions.len() && (#[trigger] regions[k]).kind is Free && (if regions[k].start == 0 {
            site == FRAME_SIZE && regions[k].len >= FRAME_SIZE + size
        } else {
            site == regions[k].start && regions[k].len >= size
        });
    let r = regions[k];
    let s = r.start as int;
    let l = r.len as int;
    if s == 0 {
        assert(site == 4096);
        assert(l >= 4096 + size);
        assert(1 <= i < 1 + (size + 4095) / 4096);
        assert(1 + (size + 4095) / 4096 <= (l + 4095) / 4096) by (nonlinear_arith)
            requires
                l >= 4096 + size,
                size >= 0,
        ;
    } else {
        assert(site == s);
        assert(s / 4096 <= i < s / 4096 + (size + 4095) / 4096);
        assert((size + 4095) / 4096 <= (l + 4095) / 4096) by (nonlinear_arith)
            requires
                l >= size,
                size >= 0,
        ;
    }
    assert(region_frame(regions[k], i));
}

/// The placement picks, in a free region at address 0, the address right
/// after frame 0, and elsewhere the region's start.
proof fn lemma_placement_site(regions: Seq<MemoryRegion>, j: int, size: int)
    requires
        0 <= j,
    ensures
        bitmap_placement(regions, j, size) matches Some(site) ==> exists|k: int|
            j <= k < regions.len() && (#[trigger] regions[k]).kind is Free && (if regions[k].start == 0 {
                site == FRAME_SIZE && regions[k].len >= FRAME_SIZE + size
            } else {
                site == regions[k].start && regions[k].len >= size
            }),
    decreases regions.len() - j,
{
    if j < regions.len() {
        lemma_placement_site(regions, j + 1, size);
        assert(regions[j] == regions[j]);
    }
}

} // verus!
