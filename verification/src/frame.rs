use vstd::prelude::*;
use crate::bits::{word_bit, lemma_set_bit, lemma_clear_bit, lemma_full_word};
use crate::frame_model::{
    FrameMap, FrameState, FRAME_SIZE, first_free_in, lemma_first_free_skip, lemma_set_state_wf,
};
use crate::memory::PhysAddr;
use crate::boot_info::{MemoryMapInfo, MemoryRegion, MemoryType};

verus! {

/// Whether the bitmap `bitmap` marks frame `i` as allocated: bit `i % 64` of
/// word `i / 64`.
pub open spec fn frame_bit(bitmap: Seq<u64>, i: int) -> bool {
    word_bit(bitmap[i / 64], (i % 64) as u64)
}

/// An optional frame number as an integer.
pub open spec fn index_of(o: Option<u64>) -> Option<int> {
    match o {
        Some(k) => Some(k as int),
        None => None,
    }
}

/// The end of the highest free region of `regions`, or 0 when none is free.
pub open spec fn free_memory_end(regions: Seq<MemoryRegion>) -> int
    decreases regions.len(),
{
    if regions.len() == 0 {
        0
    } else {
        let rest = free_memory_end(regions.drop_last());
        let r = regions.last();
        if r.kind is Free && r.start + r.len > rest {
            r.start + r.len
        } else {
            rest
        }
    }
}

/// The number of frames that an allocator built from `regions` manages: the
/// whole frames below the end of the highest free region.
pub open spec fn managed_frames(regions: Seq<MemoryRegion>) -> int {
    free_memory_end(regions) / FRAME_SIZE as int
}

/// The number of 64-bit words of the bitmap for `regions`.
pub open spec fn bitmap_words(regions: Seq<MemoryRegion>) -> int {
    (managed_frames(regions) + 63) / 64
}

/// The size in bytes of the bitmap for `regions`.
pub open spec fn bitmap_bytes(regions: Seq<MemoryRegion>) -> int {
    bitmap_words(regions) * 8
}

/// The address of the bitmap of `size` bytes: the first free region, from
/// the `k`-th on, with room for it; `None` when no region has room. Address
/// 0 is never handed out, so a region at address 0 gives up its first frame:
/// the bitmap goes right after it, and only when the rest has room.
pub open spec fn bitmap_placement(regions: Seq<MemoryRegion>, k: int, size: int) -> Option<int>
    decreases regions.len() - k,
{
    if k < 0 || k >= regions.len() {
        None
    } else {
        let r = regions[k];
        if r.kind is Free && r.start == 0 && r.len >= FRAME_SIZE + size {
            Some(FRAME_SIZE as int)
        } else if r.kind is Free && r.start != 0 && r.len >= size {
            Some(r.start as int)
        } else {
            bitmap_placement(regions, k + 1, size)
        }
    }
}

/// Marks, in order, the frames of every free region of `regions` as free.
pub open spec fn mark_free_regions(m: FrameMap, regions: Seq<MemoryRegion>) -> FrameMap
    decreases regions.len(),
{
    if regions.len() == 0 {
        m
    } else {
        let before = mark_free_regions(m, regions.drop_last());
        let r = regions.last();
        if r.kind is Free {
            before.set_bytes(r.start as int, r.len as int, FrameState::Free)
        } else {
            before
        }
    }
}

/// The maps of `regions` that an allocator can be built from: the ends and
/// frame ranges of the free regions fit in a `u64`, the bitmap's size fits
/// in a `usize`, and a free region has room for the bitmap.
pub open spec fn usable_memory_map(regions: Seq<MemoryRegion>) -> bool {
    &&& forall|k: int| 0 <= k < regions.len() && (#[trigger] regions[k]).kind is Free
        ==> regions[k].start + regions[k].len <= u64::MAX && regions[k].len + FRAME_SIZE <= u64::MAX
    &&& bitmap_bytes(regions) <= usize::MAX
    &&& bitmap_placement(regions, 0, bitmap_bytes(regions)) is Some
}

/// The allocator built from `regions`: every frame starts allocated, then
/// the free regions' frames are freed, then frame 0 and the bitmap's frames
/// are allocated again.
pub open spec fn initial_frame_map(regions: Seq<MemoryRegion>) -> FrameMap {
    let empty = FrameMap { frames: managed_frames(regions) as nat, free: Set::empty(), next: None };
    let size = bitmap_bytes(regions);
    let site = bitmap_placement(regions, 0, size)->0;
    mark_free_regions(empty, regions).set_state(0, FrameState::Allocated).set_bytes(
        site,
        size,
        FrameState::Allocated,
    )
}

/// The end of the highest free region, or 0 when none is free.
fn highest_free_end(regions: &Vec<MemoryRegion>) -> (end: u64)
    requires
        forall|k: int| 0 <= k < regions@.len() && (#[trigger] regions@[k]).kind is Free
            ==> regions@[k].start + regions@[k].len <= u64::MAX,
    ensures
        end == free_memory_end(regions@),
{
    let mut max_addr: u64 = 0;
    let mut k: usize = 0;
    while k < regions.len()
        invariant
            k <= regions@.len(),
            max_addr == free_memory_end(regions@.take(k as int)),
            forall|k: int| 0 <= k < regions@.len() && (#[trigger] regions@[k]).kind is Free
                ==> regions@[k].start + regions@[k].len <= u64::MAX,
        decreases regions@.len() - k,
    {
        let r = regions[k];
        proof {
            assert(regions@.take(k + 1).drop_last() =~= regions@.take(k as int));
        }
        if r.kind == MemoryType::Free {
            let end = r.start + r.len;
            if end > max_addr {
                max_addr = end;
            }
        }
        k = k + 1;
    }
    proof {
        assert(regions@.take(k as int) =~= regions@);
    }
    max_addr
}

/// Why an allocator cannot be built from a memory map.
#[derive(Clone, Copy, Debug, PartialEq, Eq, Structural)]
pub enum MemoryMapError {
    /// The end of a free region does not fit in a `u64`.
    RegionEndOverflow,
    /// The bitmap for the frames is too large to index.
    BitmapTooLarge,
    /// No free region has room for the bitmap.
    NoRoomForBitmap,
    /// The length of a free region, rounded up to whole frames, does not fit
    /// in a `u64`.
    RegionLengthOverflow,
}

/// Some free region's end does not fit in a `u64`.
pub open spec fn some_end_overflows(regions: Seq<MemoryRegion>) -> bool {
    exists|k: int|
        0 <= k < regions.len() && (#[trigger] regions[k]).kind is Free && regions[k].start
            + regions[k].len > u64::MAX
}

/// Some free region's length, rounded up to whole frames, does not fit in a
/// `u64`.
pub open spec fn some_length_overflows(regions: Seq<MemoryRegion>) -> bool {
    exists|k: int|
        0 <= k < regions.len() && (#[trigger] regions[k]).kind is Free && regions[k].len
            + FRAME_SIZE > u64::MAX
}

/// Why building an allocator from `regions` fails, checked in the order in
/// which building meets the problems; `None` when it succeeds.
pub open spec fn memory_map_error(regions: Seq<MemoryRegion>) -> Option<MemoryMapError> {
    if some_end_overflows(regions) {
        Some(MemoryMapError::RegionEndOverflow)
    } else if bitmap_bytes(regions) > usize::MAX {
        Some(MemoryMapError::BitmapTooLarge)
    } else {
        match bitmap_placement(regions, 0, bitmap_bytes(regions)) {
            None => Some(MemoryMapError::NoRoomForBitmap),
            Some(_) => if some_length_overflows(regions) {
                Some(MemoryMapError::RegionLengthOverflow)
            } else {
                None
            },
        }
    }
}

/// The bitmap is placed at an address that fits in a `u64`.
proof fn lemma_placement_in_range(regions: Seq<MemoryRegion>, k: int, size: int)
    ensures
        bitmap_placement(regions, k, size) matches Some(site) ==> 0 <= site <= u64::MAX,
    decreases regions.len() - k,
{
    if 0 <= k < regions.len() {
        lemma_placement_in_range(regions, k + 1, size);
    }
}

/// The address at which the bitmap of `size` bytes is placed: in the first
/// free region with room for it.
fn find_bitmap_site(regions: &Vec<MemoryRegion>, size: u64) -> (r: Result<u64, MemoryMapError>)
    ensures
        match bitmap_placement(regions@, 0, size as int) {
            Some(site) => r is Ok && r->Ok_0 == site,
            None => r == Err::<u64, MemoryMapError>(MemoryMapError::NoRoomForBitmap),
        },
{
    proof {
        lemma_placement_in_range(regions@, 0, size as int);
    }
    let mut k: usize = 0;
    while k < regions.len()
        invariant
            k <= regions@.len(),
            bitmap_placement(regions@, 0, size as int) == bitmap_placement(regions@, k as int, size as int),
        decreases regions@.len() - k,
    {
        let r = regions[k];
        if r.kind == MemoryType::Free {
            // Address 0 is never handed out: a region there loses its first
            // frame.
            if r.start == 0 {
                if r.len >= FRAME_SIZE && r.len - FRAME_SIZE >= size {
                    return Ok(FRAME_SIZE);
                }
            } else if r.len >= size {
                return Ok(r.start);
            }
        }
        k = k + 1;
    }
    Err(MemoryMapError::NoRoomForBitmap)
}

/// Checks whether an allocator can be built from `regions`, and if not,
/// which problem building would meet first.
pub fn check_memory_map(regions: &Vec<MemoryRegion>) -> (r: Result<(), MemoryMapError>)
    ensures
        r is Ok <==> usable_memory_map(regions@),
        match memory_map_error(regions@) {
            Some(e) => r == Err::<(), MemoryMapError>(e),
            None => r is Ok,
        },
{
    let mut k: usize = 0;
    while k < regions.len()
        invariant
            k <= regions@.len(),
            forall|j: int| 0 <= j < k && (#[trigger] regions@[j]).kind is Free
                ==> regions@[j].start + regions@[j].len <= u64::MAX,
        decreases regions@.len() - k,
    {
        let r = regions[k];
        if r.kind == MemoryType::Free && r.start.checked_add(r.len).is_none() {
            return Err(MemoryMapError::RegionEndOverflow);
        }
        k = k + 1;
    }
    let max_addr = highest_free_end(regions);
    let num_frames = max_addr / FRAME_SIZE;
    let words = (num_frames + 63) / 64;
    let bitmap_size = match usize::try_from(words) {
        Ok(w) => match w.checked_mul(8) {
            Some(b) => b,
            None => {
                return Err(MemoryMapError::BitmapTooLarge);
            },
        },
        Err(_) => {
            return Err(MemoryMapError::BitmapTooLarge);
        },
    };
    proof {
        assert(!some_end_overflows(regions@));
        assert(bitmap_size == bitmap_bytes(regions@));
    }
    let site = find_bitmap_site(regions, bitmap_size as u64);
    if site.is_err() {
        return match site {
            Ok(_) => Ok(()),
            Err(e) => Err(e),
        };
    }
    let mut k: usize = 0;
    while k < regions.len()
        invariant
            k <= regions@.len(),
            forall|j: int| 0 <= j < k && (#[trigger] regions@[j]).kind is Free
                ==> regions@[j].len + FRAME_SIZE <= u64::MAX,
            !some_end_overflows(regions@),
            bitmap_size == bitmap_bytes(regions@),
            bitmap_placement(regions@, 0, bitmap_bytes(regions@)) is Some,
        decreases regions@.len() - k,
    {
        let r = regions[k];
        if r.kind == MemoryType::Free && r.len.checked_add(FRAME_SIZE).is_none() {
            proof {
                assert(regions@[k as int].len + FRAME_SIZE > u64::MAX);
            }
            return Err(MemoryMapError::RegionLengthOverflow);
        }
        k = k + 1;
    }
    Ok(())
}

/// The number of frames below `n` that `free` holds.
pub open spec fn free_count(free: Set<int>, n: int) -> nat
    decreases n,
{
    if n <= 0 {
        0
    } else {
        free_count(free, n - 1) + if free.contains(n - 1) {
            1nat
        } else {
            0nat
        }
    }
}

/// The number of frames, the number of bitmap words and the bitmap's
/// address for a usable map.
fn plan_bitmap(regions: &Vec<MemoryRegion>) -> (r: (u64, usize, u64))
    requires
        usable_memory_map(regions@),
    ensures
        r.0 == managed_frames(regions@),
        r.0 <= u64::MAX / FRAME_SIZE,
        r.1 == bitmap_words(regions@),
        r.2 == bitmap_placement(regions@, 0, bitmap_bytes(regions@))->0,
{
    let max_addr = highest_free_end(regions);
    let num_frames = max_addr / FRAME_SIZE;
    let num_segments: usize = usize::try_from((num_frames + 63) / 64).unwrap();
    let bitmap_size = num_segments * core::mem::size_of::<u64>();
    let bitmap_region_start = match find_bitmap_site(regions, bitmap_size as u64) {
        Ok(site) => site,
        Err(_) => {
            // A usable map has room for the bitmap.
            proof {
                assert(false);
            }
            0
        },
    };
    (num_frames, num_segments, bitmap_region_start)
}

/// Where the bitmap for a usable memory map goes: its address, in the first
/// free region with room for it (a region at address 0 counts without its
/// first frame), and its length in 64-bit words.
pub fn bitmap_layout(regions: &Vec<MemoryRegion>) -> (r: (u64, usize))
    requires
        usable_memory_map(regions@),
    ensures
        r.0 == bitmap_placement(regions@, 0, bitmap_bytes(regions@))->0,
        r.1 == bitmap_words(regions@),
{
    let (_, num_segments, site) = plan_bitmap(regions);
    (site, num_segments)
}

/// The bitmap `words` encodes the frames of `m`: it has a word for every 64
/// frames, the bit of a free frame is clear, and every other bit, those
/// beyond the last frame included, is set.
pub open spec fn bitmap_encodes(words: Seq<u64>, m: FrameMap) -> bool {
    &&& words.len() == (m.frames + 63) / 64
    &&& forall|i: int| 0 <= i < words.len() * 64 ==> #[trigger] frame_bit(words, i) == !m.free.contains(i)
}

/// A physical frame allocator that keeps one bit per frame: 0 for free,
/// 1 for allocated.
pub struct FrameAllocator<'a> {
    bitmap: &'a mut [u64],
    num_frames: u64,
    next_free_index: Option<u64>,
}

impl<'a> View for FrameAllocator<'a> {
    type V = FrameMap;

    closed spec fn view(&self) -> FrameMap {
        FrameMap {
            frames: self.num_frames as nat,
            free: Set::new(|i: int| 0 <= i < self.num_frames && !frame_bit(self.bitmap@, i)),
            next: index_of(self.next_free_index),
        }
    }
}

/// A frame below `64 * words` has its bit in one of the `words` words.
proof fn lemma_segment_in_bounds(i: int, words: int)
    requires
        0 <= i < words * 64,
    ensures
        i / 64 < words,
        0 <= i / 64,
        0 <= i % 64 < 64,
{
}

impl<'a> FrameAllocator<'a> {
    /// The bitmap has a bit for every frame, every frame's address fits in a
    /// `u64`, and the model is well formed.
    pub closed spec fn wf(&self) -> bool {
        &&& self.num_frames <= self.bitmap@.len() * 64
        &&& self.num_frames <= u64::MAX / FRAME_SIZE
        &&& self@.wf()
        &&& bitmap_encodes(self.bitmap@, self@)
    }

    /// What a well-formed allocator gives its users: a well-formed model,
    /// encoded by the bitmap, with every frame's address in a `u64`.
    pub proof fn lemma_wf(&self)
        requires
            self.wf(),
        ensures
            self@.wf(),
            bitmap_encodes(self.words(), self@),
            self@.frames * FRAME_SIZE <= u64::MAX,
    {
    }

    /// The words of the bitmap.
    pub closed spec fn words(&self) -> Seq<u64> {
        self.bitmap@
    }

    /// Builds the allocator for the memory map, keeping its bitmap in
    /// `bitmap`: one bit per frame below the end of the highest free region,
    /// all set; then the free regions' frames are freed, and frame 0 and the
    /// frames of the bitmap itself are allocated again. `bitmap` is the
    /// memory that `bitmap_layout` gives for the map: as many words as the
    /// map's frames need, in the first free region with room for them (a
    /// region at address 0 counts without its first frame); its old contents
    /// are overwritten.
    pub fn init(memory_map: MemoryMapInfo, bitmap: &'a mut [u64]) -> (allocator: Self)
        requires
            usable_memory_map(memory_map.regions@),
            old(bitmap)@.len() == bitmap_words(memory_map.regions@),
        ensures
            allocator.wf(),
            allocator@ == initial_frame_map(memory_map.regions@),
            bitmap_encodes(allocator.words(), allocator@),
    {
        let regions = &memory_map.regions;
        let (num_frames, num_segments, bitmap_region_start) = plan_bitmap(regions);
        let bitmap_size = num_segments * core::mem::size_of::<u64>();

        // Set every frame as used, to be on the safe side, then mark the
        // free ones.
        let mut k: usize = 0;
        while k < bitmap.len()
            invariant
                k <= bitmap@.len(),
                bitmap@.len() == num_segments,
                forall|j: int| 0 <= j < k ==> bitmap@[j] == u64::MAX,
            decreases bitmap@.len() - k,
        {
            bitmap[k] = u64::MAX;
            k = k + 1;
        }
        let mut allocator = FrameAllocator { bitmap, num_frames, next_free_index: None };
        proof {
            assert forall|j: int| 0 <= j < allocator.bitmap@.len() * 64 implies #[trigger] frame_bit(allocator.bitmap@, j) by {
                lemma_segment_in_bounds(j, allocator.bitmap@.len() as int);
                lemma_full_word((j % 64) as u64);
            }
            assert(allocator@.free =~= Set::<int>::empty());
        }
        let ghost empty = allocator@;

        let mut k: usize = 0;
        while k < regions.len()
            invariant
                k <= regions@.len(),
                regions@ == memory_map.regions@,
                usable_memory_map(regions@),
                allocator.wf(),
                allocator@ == mark_free_regions(empty, regions@.take(k as int)),
            decreases regions@.len() - k,
        {
            let region = regions[k];
            proof {
                assert(regions@.take(k + 1).drop_last() =~= regions@.take(k as int));
            }
            if region.kind == MemoryType::Free {
                allocator.set_region(region.start, region.len, FrameState::Free);
            }
            k = k + 1;
        }
        proof {
            assert(regions@.take(k as int) =~= regions@);
        }

        // Address 0 is never handed out.
        allocator.set_state(0, FrameState::Allocated);

        // The bitmap's own frames are in use.
        allocator.set_region(bitmap_region_start, bitmap_size as u64, FrameState::Allocated);

        allocator
    }

    /// Whether frame `frame_index` is free; frames out of range count as
    /// allocated.
    fn get_state(&self, frame_index: u64) -> (state: FrameState)
        requires
            self.num_frames <= self.bitmap@.len() * 64,
        ensures
            state == (if self@.free.contains(frame_index as int) {
                FrameState::Free
            } else {
                FrameState::Allocated
            }),
    {
        if frame_index < self.num_frames {
            proof {
                lemma_segment_in_bounds(frame_index as int, self.bitmap@.len() as int);
            }
            assert(self.bitmap@.len() == self.bitmap.len());
            if let Ok(segment) = usize::try_from(frame_index / 64) {
                let mask: u64 = 1u64 << (frame_index % 64);
                let is_allocated = self.bitmap[segment] & mask != 0;
                if is_allocated {
                    FrameState::Allocated
                } else {
                    FrameState::Free
                }
            } else {
                FrameState::Allocated
            }
        } else {
            FrameState::Allocated
        }
    }

    /// The first free frame from the cursor to the end, then from frame 0 up
    /// to the cursor.
    fn find_next_free(&self) -> (r: Option<u64>)
        requires
            self.num_frames <= self.bitmap@.len() * 64,
            self.num_frames <= u64::MAX / FRAME_SIZE,
            forall|i: int| #[trigger] self@.free.contains(i) ==> 0 <= i < self@.frames,
            self@.search_start() <= self@.frames,
        ensures
            index_of(r) == self@.find_next_free(),
    {
        let search_start = match self.next_free_index {
            Some(k) => k,
            None => 0,
        };
        let ghost free = self@.free;
        let mut frame_index = search_start;
        while frame_index < self.num_frames
            invariant
                search_start <= frame_index <= self.num_frames,
                search_start == self@.search_start(),
                self.num_frames <= self.bitmap@.len() * 64,
                self.num_frames <= u64::MAX / FRAME_SIZE,
                free == self@.free,
                forall|i: int| #[trigger] self@.free.contains(i) ==> 0 <= i < self@.frames,
                forall|j: int| search_start <= j < frame_index ==> !#[trigger] free.contains(j),
            decreases self.num_frames - frame_index,
        {
            if self.get_state(frame_index) == FrameState::Free {
                proof {
                    lemma_first_free_skip(free, search_start as int, frame_index as int, self.num_frames as int);
                }
                return Some(frame_index);
            }
            frame_index = frame_index + 1;
        }
        proof {
            lemma_first_free_skip(free, search_start as int, self.num_frames as int, self.num_frames as int);
        }
        let mut frame_index: u64 = 0;
        while frame_index < search_start
            invariant
                frame_index <= search_start,
                search_start == self@.search_start(),
                search_start <= self.num_frames,
                self.num_frames <= self.bitmap@.len() * 64,
                self.num_frames <= u64::MAX / FRAME_SIZE,
                free == self@.free,
                first_free_in(free, search_start as int, self.num_frames as int) is None,
                forall|j: int| 0 <= j < frame_index ==> !#[trigger] free.contains(j),
            decreases search_start - frame_index,
        {
            if self.get_state(frame_index) == FrameState::Free {
                proof {
                    lemma_first_free_skip(free, 0, frame_index as int, search_start as int);
                }
                return Some(frame_index);
            }
            frame_index = frame_index + 1;
        }
        proof {
            lemma_first_free_skip(free, 0, search_start as int, search_start as int);
        }
        None
    }

    /// Marks frame `frame_index` as `state`; see `FrameMap::set_state`.
    fn set_state(&mut self, frame_index: u64, state: FrameState)
        requires
            old(self).wf(),
        ensures
            final(self).wf(),
            bitmap_encodes(final(self).words(), final(self)@),
            final(self)@ == old(self)@.set_state(frame_index as int, state),
    {
        proof {
            lemma_set_state_wf(self@, frame_index as int, state);
        }
        if frame_index < self.num_frames {
            proof {
                lemma_segment_in_bounds(frame_index as int, self.bitmap@.len() as int);
                assert(self.bitmap@.len() == self.bitmap.len());
            }
            if let Ok(segment) = usize::try_from(frame_index / 64) {
                let mask: u64 = 1u64 << (frame_index % 64);
                let ghost before = self@;
                let ghost old_bitmap = self.bitmap@;
                if state == FrameState::Allocated {
                    let word = self.bitmap[segment] | mask;
                    self.bitmap[segment] = word;
                    proof {
                        assert forall|j: int| 0 <= j < self.bitmap@.len() * 64 implies
                            #[trigger] frame_bit(self.bitmap@, j) == (j == frame_index || frame_bit(old_bitmap, j)) by {
                            lemma_segment_in_bounds(j, self.bitmap@.len() as int);
                            if j / 64 == segment {
                                lemma_set_bit(old_bitmap[j / 64], (frame_index % 64) as u64, (j % 64) as u64);
                            }
                        }
                        assert(self@.free =~= before.free.remove(frame_index as int));
                    }
                    if let Some(free_index) = self.next_free_index {
                        if free_index == frame_index {
                            self.next_free_index = self.find_next_free();
                        }
                    }
                } else {
                    let word = self.bitmap[segment] & !mask;
                    self.bitmap[segment] = word;
                    proof {
                        assert forall|j: int| 0 <= j < self.bitmap@.len() * 64 implies
                            #[trigger] frame_bit(self.bitmap@, j) == (j != frame_index && frame_bit(old_bitmap, j)) by {
                            lemma_segment_in_bounds(j, self.bitmap@.len() as int);
                            if j / 64 == segment {
                                lemma_clear_bit(old_bitmap[j / 64], (frame_index % 64) as u64, (j % 64) as u64);
                            }
                        }
                        assert(self@.free =~= before.free.insert(frame_index as int));
                    }
                    if self.next_free_index.is_none() {
                        self.next_free_index = Some(frame_index);
                    }
                }
            }
        }
    }

    /// Marks every frame that the `len` bytes from `addr` touch as `state`.
    fn set_region(&mut self, addr: u64, len: u64, state: FrameState)
        requires
            old(self).wf(),
            len + FRAME_SIZE <= u64::MAX,
        ensures
            final(self).wf(),
            bitmap_encodes(final(self).words(), final(self)@),
            final(self)@ == old(self)@.set_bytes(addr as int, len as int, state),
    {
        let start_index = addr / FRAME_SIZE;
        let num_frames = (len + FRAME_SIZE - 1) / FRAME_SIZE;
        let ghost before = self@;
        let mut i: u64 = 0;
        while i < num_frames
            invariant
                start_index == addr / FRAME_SIZE,
                num_frames == (len + FRAME_SIZE - 1) / FRAME_SIZE as int,
                i <= num_frames,
                self.wf(),
                self@ == before.set_range(start_index as int, i as nat, state),
            decreases num_frames - i,
        {
            self.set_state(start_index + i, state);
            i = i + 1;
        }
    }

    /// Hands out a free frame: the one at the cursor, which then moves on to
    /// the next free frame. `None` when no frame is free.
    pub fn allocate_frame(&mut self) -> (r: Option<PhysAddr>)
        requires
            old(self).wf(),
        ensures
            final(self).wf(),
            bitmap_encodes(final(self).words(), final(self)@),
            final(self)@ == old(self)@.allocate().0,
            match old(self)@.allocate().1 {
                Some(k) => r is Some && r->0@ == k * FRAME_SIZE,
                None => r is None,
            },
            r is None <==> old(self)@.exhausted(),
            r matches Some(a) ==> old(self)@.free.contains(a@ as int / FRAME_SIZE as int)
                && !final(self)@.free.contains(a@ as int / FRAME_SIZE as int),
    {
        if let Some(frame_index) = self.next_free_index {
            if self.get_state(frame_index) == FrameState::Free {
                self.set_state(frame_index, FrameState::Allocated);
                proof {
                    assert((frame_index * FRAME_SIZE) as int / FRAME_SIZE as int == frame_index) by (nonlinear_arith);
                }
                Some(PhysAddr::new(frame_index * FRAME_SIZE))
            } else {
                // The cursor always points to a free frame.
                proof {
                    assert(false);
                }
                None
            }
        } else {
            None
        }
    }

    /// Takes back the frame that holds `addr`. Addresses outside the managed
    /// memory are ignored.
    pub fn free_frame(&mut self, addr: PhysAddr)
        requires
            old(self).wf(),
        ensures
            final(self).wf(),
            bitmap_encodes(final(self).words(), final(self)@),
            final(self)@ == old(self)@.free_addr(addr@ as int),
    {
        let frame_index = addr.to_u64() / FRAME_SIZE;
        self.set_state(frame_index, FrameState::Free);
    }

    /// The number of frames that the allocator manages.
    pub fn frame_count(&self) -> (n: u64)
        ensures
            n == self@.frames,
    {
        self.num_frames
    }

    /// The number of free frames.
    pub fn free_frame_count(&self) -> (n: u64)
        requires
            self.wf(),
        ensures
            n == free_count(self@.free, self@.frames as int),
    {
        let mut count: u64 = 0;
        let mut i: u64 = 0;
        while i < self.num_frames
            invariant
                i <= self.num_frames,
                count <= i,
                count == free_count(self@.free, i as int),
                self.num_frames <= self.bitmap@.len() * 64,
            decreases self.num_frames - i,
        {
            if self.get_state(i) == FrameState::Free {
                count = count + 1;
            }
            i = i + 1;
        }
        count
    }

    /// Whether no frame is free.
    pub fn is_exhausted(&self) -> (b: bool)
        requires
            self.wf(),
        ensures
            b == self@.exhausted(),
    {
        self.next_free_index.is_none()
    }
}

} // verus!
