use vstd::prelude::*;

verus! {

/// Size in bytes of one physical frame.
pub const FRAME_SIZE: u64 = 4096;

/// Whether a frame is handed out or available.
#[derive(PartialEq, Eq, Structural, Clone, Copy, Debug)]
pub enum FrameState {
    Allocated,
    Free,
}

/// The mathematical model of a frame allocator: `frames` frames, numbered
/// `0..frames`, of which those in `free` are available, and a cursor `next`
/// to the frame that the next allocation hands out.
pub struct FrameMap {
    pub frames: nat,
    pub free: Set<int>,
    pub next: Option<int>,
}

/// The first frame in `lo..hi` that `free` holds, scanning upwards.
pub open spec fn first_free_in(free: Set<int>, lo: int, hi: int) -> Option<int>
    decreases hi - lo,
{
    if lo >= hi {
        None
    } else if free.contains(lo) {
        Some(lo)
    } else {
        first_free_in(free, lo + 1, hi)
    }
}

impl FrameMap {
    /// The cursor is in range and points to a free frame, and it is absent
    /// only when no frame is free.
    pub open spec fn wf(self) -> bool {
        &&& forall|i: int| #[trigger] self.free.contains(i) ==> 0 <= i < self.frames
        &&& match self.next {
            Some(k) => self.free.contains(k),
            None => forall|i: int| !(#[trigger] self.free.contains(i)),
        }
    }

    /// No frame is free.
    pub open spec fn exhausted(self) -> bool {
        forall|i: int| !(#[trigger] self.free.contains(i))
    }

    /// Where a search for a free frame starts: at the cursor, or at frame 0.
    pub open spec fn search_start(self) -> int {
        match self.next {
            Some(k) => k,
            None => 0,
        }
    }

    /// The first free frame from the search start to the end, then from
    /// frame 0 up to the search start.
    pub open spec fn find_next_free(self) -> Option<int> {
        let s = self.search_start();
        match first_free_in(self.free, s, self.frames as int) {
            Some(x) => Some(x),
            None => first_free_in(self.free, 0, s),
        }
    }

    /// Marks frame `i` as `state`. Frames out of range are left alone.
    /// Allocating the cursor's frame moves the cursor to the next free
    /// frame; freeing a frame when there is no cursor sets the cursor to it.
    pub open spec fn set_state(self, i: int, state: FrameState) -> FrameMap {
        if 0 <= i < self.frames {
            match state {
                FrameState::Allocated => {
                    let m = FrameMap { free: self.free.remove(i), ..self };
                    if self.next == Some(i) {
                        FrameMap { next: m.find_next_free(), ..m }
                    } else {
                        m
                    }
                },
                FrameState::Free => FrameMap {
                    free: self.free.insert(i),
                    next: if self.next is None {
                        Some(i)
                    } else {
                        self.next
                    },
                    ..self
                },
            }
        } else {
            self
        }
    }

    /// Marks the `count` frames from `start` as `state`, in increasing order.
    pub open spec fn set_range(self, start: int, count: nat, state: FrameState) -> FrameMap
        decreases count,
    {
        if count == 0 {
            self
        } else {
            self.set_range(start, (count - 1) as nat, state).set_state(start + count - 1, state)
        }
    }

    /// Marks the frames that the byte range `len` bytes from `addr` touches
    /// as `state`: from the frame of `addr`, as many frames as `len` rounds
    /// up to.
    pub open spec fn set_bytes(self, addr: int, len: int, state: FrameState) -> FrameMap {
        self.set_range(addr / FRAME_SIZE as int, ((len + FRAME_SIZE - 1) / FRAME_SIZE as int) as nat, state)
    }

    /// Hands out the cursor's frame, if there is one: the frame becomes
    /// allocated and the frame's number is returned.
    pub open spec fn allocate(self) -> (FrameMap, Option<int>) {
        match self.next {
            Some(k) => (self.set_state(k, FrameState::Allocated), Some(k)),
            None => (self, None),
        }
    }

    /// Takes back the frame that holds address `addr`.
    pub open spec fn free_addr(self, addr: int) -> FrameMap {
        self.set_state(addr / FRAME_SIZE as int, FrameState::Free)
    }
}

/// What `first_free_in` returns is free and in the range; `None` means that
/// no frame of the range is free.
pub proof fn lemma_first_free_in(free: Set<int>, lo: int, hi: int)
    ensures
        match first_free_in(free, lo, hi) {
            Some(x) => lo <= x < hi && free.contains(x) && forall|j: int|
                lo <= j < x ==> !#[trigger] free.contains(j),
            None => forall|j: int| lo <= j < hi ==> !#[trigger] free.contains(j),
        },
    decreases hi - lo,
{
    if lo < hi && !free.contains(lo) {
        lemma_first_free_in(free, lo + 1, hi);
    }
}

/// A scan may skip a prefix in which no frame is free.
pub proof fn lemma_first_free_skip(free: Set<int>, lo: int, mid: int, hi: int)
    requires
        lo <= mid <= hi,
        forall|j: int| lo <= j < mid ==> !#[trigger] free.contains(j),
    ensures
        first_free_in(free, lo, hi) == first_free_in(free, mid, hi),
    decreases mid - lo,
{
    if lo < mid {
        lemma_first_free_skip(free, lo + 1, mid, hi);
    }
}

/// The search for the next free frame finds a free frame whenever one exists.
pub proof fn lemma_find_next_free(m: FrameMap)
    requires
        forall|i: int| #[trigger] m.free.contains(i) ==> 0 <= i < m.frames,
        0 <= m.search_start() <= m.frames,
    ensures
        match m.find_next_free() {
            Some(x) => m.free.contains(x),
            None => m.exhausted(),
        },
{
    let s = m.search_start();
    lemma_first_free_in(m.free, s, m.frames as int);
    lemma_first_free_in(m.free, 0, s);
}

/// Every step of the allocator keeps the model well formed.
pub proof fn lemma_set_state_wf(m: FrameMap, i: int, state: FrameState)
    requires
        m.wf(),
    ensures
        m.set_state(i, state).wf(),
        m.set_state(i, state).frames == m.frames,
{
    if 0 <= i < m.frames {
        match state {
            FrameState::Allocated => {
                let m2 = FrameMap { free: m.free.remove(i), ..m };
                if m.next == Some(i) {
                    lemma_find_next_free(m2);
                }
            },
            FrameState::Free => {},
        }
    }
}

/// Marking a range keeps the model well formed.
pub proof fn lemma_set_range_wf(m: FrameMap, start: int, count: nat, state: FrameState)
    requires
        m.wf(),
    ensures
        m.set_range(start, count, state).wf(),
        m.set_range(start, count, state).frames == m.frames,
    decreases count,
{
    if count > 0 {
        lemma_set_range_wf(m, start, (count - 1) as nat, state);
        lemma_set_state_wf(m.set_range(start, (count - 1) as nat, state), start + count - 1, state);
    }
}

} // verus!
