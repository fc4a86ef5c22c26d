use sos::boot_info::{MemoryMapInfo, MemoryRegion, MemoryType};
use sos::frame::{bitmap_layout, check_memory_map, FrameAllocator, MemoryMapError};

fn region(start: u64, len: u64, kind: MemoryType) -> MemoryRegion {
    MemoryRegion { start, len, kind }
}

/// Frames 0..16 free at address 0, a reserved hole, frames 32..40 free.
fn sample_map() -> MemoryMapInfo {
    MemoryMapInfo {
        regions: vec![
            region(0, 0x10000, MemoryType::Free),
            region(0x10000, 0x10000, MemoryType::Reserved),
            region(0x20000, 0x8000, MemoryType::Free),
        ],
    }
}

/// Memory for the bitmap of `map`, as many words as `bitmap_layout` asks.
fn storage_for(map: &MemoryMapInfo) -> Vec<u64> {
    vec![0; bitmap_layout(&map.regions).1]
}

fn allocate_all(allocator: &mut FrameAllocator) -> Vec<u64> {
    let mut addrs = Vec::new();
    while let Some(addr) = allocator.allocate_frame() {
        addrs.push(addr.to_u64());
    }
    addrs
}

#[test]
fn sample_map_is_usable() {
    assert!(check_memory_map(&sample_map().regions).is_ok());
}

#[test]
fn first_allocation_skips_null_frame_and_bitmap() {
    // Frame 0 is never handed out and frame 1 holds the bitmap.
    let mut allocator_bitmap = storage_for(&sample_map());
    let mut allocator = FrameAllocator::init(sample_map(), &mut allocator_bitmap);
    let frame = allocator.allocate_frame().unwrap();
    assert_eq!(frame.to_u64(), 0x2000);
}

#[test]
fn allocates_exactly_the_free_frames_in_order() {
    let mut allocator_bitmap = storage_for(&sample_map());
    let mut allocator = FrameAllocator::init(sample_map(), &mut allocator_bitmap);
    let addrs = allocate_all(&mut allocator);
    let mut expected: Vec<u64> = (2..16).map(|i| i * 4096).collect();
    expected.extend((32..40).map(|i| i * 4096));
    assert_eq!(addrs, expected);
    assert!(allocator.allocate_frame().is_none());
}

#[test]
fn free_after_allocate_gives_the_frame_back() {
    let mut allocator_bitmap = storage_for(&sample_map());
    let mut allocator = FrameAllocator::init(sample_map(), &mut allocator_bitmap);
    let frame = allocator.allocate_frame().unwrap();
    allocator.free_frame(frame);
    let addrs = allocate_all(&mut allocator);
    assert_eq!(addrs.len(), 22);
    assert!(addrs.contains(&0x2000));
}

#[test]
fn allocations_are_distinct() {
    let mut allocator_bitmap = storage_for(&sample_map());
    let mut allocator = FrameAllocator::init(sample_map(), &mut allocator_bitmap);
    let a = allocator.allocate_frame().unwrap();
    let b = allocator.allocate_frame().unwrap();
    assert_ne!(a, b);
    assert_eq!(b.to_u64(), 0x3000);
}

#[test]
fn freed_frame_is_next_when_exhausted() {
    let mut allocator_bitmap = storage_for(&sample_map());
    let mut allocator = FrameAllocator::init(sample_map(), &mut allocator_bitmap);
    let addrs = allocate_all(&mut allocator);
    let mut frames = Vec::new();
    let mut allocator2_bitmap = storage_for(&sample_map());
    let mut allocator2 = FrameAllocator::init(sample_map(), &mut allocator2_bitmap);
    for _ in 0..addrs.len() {
        frames.push(allocator2.allocate_frame().unwrap());
    }
    allocator2.free_frame(frames[5]);
    let again = allocator2.allocate_frame().unwrap();
    assert_eq!(again, frames[5]);
    assert!(allocator2.allocate_frame().is_none());
}

#[test]
fn cursor_wraps_around_to_lower_frames() {
    let mut allocator_bitmap = storage_for(&sample_map());
    let mut allocator = FrameAllocator::init(sample_map(), &mut allocator_bitmap);
    let first = allocator.allocate_frame().unwrap();
    let second = allocator.allocate_frame().unwrap();
    // Freeing the first frame while the cursor points further up: the
    // cursor stays, and the freed frame is found after the upper ones.
    allocator.free_frame(first);
    let rest = allocate_all(&mut allocator);
    assert_eq!(rest.len(), 21);
    assert_eq!(*rest.last().unwrap(), first.to_u64());
    assert!(!rest.contains(&second.to_u64()));
}

#[test]
fn map_without_free_memory_has_no_frames() {
    let map = MemoryMapInfo { regions: vec![region(0, 0x10000, MemoryType::Reserved)] };
    assert_eq!(check_memory_map(&map.regions), Err(MemoryMapError::NoRoomForBitmap));
}

#[test]
fn bitmap_placed_in_later_region_when_null_region_is_small() {
    // The region at 0 has one frame, which address 0 takes: no room there,
    // so the 8-byte bitmap goes to the next free region, at 0x4000.
    let map = MemoryMapInfo {
        regions: vec![
            region(0, 0x1000, MemoryType::Free),
            region(0x4000, 0x4000, MemoryType::Free),
        ],
    };
    assert!(check_memory_map(&map.regions).is_ok());
    let mut allocator_bitmap = storage_for(&map);
    let mut allocator = FrameAllocator::init(map, &mut allocator_bitmap);
    let addrs = allocate_all(&mut allocator);
    assert_eq!(addrs, vec![0x5000, 0x6000, 0x7000]);
}

#[test]
fn bitmap_after_null_frame_when_it_fits() {
    // Two frames at 0: the bitmap goes right after frame 0, leaving nothing.
    let map = MemoryMapInfo {
        regions: vec![
            region(0, 0x2000, MemoryType::Free),
            region(0x4000, 0x1000, MemoryType::Free),
        ],
    };
    let mut allocator_bitmap = storage_for(&map);
    let mut allocator = FrameAllocator::init(map, &mut allocator_bitmap);
    assert_eq!(allocate_all(&mut allocator), vec![0x4000]);
}

#[test]
fn single_frame_at_null_has_no_room() {
    let regions = vec![region(0, 0x1000, MemoryType::Free)];
    assert_eq!(check_memory_map(&regions), Err(MemoryMapError::NoRoomForBitmap));
}

#[test]
fn bitmap_frames_are_allocated() {
    // 8 MiB of free memory from 1 MiB: 2304 frames, 36 words, 288 bytes of
    // bitmap at 1 MiB, one frame.
    let map = MemoryMapInfo {
        regions: vec![region(0x100000, 0x800000, MemoryType::Free)],
    };
    let mut allocator_bitmap = storage_for(&map);
    let mut allocator = FrameAllocator::init(map, &mut allocator_bitmap);
    let first = allocator.allocate_frame().unwrap();
    assert_eq!(first.to_u64(), 0x101000);
    let rest = allocate_all(&mut allocator);
    assert_eq!(rest.len(), 0x800 - 2);
    assert!(!rest.contains(&0x100000));
}

#[test]
fn free_of_unmanaged_address_is_ignored() {
    // An address from an allocator over more memory lies beyond the frames
    // that the small allocator manages.
    let large_map = MemoryMapInfo {
        regions: vec![region(0x100000, 0x800000, MemoryType::Free)],
    };
    let mut large_bitmap = storage_for(&large_map);
    let mut large = FrameAllocator::init(large_map, &mut large_bitmap);
    let far = large.allocate_frame().unwrap();
    let mut small_bitmap = storage_for(&sample_map());
    let mut small = FrameAllocator::init(sample_map(), &mut small_bitmap);
    let before = allocate_all(&mut small);
    small.free_frame(far);
    assert!(small.allocate_frame().is_none());
    let mut small2_bitmap = storage_for(&sample_map());
    let mut small2 = FrameAllocator::init(sample_map(), &mut small2_bitmap);
    small2.free_frame(far);
    assert_eq!(allocate_all(&mut small2), before);
}

#[test]
fn error_end_overflow() {
    let regions = vec![region(u64::MAX, 1, MemoryType::Free)];
    assert_eq!(check_memory_map(&regions), Err(MemoryMapError::RegionEndOverflow));
}

#[test]
fn error_reserved_overflow_is_harmless() {
    let regions = vec![
        region(u64::MAX, 1, MemoryType::Reserved),
        region(0x1000, 0x4000, MemoryType::Free),
    ];
    assert!(check_memory_map(&regions).is_ok());
}

#[test]
fn null_region_shorter_than_a_frame_is_skipped() {
    let regions = vec![region(0, 100, MemoryType::Free), region(0x3000, 0x1000, MemoryType::Free)];
    assert!(check_memory_map(&regions).is_ok());
    let map = MemoryMapInfo { regions };
    let mut allocator_bitmap = storage_for(&map);
    let mut allocator = FrameAllocator::init(map, &mut allocator_bitmap);
    // Frame 3 holds the bitmap; frame 0 is never handed out.
    assert!(allocator.allocate_frame().is_none());
}

#[test]
fn error_no_room_for_bitmap() {
    let regions = vec![region(0x1_0000_0000, 4, MemoryType::Free)];
    assert_eq!(check_memory_map(&regions), Err(MemoryMapError::NoRoomForBitmap));
}

#[test]
fn error_region_length_overflow() {
    let regions = vec![region(0x800, u64::MAX - 0x800, MemoryType::Free)];
    assert_eq!(check_memory_map(&regions), Err(MemoryMapError::RegionLengthOverflow));
}

#[test]
fn counts_and_exhaustion() {
    let mut allocator_bitmap = storage_for(&sample_map());
    let mut allocator = FrameAllocator::init(sample_map(), &mut allocator_bitmap);
    assert_eq!(allocator.frame_count(), 40);
    assert_eq!(allocator.free_frame_count(), 22);
    assert!(!allocator.is_exhausted());
    let frame = allocator.allocate_frame().unwrap();
    assert_eq!(allocator.free_frame_count(), 21);
    allocate_all(&mut allocator);
    assert!(allocator.is_exhausted());
    assert_eq!(allocator.free_frame_count(), 0);
    allocator.free_frame(frame);
    assert!(!allocator.is_exhausted());
    assert_eq!(allocator.free_frame_count(), 1);
}

#[test]
fn freeing_twice_is_freeing_once() {
    let mut a_bitmap = storage_for(&sample_map());
    let mut a = FrameAllocator::init(sample_map(), &mut a_bitmap);
    let mut b_bitmap = storage_for(&sample_map());
    let mut b = FrameAllocator::init(sample_map(), &mut b_bitmap);
    let fa = a.allocate_frame().unwrap();
    let fb = b.allocate_frame().unwrap();
    a.allocate_frame().unwrap();
    b.allocate_frame().unwrap();
    a.free_frame(fa);
    b.free_frame(fb);
    b.free_frame(fb);
    assert_eq!(allocate_all(&mut a), allocate_all(&mut b));
}

#[test]
fn bitmap_layout_of_maps() {
    // A region at 0 gives up its first frame: the bitmap goes right after.
    assert_eq!(bitmap_layout(&sample_map().regions), (0x1000, 1));
    // 2304 frames take 36 words, placed at the start of the free region.
    assert_eq!(bitmap_layout(&vec![region(0x100000, 0x800000, MemoryType::Free)]), (0x100000, 36));
    // One frame at 0 has no room after address 0: the next region takes it.
    assert_eq!(
        bitmap_layout(&vec![region(0, 0x1000, MemoryType::Free), region(0x4000, 0x4000, MemoryType::Free)]),
        (0x4000, 1)
    );
}

#[test]
fn bitmap_contents_are_overwritten() {
    let map = sample_map();
    let mut storage = vec![0xdead_beef_u64; 1];
    let mut allocator = FrameAllocator::init(map, &mut storage);
    assert_eq!(allocator.free_frame_count(), 22);
    assert_eq!(allocator.allocate_frame().unwrap().to_u64(), 0x2000);
}
