use vstd::prelude::*;
use crate::boot_info::{MemoryRegion, MemoryType};
use crate::kernel_image::PAGE_SIZE;

verus! {

/// UEFI memory type of the loader's code.
pub const UEFI_LOADER_CODE: u32 = 1;

/// UEFI memory type of the loader's data.
pub const UEFI_LOADER_DATA: u32 = 2;

/// UEFI memory type of free memory.
pub const UEFI_CONVENTIONAL: u32 = 7;

/// UEFI memory type of ACPI tables that can be reclaimed.
pub const UEFI_ACPI_RECLAIM: u32 = 9;

/// UEFI memory type of ACPI non-volatile storage.
pub const UEFI_ACPI_NON_VOLATILE: u32 = 10;

/// What the kernel makes of a UEFI memory type.
pub open spec fn spec_memory_type(ty: u32) -> MemoryType {
    if ty == UEFI_CONVENTIONAL {
        MemoryType::Free
    } else if ty == UEFI_LOADER_CODE || ty == UEFI_LOADER_DATA {
        MemoryType::Bootloader
    } else if ty == UEFI_ACPI_RECLAIM {
        MemoryType::Acpi
    } else if ty == UEFI_ACPI_NON_VOLATILE {
        MemoryType::Nvs
    } else {
        MemoryType::Reserved
    }
}

/// Classifies a UEFI memory type: free memory, the loader's own memory,
/// ACPI tables, ACPI non-volatile storage, and reserved for all others.
pub fn memory_type_from_uefi(ty: u32) -> (kind: MemoryType)
    ensures
        kind == spec_memory_type(ty),
{
    match ty {
        UEFI_CONVENTIONAL => MemoryType::Free,
        UEFI_LOADER_CODE => MemoryType::Bootloader,
        UEFI_LOADER_DATA => MemoryType::Bootloader,
        UEFI_ACPI_RECLAIM => MemoryType::Acpi,
        UEFI_ACPI_NON_VOLATILE => MemoryType::Nvs,
        _ => MemoryType::Reserved,
    }
}

/// The region of a UEFI memory descriptor: `page_count` pages from
/// `phys_start`.
pub fn region_from_uefi(phys_start: u64, page_count: u64, ty: u32) -> (r: MemoryRegion)
    requires
        page_count * PAGE_SIZE <= u64::MAX,
    ensures
        r.start == phys_start,
        r.len == page_count * PAGE_SIZE,
        r.kind == spec_memory_type(ty),
{
    MemoryRegion {
        start: phys_start,
        len: page_count * PAGE_SIZE as u64,
        kind: memory_type_from_uefi(ty),
    }
}

/// The number of pages to allocate for a memory map of `num_regions`
/// regions of `region_size` bytes each: what they take, rounded down, and
/// two pages to spare.
pub fn memory_map_pages(num_regions: usize, region_size: usize) -> (pages: usize)
    requires
        num_regions * region_size <= usize::MAX,
    ensures
        pages == 2 + num_regions * region_size / PAGE_SIZE as int,
{
    proof {
        assert(num_regions * region_size / 4096 <= usize::MAX / 4096) by (nonlinear_arith)
            requires
                num_regions * region_size <= usize::MAX,
        ;
    }
    2 + num_regions * region_size / PAGE_SIZE
}

} // verus!
