use vstd::prelude::*;

verus! {

/// What a region of physical memory is used for, as the loader reports it.
#[derive(Debug, Clone, Copy, PartialEq, Eq, Structural)]
pub enum MemoryType {
    /// Usable RAM.
    Free,
    /// Hardware reserved memory and holes.
    Reserved,
    /// Kernel code and data.
    Kernel,
    /// ACPI tables.
    Acpi,
    /// Non-volatile storage (sleep data).
    Nvs,
    /// Memory the bootloader used, reclaimable.
    Bootloader,
}

/// One contiguous region of physical memory: `len` bytes from `start`.
#[derive(Debug, Clone, Copy)]
pub struct MemoryRegion {
    pub start: u64,
    pub len: u64,
    pub kind: MemoryType,
}

/// The physical memory map handed from the loader to the kernel.
pub struct MemoryMapInfo {
    pub regions: Vec<MemoryRegion>,
}

impl MemoryMapInfo {
    /// The number of regions in the map.
    pub fn count(&self) -> (n: usize)
        ensures
            n == self.regions@.len(),
    {
        self.regions.len()
    }
}

/// Everything the loader hands to the kernel's entry point.
pub struct BootInfo {
    pub memory_map: MemoryMapInfo,
}

} // verus!
