use sos::boot_info::{MemoryMapInfo, MemoryRegion, MemoryType};
use sos::kernel_image::{load_kernel, LoadError};
use sos::uefi_memory::{memory_map_pages, memory_type_from_uefi, region_from_uefi};

fn put_u16(v: &mut Vec<u8>, x: u16) {
    v.extend_from_slice(&x.to_le_bytes());
}
fn put_u32(v: &mut Vec<u8>, x: u32) {
    v.extend_from_slice(&x.to_le_bytes());
}
fn put_u64(v: &mut Vec<u8>, x: u64) {
    v.extend_from_slice(&x.to_le_bytes());
}

/// A little-endian x86_64 ELF executable with the given program headers
/// (type, offset, paddr, filesz, memsz) and entry point.
fn elf_image(entry: u64, headers: &[(u32, u64, u64, u64, u64)]) -> Vec<u8> {
    let mut v = vec![0x7f, b'E', b'L', b'F', 2, 1, 1, 0, 0, 0, 0, 0, 0, 0, 0, 0];
    put_u16(&mut v, 2); // ET_EXEC
    put_u16(&mut v, 0x3e); // x86_64
    put_u32(&mut v, 1);
    put_u64(&mut v, entry);
    put_u64(&mut v, 64); // program headers right after the header
    put_u64(&mut v, 0); // no section headers
    put_u32(&mut v, 0);
    put_u16(&mut v, 64);
    put_u16(&mut v, 56);
    put_u16(&mut v, headers.len() as u16);
    put_u16(&mut v, 64);
    put_u16(&mut v, 0);
    put_u16(&mut v, 0);
    for &(ty, offset, paddr, filesz, memsz) in headers {
        put_u32(&mut v, ty);
        put_u32(&mut v, 5);
        put_u64(&mut v, offset);
        put_u64(&mut v, paddr);
        put_u64(&mut v, paddr);
        put_u64(&mut v, filesz);
        put_u64(&mut v, memsz);
        put_u64(&mut v, 0x1000);
    }
    v.resize(0x400, 0xcc);
    v
}

#[test]
fn plans_loadable_segments_only() {
    let image = elf_image(
        0x100000,
        &[
            (1, 0, 0x100000, 0x100, 0x2001),
            (4, 0x200, 0, 0x10, 0x10),
            (1, 0x300, 0x200000, 0x100, 0x1000),
        ],
    );
    let plan = match load_kernel(&image) {
        Ok(plan) => plan,
        Err(_) => panic!("the image should parse"),
    };
    assert_eq!(plan.entry, 0x100000);
    assert_eq!(plan.segments.len(), 2);
    let s = plan.segments[0];
    assert_eq!((s.start_addr, s.num_pages, s.mem_size, s.file_offset, s.file_size), (0x100000, 3, 0x2001, 0, 0x100));
    let s = plan.segments[1];
    assert_eq!((s.start_addr, s.num_pages, s.mem_size, s.file_offset, s.file_size), (0x200000, 1, 0x1000, 0x300, 0x100));
}

#[test]
fn empty_segment_takes_no_pages() {
    let image = elf_image(0x5000, &[(1, 0, 0x5000, 0, 0)]);
    let plan = match load_kernel(&image) {
        Ok(plan) => plan,
        Err(_) => panic!("the image should parse"),
    };
    assert_eq!(plan.segments.len(), 1);
    assert_eq!(plan.segments[0].num_pages, 0);
}

#[test]
fn rejects_what_is_not_elf() {
    match load_kernel(b"this is not an ELF image at all, just some text") {
        Err(LoadError::InvalidElf(message)) => {
            assert!(message.starts_with("Could not parse elf: "));
            assert!(message.len() > "Could not parse elf: ".len());
        }
        Ok(_) => panic!("text is no ELF image"),
    }
}

#[test]
fn uefi_memory_types() {
    assert_eq!(memory_type_from_uefi(7), MemoryType::Free);
    assert_eq!(memory_type_from_uefi(1), MemoryType::Bootloader);
    assert_eq!(memory_type_from_uefi(2), MemoryType::Bootloader);
    assert_eq!(memory_type_from_uefi(9), MemoryType::Acpi);
    assert_eq!(memory_type_from_uefi(10), MemoryType::Nvs);
    assert_eq!(memory_type_from_uefi(0), MemoryType::Reserved);
    assert_eq!(memory_type_from_uefi(3), MemoryType::Reserved);
    assert_eq!(memory_type_from_uefi(11), MemoryType::Reserved);
}

#[test]
fn uefi_descriptor_to_region() {
    let r = region_from_uefi(0x100000, 16, 7);
    assert_eq!((r.start, r.len, r.kind), (0x100000, 0x10000, MemoryType::Free));
}

#[test]
fn memory_map_buffer_pages() {
    assert_eq!(memory_map_pages(0, 24), 2);
    assert_eq!(memory_map_pages(100, 24), 2);
    assert_eq!(memory_map_pages(200, 24), 3);
    assert_eq!(memory_map_pages(1024, 24), 8);
}

#[test]
fn memory_map_count() {
    let map = MemoryMapInfo {
        regions: vec![MemoryRegion { start: 0, len: 4096, kind: MemoryType::Free }],
    };
    assert_eq!(map.count(), 1);
}
