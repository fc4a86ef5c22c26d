use vstd::prelude::*;
use vstd::string::StringExecFns;

verus! {

/// Size in bytes of a UEFI page, the unit in which the loader allocates.
pub const PAGE_SIZE: usize = 4096;

/// The ELF program header type of a loadable segment.
pub const PT_LOAD: u32 = 1;

/// The fields of an ELF program header that loading reads.
#[derive(Clone, Copy, Debug)]
pub struct SegmentHeader {
    pub p_type: u32,
    pub p_offset: u64,
    pub p_paddr: u64,
    pub p_filesz: u64,
    pub p_memsz: u64,
}

impl View for SegmentHeader {
    type V = (u32, u64, u64, u64, u64);

    open spec fn view(&self) -> (u32, u64, u64, u64, u64) {
        (self.p_type, self.p_offset, self.p_paddr, self.p_filesz, self.p_memsz)
    }
}

/// What loading reads of a parsed ELF image: the entry point and the
/// program headers, in file order.
pub struct ElfSummary {
    pub entry: u64,
    pub program_headers: Vec<SegmentHeader>,
}

impl View for ElfSummary {
    type V = (u64, Seq<(u32, u64, u64, u64, u64)>);

    open spec fn view(&self) -> (u64, Seq<(u32, u64, u64, u64, u64)>) {
        (self.entry, self.program_headers@.map_values(|h: SegmentHeader| h@))
    }
}

/// What goblin's ELF parser makes of `bytes`: `None` when it rejects them,
/// else the entry point and the program headers' (type, file offset,
/// physical address, file size, memory size), in file order.
pub uninterp spec fn parsed_elf(bytes: Seq<u8>) -> Option<(u64, Seq<(u32, u64, u64, u64, u64)>)>;

/// The message of goblin's ELF parser when it rejects `bytes`, as the
/// `Display` impl of its error writes it.
pub uninterp spec fn elf_error_message(bytes: Seq<u8>) -> Seq<char>;

/// Parses `bytes` as an ELF image with `goblin::elf::Elf::parse` and keeps
/// the entry point and the program headers, or the text of the error.
/// Trusted: the result is `Ok` exactly when goblin accepts the bytes; it is
/// what goblin read from them, named by `parsed_elf`, and the error's text
/// is named by `elf_error_message`.
#[verifier::external_body]
fn parse_elf(bytes: &[u8]) -> (r: Result<ElfSummary, String>)
    ensures
        match r {
            Ok(summary) => parsed_elf(bytes@) == Some(summary@),
            Err(text) => parsed_elf(bytes@) is None && text@ == elf_error_message(bytes@),
        },
{
    let elf = match goblin::elf::Elf::parse(bytes) {
        Ok(elf) => elf,
        Err(e) => return Err(format!("{e}")),
    };
    let headers = elf.program_headers.iter().map(|ph| SegmentHeader {
        p_type: ph.p_type,
        p_offset: ph.p_offset,
        p_paddr: ph.p_paddr,
        p_filesz: ph.p_filesz,
        p_memsz: ph.p_memsz,
    }).collect();
    Ok(ElfSummary { entry: elf.entry, program_headers: headers })
}

/// How to load one segment: allocate `num_pages` pages at `start_addr`,
/// zero `mem_size` bytes there, then copy `file_size` bytes of the image
/// from `file_offset`.
#[derive(Clone, Copy, Debug)]
pub struct SegmentLoad {
    pub start_addr: u64,
    pub num_pages: usize,
    pub mem_size: usize,
    pub file_offset: usize,
    pub file_size: usize,
}

/// How to load a kernel image: its loadable segments, in file order, and
/// the address to jump to.
pub struct KernelLoadPlan {
    pub segments: Vec<SegmentLoad>,
    pub entry: u64,
}

/// Why a kernel image cannot be loaded.
pub enum LoadError {
    /// The ELF parser rejected the image; the message says so and gives
    /// the parser's reason.
    InvalidElf(String),
}

/// The number of pages that `size` bytes take, rounded up.
pub open spec fn pages_for(size: int) -> int {
    if size % PAGE_SIZE as int == 0 {
        size / PAGE_SIZE as int
    } else {
        size / PAGE_SIZE as int + 1
    }
}

/// The message of a kernel image that the ELF parser rejects: "Could not
/// parse elf: " and the parser's message.
pub open spec fn invalid_elf_message(bytes: Seq<u8>) -> Seq<char> {
    "Could not parse elf: "@ + elf_error_message(bytes)
}

/// The pages planned for a segment hold all of its bytes, and no page more
/// than they need.
pub proof fn law_pages_cover_segment(size: int)
    requires
        size >= 0,
    ensures
        pages_for(size) * PAGE_SIZE >= size,
        (pages_for(size) - 1) * PAGE_SIZE < size || size == 0,
        size == 0 ==> pages_for(size) == 0,
{
    assert(size == (size / 4096) * 4096 + size % 4096) by (nonlinear_arith);
}

/// How to load a segment with program header `h`; sizes and offsets are
/// taken as `usize`.
pub open spec fn segment_load(h: (u32, u64, u64, u64, u64)) -> SegmentLoad {
    let mem_size = h.4 as usize;
    SegmentLoad {
        start_addr: h.2,
        num_pages: pages_for(mem_size as int) as usize,
        mem_size: mem_size,
        file_offset: h.1 as usize,
        file_size: h.3 as usize,
    }
}

/// The loads of the loadable segments among `headers`, in order.
pub open spec fn planned_segments(headers: Seq<(u32, u64, u64, u64, u64)>) -> Seq<SegmentLoad>
    decreases headers.len(),
{
    if headers.len() == 0 {
        Seq::empty()
    } else {
        let rest = planned_segments(headers.drop_last());
        if headers.last().0 == PT_LOAD {
            rest.push(segment_load(headers.last()))
        } else {
            rest
        }
    }
}

/// The plan for loading the image whose parse is `elf`.
pub fn plan_load(elf: &ElfSummary) -> (plan: KernelLoadPlan)
    ensures
        plan.entry == elf@.0,
        plan.segments@ == planned_segments(elf@.1),
{
    let mut segments: Vec<SegmentLoad> = Vec::new();
    let mut k: usize = 0;
    while k < elf.program_headers.len()
        invariant
            k <= elf.program_headers@.len(),
            segments@ == planned_segments(elf@.1.take(k as int)),
        decreases elf.program_headers@.len() - k,
    {
        let ph = elf.program_headers[k];
        proof {
            assert(elf@.1.take(k + 1).drop_last() =~= elf@.1.take(k as int));
            assert(elf@.1.take(k + 1).last() == ph@);
        }
        if ph.p_type == PT_LOAD {
            let mem_size = ph.p_memsz as usize;
            let num_pages = if mem_size % PAGE_SIZE == 0 {
                mem_size / PAGE_SIZE
            } else {
                mem_size / PAGE_SIZE + 1
            };
            segments.push(
                SegmentLoad {
                    start_addr: ph.p_paddr,
                    num_pages,
                    mem_size,
                    file_offset: ph.p_offset as usize,
                    file_size: ph.p_filesz as usize,
                },
            );
        }
        k = k + 1;
    }
    proof {
        assert(elf@.1.take(k as int) =~= elf@.1);
    }
    KernelLoadPlan { segments, entry: elf.entry }
}

/// Parses the kernel image and plans its load: every loadable segment is
/// placed at its physical address. Fails exactly when the ELF parser
/// rejects the image.
pub fn load_kernel(kernel_elf: &[u8]) -> (r: Result<KernelLoadPlan, LoadError>)
    ensures
        r is Err <==> parsed_elf(kernel_elf@) is None,
        r matches Err(LoadError::InvalidElf(message)) ==> message@ == invalid_elf_message(kernel_elf@),
        r matches Ok(plan) ==> ({
            let elf = parsed_elf(kernel_elf@)->0;
            &&& plan.entry == elf.0
            &&& plan.segments@ == planned_segments(elf.1)
        }),
{
    match parse_elf(kernel_elf) {
        Ok(elf) => Ok(plan_load(&elf)),
        Err(text) => {
            let mut message = String::from_str("Could not parse elf: ");
            message.append(text.as_str());
            Err(LoadError::InvalidElf(message))
        },
    }
}

/// The loadable (PT_LOAD) headers among `headers`, in order.
pub open spec fn pt_load_headers(headers: Seq<(u32, u64, u64, u64, u64)>) -> Seq<(u32, u64, u64, u64, u64)> {
    headers.filter(|h: (u32, u64, u64, u64, u64)| h.0 == 1u32)
}

/// The plan loads exactly the loadable (PT_LOAD) segments, in file order:
/// every other program header, whatever its type's bits, is left out.
pub proof fn law_plan_loads_exactly_pt_load(headers: Seq<(u32, u64, u64, u64, u64)>)
    ensures
        planned_segments(headers).len() == pt_load_headers(headers).len(),
        forall|i: int|
            0 <= i < planned_segments(headers).len() ==> #[trigger] planned_segments(headers)[i]
                == segment_load(pt_load_headers(headers)[i]),
        forall|i: int| 0 <= i < pt_load_headers(headers).len() ==> (#[trigger] pt_load_headers(headers)[i]).0 == 1u32,
    decreases headers.len(),
{
    if headers.len() > 0 {
        law_plan_loads_exactly_pt_load(headers.drop_last());
        let rest = pt_load_headers(headers.drop_last());
        reveal(Seq::filter);
        assert(pt_load_headers(headers) == (if headers.last().0 == 1u32 {
            rest.push(headers.last())
        } else {
            rest
        }));
    }
}

} // verus!
