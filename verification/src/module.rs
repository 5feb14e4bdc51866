use vstd::prelude::*;
use crate::PAGE_SIZE;
use crate::errno::MapError;
use crate::image::{MAX_REGION, MAX_ADDR, spec_image_wf, spec_load_end, spec_region_size, is_loadable, Image, Program, ProgramKind, SymbolInfo, RelocEntry, DynamicInfo, ModuleInfo, ProcParam, EhInfo, TlsInfo, R_X86_64_RELATIVE, spec_loadable};
use crate::util::{spec_align_up, align_up, spec_splice, splice_copy, lemma_align_up_ge, lemma_align_up_mono, lemma_align_up_exact};

verus! {

/// Protection bit: readable.
pub const PROT_READ: u8 = 1;

/// Protection bit: writable.
pub const PROT_WRITE: u8 = 2;

/// Protection bit: executable.
pub const PROT_EXEC: u8 = 4;

/// How a relocation-table entry was last resolved. A recorded entry is
/// never re-resolved; this is what makes re-running a relocation pass
/// idempotent.
#[derive(Debug, Clone, Copy, PartialEq, Eq, Structural)]
pub enum Relocated {
    /// Resolved to executable code at this address.
    Executable(u64),
    /// Resolved to data at this address, owned by the module with this id.
    Data(u32, u64),
    /// Resolved to a thread-local-storage reference: owner id and index.
    Tls(u32, u64),
}

/// Mutable one-time-operation flags of a module.
#[derive(Debug, Clone, Copy, PartialEq, Eq, Structural)]
pub struct ModuleFlags {
    /// The module is the process's primary image.
    pub main_prog: bool,
    /// The dependency lists have been seeded.
    pub dag_inited: bool,
    /// The thread-local-storage pass has visited the module.
    pub tls_done: bool,
    /// The image declares relocations inside its text segment.
    pub text_rel: bool,
    /// The procedure-linkage-table relocations were already applied.
    pub jmpslots_done: bool,
    /// The module is a system module.
    pub is_system: bool,
    /// Initialization and finalization addresses are withheld from
    /// queries.
    pub not_get_proc: bool,
    /// A mode bit copied from the load request; not interpreted here.
    pub unk1: bool,
    /// A second such mode bit.
    pub unk2: bool,
}

impl ModuleFlags {
    /// All flags cleared.
    pub open spec fn spec_empty() -> ModuleFlags {
        ModuleFlags {
            main_prog: false,
            dag_inited: false,
            tls_done: false,
            text_rel: false,
            jmpslots_done: false,
            is_system: false,
            not_get_proc: false,
            unk1: false,
            unk2: false,
        }
    }

    pub fn empty() -> (r: ModuleFlags)
        ensures
            r == ModuleFlags::spec_empty(),
    {
        ModuleFlags {
            main_prog: false,
            dag_inited: false,
            tls_done: false,
            text_rel: false,
            jmpslots_done: false,
            is_system: false,
            not_get_proc: false,
            unk1: false,
            unk2: false,
        }
    }
}

/// A segment of a module's mapped region.
#[derive(Debug, Clone, Copy, PartialEq, Eq, Structural)]
pub struct MemorySegment {
    /// Region-relative start.
    pub start: usize,
    pub len: usize,
    /// Protection bits applied after relocation.
    pub prot: u8,
    /// The program header the segment came from.
    pub program: Option<usize>,
}

/// The virtual region a module is mapped into. The bytes themselves live
/// in a [`ModuleMem`], owned by the address space: the loader mutates
/// them only during relocation, under exclusive access.
pub struct Memory {
    /// Virtual address of the region.
    pub addr: u64,
    /// Offset of the image inside the region; relocation targets are
    /// relative to it.
    pub base: usize,
    /// Size of the region in bytes.
    pub size: usize,
    pub segments: Vec<MemorySegment>,
    /// Index of the text segment in `segments`.
    pub text_index: usize,
    /// Index of the data segment in `segments`.
    pub data_index: usize,
    /// Index of the read-only-after-relocation segment, if any.
    pub relro_index: Option<usize>,
}

/// The mapped bytes of one module together with its relocation cache,
/// held by the address space next to the module's metadata.
pub struct ModuleMem {
    pub bytes: Vec<u8>,
    /// One slot per relocation-table entry (general table first, then the
    /// procedure-linkage-table subset): how it was last resolved.
    pub reloc_cache: Vec<Option<Relocated>>,
}

/// A loaded executable or shared object.
pub struct Module {
    /// Numeric id: zero for the main program, unique while loaded.
    pub id: u32,
    /// Canonical path the module was loaded from.
    pub path: Vec<u8>,
    /// Declared library names.
    pub names: Vec<Vec<u8>>,
    pub flags: ModuleFlags,
    /// Incremented when the same path is loaded again.
    pub ref_count: u32,
    pub mem: Memory,
    pub dynamic: Option<DynamicInfo>,
    /// Declared module metadata; the entry with id zero is the module
    /// itself.
    pub modules_info: Vec<ModuleInfo>,
    pub tls_info: Option<TlsInfo>,
    /// Thread-local-storage slot index; zero means none, one is the first
    /// usable slot.
    pub tls_index: u32,
    /// Byte offset of the block inside the static thread-local-storage
    /// space; filled by the allocator.
    pub tls_offset: usize,
    /// Modules visible to this module's symbol searches, in search order.
    pub dag_static: Vec<u32>,
    /// The dynamically extended variant of the same list.
    pub dag_dynamic: Vec<u32>,
    pub proc_param: Option<ProcParam>,
    pub mod_param: Option<usize>,
    pub eh: Option<EhInfo>,
    pub init: Option<usize>,
    pub fini: Option<usize>,
    pub fingerprint: Vec<u8>,
    pub sdk_ver: u32,
}

impl Module {
    /// The module's symbol table.
    pub open spec fn spec_symbols(&self) -> Seq<SymbolInfo> {
        if self.dynamic is Some {
            self.dynamic->Some_0.symbols@
        } else {
            Seq::empty()
        }
    }

    /// The module's general relocation table.
    pub open spec fn spec_relocs(&self) -> Seq<RelocEntry> {
        if self.dynamic is Some {
            self.dynamic->Some_0.relocs@
        } else {
            Seq::empty()
        }
    }

    /// The module's procedure-linkage-table relocation subset.
    pub open spec fn spec_plt_relocs(&self) -> Seq<RelocEntry> {
        if self.dynamic is Some {
            self.dynamic->Some_0.plt_relocs@
        } else {
            Seq::empty()
        }
    }

    /// The number of relocation cache slots the module needs.
    pub open spec fn spec_reloc_slots(&self) -> int {
        self.spec_relocs().len() + self.spec_plt_relocs().len() as int
    }

    /// Well-formedness of a module's metadata: established by mapping and
    /// preserved by every loader operation.
    pub open spec fn wf(&self) -> bool {
        &&& self.mem.addr <= MAX_ADDR
        &&& self.mem.base == 0
        &&& self.mem.size <= MAX_REGION
        &&& forall|i: int| 0 <= i < self.mem.segments@.len() ==> {
            let s = #[trigger] self.mem.segments@[i];
            s.start + s.len <= self.mem.size
        }
        &&& self.mem.text_index < self.mem.segments@.len()
        &&& self.mem.data_index < self.mem.segments@.len()
        &&& self.mem.relro_index matches Some(ri) ==> ri < self.mem.segments@.len()
        &&& self.spec_symbols().len() <= 0x100_0000
        &&& self.spec_relocs().len() <= 0x100_0000
        &&& self.spec_plt_relocs().len() <= 0x100_0000
        &&& forall|i: int| 0 <= i < self.spec_symbols().len()
            ==> (#[trigger] self.spec_symbols()[i]).value <= MAX_REGION
        &&& forall|i: int| 0 <= i < self.spec_relocs().len() ==> {
            let r = #[trigger] self.spec_relocs()[i];
            &&& self.mem.base + r.offset + 8 <= self.mem.size
            &&& r.symbol < self.spec_symbols().len()
            &&& r.ty == R_X86_64_RELATIVE ==> 0 <= r.addend <= MAX_REGION
                && spec_find_seg(self.mem.segments@, 0, self.mem.base + r.addend) is Some
        }
        &&& forall|i: int| 0 <= i < self.spec_plt_relocs().len() ==> {
            let r = #[trigger] self.spec_plt_relocs()[i];
            &&& self.mem.base + r.offset + 8 <= self.mem.size
            &&& r.symbol < self.spec_symbols().len()
        }
        &&& self.tls_info matches Some(t) ==> t.align >= 1 && t.size <= MAX_REGION
            && t.align <= MAX_REGION && t.init <= MAX_REGION && t.init_size <= MAX_REGION
        &&& self.proc_param matches Some(pp) ==> pp.offset <= MAX_REGION && pp.size <= MAX_REGION
        &&& self.mod_param matches Some(mp) ==> mp <= MAX_REGION
        &&& self.eh matches Some(e) ==> e.header <= MAX_REGION && e.header_size <= MAX_REGION
            && e.frame <= MAX_REGION && e.frame_size <= MAX_REGION
        &&& self.init matches Some(v) ==> v <= MAX_REGION
        &&& self.fini matches Some(v) ==> v <= MAX_REGION
    }

    /// Consistency of a module's mapped bytes and relocation cache with
    /// its metadata.
    pub open spec fn mem_wf(&self, mm: ModuleMem) -> bool {
        &&& mm.bytes@.len() == self.mem.size
        &&& mm.reloc_cache@.len() == self.spec_reloc_slots()
    }
}

/// The first segment that contains the offset and came from a program
/// header.
pub open spec fn spec_find_seg(segs: Seq<MemorySegment>, k: int, off: int) -> Option<int>
    decreases segs.len() - k,
{
    if k < 0 || k >= segs.len() {
        None
    } else if segs[k].program is Some && segs[k].start <= off < segs[k].start + segs[k].len {
        Some(k)
    } else {
        spec_find_seg(segs, k + 1, off)
    }
}

/// Finds the segment containing a region-relative offset.
pub fn find_seg(segs: &Vec<MemorySegment>, off: usize) -> (r: Option<usize>)
    ensures
        (match r {
            Some(k) => spec_find_seg(segs@, 0, off as int) == Some(k as int) && k < segs@.len(),
            None => spec_find_seg(segs@, 0, off as int) is None,
        }),
{
    let n = segs.len();
    let mut k: usize = 0;
    while k < n
        invariant
            0 <= k <= n,
            n == segs@.len(),
            spec_find_seg(segs@, 0, off as int) == spec_find_seg(segs@, k as int, off as int),
        decreases n - k,
    {
        let s = segs[k];
        if s.program.is_some() && s.start <= off && off - s.start < s.len {
            return Some(k);
        }
        k = k + 1;
    }
    None
}

/// A bump allocator over the process's virtual address space; stands in
/// for the address-space manager collaborator.
pub struct AddrSpace {
    /// The next address handed out.
    pub next: u64,
    /// End of the space available for module regions.
    pub limit: u64,
}

impl AddrSpace {
    pub open spec fn wf(&self) -> bool {
        self.next <= self.limit <= MAX_ADDR
    }

    pub fn new(next: u64, limit: u64) -> (r: AddrSpace)
        requires
            next <= limit <= MAX_ADDR,
        ensures
            r.wf() && r.next == next && r.limit == limit,
    {
        AddrSpace { next, limit }
    }

    /// Reserves `size` bytes, at `fixed` when it is non-zero, else at the
    /// next free address. Fails on exhaustion.
    pub fn reserve(&mut self, size: usize, fixed: u64) -> (r: Option<u64>)
        requires
            old(self).wf(),
            fixed <= MAX_ADDR,
        ensures
            (*final(self)).wf(),
            (*final(self)).limit == old(self).limit,
            (if fixed != 0 {
                r == Some(fixed) && *final(self) == *old(self)
            } else if old(self).next + size <= old(self).limit {
                r == Some(old(self).next) && (*final(self)).next == old(self).next + size
            } else {
                r is None && *final(self) == *old(self)
            }),
    {
        if fixed != 0 {
            Some(fixed)
        } else if size as u64 <= self.limit - self.next {
            let addr = self.next;
            self.next = self.next + size as u64;
            Some(addr)
        } else {
            None
        }
    }
}

/// Count of executable loadable programs among the first `n`.
pub open spec fn spec_count_exec(programs: Seq<Program>, n: int) -> int
    decreases n,
{
    if n <= 0 {
        0
    } else {
        spec_count_exec(programs, n - 1)
            + if programs[n - 1].kind == ProgramKind::Load && programs[n - 1].executable {
                1int
            } else {
                0int
            }
    }
}

/// Count of non-executable loadable programs among the first `n`.
pub open spec fn spec_count_data(programs: Seq<Program>, n: int) -> int
    decreases n,
{
    if n <= 0 {
        0
    } else {
        spec_count_data(programs, n - 1)
            + if programs[n - 1].kind == ProgramKind::Load && !programs[n - 1].executable {
                1int
            } else {
                0int
            }
    }
}

/// Count of read-only-after-relocation programs among the first `n`.
pub open spec fn spec_count_relro(programs: Seq<Program>, n: int) -> int
    decreases n,
{
    if n <= 0 {
        0
    } else {
        spec_count_relro(programs, n - 1)
            + if programs[n - 1].kind == ProgramKind::Relro {
                1int
            } else {
                0int
            }
    }
}

/// Whether an alignment value is a power of two.
pub open spec fn spec_align_ok(a: usize) -> bool {
    a >= 1 && a & (a - 1) as usize == 0
}

/// Whether the program's alignment must be validated before mapping.
pub open spec fn spec_align_checked(p: Program) -> bool {
    spec_loadable(p.kind) || p.kind == ProgramKind::Tls
}

/// The first program, from `i` on, whose alignment fails validation.
pub open spec fn spec_first_bad_align(programs: Seq<Program>, i: int) -> Option<int>
    decreases programs.len() - i,
{
    if i < 0 || i >= programs.len() {
        None
    } else if spec_align_checked(programs[i]) && !spec_align_ok(programs[i].align) {
        Some(i)
    } else {
        spec_first_bad_align(programs, i + 1)
    }
}

/// The validation verdict on an image's program headers, in the order
/// the mapper checks them.
pub open spec fn spec_map_check(img: Image) -> Option<MapError> {
    let programs = img.programs@;
    let n = programs.len() as int;
    if spec_count_exec(programs, n) > 1 {
        Some(MapError::MultipleExecProgram)
    } else if spec_count_data(programs, n) > 1 {
        Some(MapError::MultipleDataProgram)
    } else if spec_count_relro(programs, n) > 1 {
        Some(MapError::MultipleRelroProgram)
    } else {
        match spec_first_bad_align(programs, 0) {
            Some(i) => Some(MapError::InvalidProgramAlignment(i as usize)),
            None => None,
        }
    }
}

/// The protection bits derived from a program's declared flags.
pub open spec fn spec_prot_of(p: Program) -> u8 {
    (if p.readable { PROT_READ } else { 0 })
        | (if p.writable { PROT_WRITE } else { 0 })
        | (if p.executable { PROT_EXEC } else { 0 })
}

fn prot_of(p: &Program) -> (r: u8)
    ensures
        r == spec_prot_of(*p),
{
    (if p.readable { PROT_READ } else { 0 })
        | (if p.writable { PROT_WRITE } else { 0 })
        | (if p.executable { PROT_EXEC } else { 0 })
}

/// The segments of the region, one per loadable program among the first
/// `n`, in program order.
pub open spec fn spec_segments(programs: Seq<Program>, n: int) -> Seq<MemorySegment>
    decreases n,
{
    if n <= 0 {
        Seq::empty()
    } else {
        let prev = spec_segments(programs, n - 1);
        let p = programs[n - 1];
        if spec_loadable(p.kind) {
            prev.push(MemorySegment {
                start: p.addr,
                len: p.mem_size,
                prot: spec_prot_of(p),
                program: Some((n - 1) as usize),
            })
        } else {
            prev
        }
    }
}

/// The contents of the region after copying in every loadable program's
/// file image, from the `i`-th program on.
pub open spec fn spec_region_bytes(programs: Seq<Program>, i: int, acc: Seq<u8>) -> Seq<u8>
    decreases programs.len() - i,
{
    if i < 0 || i >= programs.len() {
        acc
    } else {
        let p = programs[i];
        let next = if spec_loadable(p.kind) {
            spec_splice(acc, p.addr as int, p.data@)
        } else {
            acc
        };
        spec_region_bytes(programs, i + 1, next)
    }
}

/// Every loadable program ends at or before the load end.
pub proof fn lemma_load_end_bound(programs: Seq<Program>, i: int, n: int)
    requires
        0 <= i < n <= programs.len(),
        spec_loadable(programs[i].kind),
    ensures
        programs[i].addr + programs[i].mem_size <= spec_load_end(programs, n),
    decreases n,
{
    if i < n - 1 {
        lemma_load_end_bound(programs, i, n - 1);
    }
}

/// A program that occurs in a prefix makes the count positive.
pub proof fn lemma_count_exec_pos(programs: Seq<Program>, i: int, n: int)
    requires
        0 <= i < n <= programs.len(),
        programs[i].kind == ProgramKind::Load && programs[i].executable,
    ensures
        spec_count_exec(programs, n) >= 1,
    decreases n,
{
    if i < n - 1 {
        lemma_count_exec_pos(programs, i, n - 1);
        lemma_count_prefix_mono(programs, n - 1, n);
    } else {
        assert(spec_count_exec(programs, n) == spec_count_exec(programs, n - 1) + 1);
        lemma_count_nonneg(programs, n - 1);
    }
}

/// The counts are never negative.
pub proof fn lemma_count_nonneg(programs: Seq<Program>, n: int)
    ensures
        spec_count_exec(programs, n) >= 0,
        spec_count_data(programs, n) >= 0,
        spec_count_relro(programs, n) >= 0,
    decreases n,
{
    if n > 0 {
        lemma_count_nonneg(programs, n - 1);
    }
}

/// A program that occurs in a prefix makes the count positive.
pub proof fn lemma_count_data_pos(programs: Seq<Program>, i: int, n: int)
    requires
        0 <= i < n <= programs.len(),
        programs[i].kind == ProgramKind::Load && !programs[i].executable,
    ensures
        spec_count_data(programs, n) >= 1,
    decreases n,
{
    if i < n - 1 {
        lemma_count_data_pos(programs, i, n - 1);
        lemma_count_prefix_mono(programs, n - 1, n);
    } else {
        assert(spec_count_data(programs, n) == spec_count_data(programs, n - 1) + 1);
        lemma_count_nonneg(programs, n - 1);
    }
}

/// Each loadable program among the first `n` has its segment recorded.
pub proof fn lemma_segment_of_program(programs: Seq<Program>, j: int, n: int)
    requires
        0 <= j < n <= programs.len(),
        spec_loadable(programs[j].kind),
    ensures
        exists|k: int| 0 <= k < spec_segments(programs, n).len()
            && (#[trigger] spec_segments(programs, n)[k]) == (MemorySegment {
                start: programs[j].addr,
                len: programs[j].mem_size,
                prot: spec_prot_of(programs[j]),
                program: Some(j as usize),
            }),
    decreases n,
{
    if j == n - 1 {
        let segs = spec_segments(programs, n);
        assert(segs[segs.len() - 1] == (MemorySegment {
            start: programs[j].addr,
            len: programs[j].mem_size,
            prot: spec_prot_of(programs[j]),
            program: Some(j as usize),
        }));
    } else {
        lemma_segment_of_program(programs, j, n - 1);
        let prev = spec_segments(programs, n - 1);
        let k = choose|k: int| 0 <= k < prev.len() && (#[trigger] prev[k]) == (MemorySegment {
            start: programs[j].addr,
            len: programs[j].mem_size,
            prot: spec_prot_of(programs[j]),
            program: Some(j as usize),
        });
        assert(spec_segments(programs, n)[k] == prev[k]);
    }
}

/// If some recorded segment contains the offset, the scan finds one.
pub proof fn lemma_find_seg_some(segs: Seq<MemorySegment>, i: int, off: int)
    requires
        exists|k: int| i <= k < segs.len() && (#[trigger] segs[k]).program is Some
            && segs[k].start <= off < segs[k].start + segs[k].len,
        0 <= i,
    ensures
        spec_find_seg(segs, i, off) is Some,
    decreases segs.len() - i,
{
    let k = choose|k: int| i <= k < segs.len() && (#[trigger] segs[k]).program is Some
        && segs[k].start <= off < segs[k].start + segs[k].len;
    if !(segs[i].program is Some && segs[i].start <= off < segs[i].start + segs[i].len) {
        assert(k > i);
        lemma_find_seg_some(segs, i + 1, off);
    }
}

impl Module {
    /// Maps a parsed image into a fresh region: validates that the image
    /// declares at most one program of each singular kind and that every
    /// checked alignment is a power of two, reserves a region sized to
    /// the union of the loadable segments rounded to the page
    /// granularity, copies in the segment contents over zero fill, and
    /// records each segment with its declared protections.
    pub fn map(
        aspace: &mut AddrSpace,
        image: Image,
        base_addr: u64,
        id: u32,
        names: Vec<Vec<u8>>,
        tls_index: u32,
        path: Vec<u8>,
    ) -> (r: Result<(Module, ModuleMem), MapError>)
        requires
            spec_image_wf(image),
            old(aspace).wf(),
            base_addr <= MAX_ADDR,
        ensures
            (match r {
                Ok(p) => {
                    let m = p.0;
                    let mm = p.1;
                    &&& spec_map_check(image) is None
                    &&& (base_addr == 0 ==> {
                        &&& old(aspace).next + spec_region_size(image.programs@) <= old(aspace).limit
                        &&& m.mem.addr == old(aspace).next
                        &&& (*final(aspace)).next == old(aspace).next + spec_region_size(image.programs@)
                        &&& (*final(aspace)).limit == old(aspace).limit
                    })
                    &&& (base_addr != 0 ==> m.mem.addr == base_addr && *final(aspace) == *old(aspace))
                    &&& m.id == id
                    &&& m.path == path
                    &&& m.names == names
                    &&& m.flags == (ModuleFlags {
                        text_rel: image.dynamic is Some && image.dynamic->Some_0.text_rel,
                        ..ModuleFlags::spec_empty()
                    })
                    &&& m.ref_count == 1
                    &&& m.tls_index == tls_index
                    &&& m.tls_offset == 0
                    &&& m.dag_static@.len() == 0
                    &&& m.dag_dynamic@.len() == 0
                    &&& m.dynamic == image.dynamic
                    &&& m.modules_info == image.modules
                    &&& m.proc_param == image.proc_param
                    &&& m.mod_param == image.mod_param
                    &&& m.eh == image.eh
                    &&& m.init == image.init
                    &&& m.fini == image.fini
                    &&& m.fingerprint == image.fingerprint
                    &&& m.sdk_ver == image.sdk_ver
                    &&& m.tls_info == (match image.tls_program {
                        Some(t) => Some(TlsInfo {
                            init: image.programs@[t as int].addr,
                            init_size: image.programs@[t as int].data@.len() as usize,
                            size: image.programs@[t as int].mem_size,
                            align: image.programs@[t as int].align,
                        }),
                        None => None::<TlsInfo>,
                    })
                    &&& m.mem.base == 0
                    &&& m.mem.size == spec_region_size(image.programs@)
                    &&& m.mem.segments@ == spec_segments(image.programs@, image.programs@.len() as int)
                    &&& m.mem.text_index < m.mem.segments@.len()
                    &&& (m.mem.segments@[m.mem.text_index as int].program matches Some(pi)
                        && image.programs@[pi as int].kind == ProgramKind::Load
                        && image.programs@[pi as int].executable)
                    &&& m.mem.data_index < m.mem.segments@.len()
                    &&& (m.mem.segments@[m.mem.data_index as int].program matches Some(pi)
                        && image.programs@[pi as int].kind == ProgramKind::Load
                        && !image.programs@[pi as int].executable)
                    &&& (m.mem.relro_index matches Some(ri) ==> ri < m.mem.segments@.len()
                        && (m.mem.segments@[ri as int].program matches Some(pi)
                            && image.programs@[pi as int].kind == ProgramKind::Relro))
                    &&& ((m.mem.relro_index is Some) <==> spec_count_relro(
                        image.programs@, image.programs@.len() as int) == 1)
                    &&& mm.bytes@ == spec_region_bytes(image.programs@, 0,
                        Seq::new(spec_region_size(image.programs@) as nat, |b: int| 0u8))
                    &&& mm.reloc_cache@ == Seq::new(m.spec_reloc_slots() as nat,
                        |b: int| None::<Relocated>)
                    &&& m.wf()
                    &&& m.mem_wf(mm)
                },
                Err(e) => {
                    &&& *final(aspace) == *old(aspace)
                    &&& e == (match spec_map_check(image) {
                        Some(e0) => e0,
                        None => MapError::MemoryAllocationFailed(
                            spec_region_size(image.programs@) as usize),
                    })
                    &&& (spec_map_check(image) is None ==> base_addr == 0
                        && old(aspace).next + spec_region_size(image.programs@) > old(aspace).limit)
                },
            }),
    {
        let ghost progs = image.programs@;
        let n = image.programs.len();

        // Count the singular program kinds.
        let mut cexec: usize = 0;
        let mut cdata: usize = 0;
        let mut crelro: usize = 0;
        let mut i: usize = 0;
        while i < n
            invariant
                0 <= i <= n,
                n == progs.len(),
                progs == image.programs@,
                cexec == spec_count_exec(progs, i as int),
                cdata == spec_count_data(progs, i as int),
                crelro == spec_count_relro(progs, i as int),
                cexec <= i && cdata <= i && crelro <= i,
            decreases n - i,
        {
            let p = &image.programs[i];
            match p.kind {
                ProgramKind::Load => {
                    if p.executable {
                        cexec = cexec + 1;
                    } else {
                        cdata = cdata + 1;
                    }
                },
                ProgramKind::Relro => {
                    crelro = crelro + 1;
                },
                _ => {},
            }
            i = i + 1;
        }
        if cexec > 1 {
            return Err(MapError::MultipleExecProgram);
        }
        if cdata > 1 {
            return Err(MapError::MultipleDataProgram);
        }
        if crelro > 1 {
            return Err(MapError::MultipleRelroProgram);
        }

        // Validate alignments.
        let mut i: usize = 0;
        while i < n
            invariant
                0 <= i <= n,
                n == progs.len(),
                progs == image.programs@,
                spec_first_bad_align(progs, 0) == spec_first_bad_align(progs, i as int),
                spec_count_exec(progs, n as int) <= 1,
                spec_count_data(progs, n as int) <= 1,
                spec_count_relro(progs, n as int) <= 1,
            decreases n - i,
        {
            let p = &image.programs[i];
            let checked = is_loadable(p.kind) || matches!(p.kind, ProgramKind::Tls);
            assert(checked == spec_align_checked(progs[i as int]));
            if checked && !(p.align >= 1 && p.align & (p.align - 1) == 0) {
                assert(!spec_align_ok(progs[i as int].align));
                assert(spec_first_bad_align(progs, i as int) == Some(i as int));
                return Err(MapError::InvalidProgramAlignment(i));
            }
            assert(spec_first_bad_align(progs, i as int) == spec_first_bad_align(progs, i + 1));
            i = i + 1;
        }

        // Size the region to the union of the loadable segments.
        let mut end: usize = 0;
        let mut i: usize = 0;
        while i < n
            invariant
                0 <= i <= n,
                n == progs.len(),
                progs == image.programs@,
                spec_image_wf(image),
                end == spec_load_end(progs, i as int),
                end <= MAX_REGION,
            decreases n - i,
        {
            let p = &image.programs[i];
            if is_loadable(p.kind) && p.addr + p.mem_size > end {
                end = p.addr + p.mem_size;
            }
            i = i + 1;
        }
        let size = align_up(end, PAGE_SIZE);
        proof {
            lemma_align_up_ge(end as int, PAGE_SIZE as int);
            lemma_align_up_mono(end as int, MAX_REGION as int, PAGE_SIZE as int);
            lemma_align_up_exact(MAX_REGION as int, PAGE_SIZE as int);
            assert(size <= MAX_REGION);
        }

        // Reserve the region.
        let addr = match aspace.reserve(size, base_addr) {
            Some(a) => a,
            None => {
                return Err(MapError::MemoryAllocationFailed(size));
            },
        };

        // Copy in the loadable segments over zero fill.
        let mut bytes: Vec<u8> = vec![0u8; size];
        proof {
            assert(bytes@ =~= Seq::new(size as nat, |b: int| 0u8));
        }
        let ghost zeros = bytes@;
        let mut i: usize = 0;
        while i < n
            invariant
                0 <= i <= n,
                n == progs.len(),
                progs == image.programs@,
                spec_image_wf(image),
                size == spec_region_size(progs),
                bytes@.len() == size,
                spec_region_bytes(progs, i as int, bytes@) == spec_region_bytes(progs, 0, zeros),
            decreases n - i,
        {
            let p = &image.programs[i];
            let ghost b0 = bytes@;
            if is_loadable(p.kind) {
                proof {
                    lemma_load_end_bound(progs, i as int, n as int);
                    lemma_align_up_ge(spec_load_end(progs, n as int), PAGE_SIZE as int);
                }
                splice_copy(&mut bytes, p.addr, &p.data);
            }
            proof {
                assert(spec_region_bytes(progs, i as int, b0)
                    == spec_region_bytes(progs, i + 1, bytes@));
            }
            i = i + 1;
        }
        proof {
            assert(spec_region_bytes(progs, n as int, bytes@) == bytes@);
            assert(bytes@ == spec_region_bytes(progs, 0, zeros));
        }

        // Record the segments with their protections.
        let mut segments: Vec<MemorySegment> = Vec::new();
        let mut text_opt: Option<usize> = None;
        let mut data_opt: Option<usize> = None;
        let mut relro_opt: Option<usize> = None;
        let mut i: usize = 0;
        while i < n
            invariant
                0 <= i <= n,
                n == progs.len(),
                progs == image.programs@,
                spec_image_wf(image),
                size == spec_region_size(progs),
                segments@ == spec_segments(progs, i as int),
                segments@.len() <= i,
                (text_opt is None) <==> spec_count_exec(progs, i as int) == 0,
                text_opt matches Some(k) ==> k < segments@.len()
                    && (segments@[k as int].program matches Some(pi)
                        && progs[pi as int].kind == ProgramKind::Load && progs[pi as int].executable),
                (data_opt is None) <==> spec_count_data(progs, i as int) == 0,
                data_opt matches Some(k) ==> k < segments@.len()
                    && (segments@[k as int].program matches Some(pi)
                        && progs[pi as int].kind == ProgramKind::Load && !progs[pi as int].executable),
                (relro_opt is None) <==> spec_count_relro(progs, i as int) == 0,
                relro_opt matches Some(k) ==> k < segments@.len()
                    && (segments@[k as int].program matches Some(pi)
                        && progs[pi as int].kind == ProgramKind::Relro),
                spec_count_exec(progs, i as int) <= spec_count_exec(progs, n as int),
                spec_count_data(progs, i as int) <= spec_count_data(progs, n as int),
                spec_count_relro(progs, i as int) <= spec_count_relro(progs, n as int),
                spec_count_exec(progs, n as int) <= 1,
                spec_count_data(progs, n as int) <= 1,
                spec_count_relro(progs, n as int) <= 1,
            decreases n - i,
        {
            proof {
                lemma_count_prefix_mono(progs, i + 1, n as int);
                lemma_count_nonneg(progs, i as int);
                assert(spec_count_exec(progs, i + 1) == spec_count_exec(progs, i as int)
                    + if progs[i as int].kind == ProgramKind::Load && progs[i as int].executable {
                        1int
                    } else {
                        0int
                    });
                assert(spec_count_data(progs, i + 1) == spec_count_data(progs, i as int)
                    + if progs[i as int].kind == ProgramKind::Load && !progs[i as int].executable {
                        1int
                    } else {
                        0int
                    });
                assert(spec_count_relro(progs, i + 1) == spec_count_relro(progs, i as int)
                    + if progs[i as int].kind == ProgramKind::Relro {
                        1int
                    } else {
                        0int
                    });
            }
            let p = &image.programs[i];
            if is_loadable(p.kind) {
                let seg = MemorySegment {
                    start: p.addr,
                    len: p.mem_size,
                    prot: prot_of(p),
                    program: Some(i),
                };
                let k = segments.len();
                segments.push(seg);
                match p.kind {
                    ProgramKind::Load => {
                        if p.executable {
                            if text_opt.is_none() {
                                text_opt = Some(k);
                            }
                        } else {
                            if data_opt.is_none() {
                                data_opt = Some(k);
                            }
                        }
                    },
                    _ => {
                        if relro_opt.is_none() {
                            relro_opt = Some(k);
                        }
                    },
                }
            }
            i = i + 1;
        }
        let text_index = match text_opt {
            Some(k) => k,
            None => {
                proof {
                    let ghost ei = choose|j: int| 0 <= j < progs.len()
                        && (#[trigger] progs[j]).kind == ProgramKind::Load && progs[j].executable;
                    lemma_count_exec_pos(progs, ei, n as int);
                }
                proof {
                    assert(false);
                }
                0
            },
        };
        let data_index = match data_opt {
            Some(k) => k,
            None => {
                proof {
                    let ghost di = choose|j: int| 0 <= j < progs.len()
                        && (#[trigger] progs[j]).kind == ProgramKind::Load && !progs[j].executable;
                    lemma_count_data_pos(progs, di, n as int);
                }
                proof {
                    assert(false);
                }
                0
            },
        };

        // The relocation cache: one empty slot per relocation entry.
        let slots = match &image.dynamic {
            Some(d) => d.relocs.len() + d.plt_relocs.len(),
            None => 0,
        };
        let cache: Vec<Option<Relocated>> = vec![None; slots];
        proof {
            assert(cache@ =~= Seq::new(slots as nat, |b: int| None::<Relocated>));
        }

        // The thread-local-storage metadata from the image.
        let tls_info = match image.tls_program {
            Some(t) => {
                let p = &image.programs[t];
                Some(TlsInfo {
                    init: p.addr,
                    init_size: p.data.len(),
                    size: p.mem_size,
                    align: p.align,
                })
            },
            None => None,
        };

        let mut flags = ModuleFlags::empty();
        flags.text_rel = match &image.dynamic {
            Some(d) => d.text_rel,
            None => false,
        };

        let m = Module {
            id,
            path,
            names,
            flags,
            ref_count: 1,
            mem: Memory {
                addr,
                base: 0,
                size,
                segments,
                text_index,
                data_index,
                relro_index: relro_opt,
            },
            dynamic: image.dynamic,
            modules_info: image.modules,
            tls_info,
            tls_index,
            tls_offset: 0,
            dag_static: Vec::new(),
            dag_dynamic: Vec::new(),
            proc_param: image.proc_param,
            mod_param: image.mod_param,
            eh: image.eh,
            init: image.init,
            fini: image.fini,
            fingerprint: image.fingerprint,
            sdk_ver: image.sdk_ver,
        };
        let mm = ModuleMem { bytes, reloc_cache: cache };
        proof {
            lemma_segments_wf(progs, n as int, size as int);
            lemma_count_nonneg(progs, n as int);
            assert forall|j: int|
                0 <= j < progs.len() && spec_loadable((#[trigger] progs[j]).kind)
                implies progs[j].addr + progs[j].data@.len() <= zeros.len() by {
                lemma_load_end_bound(progs, j, n as int);
                lemma_align_up_ge(spec_load_end(progs, n as int), PAGE_SIZE as int);
            }
            lemma_region_bytes_len(progs, 0, zeros);
            assert forall|i2: int|
                0 <= i2 < m.spec_relocs().len()
                    && (#[trigger] m.spec_relocs()[i2]).ty == R_X86_64_RELATIVE
                implies spec_find_seg(m.mem.segments@, 0,
                    m.mem.base + m.spec_relocs()[i2].addend) is Some by {
                let a = m.spec_relocs()[i2].addend as int;
                let j = choose|j: int| 0 <= j < progs.len()
                    && spec_loadable((#[trigger] progs[j]).kind)
                    && crate::image::spec_prog_in_seg(progs[j], a);
                lemma_segment_of_program(progs, j, n as int);
                lemma_find_seg_some(m.mem.segments@, 0, a);
            }
        }
        Ok((m, mm))
    }
}

/// Counts over a prefix never exceed counts over the whole list.
pub proof fn lemma_count_prefix_mono(programs: Seq<Program>, i: int, n: int)
    requires
        0 <= i <= n <= programs.len(),
    ensures
        spec_count_exec(programs, i) <= spec_count_exec(programs, n),
        spec_count_data(programs, i) <= spec_count_data(programs, n),
        spec_count_relro(programs, i) <= spec_count_relro(programs, n),
    decreases n - i,
{
    if i < n {
        lemma_count_prefix_mono(programs, i + 1, n);
    }
}

/// Every recorded segment lies inside the region.
pub proof fn lemma_segments_wf(programs: Seq<Program>, n: int, size: int)
    requires
        0 <= n <= programs.len(),
        forall|i: int| 0 <= i < programs.len() ==> {
            let p = #[trigger] programs[i];
            p.addr + p.mem_size <= MAX_REGION
        },
        spec_align_up(spec_load_end(programs, programs.len() as int), PAGE_SIZE as int) == size,
    ensures
        forall|k: int| 0 <= k < spec_segments(programs, n).len() ==> {
            let s = #[trigger] spec_segments(programs, n)[k];
            &&& s.start + s.len <= size
            &&& s.program is Some
            &&& s.program->Some_0 < programs.len()
        },
    decreases n,
{
    if n > 0 {
        lemma_segments_wf(programs, n - 1, size);
        let p = programs[n - 1];
        if spec_loadable(p.kind) {
            lemma_load_end_bound(programs, n - 1, programs.len() as int);
            lemma_align_up_ge(spec_load_end(programs, programs.len() as int), PAGE_SIZE as int);
        }
    }
}

/// Placing program contents never changes the region's length.
pub proof fn lemma_region_bytes_len(programs: Seq<Program>, i: int, acc: Seq<u8>)
    requires
        forall|j: int| 0 <= j < programs.len() ==> {
            let p = #[trigger] programs[j];
            &&& p.addr + p.mem_size <= MAX_REGION
            &&& p.data@.len() <= p.mem_size
        },
        forall|j: int| 0 <= j < programs.len() && spec_loadable((#[trigger] programs[j]).kind)
            ==> programs[j].addr + programs[j].data@.len() <= acc.len(),
    ensures
        spec_region_bytes(programs, i, acc).len() == acc.len(),
    decreases programs.len() - i,
{
    if 0 <= i < programs.len() {
        let p = programs[i];
        if spec_loadable(p.kind) {
            let next = spec_splice(acc, p.addr as int, p.data@);
            assert(next.len() == acc.len());
            lemma_region_bytes_len(programs, i + 1, next);
        } else {
            lemma_region_bytes_len(programs, i + 1, acc);
        }
    }
}

} // verus!
