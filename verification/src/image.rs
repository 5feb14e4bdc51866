use vstd::prelude::*;
use crate::PAGE_SIZE;
use crate::util::spec_align_up;

verus! {

/// Largest region-relative offset or size the loader accepts; keeps all
/// address arithmetic well inside the machine word on any platform.
pub const MAX_REGION: usize = 0x1000_0000;

/// Largest virtual address the address-space manager hands out.
pub const MAX_ADDR: u64 = 0x1_0000_0000_0000;

/// The image type recorded in the executable header.
#[derive(Debug, Clone, Copy, PartialEq, Eq, Structural)]
pub enum FileType {
    /// `ET_EXEC`: a plain executable.
    Exec,
    /// `ET_SCE_EXEC`: a vendor-signed executable.
    SceExec,
    /// `ET_SCE_REPLAY_EXEC`: a replay executable.
    SceReplayExec,
    /// `ET_SCE_DYNEXEC`: a dynamically linked main executable.
    SceDynExec,
    /// `ET_SCE_DYNAMIC`: a shared object.
    SceDynamic,
}

/// The kind of a program header entry.
#[derive(Debug, Clone, Copy, PartialEq, Eq, Structural)]
pub enum ProgramKind {
    /// A loadable segment.
    Load,
    /// The read-only-after-relocation segment.
    Relro,
    /// The thread-local-storage template.
    Tls,
    /// Any other program header the loader does not interpret.
    Other,
}

/// One program header of a parsed image, with its file contents.
pub struct Program {
    pub kind: ProgramKind,
    /// Region-relative virtual address of the segment.
    pub addr: usize,
    /// Size of the segment in memory.
    pub mem_size: usize,
    /// Declared alignment.
    pub align: usize,
    pub readable: bool,
    pub writable: bool,
    pub executable: bool,
    /// The segment's file image; shorter than `mem_size` means zero fill.
    pub data: Vec<u8>,
}

/// The type of a symbol table entry.
#[derive(Debug, Clone, Copy, PartialEq, Eq, Structural)]
pub enum SymbolType {
    NoType,
    Object,
    Func,
    Section,
    Common,
    Tls,
    /// The vendor-specific entry-point symbol type.
    Entry,
}

/// One symbol table entry. Names are the vendor's hashed form except for
/// the main program's raw self-symbols.
pub struct SymbolInfo {
    pub name: Vec<u8>,
    /// The declaring library, when the symbol is versioned by one.
    pub library: Option<Vec<u8>>,
    pub ty: SymbolType,
    /// Region-relative value of the symbol.
    pub value: usize,
}

/// Relocation type codes understood by the engine.
pub const R_X86_64_NONE: u32 = 0;
pub const R_X86_64_64: u32 = 1;
pub const R_X86_64_COPY: u32 = 5;
pub const R_X86_64_GLOB_DAT: u32 = 6;
pub const R_X86_64_JUMP_SLOT: u32 = 7;
pub const R_X86_64_RELATIVE: u32 = 8;
pub const R_X86_64_DTPMOD64: u32 = 16;
pub const R_X86_64_DTPOFF64: u32 = 17;

/// One relocation table entry.
#[derive(Debug, Clone, Copy, PartialEq, Eq, Structural)]
pub struct RelocEntry {
    pub ty: u32,
    /// Region-relative target offset.
    pub offset: usize,
    /// Index into the symbol table.
    pub symbol: usize,
    /// Signed addend.
    pub addend: i64,
}

/// The dynamic-section information of an image.
pub struct DynamicInfo {
    pub symbols: Vec<SymbolInfo>,
    /// The general relocation table.
    pub relocs: Vec<RelocEntry>,
    /// The procedure-linkage-table relocation subset.
    pub plt_relocs: Vec<RelocEntry>,
    /// Whether the image needs relocations in its text segment.
    pub text_rel: bool,
}

/// A module's declared metadata: its own entry has id zero, the others
/// name the modules it depends on.
pub struct ModuleInfo {
    pub id: u16,
    pub name: Vec<u8>,
}

/// The process-parameter block of a main executable.
#[derive(Debug, Clone, Copy, PartialEq, Eq, Structural)]
pub struct ProcParam {
    pub offset: usize,
    pub size: usize,
}

/// Exception-unwind metadata of a module.
#[derive(Debug, Clone, Copy, PartialEq, Eq, Structural)]
pub struct EhInfo {
    pub header: usize,
    pub header_size: usize,
    pub frame: usize,
    pub frame_size: usize,
}

/// Thread-local-storage metadata of a module.
#[derive(Debug, Clone, Copy, PartialEq, Eq, Structural)]
pub struct TlsInfo {
    /// Region-relative offset of the initialization image.
    pub init: usize,
    /// Size of the initialization image.
    pub init_size: usize,
    /// Total size of the block.
    pub size: usize,
    /// Required alignment of the block.
    pub align: usize,
}

/// A parsed executable or shared object, as handed over by the image
/// parser: already structured, still unvalidated.
pub struct Image {
    pub ty: FileType,
    pub programs: Vec<Program>,
    /// Index of the thread-local-storage program header, if any.
    pub tls_program: Option<usize>,
    pub dynamic: Option<DynamicInfo>,
    pub modules: Vec<ModuleInfo>,
    pub proc_param: Option<ProcParam>,
    pub mod_param: Option<usize>,
    pub eh: Option<EhInfo>,
    pub init: Option<usize>,
    pub fini: Option<usize>,
    /// The authenticated wrapper's twenty-byte digest of the image.
    pub fingerprint: Vec<u8>,
    /// The SDK version the image was built against.
    pub sdk_ver: u32,
}

/// Whether this program kind is mapped into the module's region.
pub open spec fn spec_loadable(k: ProgramKind) -> bool {
    k == ProgramKind::Load || k == ProgramKind::Relro
}

pub fn is_loadable(k: ProgramKind) -> (r: bool)
    ensures
        r == spec_loadable(k),
{
    match k {
        ProgramKind::Load => true,
        ProgramKind::Relro => true,
        _ => false,
    }
}

/// The end of the highest loadable segment among the first `n` programs.
pub open spec fn spec_load_end(programs: Seq<Program>, n: int) -> int
    decreases n,
{
    if n <= 0 {
        0
    } else {
        let prev = spec_load_end(programs, n - 1);
        let p = programs[n - 1];
        if spec_loadable(p.kind) && p.addr + p.mem_size > prev {
            p.addr + p.mem_size
        } else {
            prev
        }
    }
}

/// The size of the region that holds all loadable segments, rounded to
/// the page granularity.
pub open spec fn spec_region_size(programs: Seq<Program>) -> int {
    spec_align_up(spec_load_end(programs, programs.len() as int), PAGE_SIZE as int)
}

/// A segment inside a module's mapped region.
pub open spec fn spec_prog_in_seg(p: Program, off: int) -> bool {
    p.addr <= off < p.addr + p.mem_size
}

/// Well-formedness of a parsed image: what the parser collaborator
/// guarantees about the structured data it hands over. The loader's
/// contracts are stated for images that satisfy this.
pub open spec fn spec_image_wf(img: Image) -> bool {
    let programs = img.programs@;
    &&& forall|i: int| 0 <= i < programs.len() ==> {
        let p = #[trigger] programs[i];
        &&& p.addr + p.mem_size <= MAX_REGION
        &&& p.data@.len() <= p.mem_size
    }
    &&& exists|i: int| 0 <= i < programs.len()
        && (#[trigger] programs[i]).kind == ProgramKind::Load && programs[i].executable
    &&& exists|i: int| 0 <= i < programs.len()
        && (#[trigger] programs[i]).kind == ProgramKind::Load && !programs[i].executable
    &&& img.tls_program matches Some(t) ==> t < programs.len() && programs[t as int].kind == ProgramKind::Tls
        && programs[t as int].mem_size <= MAX_REGION
        && 1 <= programs[t as int].align <= MAX_REGION
        && programs[t as int].addr + programs[t as int].mem_size <= MAX_REGION
    &&& img.dynamic matches Some(d) ==> spec_dynamic_wf(d, programs)
    &&& img.fingerprint@.len() == 20
    &&& img.proc_param matches Some(pp) ==> pp.offset <= MAX_REGION && pp.size <= MAX_REGION
    &&& img.mod_param matches Some(mp) ==> mp <= MAX_REGION
    &&& img.eh matches Some(e) ==> e.header <= MAX_REGION && e.header_size <= MAX_REGION
        && e.frame <= MAX_REGION && e.frame_size <= MAX_REGION
    &&& img.init matches Some(v) ==> v <= MAX_REGION
    &&& img.fini matches Some(v) ==> v <= MAX_REGION
}

impl Image {
    /// Decides the well-formedness the loader's contracts assume of a
    /// parsed image, so that the unverified boundary that parses files
    /// can validate the structured data before handing it over.
    pub fn check_wf(&self) -> (r: bool)
        ensures
            r == spec_image_wf(*self),
    {
        let n = self.programs.len();

        // Per-program bounds, and the two loadable kinds the region
        // needs.
        let mut has_exec = false;
        let mut has_data = false;
        let mut i: usize = 0;
        while i < n
            invariant
                0 <= i <= n,
                n == self.programs@.len(),
                forall|j: int| 0 <= j < i ==> {
                    let p = #[trigger] self.programs@[j];
                    &&& p.addr + p.mem_size <= MAX_REGION
                    &&& p.data@.len() <= p.mem_size
                },
                has_exec == exists|j: int| 0 <= j < i
                    && (#[trigger] self.programs@[j]).kind == ProgramKind::Load
                    && self.programs@[j].executable,
                has_data == exists|j: int| 0 <= j < i
                    && (#[trigger] self.programs@[j]).kind == ProgramKind::Load
                    && !self.programs@[j].executable,
            decreases n - i,
        {
            let p = &self.programs[i];
            if !(p.addr <= MAX_REGION && p.mem_size <= MAX_REGION - p.addr) {
                return false;
            }
            if p.data.len() > p.mem_size {
                return false;
            }
            if matches!(p.kind, ProgramKind::Load) {
                if p.executable {
                    has_exec = true;
                } else {
                    has_data = true;
                }
            }
            i = i + 1;
        }
        if !(has_exec && has_data) {
            return false;
        }

        // The thread-local-storage program header.
        match self.tls_program {
            Some(t) => {
                if t >= n {
                    return false;
                }
                let p = &self.programs[t];
                if !matches!(p.kind, ProgramKind::Tls) {
                    return false;
                }
                if !(1 <= p.align && p.align <= MAX_REGION) {
                    return false;
                }
            },
            None => {},
        }

        if self.fingerprint.len() != 20 {
            return false;
        }
        match self.proc_param {
            Some(pp) => {
                if pp.offset > MAX_REGION || pp.size > MAX_REGION {
                    return false;
                }
            },
            None => {},
        }
        match self.mod_param {
            Some(mp) => {
                if mp > MAX_REGION {
                    return false;
                }
            },
            None => {},
        }
        match self.eh {
            Some(e) => {
                if e.header > MAX_REGION || e.header_size > MAX_REGION || e.frame > MAX_REGION
                    || e.frame_size > MAX_REGION {
                    return false;
                }
            },
            None => {},
        }
        match self.init {
            Some(v) => {
                if v > MAX_REGION {
                    return false;
                }
            },
            None => {},
        }
        match self.fini {
            Some(v) => {
                if v > MAX_REGION {
                    return false;
                }
            },
            None => {},
        }

        // The dynamic-section tables.
        match &self.dynamic {
            None => true,
            Some(d) => self.check_dynamic_wf(d),
        }
    }

    /// Decides the dynamic-table half of the validation.
    fn check_dynamic_wf(&self, d: &DynamicInfo) -> (r: bool)
        requires
            d == self.dynamic->Some_0,
            self.dynamic is Some,
            forall|j: int| 0 <= j < self.programs@.len() ==> {
                let p = #[trigger] self.programs@[j];
                p.addr + p.mem_size <= MAX_REGION
            },
        ensures
            r == spec_dynamic_wf(*d, self.programs@),
    {
        if d.symbols.len() > 0x100_0000 || d.relocs.len() > 0x100_0000
            || d.plt_relocs.len() > 0x100_0000 {
            return false;
        }

        // The region size the relocation targets must fit in.
        let n = self.programs.len();
        let mut end: usize = 0;
        let mut i: usize = 0;
        while i < n
            invariant
                0 <= i <= n,
                n == self.programs@.len(),
                forall|j: int| 0 <= j < n ==> {
                    let p = #[trigger] self.programs@[j];
                    p.addr + p.mem_size <= MAX_REGION
                },
                end == spec_load_end(self.programs@, i as int),
                end <= MAX_REGION,
            decreases n - i,
        {
            let p = &self.programs[i];
            if is_loadable(p.kind) && p.addr + p.mem_size > end {
                end = p.addr + p.mem_size;
            }
            i = i + 1;
        }
        let size = crate::util::align_up(end, PAGE_SIZE);
        proof {
            assert(size == spec_region_size(self.programs@));
        }

        let mut si: usize = 0;
        while si < d.symbols.len()
            invariant
                0 <= si <= d.symbols@.len(),
                forall|j: int| 0 <= j < si
                    ==> (#[trigger] d.symbols@[j]).value <= MAX_REGION,
            decreases d.symbols@.len() - si,
        {
            if d.symbols[si].value > MAX_REGION {
                return false;
            }
            si = si + 1;
        }

        let nsyms = d.symbols.len();
        let mut ri: usize = 0;
        while ri < d.relocs.len()
            invariant
                0 <= ri <= d.relocs@.len(),
                nsyms == d.symbols@.len(),
                n == self.programs@.len(),
                size == spec_region_size(self.programs@),
                forall|j: int| 0 <= j < ri ==> {
                    let e = #[trigger] d.relocs@[j];
                    &&& e.offset + 8 <= spec_region_size(self.programs@)
                    &&& e.symbol < d.symbols@.len()
                    &&& e.ty == R_X86_64_RELATIVE ==> 0 <= e.addend <= MAX_REGION
                        && exists|j2: int| 0 <= j2 < self.programs@.len()
                            && spec_loadable((#[trigger] self.programs@[j2]).kind)
                            && spec_prog_in_seg(self.programs@[j2], e.addend as int)
                },
            decreases d.relocs@.len() - ri,
        {
            let e = d.relocs[ri];
            if !(e.offset <= size && 8 <= size - e.offset) {
                return false;
            }
            if e.symbol >= nsyms {
                return false;
            }
            if e.ty == R_X86_64_RELATIVE {
                if !(0 <= e.addend && e.addend <= MAX_REGION as i64) {
                    return false;
                }
                let a = e.addend as usize;
                let mut found = false;
                let mut pi: usize = 0;
                while pi < n
                    invariant
                        0 <= pi <= n,
                        n == self.programs@.len(),
                        a == e.addend,
                        found == exists|j2: int| 0 <= j2 < pi
                            && spec_loadable((#[trigger] self.programs@[j2]).kind)
                            && spec_prog_in_seg(self.programs@[j2], a as int),
                    decreases n - pi,
                {
                    let p = &self.programs[pi];
                    if is_loadable(p.kind) && p.addr <= a && a - p.addr < p.mem_size {
                        found = true;
                    }
                    pi = pi + 1;
                }
                if !found {
                    return false;
                }
            }
            ri = ri + 1;
        }

        let mut pi2: usize = 0;
        while pi2 < d.plt_relocs.len()
            invariant
                0 <= pi2 <= d.plt_relocs@.len(),
                nsyms == d.symbols@.len(),
                size == spec_region_size(self.programs@),
                forall|j: int| 0 <= j < pi2 ==> {
                    let e = #[trigger] d.plt_relocs@[j];
                    &&& e.offset + 8 <= spec_region_size(self.programs@)
                    &&& e.symbol < d.symbols@.len()
                },
            decreases d.plt_relocs@.len() - pi2,
        {
            let e = d.plt_relocs[pi2];
            if !(e.offset <= size && 8 <= size - e.offset) {
                return false;
            }
            if e.symbol >= nsyms {
                return false;
            }
            pi2 = pi2 + 1;
        }
        true
    }
}

/// Well-formedness of the dynamic-section tables against the programs
/// they refer into.
pub open spec fn spec_dynamic_wf(d: DynamicInfo, programs: Seq<Program>) -> bool {
    let end = spec_region_size(programs);
    &&& d.symbols@.len() <= 0x100_0000
    &&& d.relocs@.len() <= 0x100_0000
    &&& d.plt_relocs@.len() <= 0x100_0000
    &&& forall|i: int| 0 <= i < d.symbols@.len() ==> (#[trigger] d.symbols@[i]).value <= MAX_REGION
    &&& forall|i: int| 0 <= i < d.relocs@.len() ==> {
        let r = #[trigger] d.relocs@[i];
        &&& r.offset + 8 <= end
        &&& r.symbol < d.symbols@.len()
        &&& r.ty == R_X86_64_RELATIVE ==> 0 <= r.addend <= MAX_REGION
            && exists|j: int| 0 <= j < programs.len()
                && spec_loadable((#[trigger] programs[j]).kind)
                && spec_prog_in_seg(programs[j], r.addend as int)
    }
    &&& forall|i: int| 0 <= i < d.plt_relocs@.len() ==> {
        let r = #[trigger] d.plt_relocs@[i];
        &&& r.offset + 8 <= end
        &&& r.symbol < d.symbols@.len()
    }
}

} // verus!
