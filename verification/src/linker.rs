use vstd::prelude::*;
use crate::errno::{SysErr, ExecError, LoadError, RelocateError, EPERM, ESRCH, ENOMEM, EINVAL, ENOEXEC};
use crate::image::{MAX_ADDR, spec_image_wf, Image, FileType, R_X86_64_COPY};
use crate::module::{Module, ModuleMem, ModuleFlags, Relocated, AddrSpace};
use crate::reloc::{spec_single_fold, spec_err_matches, RelocErr, relocate_single};
use crate::resolve::{spec_find_module, find_module};
use crate::util::{spec_ascii, spec_file_name, ascii_bytes, file_name, bytes_eq, names_contain,
    align_up, spec_align_up};
use crate::nid::{spec_nid, get_nid};

verus! {

/// The fixed load address given to a dynamically linked main executable.
pub const DYNEXEC_BASE: u64 = 0x400000;

/// How much thread-local storage has been allocated so far, process
/// wide.
pub struct TlsAlloc {
    /// Highest slot index issued so far; index one is the first usable
    /// slot, index zero means no storage.
    pub max_index: u32,
    /// Byte offset of the most recently placed block.
    pub last_offset: usize,
    /// Size of the most recently placed block.
    pub last_size: usize,
    /// Hard ceiling on total static space; zero means none.
    pub static_space: usize,
}

/// Process-wide linker flags, recorded when the primary image declares
/// one of the hardening libraries.
#[derive(Debug, Clone, Copy, PartialEq, Eq, Structural)]
pub struct LinkerFlags {
    pub has_ubsan: bool,
    pub has_asan: bool,
}

/// Flags a load request carries; the loader records them without
/// interpreting them.
#[derive(Debug, Clone, Copy, PartialEq, Eq, Structural)]
pub struct LoadFlags {
    pub bits: u32,
}

/// The runtime linker of one emulated process: its loaded modules, the
/// bytes mapped for each, the global export list, the thread-local
/// storage layout, and the address space the modules live in.
pub struct RuntimeLinker {
    /// The loaded modules; the primary image, when present, is first.
    pub modules: Vec<Module>,
    /// The mapped bytes and relocation cache of each module, index for
    /// index.
    pub mems: Vec<ModuleMem>,
    /// Ids of the modules eligible for cross-module symbol export.
    pub globals: Vec<u32>,
    /// Ids of the modules whose thread-local storage the process
    /// initializes eagerly.
    pub mains: Vec<u32>,
    /// The kernel module's id, once one is registered.
    pub kernel: Option<u32>,
    pub tls: TlsAlloc,
    pub flags: LinkerFlags,
    pub aspace: AddrSpace,
}

/// The first module at or after `k` whose path equals `path`.
pub open spec fn spec_find_path(mods: Seq<Module>, k: int, path: Seq<u8>) -> Option<int>
    decreases mods.len() - k,
{
    if k < 0 || k >= mods.len() {
        None
    } else if mods[k].path@ == path {
        Some(k)
    } else {
        spec_find_path(mods, k + 1, path)
    }
}

/// The first module at or after `k` whose declared library names
/// contain `name`.
pub open spec fn spec_find_name(mods: Seq<Module>, k: int, name: Seq<u8>) -> Option<int>
    decreases mods.len() - k,
{
    if k < 0 || k >= mods.len() {
        None
    } else if mods[k].names@.map_values(|n: Vec<u8>| n@).contains(name) {
        Some(k)
    } else {
        spec_find_name(mods, k + 1, name)
    }
}

/// The highest module id among the first `n`.
pub open spec fn spec_max_id(mods: Seq<Module>, n: int) -> int
    decreases n,
{
    if n <= 0 {
        0
    } else {
        let prev = spec_max_id(mods, n - 1);
        if mods[n - 1].id > prev {
            mods[n - 1].id as int
        } else {
            prev
        }
    }
}

/// Whether some loaded module already uses this thread-local storage
/// index.
pub open spec fn spec_tls_used(mods: Seq<Module>, idx: int) -> bool {
    exists|j: int| 0 <= j < mods.len() && (#[trigger] mods[j]).tls_index == idx
}

/// The free-slot search: the lowest index from `idx` on that no module
/// uses, raising the recorded maximum when the scan runs past it.
/// Returns the chosen index and the new maximum.
pub open spec fn spec_free_index(mods: Seq<Module>, idx: int, maxi: int) -> (int, int)
    decreases maxi + 2 - idx,
{
    if idx > maxi {
        (idx, idx)
    } else if !spec_tls_used(mods, idx) {
        (idx, maxi)
    } else {
        let n = idx + 1;
        if n > maxi {
            (n, n)
        } else {
            spec_free_index(mods, n, maxi)
        }
    }
}

impl RuntimeLinker {
    /// Well-formedness of the whole linker state; every operation
    /// preserves it.
    pub open spec fn wf(&self) -> bool {
        &&& self.modules@.len() == self.mems@.len()
        &&& forall|i: int| 0 <= i < self.modules@.len() ==> {
            let m = #[trigger] self.modules@[i];
            &&& m.wf()
            &&& m.mem_wf(self.mems@[i])
            &&& m.dynamic is Some
            &&& m.id < self.modules@.len()
            &&& m.tls_index <= self.tls.max_index
        }
        &&& forall|i: int, j: int| 0 <= i < j < self.modules@.len()
            ==> (#[trigger] self.modules@[i]).id != (#[trigger] self.modules@[j]).id
        &&& self.modules@.len() > 0 ==> self.modules@[0].flags.main_prog
            && self.modules@[0].id == 0
        &&& forall|k: int| 0 <= k < self.mains@.len()
            ==> spec_find_module(self.modules@, 0, #[trigger] self.mains@[k]) is Some
        &&& forall|k: int, l: int| 0 <= k < l < self.mains@.len()
            ==> (#[trigger] self.mains@[k]) != (#[trigger] self.mains@[l])
        &&& self.tls.max_index >= 1
        &&& self.aspace.wf()
    }

    /// Whether the process has a primary image.
    pub open spec fn spec_has_app(&self) -> bool {
        self.modules@.len() > 0
    }

    /// A fresh linker for a process: no modules, slot one still free,
    /// and the given address range and static storage ceiling.
    pub fn new(aspace_base: u64, aspace_limit: u64, tls_static_space: usize)
        -> (r: RuntimeLinker)
        requires
            aspace_base <= aspace_limit <= MAX_ADDR,
        ensures
            r.wf(),
            r.modules@.len() == 0,
            r.globals@.len() == 0,
            r.mains@.len() == 0,
            r.kernel is None,
            r.tls.max_index == 1 && r.tls.last_offset == 0 && r.tls.last_size == 0,
            r.tls.static_space == tls_static_space,
            r.flags == (LinkerFlags { has_ubsan: false, has_asan: false }),
            r.aspace.next == aspace_base && r.aspace.limit == aspace_limit,
    {
        RuntimeLinker {
            modules: Vec::new(),
            mems: Vec::new(),
            globals: Vec::new(),
            mains: Vec::new(),
            kernel: None,
            tls: TlsAlloc {
                max_index: 1,
                last_offset: 0,
                last_size: 0,
                static_space: tls_static_space,
            },
            flags: LinkerFlags { has_ubsan: false, has_asan: false },
            aspace: AddrSpace::new(aspace_base, aspace_limit),
        }
    }

    /// The registered kernel module's id.
    pub fn kernel(&self) -> (r: Option<u32>)
        ensures
            r == self.kernel,
    {
        self.kernel
    }

    /// Registers the kernel module.
    pub fn set_kernel(&mut self, id: u32)
        ensures
            final(self).kernel == Some(id),
            final(self).modules == old(self).modules,
            final(self).mems == old(self).mems,
            final(self).globals == old(self).globals,
            final(self).mains == old(self).mains,
            final(self).tls == old(self).tls,
            final(self).flags == old(self).flags,
            final(self).aspace == old(self).aspace,
    {
        self.kernel = Some(id);
    }

    /// Seeds the module's dependency lists: a no-op when they were
    /// already initialized, else the module itself becomes the first
    /// member of both its static and its dynamic list. A module mapped
    /// fresh has empty lists, so right after initialization each list
    /// contains the module itself, exactly once, first.
    pub fn init_dag(&mut self, i: usize)
        requires
            old(self).wf(),
            i < old(self).modules@.len(),
        ensures
            final(self).wf(),
            final(self).modules@.len() == old(self).modules@.len(),
            (if old(self).modules@[i as int].flags.dag_inited {
                final(self).modules@ == old(self).modules@
            } else {
                let m0 = old(self).modules@[i as int];
                let m1 = final(self).modules@[i as int];
                &&& final(self).modules@ == old(self).modules@.update(i as int, m1)
                &&& m1 == (Module {
                    flags: (ModuleFlags { dag_inited: true, ..m0.flags }),
                    dag_static: m1.dag_static,
                    dag_dynamic: m1.dag_dynamic,
                    ..m0
                })
                &&& m1.dag_static@ == m0.dag_static@.push(m0.id)
                &&& m1.dag_dynamic@ == m0.dag_dynamic@.push(m0.id)
            }),
            final(self).mems == old(self).mems,
            final(self).globals == old(self).globals,
            final(self).mains == old(self).mains,
            final(self).kernel == old(self).kernel,
            final(self).tls == old(self).tls,
            final(self).flags == old(self).flags,
            final(self).aspace == old(self).aspace,
    {
        if self.modules[i].flags.dag_inited {
            return;
        }
        let mut m = self.modules.remove(i);
        let id = m.id;
        m.dag_static.push(id);
        m.dag_dynamic.push(id);
        m.flags.dag_inited = true;
        self.modules.insert(i, m);
        proof {
            assert(self.modules@ =~= old(self).modules@.update(i as int,
                self.modules@[i as int]));
            assert forall|k: int| 0 <= k < self.mains@.len()
                implies spec_find_module(self.modules@, 0, #[trigger] self.mains@[k]) is Some by {
                lemma_find_module_same_ids(old(self).modules@, self.modules@, 0, self.mains@[k]);
            }
        }
    }
}

/// Whether the image's declared module metadata names this library.
pub open spec fn spec_declares(mods: Seq<crate::image::ModuleInfo>, name: Seq<u8>) -> bool {
    exists|i: int| 0 <= i < mods.len() && (#[trigger] mods[i]).name@ == name
}

impl RuntimeLinker {
    /// Executes a primary image: accepts only the dynamically linked
    /// image types, maps the image at the type's base address, marks it
    /// as the main program, records whether it declares one of the two
    /// hardening libraries, and installs it as the process's primary
    /// binary. A process that already has one, and a statically linked
    /// image, fail loudly: the reference behavior leaves both paths
    /// unimplemented.
    pub fn exec(&mut self, path: Vec<u8>, image: Image) -> (r: Result<u32, ExecError>)
        requires
            old(self).wf(),
            spec_image_wf(image),
        ensures
            final(self).wf(),
            (match r {
                Ok(id) => {
                    let m = final(self).modules@[0];
                    &&& id == 0
                    &&& !old(self).spec_has_app()
                    &&& (match image.ty {
                        FileType::SceDynExec => image.dynamic is Some,
                        FileType::SceDynamic => false,
                        _ => image.dynamic is Some,
                    })
                    &&& final(self).modules@.len() == 1
                    &&& final(self).mems@.len() == 1
                    &&& m.id == 0
                    &&& m.path == path
                    &&& m.flags == (ModuleFlags {
                        main_prog: true,
                        text_rel: image.dynamic is Some && image.dynamic->Some_0.text_rel,
                        ..ModuleFlags::spec_empty()
                    })
                    &&& m.ref_count == 1
                    &&& m.tls_index == 1
                    &&& m.names@.len() == 0
                    &&& m.dag_static@.len() == 0
                    &&& m.dag_dynamic@.len() == 0
                    &&& m.dynamic == image.dynamic
                    &&& m.modules_info == image.modules
                    &&& m.proc_param == image.proc_param
                    &&& m.sdk_ver == image.sdk_ver
                    &&& m.mem.addr == (if image.ty == FileType::SceDynExec {
                        DYNEXEC_BASE
                    } else {
                        old(self).aspace.next
                    })
                    &&& m.mem.size == crate::image::spec_region_size(image.programs@)
                    &&& final(self).mains@ == seq![0u32]
                    &&& final(self).globals@ == old(self).globals@
                    &&& final(self).flags == (LinkerFlags {
                        has_ubsan: spec_declares(image.modules@,
                            spec_ascii("libSceDbgUndefinedBehaviorSanitizer"@)),
                        has_asan: spec_declares(image.modules@,
                            spec_ascii("libSceDbgAddressSanitizer"@)),
                    })
                    &&& final(self).tls == old(self).tls
                    &&& final(self).kernel == old(self).kernel
                },
                Err(e) => {
                    &&& final(self).modules == old(self).modules
                    &&& final(self).mems == old(self).mems
                    &&& final(self).mains == old(self).mains
                    &&& final(self).globals == old(self).globals
                    &&& final(self).flags == old(self).flags
                    &&& final(self).tls == old(self).tls
                    &&& final(self).kernel == old(self).kernel
                    &&& final(self).aspace == old(self).aspace
                    &&& e == (if old(self).spec_has_app() {
                        ExecError::AlreadyExecuted
                    } else if image.ty == FileType::SceDynamic {
                        ExecError::InvalidExe
                    } else if image.ty == FileType::SceDynExec && image.dynamic is None {
                        ExecError::InvalidExe
                    } else if image.ty != FileType::SceDynExec && image.dynamic is None {
                        ExecError::StaticExeNotSupported
                    } else {
                        ExecError::MapFailed(match crate::module::spec_map_check(image) {
                            Some(e0) => e0,
                            None => crate::errno::MapError::MemoryAllocationFailed(
                                crate::image::spec_region_size(image.programs@) as usize),
                        })
                    })
                    // Success is owed: an accepted image whose mapping
                    // passes validation can only fail on exhaustion,
                    // which the fixed-base executable type never hits.
                    &&& (!old(self).spec_has_app()
                        && (match image.ty {
                            FileType::SceDynExec => image.dynamic is Some,
                            FileType::SceDynamic => false,
                            _ => image.dynamic is Some,
                        })
                        && crate::module::spec_map_check(image) is None
                        ==> image.ty != FileType::SceDynExec
                            && old(self).aspace.next
                                + crate::image::spec_region_size(image.programs@)
                                > old(self).aspace.limit)
                },
            }),
    {
        // A process that already has a primary binary cannot execute a
        // second one.
        if self.modules.len() > 0 {
            return Err(ExecError::AlreadyExecuted);
        }

        // Check the image type.
        let is_dynexec = matches!(image.ty, FileType::SceDynExec);
        match image.ty {
            FileType::SceDynamic => {
                return Err(ExecError::InvalidExe);
            },
            FileType::SceDynExec => {
                if image.dynamic.is_none() {
                    return Err(ExecError::InvalidExe);
                }
            },
            _ => {
                if image.dynamic.is_none() {
                    return Err(ExecError::StaticExeNotSupported);
                }
            },
        }

        // A dynamically linked main executable is mapped at a fixed
        // base; the other types are eligible for a chosen base.
        let base: u64 = if is_dynexec {
            DYNEXEC_BASE
        } else {
            0
        };

        // Map the image and mark it as the main program.
        let ghost declared = image.modules@;
        let (mut m, mm) = match Module::map(&mut self.aspace, image, base, 0, Vec::new(), 1,
            path) {
            Ok(v) => v,
            Err(e) => {
                return Err(ExecError::MapFailed(e));
            },
        };
        m.flags.main_prog = true;

        // Record whether the application declares the hardening
        // libraries.
        let ubsan_name = ascii_bytes("libSceDbgUndefinedBehaviorSanitizer");
        let asan_name = ascii_bytes("libSceDbgAddressSanitizer");
        let mut has_ubsan = false;
        let mut has_asan = false;
        let mut i: usize = 0;
        while i < m.modules_info.len()
            invariant
                0 <= i <= m.modules_info@.len(),
                m.modules_info@ == declared,
                ubsan_name@ == spec_ascii("libSceDbgUndefinedBehaviorSanitizer"@),
                asan_name@ == spec_ascii("libSceDbgAddressSanitizer"@),
                has_ubsan == exists|j: int| 0 <= j < i
                    && (#[trigger] declared[j]).name@ == ubsan_name@,
                has_asan == exists|j: int| 0 <= j < i
                    && (#[trigger] declared[j]).name@ == asan_name@,
            decreases m.modules_info@.len() - i,
        {
            if bytes_eq(&m.modules_info[i].name, &ubsan_name) {
                has_ubsan = true;
            }
            if bytes_eq(&m.modules_info[i].name, &asan_name) {
                has_asan = true;
            }
            i = i + 1;
        }
        self.flags = LinkerFlags { has_ubsan, has_asan };

        // Install it as the process's primary binary.
        self.modules.push(m);
        self.mems.push(mm);
        proof {
            if old(self).mains@.len() > 0 {
                assert(spec_find_module(old(self).modules@, 0, old(self).mains@[0]) is Some);
                assert(false);
            }
        }
        self.mains.push(0);
        proof {
            assert(self.mains@ =~= seq![0u32]);
        }
        Ok(0)
    }
}

/// Every id in a prefix is at most the prefix's maximum.
pub proof fn lemma_max_id_bound(mods: Seq<Module>, n: int)
    requires
        0 <= n <= mods.len(),
    ensures
        spec_max_id(mods, n) >= 0,
        forall|j: int| 0 <= j < n ==> (#[trigger] mods[j]).id <= spec_max_id(mods, n),
        spec_max_id(mods, n) == 0 || exists|j: int| 0 <= j < n
            && (#[trigger] mods[j]).id == spec_max_id(mods, n),
    decreases n,
{
    if n > 0 {
        lemma_max_id_bound(mods, n - 1);
    }
}

/// The free-slot search stays in range and lands on an unused index.
pub proof fn lemma_free_index_ok(mods: Seq<Module>, idx: int, maxi: int)
    requires
        1 <= idx <= maxi + 1,
        forall|j: int| 0 <= j < mods.len() ==> (#[trigger] mods[j]).tls_index <= maxi,
    ensures
        ({
            let p = spec_free_index(mods, idx, maxi);
            &&& idx <= p.0 <= p.1
            &&& maxi <= p.1 <= maxi + 1
            &&& !spec_tls_used(mods, p.0)
        }),
    decreases maxi + 2 - idx,
{
    if idx > maxi {
        assert(!spec_tls_used(mods, idx));
    } else if !spec_tls_used(mods, idx) {
    } else {
        let n = idx + 1;
        if n > maxi {
            assert(!spec_tls_used(mods, n));
        } else {
            lemma_free_index_ok(mods, n, maxi);
        }
    }
}

/// A search that found a module still finds it after a new module is
/// appended; a fresh id is found at the end.
pub proof fn lemma_find_module_push(mods: Seq<Module>, k: int, id: u32, m: Module)
    requires
        0 <= k,
    ensures
        spec_find_module(mods, k, id) matches Some(i)
            ==> spec_find_module(mods.push(m), k, id) == Some(i),
        spec_find_module(mods, k, id) is None && m.id == id && k <= mods.len()
            ==> spec_find_module(mods.push(m), k, id) == Some(mods.len() as int),
    decreases mods.len() - k,
{
    if k < mods.len() {
        assert(mods.push(m)[k] == mods[k]);
        if mods[k].id != id {
            lemma_find_module_push(mods, k + 1, id, m);
        }
    } else {
        if k == mods.len() && m.id == id {
            assert(mods.push(m)[k] == m);
        }
    }
}

/// A found module carries the id that was searched.
pub proof fn lemma_find_module_found(mods: Seq<Module>, k: int, id: u32)
    requires
        spec_find_module(mods, k, id) is Some,
    ensures
        ({
            let i = spec_find_module(mods, k, id)->Some_0;
            &&& k <= i < mods.len()
            &&& mods[i].id == id
        }),
    decreases mods.len() - k,
{
    if 0 <= k < mods.len() && mods[k].id != id {
        lemma_find_module_found(mods, k + 1, id);
    }
}

fn tls_used_scan(mods: &Vec<Module>, idx: u32) -> (r: bool)
    ensures
        r == spec_tls_used(mods@, idx as int),
{
    let n = mods.len();
    let mut j: usize = 0;
    while j < n
        invariant
            0 <= j <= n,
            n == mods@.len(),
            forall|k: int| 0 <= k < j ==> (#[trigger] mods@[k]).tls_index != idx,
        decreases n - j,
    {
        if mods[j].tls_index == idx {
            return true;
        }
        j = j + 1;
    }
    false
}

/// Scans the loaded modules for the lowest free thread-local storage
/// slot index, starting at one; returns the index and the possibly
/// raised maximum.
fn free_tls_index(mods: &Vec<Module>, maxi: u32) -> (r: (u32, u32))
    requires
        maxi >= 1,
        maxi < 0xffff_ffff,
        forall|j: int| 0 <= j < mods@.len() ==> (#[trigger] mods@[j]).tls_index <= maxi,
    ensures
        r.0 as int == spec_free_index(mods@, 1, maxi as int).0,
        r.1 as int == spec_free_index(mods@, 1, maxi as int).1,
        1 <= r.0 <= r.1,
        maxi <= r.1 <= maxi + 1,
        !spec_tls_used(mods@, r.0 as int),
{
    proof {
        lemma_free_index_ok(mods@, 1, maxi as int);
    }
    let mut index: u32 = 1;
    loop
        invariant
            1 <= index <= maxi,
            maxi < 0xffff_ffff,
            forall|j: int| 0 <= j < mods@.len() ==> (#[trigger] mods@[j]).tls_index <= maxi,
            spec_free_index(mods@, index as int, maxi as int)
                == spec_free_index(mods@, 1, maxi as int),
        decreases maxi - index,
    {
        if !tls_used_scan(mods, index) {
            proof {
                assert(spec_free_index(mods@, index as int, maxi as int)
                    == ((index as int, maxi as int)));
            }
            return (index, maxi);
        }
        index = index + 1;
        if index > maxi {
            return (index, index);
        }
    }
}

/// Everything of the linker's state but the module list is the same.
pub open spec fn spec_frame(a: RuntimeLinker, b: RuntimeLinker) -> bool {
    &&& a.mems == b.mems
    &&& a.globals == b.globals
    &&& a.mains == b.mains
    &&& a.kernel == b.kernel
    &&& a.tls == b.tls
    &&& a.flags == b.flags
    &&& a.aspace == b.aspace
}

impl RuntimeLinker {
    /// Loads a shared object. A module with the same canonical path is
    /// returned with its reference count incremented and no re-mapping;
    /// without `force`, a module whose declared library names contain
    /// the requested file name is returned as it is. Otherwise the image
    /// is mapped fresh: it must be a shared-object image, it gets the id
    /// one above the highest allocated, a thread-local storage slot
    /// index when it declares a non-empty block, and the system-module
    /// mark unless it is one of the two named runtime libraries; a
    /// module that needs relocations in its text segment is rejected.
    pub fn load(&mut self, path: Vec<u8>, flags: LoadFlags, force: bool, main: bool,
        image: Image) -> (r: Result<u32, LoadError>)
        requires
            old(self).wf(),
            spec_image_wf(image),
            image.dynamic is Some,
            // The reference behavior leaves loading under the address
            // sanitizer unimplemented.
            !old(self).flags.has_asan,
            old(self).modules@.len() < 0xffff_fff0,
            old(self).tls.max_index < 0xffff_ffff,
            forall|i: int| 0 <= i < old(self).modules@.len()
                ==> (#[trigger] old(self).modules@[i]).ref_count < 0xffff_ffff,
            // A path without a file name panics in the reference
            // behavior.
            spec_file_name(path@).len() > 0,
        ensures
            final(self).wf(),
            final(self).kernel == old(self).kernel,
            final(self).flags == old(self).flags,
            final(self).globals == old(self).globals,
            final(self).tls.last_offset == old(self).tls.last_offset,
            final(self).tls.last_size == old(self).tls.last_size,
            final(self).tls.static_space == old(self).tls.static_space,
            ({
                let mods0 = old(self).modules@;
                let dup = spec_find_path(mods0, 1, path@);
                let byname = spec_find_name(mods0, 1, spec_file_name(path@));
                let tsize = (match image.tls_program {
                    Some(t) => image.programs@[t as int].mem_size as int,
                    None => 0,
                });
                let fr = spec_free_index(mods0, 1, old(self).tls.max_index as int);
                let tlsi = if tsize != 0 { fr.0 } else { 0 };
                let newmax = if tsize != 0 { fr.1 } else { old(self).tls.max_index as int };
                let newid = spec_max_id(mods0, mods0.len() as int) + 1;
                let size = crate::image::spec_region_size(image.programs@);
                if mods0.len() == 0 {
                    &&& r == Err::<u32, LoadError>(LoadError::NoExe)
                    &&& final(self).modules == old(self).modules
                    &&& final(self).mems == old(self).mems
                    &&& final(self).mains == old(self).mains
                    &&& final(self).tls == old(self).tls
                    &&& final(self).aspace == old(self).aspace
                } else if dup is Some {
                    let i = dup->Some_0;
                    &&& r == Ok::<u32, LoadError>(mods0[i].id)
                    &&& final(self).modules@ == mods0.update(i, (Module {
                        ref_count: (mods0[i].ref_count + 1) as u32,
                        ..mods0[i]
                    }))
                    &&& final(self).mems == old(self).mems
                    &&& final(self).mains == old(self).mains
                    &&& final(self).tls == old(self).tls
                    &&& final(self).aspace == old(self).aspace
                } else if !force && byname is Some {
                    &&& r == Ok::<u32, LoadError>(mods0[byname->Some_0].id)
                    &&& final(self).modules == old(self).modules
                    &&& final(self).mems == old(self).mems
                    &&& final(self).mains == old(self).mains
                    &&& final(self).tls == old(self).tls
                    &&& final(self).aspace == old(self).aspace
                } else if image.ty != FileType::SceDynamic {
                    &&& r == Err::<u32, LoadError>(LoadError::InvalidElf)
                    &&& final(self).modules == old(self).modules
                    &&& final(self).mems == old(self).mems
                    &&& final(self).mains == old(self).mains
                    &&& final(self).tls == old(self).tls
                    &&& final(self).aspace == old(self).aspace
                } else {
                    &&& final(self).tls.max_index == newmax
                    &&& (match crate::module::spec_map_check(image) {
                        Some(e0) => {
                            &&& r == Err::<u32, LoadError>(LoadError::MapFailed(e0))
                            &&& final(self).modules == old(self).modules
                            &&& final(self).mems == old(self).mems
                            &&& final(self).mains == old(self).mains
                            &&& final(self).aspace == old(self).aspace
                        },
                        None => {
                            if old(self).aspace.next + size > old(self).aspace.limit {
                                &&& r == Err::<u32, LoadError>(LoadError::MapFailed(
                                    crate::errno::MapError::MemoryAllocationFailed(
                                        size as usize)))
                                &&& final(self).modules == old(self).modules
                                &&& final(self).mems == old(self).mems
                                &&& final(self).mains == old(self).mains
                                &&& final(self).aspace == old(self).aspace
                            } else if image.dynamic->Some_0.text_rel {
                                &&& r == Err::<u32, LoadError>(LoadError::ImpureText)
                                &&& final(self).modules == old(self).modules
                                &&& final(self).mems == old(self).mems
                                &&& final(self).mains == old(self).mains
                                &&& final(self).aspace.next == old(self).aspace.next + size
                                &&& final(self).aspace.limit == old(self).aspace.limit
                            } else {
                                let m = final(self).modules@.last();
                                &&& r == Ok::<u32, LoadError>(newid as u32)
                                &&& final(self).modules@.len() == mods0.len() + 1
                                &&& final(self).modules@.subrange(0, mods0.len() as int)
                                    == mods0
                                &&& m.id == newid
                                &&& m.path == path
                                &&& m.names@.len() == 1
                                &&& m.names@[0]@ == spec_file_name(path@)
                                &&& m.flags == (ModuleFlags {
                                    is_system: !(spec_file_name(path@)
                                        == spec_ascii("libc.sprx"@)
                                        || spec_file_name(path@)
                                        == spec_ascii("libSceFios2.sprx"@)),
                                    ..ModuleFlags::spec_empty()
                                })
                                &&& m.ref_count == 1
                                &&& m.tls_index == tlsi
                                &&& m.tls_offset == 0
                                &&& m.dag_static@.len() == 0
                                &&& m.dag_dynamic@.len() == 0
                                &&& m.dynamic == image.dynamic
                                &&& m.modules_info == image.modules
                                &&& m.mem.addr == old(self).aspace.next
                                &&& m.mem.size == size
                                &&& m.tls_info == (match image.tls_program {
                                    Some(t) => Some(crate::image::TlsInfo {
                                        init: image.programs@[t as int].addr,
                                        init_size: image.programs@[t as int].data@.len() as usize,
                                        size: image.programs@[t as int].mem_size,
                                        align: image.programs@[t as int].align,
                                    }),
                                    None => None::<crate::image::TlsInfo>,
                                })
                                &&& final(self).mems@.len() == mods0.len() + 1
                                &&& final(self).mems@.subrange(0, mods0.len() as int)
                                    == old(self).mems@
                                &&& final(self).mems@.last().bytes@
                                    == crate::module::spec_region_bytes(image.programs@, 0,
                                        Seq::new(size as nat, |b: int| 0u8))
                                &&& final(self).mems@.last().reloc_cache@
                                    == Seq::new(m.spec_reloc_slots() as nat,
                                        |b: int| None::<Relocated>)
                                &&& final(self).mains@ == (if main {
                                    old(self).mains@.push(newid as u32)
                                } else {
                                    old(self).mains@
                                })
                                &&& (!main ==> final(self).mains == old(self).mains)
                                &&& final(self).aspace.next == old(self).aspace.next + size
                                &&& final(self).aspace.limit == old(self).aspace.limit
                            }
                        },
                    })
                }
            }),
    {
        let ghost mods0 = self.modules@;

        // The process must already have an executable image.
        if self.modules.len() == 0 {
            return Err(LoadError::NoExe);
        }

        // A module with the same path is shared, not re-mapped.
        let n = self.modules.len();
        let mut i: usize = 1;
        while i < n
            invariant
                1 <= i <= n,
                n == mods0.len(),
                mods0 == self.modules@,
                mods0 == old(self).modules@,
                self.modules == old(self).modules,
                self.wf(),
                spec_frame(*self, *old(self)),
                forall|j: int| 0 <= j < mods0.len()
                    ==> (#[trigger] mods0[j]).ref_count < 0xffff_ffff,
                spec_find_path(mods0, 1, path@) == spec_find_path(mods0, i as int, path@),
            decreases n - i,
        {
            if bytes_eq(&self.modules[i].path, &path) {
                let id = self.modules[i].id;
                let mut m = self.modules.remove(i);
                m.ref_count = m.ref_count + 1;
                self.modules.insert(i, m);
                proof {
                    assert(self.modules@ =~= mods0.update(i as int,
                        self.modules@[i as int]));
                    assert(self.modules@[i as int].id == mods0[i as int].id);
                    assert forall|j: int| 0 <= j < mods0.len()
                        implies (#[trigger] mods0[j]).id == self.modules@[j].id by {}
                    assert forall|k: int| 0 <= k < self.mains@.len()
                        implies spec_find_module(self.modules@, 0,
                            #[trigger] self.mains@[k]) is Some by {
                        lemma_find_module_same_ids(mods0, self.modules@, 0, self.mains@[k]);
                    }
                }
                return Ok(id);
            }
            i = i + 1;
        }
        proof {
            assert(spec_find_path(mods0, 1, path@) is None);
        }

        // Without `force`, a module that declares the requested file
        // name is shared too.
        let name = file_name(&path);
        if !force {
            let mut i: usize = 1;
            while i < n
                invariant
                    1 <= i <= n,
                    n == mods0.len(),
                    mods0 == self.modules@,
                    mods0 == old(self).modules@,
                    self.modules == old(self).modules,
                    self.wf(),
                    spec_frame(*self, *old(self)),
                    !force,
                    name@ == spec_file_name(path@),
                    spec_find_path(mods0, 1, path@) is None,
                    spec_find_name(mods0, 1, name@) == spec_find_name(mods0, i as int, name@),
                decreases n - i,
            {
                if names_contain(&self.modules[i].names, &name) {
                    proof {
                        assert(spec_find_name(mods0, i as int, name@) == Some(i as int));
                    }
                    return Ok(self.modules[i].id);
                }
                i = i + 1;
            }
            proof {
                assert(spec_find_name(mods0, 1, name@) is None);
            }
        }

        // Only shared objects can be loaded.
        if !matches!(image.ty, FileType::SceDynamic) {
            return Err(LoadError::InvalidElf);
        }

        // The new module id: one above the highest allocated.
        let mut maxid: u32 = 0;
        let mut j: usize = 0;
        while j < n
            invariant
                0 <= j <= n,
                n == mods0.len(),
                mods0 == self.modules@,
                mods0 == old(self).modules@,
                self.modules == old(self).modules,
                self.wf(),
                spec_frame(*self, *old(self)),
                maxid as int == spec_max_id(mods0, j as int),
                maxid as int <= spec_max_id(mods0, n as int),
            decreases n - j,
        {
            proof {
                lemma_max_id_mono(mods0, j + 1, n as int);
            }
            if self.modules[j].id > maxid {
                maxid = self.modules[j].id;
            }
            j = j + 1;
        }
        proof {
            lemma_max_id_bound(mods0, n as int);
            assert(maxid < n as u32);
        }
        let id = maxid + 1;

        // Search a free thread-local storage slot if the image declares
        // a non-empty block.
        let tls_size = match image.tls_program {
            Some(t) => image.programs[t].mem_size,
            None => 0,
        };
        let tls_index = if tls_size == 0 {
            0
        } else {
            let (idx, newmax) = free_tls_index(&self.modules, self.tls.max_index);
            self.tls.max_index = newmax;
            idx
        };

        // Map the image.
        let mut names: Vec<Vec<u8>> = Vec::new();
        names.push(name);
        let (mut m, mm) = match Module::map(&mut self.aspace, image, 0, id, names, tls_index,
            path) {
            Ok(v) => v,
            Err(e) => {
                return Err(LoadError::MapFailed(e));
            },
        };

        // A module that needs relocations in its text segment cannot be
        // used.
        if m.flags.text_rel {
            return Err(LoadError::ImpureText);
        }

        // Every module but the two named runtime libraries is a system
        // module.
        let libc_name = ascii_bytes("libc.sprx");
        let fios_name = ascii_bytes("libSceFios2.sprx");
        if !(bytes_eq(&m.names[0], &libc_name) || bytes_eq(&m.names[0], &fios_name)) {
            m.flags.is_system = true;
        }

        // Register the module.
        let ghost mpushed = m;
        self.modules.push(m);
        self.mems.push(mm);
        if main {
            self.mains.push(id);
        }
        proof {
            assert(self.modules@.subrange(0, mods0.len() as int) =~= mods0);
            assert(self.mems@.subrange(0, mods0.len() as int) =~= old(self).mems@);
            lemma_max_id_bound(mods0, n as int);
            assert forall|k: int| 0 <= k < self.mains@.len()
                implies spec_find_module(self.modules@, 0, #[trigger] self.mains@[k]) is Some by {
                if k < old(self).mains@.len() {
                    lemma_find_module_push(mods0, 0, old(self).mains@[k], mpushed);
                } else {
                    lemma_find_module_nodup(mods0, 0, id);
                    lemma_find_module_push(mods0, 0, id, mpushed);
                }
            }
            assert forall|k: int, l: int| 0 <= k < l < self.mains@.len()
                implies (#[trigger] self.mains@[k]) != (#[trigger] self.mains@[l]) by {
                if l == self.mains@.len() - 1 && self.mains@.len() > old(self).mains@.len() {
                    lemma_find_module_found(mods0, 0, self.mains@[k]);
                }
            }
        }
        Ok(id)
    }
}

/// The relocation pass a module undergoes, on its mapped state.
pub open spec fn spec_mod_fold(mods: Seq<Module>, mems: Seq<ModuleMem>, j: int)
    -> (Seq<u8>, Seq<Option<Relocated>>, Option<RelocErr>) {
    spec_single_fold(mods, j, mems[j].bytes@, mems[j].reloc_cache@)
}

/// The position of module `j` in the relocation order rooted at `root`:
/// the root first, then the others by index.
pub open spec fn spec_order_pos(root: int, j: int) -> int {
    if j == root {
        0
    } else if j < root {
        j + 1
    } else {
        j
    }
}

impl RuntimeLinker {
    /// Relocates the root module, then every other loaded module, in
    /// index order. Taking the linker exclusively stands for the
    /// requirement that no other thread may observe partially-relocated
    /// memory. On failure, modules earlier in the order keep their fully
    /// applied state, the failing module keeps the entries applied
    /// before the offending one, and later modules are untouched: a
    /// retry is possible because recorded entries are never re-applied.
    pub fn relocate(&mut self, root: usize) -> (r: Result<(), RelocateError>)
        requires
            old(self).wf(),
            root < old(self).modules@.len(),
        ensures
            final(self).wf(),
            final(self).modules == old(self).modules,
            final(self).globals == old(self).globals,
            final(self).mains == old(self).mains,
            final(self).kernel == old(self).kernel,
            final(self).tls == old(self).tls,
            final(self).flags == old(self).flags,
            final(self).aspace == old(self).aspace,
            final(self).mems@.len() == old(self).mems@.len(),
            ({
                let mods = old(self).modules@;
                let mems0 = old(self).mems@;
                let n = mods.len() as int;
                match r {
                    Ok(()) => forall|j: int| 0 <= j < n ==> {
                        let f = #[trigger] spec_mod_fold(mods, mems0, j);
                        &&& final(self).mems@[j].bytes@ == f.0
                        &&& final(self).mems@[j].reloc_cache@ == f.1
                        &&& f.2 is None
                    },
                    Err(e) => exists|fi: int| 0 <= fi < n && {
                        let ff = #[trigger] spec_mod_fold(mods, mems0, fi);
                        &&& ff.2 matches Some(ev) && spec_err_matches(e, ev)
                        &&& final(self).mems@[fi].bytes@ == ff.0
                        &&& final(self).mems@[fi].reloc_cache@ == ff.1
                        &&& forall|j: int| 0 <= j < n
                            && spec_order_pos(root as int, j) < spec_order_pos(root as int, fi)
                            ==> {
                            let f = #[trigger] spec_mod_fold(mods, mems0, j);
                            &&& final(self).mems@[j].bytes@ == f.0
                            &&& final(self).mems@[j].reloc_cache@ == f.1
                            &&& f.2 is None
                        }
                        &&& forall|j: int| 0 <= j < n
                            && spec_order_pos(root as int, j) > spec_order_pos(root as int, fi)
                            ==> (#[trigger] final(self).mems@[j]).bytes@ == mems0[j].bytes@
                                && final(self).mems@[j].reloc_cache@ == mems0[j].reloc_cache@
                    },
                }
            }),
    {
        let ghost mods = self.modules@;
        let ghost mems0 = self.mems@;
        let n = self.modules.len();

        // The root module first.
        let mut mm = self.mems.remove(root);
        let rr = relocate_single(&self.modules, root, &mut mm);
        self.mems.insert(root, mm);
        proof {
            assert(self.mems@ =~= mems0.update(root as int, self.mems@[root as int]));
        }
        if let Err(e) = rr {
            proof {
                let fi = root as int;
                assert(spec_mod_fold(mods, mems0, fi).2 matches Some(ev)
                    && spec_err_matches(e, ev));
            }
            return Err(e);
        }

        // Then every other module, in index order.
        let mut i: usize = 0;
        while i < n
            invariant
                0 <= i <= n,
                n == mods.len(),
                root < n,
                mods == self.modules@,
                self.modules == old(self).modules,
                mems0 == old(self).mems@,
                mems0.len() == n,
                self.mems@.len() == n,
                self.globals == old(self).globals,
                self.mains == old(self).mains,
                self.kernel == old(self).kernel,
                self.tls == old(self).tls,
                self.flags == old(self).flags,
                self.aspace == old(self).aspace,
                self.wf(),
                ({
                    let f = spec_mod_fold(mods, mems0, root as int);
                    &&& self.mems@[root as int].bytes@ == f.0
                    &&& self.mems@[root as int].reloc_cache@ == f.1
                    &&& f.2 is None
                }),
                forall|j: int| 0 <= j < i && j != root ==> {
                    let f = #[trigger] spec_mod_fold(mods, mems0, j);
                    &&& self.mems@[j].bytes@ == f.0
                    &&& self.mems@[j].reloc_cache@ == f.1
                    &&& f.2 is None
                },
                forall|j: int| i <= j < n && j != root
                    ==> (#[trigger] self.mems@[j]).bytes@ == mems0[j].bytes@
                        && self.mems@[j].reloc_cache@ == mems0[j].reloc_cache@,
            decreases n - i,
        {
            if i != root {
                let ghost mems_pre = self.mems@;
                let mut mm = self.mems.remove(i);
                let rr = relocate_single(&self.modules, i, &mut mm);
                self.mems.insert(i, mm);
                proof {
                    assert(self.mems@ =~= mems_pre.update(i as int, self.mems@[i as int]));
                }
                if let Err(e) = rr {
                    proof {
                        let fi = i as int;
                        assert(spec_mod_fold(mods, mems0, fi).2 matches Some(ev)
                            && spec_err_matches(e, ev));
                        assert forall|j: int| 0 <= j < n as int
                            && spec_order_pos(root as int, j) > spec_order_pos(root as int, fi)
                            implies (#[trigger] self.mems@[j]).bytes@ == mems0[j].bytes@
                                && self.mems@[j].reloc_cache@ == mems0[j].reloc_cache@ by {
                            assert(j != root && j > fi);
                        }
                    }
                    return Err(e);
                }
            }
            i = i + 1;
        }
        Ok(())
    }
}

/// The outcome of the thread-local storage pass from one position of
/// the mains list on: the offset assigned at each position, whether the
/// visited-mark was set, the final allocator state, and whether every
/// computed offset fits the machine word.
pub struct TlsPass {
    pub offsets: Seq<Option<int>>,
    pub done: Seq<bool>,
    pub last_offset: int,
    pub last_size: int,
    pub fits: bool,
}

/// The thread-local storage pass: walks the mains list from position
/// `k`; a module already marked is skipped; one with a non-empty block
/// is placed at its block size aligned up when it holds slot one, else
/// at the last offset plus its block size, aligned up; a configured
/// ceiling leaves a module that would overrun it unassigned and
/// unmarked; a module without a block is only marked.
pub open spec fn spec_tls_pass(mods: Seq<Module>, mains: Seq<u32>, k: int, last_off: int,
    last_size: int, ss: int) -> TlsPass
    decreases mains.len() - k,
{
    if k < 0 || k >= mains.len() {
        TlsPass {
            offsets: Seq::empty(),
            done: Seq::empty(),
            last_offset: last_off,
            last_size: last_size,
            fits: true,
        }
    } else {
        match spec_find_module(mods, 0, mains[k]) {
            None => {
                let rest = spec_tls_pass(mods, mains, k + 1, last_off, last_size, ss);
                TlsPass {
                    offsets: seq![None].add(rest.offsets),
                    done: seq![false].add(rest.done),
                    ..rest
                }
            },
            Some(mi) => {
                let m = mods[mi];
                if m.flags.tls_done {
                    let rest = spec_tls_pass(mods, mains, k + 1, last_off, last_size, ss);
                    TlsPass {
                        offsets: seq![None].add(rest.offsets),
                        done: seq![false].add(rest.done),
                        ..rest
                    }
                } else if m.tls_info is Some && m.tls_info->Some_0.size != 0 {
                    let t = m.tls_info->Some_0;
                    let x = if m.tls_index == 1 {
                        t.size as int
                    } else {
                        last_off + t.size
                    };
                    let off = spec_align_up(x, t.align as int);
                    let fits_here = x + t.align <= usize::MAX;
                    if ss != 0 && off > ss {
                        let rest = spec_tls_pass(mods, mains, k + 1, last_off, last_size, ss);
                        TlsPass {
                            offsets: seq![None].add(rest.offsets),
                            done: seq![false].add(rest.done),
                            last_offset: rest.last_offset,
                            last_size: rest.last_size,
                            fits: fits_here && rest.fits,
                        }
                    } else {
                        let rest = spec_tls_pass(mods, mains, k + 1, off, t.size as int, ss);
                        TlsPass {
                            offsets: seq![Some(off)].add(rest.offsets),
                            done: seq![true].add(rest.done),
                            last_offset: rest.last_offset,
                            last_size: rest.last_size,
                            fits: fits_here && rest.fits,
                        }
                    }
                } else {
                    let rest = spec_tls_pass(mods, mains, k + 1, last_off, last_size, ss);
                    TlsPass {
                        offsets: seq![None].add(rest.offsets),
                        done: seq![true].add(rest.done),
                        ..rest
                    }
                }
            },
        }
    }
}

/// The pass records one outcome per remaining position.
pub proof fn lemma_tls_pass_len(mods: Seq<Module>, mains: Seq<u32>, k: int, last_off: int,
    last_size: int, ss: int)
    requires
        0 <= k <= mains.len(),
    ensures
        spec_tls_pass(mods, mains, k, last_off, last_size, ss).offsets.len() == mains.len() - k,
        spec_tls_pass(mods, mains, k, last_off, last_size, ss).done.len() == mains.len() - k,
    decreases mains.len() - k,
{
    if k < mains.len() {
        match spec_find_module(mods, 0, mains[k]) {
            None => {
                lemma_tls_pass_len(mods, mains, k + 1, last_off, last_size, ss);
            },
            Some(mi) => {
                let m = mods[mi];
                if m.flags.tls_done {
                    lemma_tls_pass_len(mods, mains, k + 1, last_off, last_size, ss);
                } else if m.tls_info is Some && m.tls_info->Some_0.size != 0 {
                    let t = m.tls_info->Some_0;
                    let x = if m.tls_index == 1 {
                        t.size as int
                    } else {
                        last_off + t.size
                    };
                    let off = spec_align_up(x, t.align as int);
                    if ss != 0 && off > ss {
                        lemma_tls_pass_len(mods, mains, k + 1, last_off, last_size, ss);
                    } else {
                        lemma_tls_pass_len(mods, mains, k + 1, off, t.size as int, ss);
                    }
                } else {
                    lemma_tls_pass_len(mods, mains, k + 1, last_off, last_size, ss);
                }
            },
        }
    }
}

/// Whether some position of the first `upto` mains entries finds module
/// `j`.
pub open spec fn spec_tls_hit(mods: Seq<Module>, mains: Seq<u32>, upto: int, j: int) -> bool {
    exists|k: int| 0 <= k < upto && spec_find_module(mods, 0, #[trigger] mains[k]) == Some(j)
}

/// All fields the thread-local storage pass leaves alone.
pub open spec fn spec_tls_frame(a: Module, b: Module) -> bool {
    b == (Module {
        tls_offset: b.tls_offset,
        flags: (ModuleFlags { tls_done: b.flags.tls_done, ..a.flags }),
        ..a
    })
}

/// The maximum over a prefix never exceeds the maximum over the list.
pub proof fn lemma_max_id_mono(mods: Seq<Module>, i: int, n: int)
    requires
        0 <= i <= n <= mods.len(),
    ensures
        spec_max_id(mods, i) <= spec_max_id(mods, n),
    decreases n - i,
{
    if i < n {
        lemma_max_id_mono(mods, i + 1, n);
    }
}

impl RuntimeLinker {
    /// Marks a module's thread-local storage as assigned, recording the
    /// offset when one was placed.
    fn set_module_tls(&mut self, mi: usize, off: Option<usize>)
        requires
            mi < old(self).modules@.len(),
        ensures
            final(self).modules@ == old(self).modules@.update(mi as int, (Module {
                tls_offset: (match off {
                    Some(o) => o,
                    None => old(self).modules@[mi as int].tls_offset,
                }),
                flags: (ModuleFlags {
                    tls_done: true,
                    ..old(self).modules@[mi as int].flags
                }),
                ..old(self).modules@[mi as int]
            })),
            final(self).modules@.len() == old(self).modules@.len(),
            final(self).mems == old(self).mems,
            final(self).globals == old(self).globals,
            final(self).mains == old(self).mains,
            final(self).kernel == old(self).kernel,
            final(self).tls == old(self).tls,
            final(self).flags == old(self).flags,
            final(self).aspace == old(self).aspace,
    {
        let mut m = self.modules.remove(mi);
        if let Some(o) = off {
            m.tls_offset = o;
        }
        m.flags.tls_done = true;
        self.modules.insert(mi, m);
        proof {
            assert(self.modules@ =~= old(self).modules@.update(mi as int,
                self.modules@[mi as int]));
        }
    }

    /// Assigns thread-local storage offsets to the main modules not yet
    /// visited, exactly as [`spec_tls_pass`] describes: the first block
    /// (slot one) is placed at its size aligned up, later blocks after
    /// the previous offset, and a configured ceiling soft-skips a block
    /// that would overrun it rather than failing.
    #[verifier::rlimit(100)]
    pub fn assign_tls_offsets(&mut self)
        requires
            old(self).wf(),
            spec_tls_pass(old(self).modules@, old(self).mains@, 0,
                old(self).tls.last_offset as int, old(self).tls.last_size as int,
                old(self).tls.static_space as int).fits,
        ensures
            final(self).wf(),
            final(self).mems == old(self).mems,
            final(self).globals == old(self).globals,
            final(self).mains == old(self).mains,
            final(self).kernel == old(self).kernel,
            final(self).flags == old(self).flags,
            final(self).aspace == old(self).aspace,
            final(self).tls.max_index == old(self).tls.max_index,
            final(self).tls.static_space == old(self).tls.static_space,
            final(self).modules@.len() == old(self).modules@.len(),
            ({
                let mods0 = old(self).modules@;
                let mains0 = old(self).mains@;
                let full = spec_tls_pass(mods0, mains0, 0, old(self).tls.last_offset as int,
                    old(self).tls.last_size as int, old(self).tls.static_space as int);
                &&& final(self).tls.last_offset == full.last_offset
                &&& final(self).tls.last_size == full.last_size
                &&& forall|j: int| 0 <= j < mods0.len()
                    ==> spec_tls_frame(mods0[j], #[trigger] final(self).modules@[j])
                        && final(self).modules@[j].id == mods0[j].id
                &&& forall|k: int| 0 <= k < mains0.len()
                    ==> (match spec_find_module(mods0, 0, #[trigger] mains0[k]) {
                        Some(mi) => {
                            let mn = final(self).modules@[mi];
                            let mo = mods0[mi];
                            &&& mn.tls_offset as int == (match full.offsets[k] {
                                Some(o) => o,
                                None => mo.tls_offset as int,
                            })
                            &&& mn.flags.tls_done == (mo.flags.tls_done || full.done[k])
                        },
                        None => true,
                    })
                &&& forall|j: int| 0 <= j < mods0.len()
                    && !spec_tls_hit(mods0, mains0, mains0.len() as int, j)
                    ==> final(self).modules@[j] == mods0[j]
            }),
    {
        let ghost mods0 = self.modules@;
        let ghost mains0 = self.mains@;
        let ghost lo0 = self.tls.last_offset as int;
        let ghost ls0 = self.tls.last_size as int;
        let ghost ss = self.tls.static_space as int;
        let ghost full = spec_tls_pass(mods0, mains0, 0, lo0, ls0, ss);
        proof {
            lemma_tls_pass_len(mods0, mains0, 0, lo0, ls0, ss);
            assert(full.offsets.skip(0) =~= full.offsets);
            assert(full.done.skip(0) =~= full.done);
            assert(full == (TlsPass {
                offsets: full.offsets.skip(0),
                done: full.done.skip(0),
                last_offset: full.last_offset,
                last_size: full.last_size,
                fits: true,
            }));
        }
        let n = self.mains.len();
        let mut k: usize = 0;
        while k < n
            invariant
                0 <= k <= n,
                n == mains0.len(),
                mods0 == old(self).modules@,
                mains0 == old(self).mains@,
                self.mains == old(self).mains,
                self.mems == old(self).mems,
                self.globals == old(self).globals,
                self.kernel == old(self).kernel,
                self.flags == old(self).flags,
                self.aspace == old(self).aspace,
                self.tls.max_index == old(self).tls.max_index,
                self.tls.static_space == old(self).tls.static_space,
                ss == old(self).tls.static_space as int,
                self.modules@.len() == mods0.len(),
                self.wf(),
                full == spec_tls_pass(mods0, mains0, 0, lo0, ls0, ss),
                full.fits,
                full.offsets.len() == n - 0,
                full.done.len() == n - 0,
                spec_tls_pass(mods0, mains0, k as int, self.tls.last_offset as int,
                    self.tls.last_size as int, ss) == (TlsPass {
                    offsets: full.offsets.skip(k as int),
                    done: full.done.skip(k as int),
                    last_offset: full.last_offset,
                    last_size: full.last_size,
                    fits: true,
                }),
                forall|j: int| 0 <= j < mods0.len()
                    ==> spec_tls_frame(mods0[j], #[trigger] self.modules@[j])
                        && self.modules@[j].id == mods0[j].id,
                forall|k2: int| 0 <= k2 < k
                    ==> (match spec_find_module(mods0, 0, #[trigger] mains0[k2]) {
                        Some(mi) => {
                            let mn = self.modules@[mi];
                            let mo = mods0[mi];
                            &&& mn.tls_offset as int == (match full.offsets[k2] {
                                Some(o) => o,
                                None => mo.tls_offset as int,
                            })
                            &&& mn.flags.tls_done == (mo.flags.tls_done || full.done[k2])
                        },
                        None => true,
                    }),
                forall|j: int| 0 <= j < mods0.len() && !spec_tls_hit(mods0, mains0, k as int, j)
                    ==> self.modules@[j] == mods0[j],
            decreases n - k,
        {
            let ghost miter = self.modules@;
            let ghost lo_cur = self.tls.last_offset as int;
            let ghost ls_cur = self.tls.last_size as int;
            let ghost suffix = spec_tls_pass(mods0, mains0, k as int, lo_cur, ls_cur, ss);
            proof {
                assert(suffix == (TlsPass {
                    offsets: full.offsets.skip(k as int),
                    done: full.done.skip(k as int),
                    last_offset: full.last_offset,
                    last_size: full.last_size,
                    fits: true,
                }));
                assert(suffix.offsets.len() == n - k && suffix.done.len() == n - k);
            }
            let mid = self.mains[k];
            let found = find_module(&self.modules, mid);
            proof {
                lemma_find_module_same_ids(self.modules@, mods0, 0, mid);
            }
            match found {
                None => {
                    proof {
                        assert(spec_find_module(mods0, 0, mains0[k as int]) is None);
                        assert(suffix.offsets == full.offsets.skip(k as int));
                        assert(full.offsets.skip(k as int).skip(1)
                            =~= full.offsets.skip(k + 1));
                        assert(full.done.skip(k as int).skip(1) =~= full.done.skip(k + 1));
                        assert(seq![None::<int>].add(spec_tls_pass(mods0, mains0, k + 1,
                            lo_cur, ls_cur, ss).offsets).skip(1)
                            =~= spec_tls_pass(mods0, mains0, k + 1, lo_cur, ls_cur,
                                ss).offsets);
                        assert(seq![false].add(spec_tls_pass(mods0, mains0, k + 1,
                            lo_cur, ls_cur, ss).done).skip(1)
                            =~= spec_tls_pass(mods0, mains0, k + 1, lo_cur, ls_cur, ss).done);
                    }
                },
                Some(mi) => {
                    proof {
                        // This module was not touched by an earlier
                        // position: positions carry distinct ids and a
                        // search finds the id it looked for.
                        lemma_find_module_found(mods0, 0, mains0[k as int]);
                        assert forall|k2: int| 0 <= k2 < k
                            implies spec_find_module(mods0, 0, #[trigger] mains0[k2])
                                != Some(mi as int) by {
                            if spec_find_module(mods0, 0, mains0[k2]) == Some(mi as int) {
                                lemma_find_module_found(mods0, 0, mains0[k2]);
                            }
                        }
                        assert(!spec_tls_hit(mods0, mains0, k as int, mi as int));
                        assert(self.modules@[mi as int] == mods0[mi as int]);
                    }
                    if !self.modules[mi].flags.tls_done {
                        let tinfo = self.modules[mi].tls_info;
                        let has_block = match tinfo {
                            Some(t) => t.size != 0,
                            None => false,
                        };
                        if has_block {
                            let t = match tinfo {
                                Some(t) => t,
                                None => crate::image::TlsInfo {
                                    init: 0,
                                    init_size: 0,
                                    size: 0,
                                    align: 1,
                                },
                            };
                            let x = if self.modules[mi].tls_index == 1 {
                                t.size
                            } else {
                                proof {
                                    // The pass fits, so this sum stays
                                    // in range.
                                    assert(suffix.fits);
                                    assert(lo_cur + t.size + t.align <= usize::MAX);
                                }
                                self.tls.last_offset + t.size
                            };
                            proof {
                                assert(x + t.align <= usize::MAX) by {
                                    assert(suffix.fits);
                                }
                            }
                            let off = align_up(x, t.align);
                            if self.tls.static_space != 0 && off > self.tls.static_space {
                                // Soft skip: leave the module unassigned
                                // and unmarked.
                                proof {
                                    assert(suffix.offsets[0] is None && !suffix.done[0]);
                                }
                            } else {
                                self.set_module_tls(mi, Some(off));
                                self.tls.last_offset = off;
                                self.tls.last_size = t.size;
                                proof {
                                    assert(suffix.offsets[0] == Some(off as int)
                                        && suffix.done[0] == true);
                                }
                            }
                        } else {
                            self.set_module_tls(mi, None);
                            proof {
                                assert(suffix.offsets[0] is None && suffix.done[0] == true);
                            }
                        }
                    } else {
                        proof {
                            assert(suffix.offsets[0] is None && !suffix.done[0]);
                        }
                    }
                    proof {
                        assert(full.offsets.skip(k as int).skip(1)
                            =~= full.offsets.skip(k + 1));
                        assert(full.done.skip(k as int).skip(1) =~= full.done.skip(k + 1));
                        let rest = spec_tls_pass(mods0, mains0, k + 1,
                            self.tls.last_offset as int, self.tls.last_size as int, ss);
                        assert(seq![suffix.offsets[0]].add(rest.offsets).skip(1)
                            =~= rest.offsets);
                        assert(seq![suffix.done[0]].add(rest.done).skip(1) =~= rest.done);
                        assert(suffix.offsets[0] == full.offsets[k as int]);
                        assert(suffix.done[0] == full.done[k as int]);
                        assert forall|j: int| 0 <= j < mods0.len()
                            implies (#[trigger] self.modules@[j]).id == miter[j].id by {}
                        assert forall|k3: int| 0 <= k3 < self.mains@.len()
                            implies spec_find_module(self.modules@, 0,
                                #[trigger] self.mains@[k3]) is Some by {
                            lemma_find_module_same_ids(miter, self.modules@, 0,
                                self.mains@[k3]);
                        }
                        assert forall|j: int| 0 <= j < miter.len() && j != mi as int
                            implies self.modules@[j] == miter[j] by {}
                        assert forall|k2: int| 0 <= k2 < k + 1
                            implies (match spec_find_module(mods0, 0, #[trigger] mains0[k2]) {
                                Some(mi2) => {
                                    let mn = self.modules@[mi2];
                                    let mo = mods0[mi2];
                                    &&& mn.tls_offset as int == (match full.offsets[k2] {
                                        Some(o) => o,
                                        None => mo.tls_offset as int,
                                    })
                                    &&& mn.flags.tls_done == (mo.flags.tls_done
                                        || full.done[k2])
                                },
                                None => true,
                            }) by {
                            if k2 < k {
                                if spec_find_module(mods0, 0, mains0[k2]) is Some {
                                    lemma_find_module_found(mods0, 0, mains0[k2]);
                                    let mi2 = spec_find_module(mods0, 0, mains0[k2])->Some_0;
                                    assert(0 <= mi2 < mods0.len());
                                    assert(mi2 != mi as int);
                                    assert(self.modules@[mi2] == miter[mi2]);
                                }
                            }
                        }
                    }
                },
            }
            proof {
                assert forall|j: int| 0 <= j < mods0.len()
                    && !spec_tls_hit(mods0, mains0, k + 1, j)
                    implies self.modules@[j] == mods0[j] by {
                    assert(!spec_tls_hit(mods0, mains0, k as int, j));
                }
            }
            k = k + 1;
        }
        proof {
            assert(spec_tls_pass(mods0, mains0, n as int, self.tls.last_offset as int,
                self.tls.last_size as int, ss).last_offset == self.tls.last_offset as int);
        }
    }
}

/// A found path sits in range.
pub proof fn lemma_find_path_found(mods: Seq<Module>, k: int, path: Seq<u8>)
    requires
        0 <= k,
        spec_find_path(mods, k, path) is Some,
    ensures
        ({
            let i = spec_find_path(mods, k, path)->Some_0;
            k <= i < mods.len() && mods[i].path@ == path
        }),
    decreases mods.len() - k,
{
    if 0 <= k < mods.len() && mods[k].path@ != path {
        lemma_find_path_found(mods, k + 1, path);
    }
}

/// A present id is found.
pub proof fn lemma_find_module_present(mods: Seq<Module>, k: int, id: u32)
    requires
        0 <= k,
        exists|j: int| k <= j < mods.len() && (#[trigger] mods[j]).id == id,
    ensures
        spec_find_module(mods, k, id) is Some,
    decreases mods.len() - k,
{
    if mods[k].id != id {
        let j = choose|j: int| k <= j < mods.len() && (#[trigger] mods[j]).id == id;
        assert(j > k);
        lemma_find_module_present(mods, k + 1, id);
    }
}

/// The first declared module entry with id zero: the module's own name.
pub open spec fn spec_mod0_name(infos: Seq<crate::image::ModuleInfo>, k: int) -> Option<Seq<u8>>
    decreases infos.len() - k,
{
    if k < 0 || k >= infos.len() {
        None
    } else if infos[k].id == 0 {
        Some(infos[k].name@)
    } else {
        spec_mod0_name(infos, k + 1)
    }
}

/// Finds the declared entry with id zero.
fn find_mod0(infos: &Vec<crate::image::ModuleInfo>) -> (r: Option<usize>)
    ensures
        (match r {
            Some(j) => j < infos@.len()
                && spec_mod0_name(infos@, 0) == Some(infos@[j as int].name@),
            None => spec_mod0_name(infos@, 0) is None,
        }),
{
    let n = infos.len();
    let mut j: usize = 0;
    while j < n
        invariant
            0 <= j <= n,
            n == infos@.len(),
            spec_mod0_name(infos@, 0) == spec_mod0_name(infos@, j as int),
        decreases n - j,
    {
        if infos[j].id == 0 {
            return Some(j);
        }
        j = j + 1;
    }
    None
}

/// What a name resolves to in a module's scope: the raw-name form skips
/// hashing and constraints; otherwise the name is hashed and, without an
/// explicit library, constrained to the module's own declared name. The
/// search is always permissive here.
pub open spec fn spec_resolve_symbol(mods: Seq<Module>, idx: int, name: Seq<u8>,
    lib: Option<Seq<u8>>, unk1: bool) -> Option<u64> {
    let mname = spec_mod0_name(mods[idx].modules_info@, 0);
    let n2 = if unk1 { name } else { spec_nid(name) };
    let l2 = if unk1 {
        None
    } else if lib is Some {
        lib
    } else {
        mname
    };
    match crate::resolve::spec_resolve_name(mods, idx, n2, l2, true) {
        None => None,
        Some(p) => Some(crate::reloc::spec_resolved_addr(mods, p.0, p.1)),
    }
}

/// The legacy module-info structure of the syscall surface; the caller
/// must declare exactly this size for it.
pub const DYNLIB_INFO_SIZE: usize = 0x160;

/// The extended module-info structure's declared size.
pub const DYNLIB_INFO_EX_SIZE: usize = 0x1a8;

/// One segment as reported to the guest.
#[derive(Debug, Clone, Copy, PartialEq, Eq, Structural)]
pub struct SegmentInfo {
    pub addr: u64,
    pub size: u32,
    pub prot: u32,
}

/// What the legacy information block holds for a module: its file
/// name, the text segment at the relocation base, the data segment at
/// its mapped address, the read-only-after-relocation segment when one
/// exists, and the image's authenticated digest.
pub open spec fn spec_dynlib_info(m: Module, info: DynlibInfo) -> bool {
    let text = m.mem.segments@[m.mem.text_index as int];
    let data = m.mem.segments@[m.mem.data_index as int];
    &&& info.name@ == spec_file_name(m.path@)
    &&& info.text_segment == (SegmentInfo {
        addr: m.mem.base as u64,
        size: text.len as u32,
        prot: 5,
    })
    &&& info.data_segment == (SegmentInfo {
        addr: (m.mem.addr + data.start) as u64,
        size: data.len as u32,
        prot: 3,
    })
    &&& (match m.mem.relro_index {
        Some(ri) => {
            let relro = m.mem.segments@[ri as int];
            info.segment_count == 3 && info.relro_segment == (SegmentInfo {
                addr: (m.mem.addr + relro.start) as u64,
                size: relro.len as u32,
                prot: 1,
            })
        },
        None => info.segment_count == 2 && info.relro_segment
            == (SegmentInfo { addr: 0, size: 0, prot: 0 }),
    })
    &&& info.fingerprint@ == m.fingerprint@
}

/// The legacy per-module information block.
pub struct DynlibInfo {
    pub name: Vec<u8>,
    pub text_segment: SegmentInfo,
    pub data_segment: SegmentInfo,
    pub relro_segment: SegmentInfo,
    pub segment_count: u32,
    pub fingerprint: Vec<u8>,
}

/// The extended per-module information block.
pub struct DynlibInfoEx {
    pub handle: u32,
    pub name: Vec<u8>,
    pub text_segment: SegmentInfo,
    pub data_segment: SegmentInfo,
    pub segment_count: u32,
    pub refcount: u32,
    pub tlsindex: u32,
    pub tlsinit: u64,
    pub tlsinitsize: u32,
    pub tlssize: u32,
    pub tlsoffset: u32,
    pub tlsalign: u32,
    pub init: u64,
    pub fini: u64,
    pub eh_frame_hdr: u64,
    pub eh_frame: u64,
    pub eh_frame_hdr_size: u32,
    pub eh_frame_size: u32,
}

impl RuntimeLinker {
    /// Resolves a name in a module's scope, as the symbol-lookup syscall
    /// does.
    fn resolve_symbol(&self, idx: usize, name: &Vec<u8>, unk1: bool) -> (r: Option<u64>)
        requires
            self.wf(),
            idx < self.modules@.len(),
        ensures
            r == spec_resolve_symbol(self.modules@, idx as int, name@, None, unk1),
    {
        let rr = if unk1 {
            crate::resolve::resolve_name(&self.modules, idx, name, None, true)
        } else {
            let hashed = get_nid(name);
            // The module's own declared name constrains the search.
            let infos = &self.modules[idx].modules_info;
            let lib2: Option<&Vec<u8>> = match find_mod0(infos) {
                Some(j2) => Some(&infos[j2].name),
                None => None,
            };
            crate::resolve::resolve_name(&self.modules, idx, &hashed, lib2, true)
        };
        match rr {
            None => None,
            Some((mi, si)) => {
                let m = &self.modules[mi];
                let value = match &m.dynamic {
                    Some(d) => d.symbols[si].value,
                    None => 0,
                };
                Some(m.mem.addr.wrapping_add(m.mem.base as u64).wrapping_add(value as u64))
            },
        }
    }

    /// Resolves `name` in the scope of the module `handle`: the two
    /// debug-hook names bypass hashing; the primary image is not a
    /// resolution source on this path and fails loudly.
    pub fn sys_dynlib_dlsym(&self, handle: u32, name: &Vec<u8>) -> (r: Result<u64, SysErr>)
        requires
            self.wf(),
        ensures
            ({
                let mods = self.modules@;
                if mods.len() == 0 {
                    r == Err::<u64, SysErr>(SysErr::Errno(EPERM))
                } else {
                    match spec_find_module(mods, 0, handle) {
                        None => r == Err::<u64, SysErr>(SysErr::Errno(ESRCH)),
                        Some(mi) => {
                            let unk1 = name@ == spec_ascii("BaOKcng8g88"@)
                                || name@ == spec_ascii("KpDMrPHvt3Q"@);
                            if mods[mi].flags.main_prog {
                                r == Err::<u64, SysErr>(SysErr::Unspecified)
                            } else {
                                match spec_resolve_symbol(mods, mi, name@, None, unk1) {
                                    None => r == Err::<u64, SysErr>(SysErr::Errno(ESRCH)),
                                    Some(a) => r == Ok::<u64, SysErr>(a),
                                }
                            }
                        },
                    }
                }
            }),
    {
        if self.modules.len() == 0 {
            return Err(SysErr::Errno(EPERM));
        }
        let mi = match find_module(&self.modules, handle) {
            Some(mi) => mi,
            None => {
                return Err(SysErr::Errno(ESRCH));
            },
        };
        let hook1 = ascii_bytes("BaOKcng8g88");
        let hook2 = ascii_bytes("KpDMrPHvt3Q");
        let unk1 = bytes_eq(name, &hook1) || bytes_eq(name, &hook2);
        if self.modules[mi].flags.main_prog {
            // The reference behavior leaves symbol lookup on the primary
            // image unspecified.
            return Err(SysErr::Unspecified);
        }
        match self.resolve_symbol(mi, name, unk1) {
            Some(a) => Ok(a),
            None => Err(SysErr::Errno(ESRCH)),
        }
    }

    /// Returns the ids of all loaded modules; fails when they do not fit
    /// the caller's buffer capacity.
    pub fn sys_dynlib_get_list(&self, max: usize) -> (r: Result<Vec<u32>, SysErr>)
        requires
            self.wf(),
        ensures
            ({
                let mods = self.modules@;
                if mods.len() == 0 {
                    r matches Err(e) && e == SysErr::Errno(EPERM)
                } else if mods.len() > max {
                    r matches Err(e) && e == SysErr::Errno(ENOMEM)
                } else {
                    r matches Ok(v) && v@ == mods.map_values(|m: Module| m.id)
                }
            }),
    {
        if self.modules.len() == 0 {
            return Err(SysErr::Errno(EPERM));
        }
        let n = self.modules.len();
        if n > max {
            return Err(SysErr::Errno(ENOMEM));
        }
        let mut v: Vec<u32> = Vec::new();
        let mut i: usize = 0;
        while i < n
            invariant
                0 <= i <= n,
                n == self.modules@.len(),
                v@ == self.modules@.map_values(|m: Module| m.id).subrange(0, i as int),
            decreases n - i,
        {
            v.push(self.modules[i].id);
            proof {
                assert(v@ =~= self.modules@.map_values(|m: Module| m.id).subrange(0, i + 1));
            }
            i = i + 1;
        }
        proof {
            assert(v@ =~= self.modules@.map_values(|m: Module| m.id));
        }
        Ok(v)
    }

    /// Fills the legacy information block for module `handle`; system
    /// modules are withheld when `no_system` asks for it.
    pub fn dynlib_get_info(&self, handle: u32, no_system: bool) -> (r: Result<DynlibInfo, SysErr>)
        requires
            self.wf(),
        ensures
            ({
                let mods = self.modules@;
                match spec_find_module(mods, 0, handle) {
                    None => r matches Err(e) && e == SysErr::Errno(ESRCH),
                    Some(mi) => {
                        let m = mods[mi];
                        if no_system && m.flags.is_system {
                            r matches Err(e) && e == SysErr::Errno(EPERM)
                        } else {
                            r matches Ok(info) && spec_dynlib_info(m, info)
                        }
                    },
                }
            }),
    {
        let mi = match find_module(&self.modules, handle) {
            Some(mi) => mi,
            None => {
                return Err(SysErr::Errno(ESRCH));
            },
        };
        let m = &self.modules[mi];
        if no_system && m.flags.is_system {
            return Err(SysErr::Errno(EPERM));
        }
        let name = file_name(&m.path);
        let text = m.mem.segments[m.mem.text_index];
        let data = m.mem.segments[m.mem.data_index];
        let (segment_count, relro_segment) = match m.mem.relro_index {
            Some(ri) => {
                let relro = m.mem.segments[ri];
                (3, SegmentInfo {
                    addr: m.mem.addr + relro.start as u64,
                    size: relro.len as u32,
                    prot: 1,
                })
            },
            None => (2, SegmentInfo { addr: 0, size: 0, prot: 0 }),
        };
        Ok(DynlibInfo {
            name,
            text_segment: SegmentInfo {
                addr: m.mem.base as u64,
                size: text.len as u32,
                prot: 5,
            },
            data_segment: SegmentInfo {
                addr: m.mem.addr + data.start as u64,
                size: data.len as u32,
                prot: 3,
            },
            relro_segment,
            segment_count,
            fingerprint: crate::util::clone_bytes(&m.fingerprint),
        })
    }

    /// The legacy information query: the caller's declared structure
    /// size must match exactly.
    pub fn sys_dynlib_get_info(&self, handle: u32, declared_size: usize)
        -> (r: Result<DynlibInfo, SysErr>)
        requires
            self.wf(),
        ensures
            self.modules@.len() == 0
                ==> (r matches Err(e) && e == SysErr::Errno(EPERM)),
            self.modules@.len() > 0 && declared_size != DYNLIB_INFO_SIZE
                ==> (r matches Err(e) && e == SysErr::Errno(EINVAL)),
            self.modules@.len() > 0 && declared_size == DYNLIB_INFO_SIZE ==> ({
                let mods = self.modules@;
                match spec_find_module(mods, 0, handle) {
                    None => r matches Err(e) && e == SysErr::Errno(ESRCH),
                    Some(mi) => (if mods[mi].flags.is_system {
                        r matches Err(e) && e == SysErr::Errno(EPERM)
                    } else {
                        r matches Ok(info) && spec_dynlib_info(mods[mi], info)
                    }),
                }
            }),
    {
        if self.modules.len() == 0 {
            return Err(SysErr::Errno(EPERM));
        }
        if declared_size != DYNLIB_INFO_SIZE {
            return Err(SysErr::Errno(EINVAL));
        }
        self.dynlib_get_info(handle, true)
    }

    /// The extended information query: the caller's declared structure
    /// size must match exactly; flag bit one selects a composed slot
    /// index, flag bit two withholds a system module's name.
    pub fn sys_dynlib_get_info_ex(&self, handle: u32, flags: u32, declared_size: usize)
        -> (r: Result<DynlibInfoEx, SysErr>)
        requires
            self.wf(),
            forall|i: int| 0 <= i < self.modules@.len()
                ==> (#[trigger] self.modules@[i]).tls_offset <= 0xffff_ffff,
        ensures
            self.modules@.len() == 0
                ==> (r matches Err(e) && e == SysErr::Errno(EPERM)),
            self.modules@.len() > 0 && declared_size != DYNLIB_INFO_EX_SIZE
                ==> (r matches Err(e) && e == SysErr::Errno(EINVAL)),
            self.modules@.len() > 0 && declared_size == DYNLIB_INFO_EX_SIZE ==> ({
                let mods = self.modules@;
                match spec_find_module(mods, 0, handle) {
                    None => r matches Err(e) && e == SysErr::Errno(ESRCH),
                    Some(mi) => r matches Ok(info) && {
                        let m = mods[mi];
                        let text = m.mem.segments@[m.mem.text_index as int];
                        let data = m.mem.segments@[m.mem.data_index as int];
                        &&& info.handle == m.id
                        &&& info.text_segment == (SegmentInfo {
                            addr: (m.mem.addr + m.mem.base) as u64,
                            size: text.len as u32,
                            prot: 5,
                        })
                        &&& info.data_segment == (SegmentInfo {
                            addr: (m.mem.addr + data.start) as u64,
                            size: data.len as u32,
                            prot: 3,
                        })
                        &&& info.segment_count == 2
                        &&& info.refcount == m.ref_count
                        &&& info.name@ == (if flags & 2 == 0 || !m.flags.is_system {
                            spec_file_name(m.path@)
                        } else {
                            Seq::<u8>::empty()
                        })
                        &&& info.tlsindex == (if flags & 1 != 0 {
                            ((((if m.flags.is_system { 1u32 } else { 0u32 })
                                + (if m.flags.main_prog { 2u32 } else { 0u32 })) as u32) << 16u32)
                                | (m.tls_index & 0xffff)
                        } else {
                            m.tls_index & 0xffff
                        })
                        &&& (match m.tls_info {
                            Some(t) => {
                                &&& info.tlsinit == (m.mem.addr + t.init) as u64
                                &&& info.tlsinitsize == t.init_size as u32
                                &&& info.tlssize == t.size as u32
                                &&& info.tlsalign == t.align as u32
                            },
                            None => info.tlsinit == m.mem.addr && info.tlsinitsize == 0
                                && info.tlssize == 0 && info.tlsalign == 0,
                        })
                        &&& info.tlsoffset == m.tls_offset as u32
                        &&& (if !m.flags.not_get_proc {
                            &&& info.init == (match m.init {
                                Some(v) => (m.mem.addr + v) as u64,
                                None => 0,
                            })
                            &&& info.fini == (match m.fini {
                                Some(v) => (m.mem.addr + v) as u64,
                                None => 0,
                            })
                        } else {
                            info.init == 0 && info.fini == 0
                        })
                        &&& (match m.eh {
                            Some(e) => {
                                &&& info.eh_frame_hdr == (m.mem.addr + e.header) as u64
                                &&& info.eh_frame_hdr_size == e.header_size as u32
                                &&& info.eh_frame == (m.mem.addr + e.frame) as u64
                                &&& info.eh_frame_size == e.frame_size as u32
                            },
                            None => info.eh_frame_hdr == m.mem.addr && info.eh_frame == 0
                                && info.eh_frame_hdr_size == 0 && info.eh_frame_size == 0,
                        })
                    },
                }
            }),
    {
        if self.modules.len() == 0 {
            return Err(SysErr::Errno(EPERM));
        }
        if declared_size != DYNLIB_INFO_EX_SIZE {
            return Err(SysErr::Errno(EINVAL));
        }
        let mi = match find_module(&self.modules, handle) {
            Some(mi) => mi,
            None => {
                return Err(SysErr::Errno(ESRCH));
            },
        };
        let m = &self.modules[mi];
        let text = m.mem.segments[m.mem.text_index];
        let data = m.mem.segments[m.mem.data_index];
        let name = if flags & 2 == 0 || !m.flags.is_system {
            file_name(&m.path)
        } else {
            Vec::new()
        };
        let tlsindex = if flags & 1 != 0 {
            let upper = (if m.flags.is_system { 1u32 } else { 0u32 })
                + (if m.flags.main_prog { 2u32 } else { 0u32 });
            (upper << 16) | (m.tls_index & 0xffff)
        } else {
            m.tls_index & 0xffff
        };
        let (tlsinit, tlsinitsize, tlssize, tlsalign) = match m.tls_info {
            Some(t) => (m.mem.addr + t.init as u64, t.init_size as u32, t.size as u32,
                t.align as u32),
            None => (m.mem.addr, 0, 0, 0),
        };
        let (init, fini) = if !m.flags.not_get_proc {
            (match m.init {
                Some(v) => m.mem.addr + v as u64,
                None => 0,
            }, match m.fini {
                Some(v) => m.mem.addr + v as u64,
                None => 0,
            })
        } else {
            (0, 0)
        };
        let (eh_frame_hdr, eh_frame, eh_frame_hdr_size, eh_frame_size) = match m.eh {
            Some(e) => (m.mem.addr + e.header as u64, m.mem.addr + e.frame as u64,
                e.header_size as u32, e.frame_size as u32),
            None => (m.mem.addr, 0, 0, 0),
        };
        Ok(DynlibInfoEx {
            handle: m.id,
            name,
            text_segment: SegmentInfo {
                addr: m.mem.addr + m.mem.base as u64,
                size: text.len as u32,
                prot: 5,
            },
            data_segment: SegmentInfo {
                addr: m.mem.addr + data.start as u64,
                size: data.len as u32,
                prot: 3,
            },
            segment_count: 2,
            refcount: m.ref_count,
            tlsindex,
            tlsinit,
            tlsinitsize,
            tlssize,
            tlsoffset: m.tls_offset as u32,
            tlsalign,
            init,
            fini,
            eh_frame_hdr,
            eh_frame,
            eh_frame_hdr_size,
            eh_frame_size,
        })
    }

    /// Fails when the primary image holds any copy relocation; succeeds
    /// trivially otherwise.
    pub fn sys_dynlib_do_copy_relocations(&self) -> (r: Result<(), SysErr>)
        requires
            self.wf(),
        ensures
            ({
                let mods = self.modules@;
                if mods.len() == 0 {
                    r == Err::<(), SysErr>(SysErr::Errno(EPERM))
                } else if exists|i: int| 0 <= i < mods[0].spec_relocs().len()
                    && (#[trigger] mods[0].spec_relocs()[i]).ty == R_X86_64_COPY {
                    r == Err::<(), SysErr>(SysErr::Errno(EINVAL))
                } else {
                    r == Ok::<(), SysErr>(())
                }
            }),
    {
        if self.modules.len() == 0 {
            return Err(SysErr::Errno(EPERM));
        }
        let app = &self.modules[0];
        let relocs = match &app.dynamic {
            Some(d) => &d.relocs,
            None => {
                proof {
                    assert(false);
                }
                return Err(SysErr::Errno(EPERM));
            },
        };
        let n = relocs.len();
        let mut i: usize = 0;
        while i < n
            invariant
                0 <= i <= n,
                n == relocs@.len(),
                self.modules@.len() > 0,
                relocs@ == self.modules@[0].spec_relocs(),
                forall|j: int| 0 <= j < i ==> (#[trigger] relocs@[j]).ty != R_X86_64_COPY,
            decreases n - i,
        {
            if relocs[i].ty == R_X86_64_COPY {
                proof {
                    assert((self.modules@[0].spec_relocs()[i as int]).ty == R_X86_64_COPY);
                }
                return Err(SysErr::Errno(EINVAL));
            }
            i = i + 1;
        }
        Ok(())
    }

    /// The address and size of the primary image's process-parameter
    /// block; an image without one is a path the reference behavior
    /// leaves unimplemented.
    pub fn sys_dynlib_get_proc_param(&self) -> (r: Result<(u64, u64), SysErr>)
        requires
            self.wf(),
        ensures
            ({
                let mods = self.modules@;
                if mods.len() == 0 {
                    r matches Err(e) && e == SysErr::Errno(EPERM)
                } else {
                    match mods[0].proc_param {
                        Some(pp) => r matches Ok(p)
                            && p.0 == mods[0].mem.addr + pp.offset
                            && p.1 == pp.size as u64,
                        None => r matches Err(e) && e == SysErr::Unspecified,
                    }
                }
            }),
    {
        if self.modules.len() == 0 {
            return Err(SysErr::Errno(EPERM));
        }
        let app = &self.modules[0];
        match app.proc_param {
            Some(pp) => Ok((app.mem.addr + pp.offset as u64, pp.size as u64)),
            None => Err(SysErr::Unspecified),
        }
    }

    /// A small set of per-module metadata values selected by member
    /// type; only the module-parameter member is supported, the members
    /// the reference behavior leaves unimplemented fail loudly, anything
    /// else is an invalid argument.
    pub fn sys_dynlib_get_obj_member(&self, handle: u32, ty: u8) -> (r: Result<u64, SysErr>)
        requires
            self.wf(),
            // The reference behavior panics on a module without a
            // module-parameter block.
            spec_find_module(self.modules@, 0, handle) is Some && ty == 8
                ==> self.modules@[spec_find_module(self.modules@, 0,
                    handle)->Some_0].mod_param is Some,
        ensures
            ({
                let mods = self.modules@;
                if mods.len() == 0 {
                    r matches Err(e) && e == SysErr::Errno(EINVAL)
                } else {
                    match spec_find_module(mods, 0, handle) {
                        None => r matches Err(e) && e == SysErr::Errno(ESRCH),
                        Some(mi) => {
                            if 1 <= ty <= 4 || ty == 7 {
                                r matches Err(e) && e == SysErr::Unspecified
                            } else if ty == 8 {
                                r matches Ok(a) && a == mods[mi].mem.addr
                                    + mods[mi].mod_param->Some_0
                            } else {
                                r matches Err(e) && e == SysErr::Errno(EINVAL)
                            }
                        },
                    }
                }
            }),
    {
        if self.modules.len() == 0 {
            return Err(SysErr::Errno(EINVAL));
        }
        let mi = match find_module(&self.modules, handle) {
            Some(mi) => mi,
            None => {
                return Err(SysErr::Errno(ESRCH));
            },
        };
        if (1 <= ty && ty <= 4) || ty == 7 {
            return Err(SysErr::Unspecified);
        }
        if ty == 8 {
            let m = &self.modules[mi];
            let mp = match m.mod_param {
                Some(mp) => mp,
                None => 0,
            };
            return Ok(m.mem.addr + mp as u64);
        }
        Err(SysErr::Errno(EINVAL))
    }
}

/// What this pass does to every module's metadata: the dependency
/// lists get seeded when they were not yet, everything else but the
/// storage assignment stays.
pub open spec fn spec_pnr_meta(m0: Module, m1: Module) -> bool {
    &&& m1 == (Module {
        tls_offset: m1.tls_offset,
        flags: m1.flags,
        dag_static: m1.dag_static,
        dag_dynamic: m1.dag_dynamic,
        ..m0
    })
    &&& m1.flags == (ModuleFlags {
        dag_inited: true,
        tls_done: m1.flags.tls_done,
        ..m0.flags
    })
    &&& m1.dag_static@ == (if m0.flags.dag_inited {
        m0.dag_static@
    } else {
        m0.dag_static@.push(m0.id)
    })
    &&& m1.dag_dynamic@ == (if m0.flags.dag_inited {
        m0.dag_dynamic@
    } else {
        m0.dag_dynamic@.push(m0.id)
    })
}

impl RuntimeLinker {
    /// Decides whether the thread-local storage pass's offset
    /// arithmetic stays within the machine word on the current state,
    /// so the unverified boundary can establish that precondition
    /// before asking for the pass.
    pub fn check_tls_fits(&self) -> (r: bool)
        requires
            self.wf(),
        ensures
            r == spec_tls_pass(self.modules@, self.mains@, 0, self.tls.last_offset as int,
                self.tls.last_size as int, self.tls.static_space as int).fits,
    {
        let n = self.mains.len();
        let mut last_off: usize = self.tls.last_offset;
        let mut last_size: usize = self.tls.last_size;
        let ss = self.tls.static_space;
        let mut k: usize = 0;
        while k < n
            invariant
                0 <= k <= n,
                n == self.mains@.len(),
                self.wf(),
                ss == self.tls.static_space,
                spec_tls_pass(self.modules@, self.mains@, k as int, last_off as int,
                    last_size as int, ss as int).fits
                    == spec_tls_pass(self.modules@, self.mains@, 0,
                        self.tls.last_offset as int, self.tls.last_size as int,
                        ss as int).fits,
            decreases n - k,
        {
            let mid = self.mains[k];
            match find_module(&self.modules, mid) {
                None => {},
                Some(mi) => {
                    if !self.modules[mi].flags.tls_done {
                        let tinfo = self.modules[mi].tls_info;
                        let has_block = match tinfo {
                            Some(t) => t.size != 0,
                            None => false,
                        };
                        if has_block {
                            let t = match tinfo {
                                Some(t) => t,
                                None => crate::image::TlsInfo {
                                    init: 0,
                                    init_size: 0,
                                    size: 0,
                                    align: 1,
                                },
                            };
                            if self.modules[mi].tls_index != 1
                                && last_off > usize::MAX - t.size {
                                return false;
                            }
                            let x = if self.modules[mi].tls_index == 1 {
                                t.size
                            } else {
                                last_off + t.size
                            };
                            if x > usize::MAX - t.align {
                                return false;
                            }
                            let off = align_up(x, t.align);
                            if ss != 0 && off > ss {
                                // Soft skip: the allocator state stays.
                            } else {
                                last_off = off;
                                last_size = t.size;
                            }
                        }
                    }
                },
            }
            k = k + 1;
        }
        true
    }

    /// Initializes every module's dependency lists, assigns
    /// thread-local storage offsets to the main modules not yet
    /// visited, then relocates the primary image and all other loaded
    /// modules. A failing relocation surfaces as the relocation
    /// engine's errno and leaves already-applied entries untouched.
    #[verifier::rlimit(100)]
    pub fn sys_dynlib_process_needed_and_relocate(&mut self) -> (r: Result<(), SysErr>)
        requires
            old(self).wf(),
            spec_tls_pass(old(self).modules@, old(self).mains@, 0,
                old(self).tls.last_offset as int, old(self).tls.last_size as int,
                old(self).tls.static_space as int).fits,
        ensures
            final(self).wf(),
            final(self).mains == old(self).mains,
            final(self).globals == old(self).globals,
            final(self).kernel == old(self).kernel,
            final(self).flags == old(self).flags,
            final(self).aspace == old(self).aspace,
            final(self).tls.max_index == old(self).tls.max_index,
            final(self).tls.static_space == old(self).tls.static_space,
            old(self).modules@.len() == 0 ==> r == Err::<(), SysErr>(SysErr::Errno(EINVAL))
                && final(self).modules == old(self).modules
                && final(self).mems == old(self).mems
                && final(self).tls == old(self).tls,
            old(self).modules@.len() > 0 ==> ({
                let mods0 = old(self).modules@;
                let mains0 = old(self).mains@;
                let full = spec_tls_pass(mods0, mains0, 0, old(self).tls.last_offset as int,
                    old(self).tls.last_size as int, old(self).tls.static_space as int);
                let modsf = final(self).modules@;
                let mems0 = old(self).mems@;
                &&& final(self).tls.last_offset == full.last_offset
                &&& final(self).tls.last_size == full.last_size
                &&& modsf.len() == mods0.len()
                &&& forall|j: int| 0 <= j < mods0.len()
                    ==> spec_pnr_meta(mods0[j], #[trigger] modsf[j])
                &&& forall|k: int| 0 <= k < mains0.len()
                    ==> (match spec_find_module(mods0, 0, #[trigger] mains0[k]) {
                        Some(mi) => {
                            &&& modsf[mi].tls_offset as int == (match full.offsets[k] {
                                Some(o) => o,
                                None => mods0[mi].tls_offset as int,
                            })
                            &&& modsf[mi].flags.tls_done == (mods0[mi].flags.tls_done
                                || full.done[k])
                        },
                        None => true,
                    })
                &&& forall|j: int| 0 <= j < mods0.len()
                    && !spec_tls_hit(mods0, mains0, mains0.len() as int, j)
                    ==> (#[trigger] modsf[j]).tls_offset == mods0[j].tls_offset
                        && modsf[j].flags.tls_done == mods0[j].flags.tls_done
                &&& (match r {
                    Ok(()) => forall|j: int| 0 <= j < mods0.len() ==> {
                        let f = #[trigger] spec_mod_fold(modsf, mems0, j);
                        &&& final(self).mems@[j].bytes@ == f.0
                        &&& final(self).mems@[j].reloc_cache@ == f.1
                        &&& f.2 is None
                    },
                    Err(e) => exists|fi: int| 0 <= fi < mods0.len() && {
                        let ff = #[trigger] spec_mod_fold(modsf, mems0, fi);
                        &&& ff.2 matches Some(ev)
                            && e == SysErr::Errno(if ev.plt { EINVAL } else { ENOEXEC })
                        &&& final(self).mems@[fi].bytes@ == ff.0
                        &&& final(self).mems@[fi].reloc_cache@ == ff.1
                        &&& forall|j: int| 0 <= j < mods0.len()
                            && spec_order_pos(0, j) < spec_order_pos(0, fi) ==> {
                            let f = #[trigger] spec_mod_fold(modsf, mems0, j);
                            &&& final(self).mems@[j].bytes@ == f.0
                            &&& final(self).mems@[j].reloc_cache@ == f.1
                            &&& f.2 is None
                        }
                        &&& forall|j: int| 0 <= j < mods0.len()
                            && spec_order_pos(0, j) > spec_order_pos(0, fi)
                            ==> (#[trigger] final(self).mems@[j]).bytes@ == mems0[j].bytes@
                                && final(self).mems@[j].reloc_cache@ == mems0[j].reloc_cache@
                    },
                })
            }),
    {
        if self.modules.len() == 0 {
            return Err(SysErr::Errno(EINVAL));
        }
        let ghost mods0 = self.modules@;
        let ghost mains0 = self.mains@;

        // Assign thread-local storage to the main modules.
        self.assign_tls_offsets();
        let ghost mods1 = self.modules@;
        let ghost tls1 = self.tls;

        // Initialize every module's dependency lists.
        let n = self.modules.len();
        let mut i: usize = 0;
        while i < n
            invariant
                0 <= i <= n,
                n == mods1.len(),
                mods1.len() == mods0.len(),
                self.modules@.len() == n,
                self.wf(),
                self.mains == old(self).mains,
                self.globals == old(self).globals,
                self.kernel == old(self).kernel,
                self.flags == old(self).flags,
                self.aspace == old(self).aspace,
                self.mems == old(self).mems,
                self.tls == tls1,
                forall|j: int| i <= j < n ==> #[trigger] self.modules@[j] == mods1[j],
                forall|j: int| 0 <= j < i ==> {
                    let m0 = mods1[j];
                    let m1 = #[trigger] self.modules@[j];
                    &&& m1 == (Module {
                        flags: (ModuleFlags { dag_inited: true, ..m0.flags }),
                        dag_static: m1.dag_static,
                        dag_dynamic: m1.dag_dynamic,
                        ..m0
                    })
                    &&& m1.dag_static@ == (if m0.flags.dag_inited {
                        m0.dag_static@
                    } else {
                        m0.dag_static@.push(m0.id)
                    })
                    &&& m1.dag_dynamic@ == (if m0.flags.dag_inited {
                        m0.dag_dynamic@
                    } else {
                        m0.dag_dynamic@.push(m0.id)
                    })
                },
            decreases n - i,
        {
            self.init_dag(i);
            i = i + 1;
        }

        proof {
            assert forall|j: int| 0 <= j < mods0.len()
                implies spec_pnr_meta(mods0[j], #[trigger] self.modules@[j]) by {
                assert(spec_tls_frame(mods0[j], mods1[j]));
            }
            assert forall|k2: int| 0 <= k2 < mains0.len()
                implies (match spec_find_module(mods0, 0, #[trigger] mains0[k2]) {
                    Some(mi) => self.modules@[mi].tls_offset == mods1[mi].tls_offset
                        && self.modules@[mi].flags.tls_done == mods1[mi].flags.tls_done,
                    None => true,
                }) by {
                if spec_find_module(mods0, 0, mains0[k2]) is Some {
                    lemma_find_module_found(mods0, 0, mains0[k2]);
                }
            }
        }
        let ghost mods2 = self.modules@;
        let ghost mems2 = self.mems@;

        // Relocate the primary image and every other module.
        let rr = self.relocate(0);
        proof {
            assert(mems2 == old(self).mems@);
            assert(self.modules@ == mods2);
        }
        match rr {
            Ok(()) => Ok(()),
            Err(e) => {
                proof {
                    let fi = choose|fi: int| 0 <= fi < mods2.len() && {
                        let ff = #[trigger] spec_mod_fold(mods2, mems2, fi);
                        &&& ff.2 matches Some(ev) && spec_err_matches(e, ev)
                        &&& self.mems@[fi].bytes@ == ff.0
                        &&& self.mems@[fi].reloc_cache@ == ff.1
                        &&& forall|j: int| 0 <= j < mods2.len()
                            && spec_order_pos(0, j) < spec_order_pos(0, fi) ==> {
                            let f = #[trigger] spec_mod_fold(mods2, mems2, j);
                            &&& self.mems@[j].bytes@ == f.0
                            &&& self.mems@[j].reloc_cache@ == f.1
                            &&& f.2 is None
                        }
                        &&& forall|j: int| 0 <= j < mods2.len()
                            && spec_order_pos(0, j) > spec_order_pos(0, fi)
                            ==> (#[trigger] self.mems@[j]).bytes@ == mems2[j].bytes@
                                && self.mems@[j].reloc_cache@ == mems2[j].reloc_cache@
                    };
                    assert(spec_mod_fold(mods2, mems2, fi).2 is Some);
                }
                let c = e.errno();
                Err(SysErr::Errno(c))
            },
        }
    }
}

/// What the load syscall's first-time initialization does to the
/// loaded module: the request's two mode bits recorded and the
/// dependency lists seeded with the module itself; a module whose
/// lists were already initialized is left exactly as it is.
pub open spec fn spec_prx_init(m0: Module, m1: Module, f1: bool, f2: bool) -> bool {
    if m0.flags.dag_inited {
        m1 == m0
    } else {
        &&& m1 == (Module {
            flags: m1.flags,
            dag_static: m1.dag_static,
            dag_dynamic: m1.dag_dynamic,
            ..m0
        })
        &&& m1.flags == (ModuleFlags { dag_inited: true, unk1: f1, unk2: f2, ..m0.flags })
        &&& m1.dag_static@ == m0.dag_static@.push(m0.id)
        &&& m1.dag_dynamic@ == m0.dag_dynamic@.push(m0.id)
    }
}

/// The relocation pass module `j` undergoes during the load syscall:
/// over its prior mapped state for an existing module, over the
/// image's freshly mapped region and empty cache for the just-appended
/// one.
pub open spec fn spec_prx_fold(modsf: Seq<Module>, mems0: Seq<ModuleMem>, image: Image, j: int)
    -> (Seq<u8>, Seq<Option<Relocated>>, Option<RelocErr>) {
    if j < mems0.len() {
        spec_single_fold(modsf, j, mems0[j].bytes@, mems0[j].reloc_cache@)
    } else {
        spec_single_fold(modsf, j,
            crate::module::spec_region_bytes(image.programs@, 0,
                Seq::new(crate::image::spec_region_size(image.programs@) as nat,
                    |b: int| 0u8)),
            Seq::new((image.dynamic->Some_0.relocs@.len()
                + image.dynamic->Some_0.plt_relocs@.len()) as nat,
                |b: int| None::<Relocated>))
    }
}

impl RuntimeLinker {
    /// Records the two uninterpreted mode bits a load request carries.
    fn set_module_mode(&mut self, mi: usize, unk1: bool, unk2: bool)
        requires
            old(self).wf(),
            mi < old(self).modules@.len(),
        ensures
            final(self).wf(),
            final(self).modules@ == old(self).modules@.update(mi as int, (Module {
                flags: (ModuleFlags {
                    unk1: unk1,
                    unk2: unk2,
                    ..old(self).modules@[mi as int].flags
                }),
                ..old(self).modules@[mi as int]
            })),
            final(self).modules@.len() == old(self).modules@.len(),
            final(self).mems == old(self).mems,
            final(self).globals == old(self).globals,
            final(self).mains == old(self).mains,
            final(self).kernel == old(self).kernel,
            final(self).tls == old(self).tls,
            final(self).flags == old(self).flags,
            final(self).aspace == old(self).aspace,
    {
        let mut m = self.modules.remove(mi);
        m.flags.unk1 = unk1;
        m.flags.unk2 = unk2;
        self.modules.insert(mi, m);
        proof {
            assert(self.modules@ =~= old(self).modules@.update(mi as int,
                self.modules@[mi as int]));
            assert forall|k3: int| 0 <= k3 < self.mains@.len()
                implies spec_find_module(self.modules@, 0,
                    #[trigger] self.mains@[k3]) is Some by {
                lemma_find_module_same_ids(old(self).modules@, self.modules@, 0,
                    self.mains@[k3]);
            }
        }
    }

    /// Registers a just-loaded module: appends its id to the global
    /// export list if absent and, when its dependency lists were not
    /// yet initialized, records the request's mode bits, seeds the
    /// lists and relocates the loaded modules. An error reports a
    /// failed relocation pass.
    fn prx_register(&mut self, id: u32, mi: usize, f1: bool, f2: bool) -> (r: Result<(), ()>)
        requires
            old(self).wf(),
            mi < old(self).modules@.len(),
            old(self).modules@[mi as int].id == id,
        ensures
            final(self).wf(),
            final(self).kernel == old(self).kernel,
            final(self).flags == old(self).flags,
            final(self).mains == old(self).mains,
            final(self).tls == old(self).tls,
            final(self).aspace == old(self).aspace,
            final(self).globals@ == (if old(self).globals@.contains(id) {
                old(self).globals@
            } else {
                old(self).globals@.push(id)
            }),
            final(self).modules@.len() == old(self).modules@.len(),
            spec_prx_init(old(self).modules@[mi as int], final(self).modules@[mi as int],
                f1, f2),
            forall|j: int| 0 <= j < old(self).modules@.len() && j != mi as int
                ==> #[trigger] final(self).modules@[j] == old(self).modules@[j],
            final(self).mems@.len() == old(self).mems@.len(),
            old(self).modules@[mi as int].flags.dag_inited
                ==> final(self).mems == old(self).mems && r == Ok::<(), ()>(()),
            !old(self).modules@[mi as int].flags.dag_inited ==> (match r {
                Ok(()) => forall|j: int| 0 <= j < final(self).modules@.len() ==> {
                    let f = #[trigger] spec_mod_fold(final(self).modules@, old(self).mems@, j);
                    &&& final(self).mems@[j].bytes@ == f.0
                    &&& final(self).mems@[j].reloc_cache@ == f.1
                    &&& f.2 is None
                },
                Err(()) => exists|fi: int| 0 <= fi < final(self).modules@.len()
                    && (#[trigger] spec_mod_fold(final(self).modules@, old(self).mems@,
                        fi)).2 is Some,
            }),
    {
        // Append to the global export list if it is not there yet.
        let ghost globals0 = self.globals@;
        let ng = self.globals.len();
        let mut gi: usize = 0;
        let mut present = false;
        while gi < ng
            invariant
                0 <= gi <= ng,
                ng == globals0.len(),
                globals0 == self.globals@,
                present == exists|j: int| 0 <= j < gi && #[trigger] globals0[j] == id,
            decreases ng - gi,
        {
            if self.globals[gi] == id {
                present = true;
            }
            gi = gi + 1;
        }
        proof {
            assert(present == globals0.contains(id));
        }
        if !present {
            self.globals.push(id);
        }
        proof {
            assert(self.globals@ == (if globals0.contains(id) {
                globals0
            } else {
                globals0.push(id)
            }));
        }

        // First-time initialization: record the request's mode bits,
        // seed the dependency lists and relocate.
        if !self.modules[mi].flags.dag_inited {
            self.set_module_mode(mi, f1, f2);
            self.init_dag(mi);
            let rr = self.relocate(mi);
            if rr.is_err() {
                return Err(());
            }
        }
        Ok(())
    }

    /// Loads a shared object by path on behalf of the guest: validates
    /// the request flags, shares or maps the module through the load
    /// path with the force option, appends it to the global export list
    /// if absent, and, when its dependency lists were not initialized
    /// yet, records the request's two mode bits, initializes the lists
    /// and relocates the loaded modules. A relative path, loading under
    /// the address sanitizer, and a failing relocation are paths the
    /// reference behavior leaves unimplemented; they fail loudly.
    #[verifier::rlimit(100)]
    pub fn sys_dynlib_load_prx(&mut self, path: Vec<u8>, flags: u32, big_app: bool,
        image: Image) -> (r: Result<u32, SysErr>)
        requires
            old(self).wf(),
            spec_image_wf(image),
            image.dynamic is Some,
            old(self).modules@.len() < 0xffff_fff0,
            old(self).tls.max_index < 0xffff_ffff,
            forall|i: int| 0 <= i < old(self).modules@.len()
                ==> (#[trigger] old(self).modules@[i]).ref_count < 0xffff_ffff,
            path@.len() > 0 && path@[0] == 47 ==> spec_file_name(path@).len() > 0,
        ensures
            final(self).wf(),
            final(self).kernel == old(self).kernel,
            final(self).flags == old(self).flags,
            flags & 0xfff8ffff != 0 ==> r == Err::<u32, SysErr>(SysErr::Errno(EINVAL))
                && *final(self) == *old(self),
            flags & 0xfff8ffff == 0 && !(path@.len() > 0 && path@[0] == 47)
                ==> r == Err::<u32, SysErr>(SysErr::Unspecified) && *final(self) == *old(self),
            flags & 0xfff8ffff == 0 && path@.len() > 0 && path@[0] == 47
                && old(self).flags.has_asan
                ==> r == Err::<u32, SysErr>(SysErr::Unspecified) && *final(self) == *old(self),
            flags & 0xfff8ffff == 0 && path@.len() > 0 && path@[0] == 47
                && !old(self).flags.has_asan ==> ({
                let mods0 = old(self).modules@;
                let mems0 = old(self).mems@;
                let nold = mods0.len() as int;
                let dup = spec_find_path(mods0, 1, path@);
                let f1 = flags & 0x20000 != 0;
                let f2 = flags & 0x40000 != 0;
                let size = crate::image::spec_region_size(image.programs@);
                let modsf = final(self).modules@;
                let valid_fresh = image.ty == FileType::SceDynamic
                    && crate::module::spec_map_check(image) is None
                    && old(self).aspace.next + size <= old(self).aspace.limit
                    && !image.dynamic->Some_0.text_rel;
                let needs_reloc = (match dup {
                    Some(i) => !mods0[i].flags.dag_inited,
                    None => true,
                });
                let expected_id: u32 = (match dup {
                    Some(i) => mods0[i].id,
                    None => (spec_max_id(mods0, nold) + 1) as u32,
                });
                // The module list after a successful load and, where it
                // was owed, the first-time initialization.
                let state_ok = (match dup {
                    Some(i) => {
                        &&& modsf.len() == nold
                        &&& spec_prx_init((Module {
                            ref_count: (mods0[i].ref_count + 1) as u32,
                            ..mods0[i]
                        }), modsf[i], f1, f2)
                        &&& forall|j: int| 0 <= j < nold && j != i
                            ==> #[trigger] modsf[j] == mods0[j]
                    },
                    None => {
                        let m = modsf.last();
                        &&& modsf.len() == nold + 1
                        &&& modsf.subrange(0, nold) == mods0
                        &&& m.id == expected_id
                        &&& m.path@ == path@
                        &&& m.ref_count == 1
                        &&& m.dynamic == image.dynamic
                        &&& m.mem.addr == old(self).aspace.next
                        &&& m.mem.size == size
                        &&& m.flags == (ModuleFlags {
                            is_system: !(spec_file_name(path@) == spec_ascii("libc.sprx"@)
                                || spec_file_name(path@)
                                == spec_ascii("libSceFios2.sprx"@)),
                            dag_inited: true,
                            unk1: f1,
                            unk2: f2,
                            ..ModuleFlags::spec_empty()
                        })
                        &&& m.dag_static@ == seq![expected_id]
                        &&& m.dag_dynamic@ == seq![expected_id]
                    },
                });
                if nold == 0 {
                    r == Err::<u32, SysErr>(SysErr::Errno(EPERM)) && *final(self) == *old(self)
                } else {
                    match r {
                        Ok(id) => {
                            &&& id == expected_id
                            &&& dup is Some || valid_fresh
                            &&& state_ok
                            &&& final(self).globals@
                                == (if old(self).globals@.contains(expected_id) {
                                old(self).globals@
                            } else {
                                old(self).globals@.push(expected_id)
                            })
                            &&& final(self).mains == old(self).mains
                            &&& (!needs_reloc ==> final(self).mems == old(self).mems)
                            &&& (needs_reloc ==> {
                                &&& final(self).mems@.len() == modsf.len()
                                &&& forall|j: int| 0 <= j < modsf.len() ==> {
                                    let f = #[trigger] spec_prx_fold(modsf, mems0, image, j);
                                    &&& final(self).mems@[j].bytes@ == f.0
                                    &&& final(self).mems@[j].reloc_cache@ == f.1
                                    &&& f.2 is None
                                }
                            })
                        },
                        Err(e) => match e {
                            SysErr::Errno(c) => {
                                &&& dup is None && !valid_fresh
                                &&& c == (if image.ty != FileType::SceDynamic {
                                    ENOEXEC
                                } else if crate::module::spec_map_check(image) is Some {
                                    ENOEXEC
                                } else if old(self).aspace.next + size
                                    > old(self).aspace.limit {
                                    ENOEXEC
                                } else {
                                    EINVAL
                                })
                                &&& final(self).modules == old(self).modules
                                &&& final(self).mems == old(self).mems
                                &&& final(self).globals == old(self).globals
                                &&& final(self).mains == old(self).mains
                            },
                            SysErr::Unspecified => {
                                // Only a failed first-time relocation
                                // pass reaches this.
                                &&& dup is Some || valid_fresh
                                &&& needs_reloc
                                &&& state_ok
                                &&& final(self).globals@
                                    == (if old(self).globals@.contains(expected_id) {
                                    old(self).globals@
                                } else {
                                    old(self).globals@.push(expected_id)
                                })
                                &&& final(self).mains == old(self).mains
                                &&& exists|fi: int| 0 <= fi < modsf.len()
                                    && (#[trigger] spec_prx_fold(modsf, mems0, image,
                                        fi)).2 is Some
                            },
                        },
                    }
                }
            }),
    {
        let ghost pathv = path@;
        let ghost imagev = image;
        let ghost mods0g = self.modules@;
        let ghost mems0g = self.mems@;

        // Only a small set of request flag bits is accepted.
        if flags & 0xfff8ffff != 0 {
            return Err(SysErr::Errno(EINVAL));
        }

        // Only absolute paths are handled; the reference behavior
        // leaves relative ones unimplemented.
        if !(path.len() > 0 && path[0] == 47) {
            return Err(SysErr::Unspecified);
        }

        // Loading under the address sanitizer is unimplemented.
        if self.flags.has_asan {
            return Err(SysErr::Unspecified);
        }

        let flags2 = if big_app {
            flags | 0x01
        } else {
            flags
        };
        proof {
            assert(((flags2 & 1) << 5u32) <= 0x20 && ((flags2 >> 10u32) & 0x40) <= 0x40)
                by (bit_vector);
        }
        let load_flags = LoadFlags { bits: ((flags2 & 1) << 5) + ((flags2 >> 10) & 0x40) + 2 };

        let id = match self.load(path, load_flags, true, false, image) {
            Ok(id) => id,
            Err(e) => {
                let c = e.errno();
                return Err(SysErr::Errno(c));
            },
        };

        // Locate the module that was returned.
        proof {
            match spec_find_path(mods0g, 1, pathv) {
                Some(i) => {
                    lemma_find_path_found(mods0g, 1, pathv);
                    assert(self.modules@[i].id == id);
                },
                None => {
                    assert(self.modules@[mods0g.len() as int].id == id);
                },
            }
            lemma_find_module_present(self.modules@, 0, id);
        }
        let mi = match find_module(&self.modules, id) {
            Some(mi) => mi,
            None => {
                proof {
                    assert(false);
                }
                return Err(SysErr::Unspecified);
            },
        };

        proof {
            // The found index is the loaded module's: ids are unique.
            match spec_find_path(mods0g, 1, pathv) {
                Some(i) => {
                    assert(self.modules@[i].id == id);
                    assert(mi as int == i);
                },
                None => {
                    assert(self.modules@[mods0g.len() as int].id == id);
                    assert(mi as int == mods0g.len());
                },
            }
        }
        let ghost mods_loaded = self.modules@;
        let ghost mems_loaded = self.mems@;

        let f1 = flags & 0x20000 != 0;
        let f2 = flags & 0x40000 != 0;
        let rr = self.prx_register(id, mi, f1, f2);
        proof {
            let modsf = self.modules@;
            if spec_find_path(mods0g, 1, pathv) is None {
                assert(modsf.subrange(0, mods0g.len() as int)
                    =~= mods_loaded.subrange(0, mods0g.len() as int));
                assert(modsf.last().dag_static@ =~= seq![id]);
                assert(modsf.last().dag_dynamic@ =~= seq![id]);
            }
            if !mods_loaded[mi as int].flags.dag_inited {
                assert forall|j: int| 0 <= j < modsf.len()
                    implies #[trigger] spec_prx_fold(modsf, mems0g, imagev, j)
                        == spec_mod_fold(modsf, mems_loaded, j) by {
                    if j < mems0g.len() {
                        assert(mems_loaded[j] == mems0g[j]);
                    } else {
                        assert(mems_loaded[j].bytes@
                            == crate::module::spec_region_bytes(imagev.programs@, 0,
                                Seq::new(crate::image::spec_region_size(
                                    imagev.programs@) as nat, |b: int| 0u8)));
                        assert(mems_loaded[j].reloc_cache@
                            =~= Seq::new((imagev.dynamic->Some_0.relocs@.len()
                                + imagev.dynamic->Some_0.plt_relocs@.len()) as nat,
                                |b: int| None::<Relocated>));
                    }
                }
            }
        }
        match rr {
            Ok(()) => {
                proof {
                    let modsf = self.modules@;
                    match spec_find_path(mods0g, 1, pathv) {
                        Some(i) => {
                            assert(mods_loaded[i] == (Module {
                                ref_count: (mods0g[i].ref_count + 1) as u32,
                                ..mods0g[i]
                            }));
                            assert(spec_prx_init((Module {
                                ref_count: (mods0g[i].ref_count + 1) as u32,
                                ..mods0g[i]
                            }), modsf[i], f1, f2));
                            assert forall|j: int| 0 <= j < mods0g.len() && j != i
                                implies #[trigger] modsf[j] == mods0g[j] by {}
                        },
                        None => {
                            assert(modsf.len() == mods0g.len() + 1);
                            assert(modsf.subrange(0, mods0g.len() as int)
                                =~= mods0g);
                            assert(spec_prx_init(mods_loaded[mi as int],
                                modsf[mi as int], f1, f2));
                        },
                    }
                }
                Ok(id)
            },
            Err(()) => {
                proof {
                    let modsf = self.modules@;
                    let ff = choose|fi: int| 0 <= fi < modsf.len() && {
                        let f = #[trigger] spec_mod_fold(modsf, mems_loaded, fi);
                        f.2 is Some
                    };
                    assert(spec_prx_fold(modsf, mems0g, imagev, ff).2 is Some);
                }
                // The reference behavior leaves a failed relocation on
                // this path unimplemented.
                Err(SysErr::Unspecified)
            },
        }
    }
}

/// An id above every module's id is not found.
pub proof fn lemma_find_module_nodup(mods: Seq<Module>, k: int, id: u32)
    requires
        0 <= k,
        forall|j: int| 0 <= j < mods.len() ==> (#[trigger] mods[j]).id != id,
    ensures
        spec_find_module(mods, k, id) is None,
    decreases mods.len() - k,
{
    if k < mods.len() {
        lemma_find_module_nodup(mods, k + 1, id);
    }
}

/// Two module lists with pointwise equal ids give every id search the
/// same result.
pub proof fn lemma_find_module_same_ids(mods1: Seq<Module>, mods2: Seq<Module>, k: int, id: u32)
    requires
        mods1.len() == mods2.len(),
        forall|j: int| 0 <= j < mods1.len()
            ==> (#[trigger] mods1[j]).id == (#[trigger] mods2[j]).id,
    ensures
        (match spec_find_module(mods1, k, id) {
            Some(i) => spec_find_module(mods2, k, id) == Some(i),
            None => spec_find_module(mods2, k, id) is None,
        }),
    decreases mods1.len() - k,
{
    if 0 <= k < mods1.len() && mods1[k].id != id {
        lemma_find_module_same_ids(mods1, mods2, k + 1, id);
    }
}

} // verus!
