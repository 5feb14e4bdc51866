use rtld::errno::{SysErr, ExecError, LoadError, EPERM, ESRCH, ENOMEM, EINVAL};
use rtld::image::{Image, Program, ProgramKind, FileType, DynamicInfo, ModuleInfo, ProcParam};
use rtld::linker::{RuntimeLinker, LoadFlags, DYNLIB_INFO_SIZE, DYNLIB_INFO_EX_SIZE};

fn text_prog() -> Program {
    Program {
        kind: ProgramKind::Load,
        addr: 0,
        mem_size: 0x4000,
        align: 0x4000,
        readable: true,
        writable: false,
        executable: true,
        data: vec![0x90; 16],
    }
}

fn data_prog() -> Program {
    Program {
        kind: ProgramKind::Load,
        addr: 0x4000,
        mem_size: 0x4000,
        align: 0x4000,
        readable: true,
        writable: true,
        executable: false,
        data: Vec::new(),
    }
}

fn empty_dynamic() -> DynamicInfo {
    DynamicInfo {
        symbols: Vec::new(),
        relocs: Vec::new(),
        plt_relocs: Vec::new(),
        text_rel: false,
    }
}

fn plain_image(ty: FileType) -> Image {
    Image {
        ty,
        programs: vec![text_prog(), data_prog()],
        tls_program: None,
        dynamic: Some(empty_dynamic()),
        modules: Vec::new(),
        proc_param: None,
        mod_param: None,
        eh: None,
        init: None,
        fini: None,
        fingerprint: vec![0; 20],
        sdk_ver: 0,
    }
}

fn fresh_linker() -> RuntimeLinker {
    RuntimeLinker::new(0x1000_0000, 0x9000_0000, 0)
}

fn booted_linker() -> RuntimeLinker {
    let mut ld = fresh_linker();
    let app = plain_image(FileType::SceDynExec);
    ld.exec(b"/app/eboot.bin".to_vec(), app).unwrap();
    ld
}

fn tls_image(size: usize, align: usize) -> Image {
    let mut img = plain_image(FileType::SceDynamic);
    img.programs.push(Program {
        kind: ProgramKind::Tls,
        addr: 0x4000,
        mem_size: size,
        align,
        readable: true,
        writable: false,
        executable: false,
        data: Vec::new(),
    });
    img.tls_program = Some(2);
    img
}

#[test]
fn exec_assigns_id_zero_and_fixed_base() {
    let mut ld = fresh_linker();
    let id = ld.exec(b"/app/eboot.bin".to_vec(), plain_image(FileType::SceDynExec)).unwrap();
    assert_eq!(id, 0);
    assert_eq!(ld.modules[0].mem.addr, 0x400000);
    assert!(ld.modules[0].flags.main_prog);
    assert_eq!(ld.modules[0].tls_index, 1);
}

#[test]
fn exec_twice_fails_loudly() {
    let mut ld = booted_linker();
    let r = ld.exec(b"/app/eboot.bin".to_vec(), plain_image(FileType::SceDynExec));
    assert!(matches!(r, Err(ExecError::AlreadyExecuted)));
}

#[test]
fn exec_rejects_shared_object() {
    let mut ld = fresh_linker();
    let r = ld.exec(b"/x".to_vec(), plain_image(FileType::SceDynamic));
    assert!(matches!(r, Err(ExecError::InvalidExe)));
}

#[test]
fn exec_static_image_fails_loudly() {
    let mut ld = fresh_linker();
    let mut img = plain_image(FileType::SceExec);
    img.dynamic = None;
    let r = ld.exec(b"/x".to_vec(), img);
    assert!(matches!(r, Err(ExecError::StaticExeNotSupported)));
}

#[test]
fn exec_records_hardening_libraries() {
    let mut ld = fresh_linker();
    let mut img = plain_image(FileType::SceDynExec);
    img.modules.push(ModuleInfo { id: 0, name: b"app".to_vec() });
    img.modules.push(ModuleInfo {
        id: 1,
        name: b"libSceDbgUndefinedBehaviorSanitizer".to_vec(),
    });
    ld.exec(b"/app/eboot.bin".to_vec(), img).unwrap();
    assert!(ld.flags.has_ubsan);
    assert!(!ld.flags.has_asan);
}

#[test]
fn load_same_path_shares_module_and_counts() {
    // Dedup: the same path gives the same id and bumps the reference
    // count without re-mapping.
    let mut ld = booted_linker();
    let id1 = ld
        .load(b"/lib/foo.sprx".to_vec(), LoadFlags { bits: 0 }, false, false,
            plain_image(FileType::SceDynamic))
        .unwrap();
    let addr1 = ld.modules[1].mem.addr;
    let id2 = ld
        .load(b"/lib/foo.sprx".to_vec(), LoadFlags { bits: 0 }, false, false,
            plain_image(FileType::SceDynamic))
        .unwrap();
    assert_eq!(id1, id2);
    assert_eq!(ld.modules.len(), 2);
    assert_eq!(ld.modules[1].ref_count, 2);
    assert_eq!(ld.modules[1].mem.addr, addr1);
}

#[test]
fn load_by_declared_name_shares_module() {
    // A different path whose file name matches a declared library name
    // returns the existing module, without force.
    let mut ld = booted_linker();
    let id1 = ld
        .load(b"/lib/foo.sprx".to_vec(), LoadFlags { bits: 0 }, false, false,
            plain_image(FileType::SceDynamic))
        .unwrap();
    let id2 = ld
        .load(b"/other/foo.sprx".to_vec(), LoadFlags { bits: 0 }, false, false,
            plain_image(FileType::SceDynamic))
        .unwrap();
    assert_eq!(id1, id2);
    assert_eq!(ld.modules.len(), 2);
    // The by-name path does not bump the reference count.
    assert_eq!(ld.modules[1].ref_count, 1);
}

#[test]
fn load_with_force_maps_fresh() {
    let mut ld = booted_linker();
    let id1 = ld
        .load(b"/lib/foo.sprx".to_vec(), LoadFlags { bits: 0 }, false, false,
            plain_image(FileType::SceDynamic))
        .unwrap();
    let id2 = ld
        .load(b"/other/foo.sprx".to_vec(), LoadFlags { bits: 0 }, true, false,
            plain_image(FileType::SceDynamic))
        .unwrap();
    assert_ne!(id1, id2);
    assert_eq!(id2, id1 + 1);
    assert_eq!(ld.modules.len(), 3);
}

#[test]
fn load_without_app_fails() {
    let mut ld = fresh_linker();
    let r = ld.load(b"/lib/foo.sprx".to_vec(), LoadFlags { bits: 0 }, false, false,
        plain_image(FileType::SceDynamic));
    assert!(matches!(r, Err(LoadError::NoExe)));
}

#[test]
fn load_rejects_wrong_image_type() {
    let mut ld = booted_linker();
    let r = ld.load(b"/lib/foo.sprx".to_vec(), LoadFlags { bits: 0 }, false, false,
        plain_image(FileType::SceDynExec));
    assert!(matches!(r, Err(LoadError::InvalidElf)));
}

#[test]
fn load_rejects_impure_text() {
    let mut ld = booted_linker();
    let mut img = plain_image(FileType::SceDynamic);
    img.dynamic.as_mut().unwrap().text_rel = true;
    let r = ld.load(b"/lib/foo.sprx".to_vec(), LoadFlags { bits: 0 }, false, false, img);
    assert!(matches!(r, Err(LoadError::ImpureText)));
}

#[test]
fn load_marks_system_modules() {
    let mut ld = booted_linker();
    let id_foo = ld
        .load(b"/lib/foo.sprx".to_vec(), LoadFlags { bits: 0 }, false, false,
            plain_image(FileType::SceDynamic))
        .unwrap();
    let id_libc = ld
        .load(b"/lib/libc.sprx".to_vec(), LoadFlags { bits: 0 }, false, false,
            plain_image(FileType::SceDynamic))
        .unwrap();
    let foo = ld.modules.iter().find(|m| m.id == id_foo).unwrap();
    let libc = ld.modules.iter().find(|m| m.id == id_libc).unwrap();
    assert!(foo.flags.is_system);
    assert!(!libc.flags.is_system);
}

#[test]
fn tls_layout_two_blocks() {
    // A (size 16, align 16) then B (size 24, align 8): A sits at 16,
    // B at align-up(16 + 24, 8) = 40.
    let mut ld = booted_linker();
    let ida = ld
        .load(b"/lib/a.sprx".to_vec(), LoadFlags { bits: 0 }, false, true, tls_image(16, 16))
        .unwrap();
    let idb = ld
        .load(b"/lib/b.sprx".to_vec(), LoadFlags { bits: 0 }, false, true, tls_image(24, 8))
        .unwrap();
    ld.sys_dynlib_process_needed_and_relocate().unwrap();
    let a = ld.modules.iter().find(|m| m.id == ida).unwrap();
    let b = ld.modules.iter().find(|m| m.id == idb).unwrap();
    assert_eq!(a.tls_offset, 16);
    assert!(a.flags.tls_done);
    assert_eq!(b.tls_offset, 40);
    assert!(b.flags.tls_done);
    assert_eq!(ld.tls.last_offset, 40);
    assert_eq!(ld.tls.last_size, 24);
}

#[test]
fn tls_ceiling_soft_skips() {
    // With a static-space ceiling of 32, B would land at 40 and is left
    // unassigned rather than failing.
    let mut ld = RuntimeLinker::new(0x1000_0000, 0x9000_0000, 32);
    ld.exec(b"/app/eboot.bin".to_vec(), plain_image(FileType::SceDynExec)).unwrap();
    let ida = ld
        .load(b"/lib/a.sprx".to_vec(), LoadFlags { bits: 0 }, false, true, tls_image(16, 16))
        .unwrap();
    let idb = ld
        .load(b"/lib/b.sprx".to_vec(), LoadFlags { bits: 0 }, false, true, tls_image(24, 8))
        .unwrap();
    ld.sys_dynlib_process_needed_and_relocate().unwrap();
    let a = ld.modules.iter().find(|m| m.id == ida).unwrap();
    let b = ld.modules.iter().find(|m| m.id == idb).unwrap();
    assert_eq!(a.tls_offset, 16);
    assert!(a.flags.tls_done);
    assert_eq!(b.tls_offset, 0);
    assert!(!b.flags.tls_done);
}

#[test]
fn tls_indices_are_assigned_in_order() {
    let mut ld = booted_linker();
    let ida = ld
        .load(b"/lib/a.sprx".to_vec(), LoadFlags { bits: 0 }, false, true, tls_image(16, 16))
        .unwrap();
    let idb = ld
        .load(b"/lib/b.sprx".to_vec(), LoadFlags { bits: 0 }, false, true, tls_image(24, 8))
        .unwrap();
    let a = ld.modules.iter().find(|m| m.id == ida).unwrap();
    let b = ld.modules.iter().find(|m| m.id == idb).unwrap();
    // The app holds slot one; the libraries get the next free slots.
    assert_eq!(a.tls_index, 2);
    assert_eq!(b.tls_index, 3);
    assert_eq!(ld.tls.max_index, 3);
}

#[test]
fn dag_self_membership() {
    // Right after initialization, both lists contain the module itself,
    // exactly once, first.
    let mut ld = booted_linker();
    let id = ld
        .load(b"/lib/foo.sprx".to_vec(), LoadFlags { bits: 0 }, false, false,
            plain_image(FileType::SceDynamic))
        .unwrap();
    assert!(ld.modules[1].dag_static.is_empty());
    ld.sys_dynlib_process_needed_and_relocate().unwrap();
    let m = ld.modules.iter().find(|m| m.id == id).unwrap();
    assert_eq!(m.dag_static, vec![id]);
    assert_eq!(m.dag_dynamic, vec![id]);
    assert!(m.flags.dag_inited);
    // A second initialization is a no-op.
    ld.sys_dynlib_process_needed_and_relocate().unwrap();
    let m = ld.modules.iter().find(|m| m.id == id).unwrap();
    assert_eq!(m.dag_static, vec![id]);
}

#[test]
fn info_rejects_wrong_declared_size() {
    let ld = booted_linker();
    let r = ld.sys_dynlib_get_info(0, DYNLIB_INFO_SIZE + 8);
    assert!(matches!(r, Err(SysErr::Errno(c)) if c == EINVAL));
    let r = ld.sys_dynlib_get_info(0, DYNLIB_INFO_SIZE - 1);
    assert!(matches!(r, Err(SysErr::Errno(c)) if c == EINVAL));
    let r = ld.sys_dynlib_get_info_ex(0, 0, DYNLIB_INFO_EX_SIZE + 1);
    assert!(matches!(r, Err(SysErr::Errno(c)) if c == EINVAL));
    assert_eq!(DYNLIB_INFO_SIZE, 0x160);
    assert_eq!(DYNLIB_INFO_EX_SIZE, 0x1a8);
}

#[test]
fn info_reports_segments() {
    let mut ld = booted_linker();
    let id = ld
        .load(b"/lib/libc.sprx".to_vec(), LoadFlags { bits: 0 }, false, false,
            plain_image(FileType::SceDynamic))
        .unwrap();
    let info = ld.sys_dynlib_get_info(id, DYNLIB_INFO_SIZE).unwrap();
    assert_eq!(info.name, b"libc.sprx".to_vec());
    assert_eq!(info.segment_count, 2);
    assert_eq!(info.text_segment.size, 0x4000);
    assert_eq!(info.text_segment.prot, 5);
    let m = ld.modules.iter().find(|m| m.id == id).unwrap();
    assert_eq!(info.data_segment.addr, m.mem.addr + 0x4000);
    assert_eq!(info.data_segment.prot, 3);
}

#[test]
fn info_withholds_system_modules() {
    let mut ld = booted_linker();
    let id = ld
        .load(b"/lib/foo.sprx".to_vec(), LoadFlags { bits: 0 }, false, false,
            plain_image(FileType::SceDynamic))
        .unwrap();
    let r = ld.sys_dynlib_get_info(id, DYNLIB_INFO_SIZE);
    assert!(matches!(r, Err(SysErr::Errno(c)) if c == EPERM));
}

#[test]
fn info_ex_reports_refcount() {
    let mut ld = booted_linker();
    let id = ld
        .load(b"/lib/foo.sprx".to_vec(), LoadFlags { bits: 0 }, false, false,
            plain_image(FileType::SceDynamic))
        .unwrap();
    ld.load(b"/lib/foo.sprx".to_vec(), LoadFlags { bits: 0 }, false, false,
        plain_image(FileType::SceDynamic))
        .unwrap();
    let info = ld.sys_dynlib_get_info_ex(id, 0, DYNLIB_INFO_EX_SIZE).unwrap();
    assert_eq!(info.refcount, 2);
    assert_eq!(info.handle, id);
    assert_eq!(info.segment_count, 2);
}

#[test]
fn get_list_reports_ids_or_overflows() {
    let mut ld = booted_linker();
    ld.load(b"/lib/foo.sprx".to_vec(), LoadFlags { bits: 0 }, false, false,
        plain_image(FileType::SceDynamic))
        .unwrap();
    let r = ld.sys_dynlib_get_list(1);
    assert!(matches!(r, Err(SysErr::Errno(c)) if c == ENOMEM));
    let v = ld.sys_dynlib_get_list(16).unwrap();
    assert_eq!(v, vec![0, 1]);
}

#[test]
fn dlsym_misses_give_no_such_process() {
    let ld = booted_linker();
    let r = ld.sys_dynlib_dlsym(42, &b"anything".to_vec());
    assert!(matches!(r, Err(SysErr::Errno(c)) if c == ESRCH));
}

#[test]
fn dlsym_on_main_program_fails_loudly() {
    let ld = booted_linker();
    let r = ld.sys_dynlib_dlsym(0, &b"anything".to_vec());
    assert!(matches!(r, Err(SysErr::Unspecified)));
}

#[test]
fn proc_param_is_reported() {
    let mut ld = fresh_linker();
    let mut img = plain_image(FileType::SceDynExec);
    img.proc_param = Some(ProcParam { offset: 0x4100, size: 0x40 });
    ld.exec(b"/app/eboot.bin".to_vec(), img).unwrap();
    let (addr, size) = ld.sys_dynlib_get_proc_param().unwrap();
    assert_eq!(addr, 0x400000 + 0x4100);
    assert_eq!(size, 0x40);
}

#[test]
fn obj_member_selects_module_param() {
    let mut ld = fresh_linker();
    let mut img = plain_image(FileType::SceDynExec);
    img.mod_param = Some(0x4200);
    ld.exec(b"/app/eboot.bin".to_vec(), img).unwrap();
    let a = ld.sys_dynlib_get_obj_member(0, 8).unwrap();
    assert_eq!(a, 0x400000 + 0x4200);
    let r = ld.sys_dynlib_get_obj_member(0, 3);
    assert!(matches!(r, Err(SysErr::Unspecified)));
    let r = ld.sys_dynlib_get_obj_member(0, 9);
    assert!(matches!(r, Err(SysErr::Errno(c)) if c == EINVAL));
}

#[test]
fn load_prx_rejects_bad_flags_and_relative_paths() {
    let mut ld = booted_linker();
    let r = ld.sys_dynlib_load_prx(b"/lib/foo.sprx".to_vec(), 0x1, false,
        plain_image(FileType::SceDynamic));
    assert!(matches!(r, Err(SysErr::Errno(c)) if c == EINVAL));
    let r = ld.sys_dynlib_load_prx(b"lib/foo.sprx".to_vec(), 0, false,
        plain_image(FileType::SceDynamic));
    assert!(matches!(r, Err(SysErr::Unspecified)));
}

#[test]
fn load_prx_loads_and_registers() {
    let mut ld = booted_linker();
    let id = ld
        .sys_dynlib_load_prx(b"/lib/foo.sprx".to_vec(), 0, false,
            plain_image(FileType::SceDynamic))
        .unwrap();
    assert_eq!(id, 1);
    assert!(ld.globals.contains(&id));
    let m = ld.modules.iter().find(|m| m.id == id).unwrap();
    assert!(m.flags.dag_inited);
    // Loading the same path again shares the module.
    let id2 = ld
        .sys_dynlib_load_prx(b"/lib/foo.sprx".to_vec(), 0, false,
            plain_image(FileType::SceDynamic))
        .unwrap();
    assert_eq!(id2, id);
    assert_eq!(ld.globals.iter().filter(|g| **g == id).count(), 1);
}

#[test]
fn copy_relocations_check() {
    let mut ld = booted_linker();
    assert!(ld.sys_dynlib_do_copy_relocations().is_ok());
    let mut ld2 = fresh_linker();
    let mut img = plain_image(FileType::SceDynExec);
    img.dynamic.as_mut().unwrap().relocs.push(rtld::image::RelocEntry {
        ty: rtld::image::R_X86_64_COPY,
        offset: 0x4000,
        symbol: 0,
        addend: 0,
    });
    img.dynamic.as_mut().unwrap().symbols.push(rtld::image::SymbolInfo {
        name: b"s".to_vec(),
        library: None,
        ty: rtld::image::SymbolType::Object,
        value: 0,
    });
    ld2.exec(b"/app/eboot.bin".to_vec(), img).unwrap();
    let r = ld2.sys_dynlib_do_copy_relocations();
    assert!(matches!(r, Err(SysErr::Errno(c)) if c == EINVAL));
    let _ = ld;
}

#[test]
fn map_validation_errors() {
    let mut ld = booted_linker();
    // Two executable programs.
    let mut img = plain_image(FileType::SceDynamic);
    img.programs.push(text_prog());
    let r = ld.load(b"/lib/x.sprx".to_vec(), LoadFlags { bits: 0 }, false, false, img);
    assert!(matches!(r,
        Err(LoadError::MapFailed(rtld::errno::MapError::MultipleExecProgram))));
    // A bad alignment.
    let mut img = plain_image(FileType::SceDynamic);
    img.programs[1].align = 0x3000;
    let r = ld.load(b"/lib/y.sprx".to_vec(), LoadFlags { bits: 0 }, false, false, img);
    assert!(matches!(r,
        Err(LoadError::MapFailed(rtld::errno::MapError::InvalidProgramAlignment(1)))));
}

#[test]
fn address_space_exhaustion() {
    // A space that only fits the primary image.
    let mut ld = RuntimeLinker::new(0x1000_0000, 0x1000_4000, 0);
    ld.exec(b"/app/eboot.bin".to_vec(), plain_image(FileType::SceDynExec)).unwrap();
    let r = ld.load(b"/lib/foo.sprx".to_vec(), LoadFlags { bits: 0 }, false, false,
        plain_image(FileType::SceDynamic));
    assert!(matches!(r,
        Err(LoadError::MapFailed(rtld::errno::MapError::MemoryAllocationFailed(_)))));
}

#[test]
fn image_validation_accepts_and_rejects() {
    assert!(plain_image(FileType::SceDynamic).check_wf());
    // A file image larger than its memory size is malformed.
    let mut img = plain_image(FileType::SceDynamic);
    img.programs[0].data = vec![0; 0x5000];
    assert!(!img.check_wf());
    // A relative relocation pointing outside every segment is malformed.
    let mut img = plain_image(FileType::SceDynamic);
    img.dynamic.as_mut().unwrap().symbols.push(rtld::image::SymbolInfo {
        name: b"s".to_vec(),
        library: None,
        ty: rtld::image::SymbolType::Object,
        value: 0,
    });
    img.dynamic.as_mut().unwrap().relocs.push(rtld::image::RelocEntry {
        ty: rtld::image::R_X86_64_RELATIVE,
        offset: 0x4000,
        symbol: 0,
        addend: 0x20000,
    });
    assert!(!img.check_wf());
    // A relocation with an out-of-range symbol index is malformed.
    let mut img = plain_image(FileType::SceDynamic);
    img.dynamic.as_mut().unwrap().relocs.push(rtld::image::RelocEntry {
        ty: rtld::image::R_X86_64_64,
        offset: 0x4000,
        symbol: 3,
        addend: 0,
    });
    assert!(!img.check_wf());
    // An image without a data segment is malformed.
    let mut img = plain_image(FileType::SceDynamic);
    img.programs.remove(1);
    assert!(!img.check_wf());
}

#[test]
fn tls_fits_check() {
    let mut ld = booted_linker();
    ld.load(b"/lib/a.sprx".to_vec(), LoadFlags { bits: 0 }, false, true, tls_image(16, 16))
        .unwrap();
    assert!(ld.check_tls_fits());
    // An allocator already near the end of the address range cannot
    // place the pending block.
    ld.tls.last_offset = usize::MAX - 4;
    assert!(!ld.check_tls_fits());
}
