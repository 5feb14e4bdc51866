use rtld::errno::{SysErr, RelocateError, ENOEXEC};
use rtld::image::{Image, Program, ProgramKind, FileType, DynamicInfo, SymbolInfo, SymbolType,
    RelocEntry, R_X86_64_64, R_X86_64_JUMP_SLOT, R_X86_64_RELATIVE, R_X86_64_DTPMOD64,
    R_X86_64_DTPOFF64, R_X86_64_NONE};
use rtld::linker::{RuntimeLinker, LoadFlags};
use rtld::module::Relocated;

fn text_prog() -> Program {
    Program {
        kind: ProgramKind::Load,
        addr: 0,
        mem_size: 0x4000,
        align: 0x4000,
        readable: true,
        writable: false,
        executable: true,
        data: vec![0x90; 16],
    }
}

fn data_prog() -> Program {
    Program {
        kind: ProgramKind::Load,
        addr: 0x4000,
        mem_size: 0x4000,
        align: 0x4000,
        readable: true,
        writable: true,
        executable: false,
        data: Vec::new(),
    }
}

fn image_with(dynamic: DynamicInfo) -> Image {
    Image {
        ty: FileType::SceDynamic,
        programs: vec![text_prog(), data_prog()],
        tls_program: None,
        dynamic: Some(dynamic),
        modules: Vec::new(),
        proc_param: None,
        mod_param: None,
        eh: None,
        init: None,
        fini: None,
        fingerprint: vec![0; 20],
        sdk_ver: 0,
    }
}

fn obj_symbol(value: usize) -> SymbolInfo {
    SymbolInfo {
        name: b"sym_obj".to_vec(),
        library: None,
        ty: SymbolType::Object,
        value,
    }
}

fn booted() -> RuntimeLinker {
    let mut ld = RuntimeLinker::new(0x1000_0000, 0x9000_0000, 0);
    let app = Image {
        ty: FileType::SceDynExec,
        programs: vec![text_prog(), data_prog()],
        tls_program: None,
        dynamic: Some(DynamicInfo {
            symbols: Vec::new(),
            relocs: Vec::new(),
            plt_relocs: Vec::new(),
            text_rel: false,
        }),
        modules: Vec::new(),
        proc_param: None,
        mod_param: None,
        eh: None,
        init: None,
        fini: None,
        fingerprint: vec![0; 20],
        sdk_ver: 0,
    };
    ld.exec(b"/app/eboot.bin".to_vec(), app).unwrap();
    ld
}

fn word_at(ld: &RuntimeLinker, mi: usize, off: usize) -> u64 {
    let b = &ld.mems[mi].bytes;
    let mut w = [0u8; 8];
    w.copy_from_slice(&b[off..off + 8]);
    u64::from_le_bytes(w)
}

#[test]
fn relative_and_symbol_relocations_apply() {
    let mut ld = booted();
    let dynamic = DynamicInfo {
        symbols: vec![obj_symbol(0x4010)],
        relocs: vec![
            RelocEntry { ty: R_X86_64_RELATIVE, offset: 0x4000, symbol: 0, addend: 0x4008 },
            RelocEntry { ty: R_X86_64_64, offset: 0x4008, symbol: 0, addend: 4 },
        ],
        plt_relocs: vec![
            RelocEntry { ty: R_X86_64_JUMP_SLOT, offset: 0x4018, symbol: 0, addend: 0 },
        ],
        text_rel: false,
    };
    ld.load(b"/lib/r.sprx".to_vec(), LoadFlags { bits: 0 }, false, false, image_with(dynamic))
        .unwrap();
    ld.sys_dynlib_process_needed_and_relocate().unwrap();
    let base = ld.modules[1].mem.addr;
    assert_eq!(base, 0x1000_0000);
    assert_eq!(word_at(&ld, 1, 0x4000), base + 0x4008);
    assert_eq!(word_at(&ld, 1, 0x4008), base + 0x4010 + 4);
    assert_eq!(word_at(&ld, 1, 0x4018), base + 0x4010);
    assert_eq!(ld.mems[1].reloc_cache[0], Some(Relocated::Data(1, base + 0x4008)));
    // The cache records how the entry resolved: the symbol's address,
    // without the entry's addend.
    assert_eq!(ld.mems[1].reloc_cache[1], Some(Relocated::Data(1, base + 0x4010)));
    assert_eq!(ld.mems[1].reloc_cache[2], Some(Relocated::Data(1, base + 0x4010)));
}

#[test]
fn relocation_pass_is_idempotent() {
    // Running the pass a second time rewrites nothing: recorded entries
    // are skipped and memory stays identical.
    let mut ld = booted();
    let dynamic = DynamicInfo {
        symbols: vec![obj_symbol(0x4010)],
        relocs: vec![
            RelocEntry { ty: R_X86_64_RELATIVE, offset: 0x4000, symbol: 0, addend: 0x4008 },
            RelocEntry { ty: R_X86_64_64, offset: 0x4008, symbol: 0, addend: 0 },
        ],
        plt_relocs: vec![
            RelocEntry { ty: R_X86_64_JUMP_SLOT, offset: 0x4018, symbol: 0, addend: 0 },
        ],
        text_rel: false,
    };
    ld.load(b"/lib/r.sprx".to_vec(), LoadFlags { bits: 0 }, false, false, image_with(dynamic))
        .unwrap();
    ld.sys_dynlib_process_needed_and_relocate().unwrap();
    let bytes_first: Vec<Vec<u8>> = ld.mems.iter().map(|m| m.bytes.clone()).collect();
    let caches_first: Vec<_> = ld.mems.iter().map(|m| m.reloc_cache.clone()).collect();
    ld.relocate(0).unwrap();
    let bytes_second: Vec<Vec<u8>> = ld.mems.iter().map(|m| m.bytes.clone()).collect();
    let caches_second: Vec<_> = ld.mems.iter().map(|m| m.reloc_cache.clone()).collect();
    assert_eq!(bytes_first, bytes_second);
    assert_eq!(caches_first, caches_second);
}

#[test]
fn unresolved_entries_wait_for_retry() {
    // Before the dependency lists exist, symbol entries miss and stay
    // unrecorded; a later pass resolves them.
    let mut ld = booted();
    let dynamic = DynamicInfo {
        symbols: vec![obj_symbol(0x4010)],
        relocs: vec![
            RelocEntry { ty: R_X86_64_RELATIVE, offset: 0x4000, symbol: 0, addend: 0x4008 },
            RelocEntry { ty: R_X86_64_64, offset: 0x4008, symbol: 0, addend: 0 },
        ],
        plt_relocs: Vec::new(),
        text_rel: false,
    };
    ld.load(b"/lib/r.sprx".to_vec(), LoadFlags { bits: 0 }, false, false, image_with(dynamic))
        .unwrap();
    // No dependency lists yet: the symbol entry misses.
    ld.relocate(0).unwrap();
    assert!(ld.mems[1].reloc_cache[0].is_some());
    assert!(ld.mems[1].reloc_cache[1].is_none());
    assert_eq!(word_at(&ld, 1, 0x4008), 0);
    // With the lists initialized, the retry applies it.
    ld.sys_dynlib_process_needed_and_relocate().unwrap();
    assert!(ld.mems[1].reloc_cache[1].is_some());
    let base = ld.modules[1].mem.addr;
    assert_eq!(word_at(&ld, 1, 0x4008), base + 0x4010);
}

#[test]
fn tls_relocations_use_index_and_offset() {
    let mut ld = booted();
    let dynamic = DynamicInfo {
        symbols: vec![obj_symbol(0x20)],
        relocs: vec![
            RelocEntry { ty: R_X86_64_DTPMOD64, offset: 0x4000, symbol: 0, addend: 0 },
            RelocEntry { ty: R_X86_64_DTPOFF64, offset: 0x4008, symbol: 0, addend: 1 },
        ],
        plt_relocs: Vec::new(),
        text_rel: false,
    };
    let mut img = image_with(dynamic);
    img.programs.push(Program {
        kind: ProgramKind::Tls,
        addr: 0x4000,
        mem_size: 16,
        align: 8,
        readable: true,
        writable: false,
        executable: false,
        data: Vec::new(),
    });
    img.tls_program = Some(2);
    let id = ld.load(b"/lib/t.sprx".to_vec(), LoadFlags { bits: 0 }, false, true, img).unwrap();
    ld.sys_dynlib_process_needed_and_relocate().unwrap();
    let m = ld.modules.iter().find(|m| m.id == id).unwrap();
    assert_eq!(m.tls_index, 2);
    // Module reference: previous raw value (zero) plus the slot index.
    assert_eq!(word_at(&ld, 1, 0x4000), 2);
    assert_eq!(ld.mems[1].reloc_cache[0], Some(Relocated::Tls(id, 2)));
    // Offset reference: raw value plus symbol value plus addend.
    assert_eq!(word_at(&ld, 1, 0x4008), 0x20 + 1);
}

#[test]
fn none_sentinel_stops_the_table() {
    let mut ld = booted();
    let dynamic = DynamicInfo {
        symbols: vec![obj_symbol(0x4010)],
        relocs: vec![
            RelocEntry { ty: R_X86_64_NONE, offset: 0x4000, symbol: 0, addend: 0 },
            RelocEntry { ty: R_X86_64_RELATIVE, offset: 0x4008, symbol: 0, addend: 0x4008 },
        ],
        plt_relocs: Vec::new(),
        text_rel: false,
    };
    ld.load(b"/lib/n.sprx".to_vec(), LoadFlags { bits: 0 }, false, false, image_with(dynamic))
        .unwrap();
    ld.sys_dynlib_process_needed_and_relocate().unwrap();
    // Nothing after the sentinel is processed.
    assert!(ld.mems[1].reloc_cache[0].is_none());
    assert!(ld.mems[1].reloc_cache[1].is_none());
    assert_eq!(word_at(&ld, 1, 0x4008), 0);
}

#[test]
fn unsupported_relocation_type_fails_and_preserves_progress() {
    // A made-up type code fails the pass with the module and type named,
    // leaving already-applied entries untouched.
    let mut ld = booted();
    let dynamic = DynamicInfo {
        symbols: vec![obj_symbol(0x4010)],
        relocs: vec![
            RelocEntry { ty: R_X86_64_RELATIVE, offset: 0x4000, symbol: 0, addend: 0x4008 },
            RelocEntry { ty: 0x99, offset: 0x4008, symbol: 0, addend: 0 },
        ],
        plt_relocs: Vec::new(),
        text_rel: false,
    };
    ld.load(b"/lib/bad.sprx".to_vec(), LoadFlags { bits: 0 }, false, false, image_with(dynamic))
        .unwrap();
    let r = ld.sys_dynlib_process_needed_and_relocate();
    assert!(matches!(r, Err(SysErr::Errno(c)) if c == ENOEXEC));
    // The entry before the offending one was applied and recorded.
    let base = ld.modules[1].mem.addr;
    assert_eq!(word_at(&ld, 1, 0x4000), base + 0x4008);
    assert!(ld.mems[1].reloc_cache[0].is_some());
    let bytes_after_first: Vec<u8> = ld.mems[1].bytes.clone();
    // The engine names the offending module and type.
    let r2 = ld.relocate(0);
    match r2 {
        Err(RelocateError::UnsupportedRela(p, t)) => {
            assert_eq!(p, b"/lib/bad.sprx".to_vec());
            assert_eq!(t, 0x99);
        },
        _ => panic!("expected an unsupported-relocation failure"),
    }
    // Already-applied entries were not re-written.
    assert_eq!(ld.mems[1].bytes, bytes_after_first);
}

#[test]
fn unsupported_plt_type_fails() {
    let mut ld = booted();
    let dynamic = DynamicInfo {
        symbols: vec![obj_symbol(0x4010)],
        relocs: Vec::new(),
        plt_relocs: vec![
            RelocEntry { ty: R_X86_64_RELATIVE, offset: 0x4000, symbol: 0, addend: 0 },
        ],
        text_rel: false,
    };
    ld.load(b"/lib/badplt.sprx".to_vec(), LoadFlags { bits: 0 }, false, false,
        image_with(dynamic))
        .unwrap();
    let r = ld.relocate(0);
    match r {
        Err(RelocateError::UnsupportedPlt(p, t)) => {
            assert_eq!(p, b"/lib/badplt.sprx".to_vec());
            assert_eq!(t, R_X86_64_RELATIVE);
        },
        _ => panic!("expected an unsupported-jump-slot failure"),
    }
}

#[test]
fn dlsym_resolves_hashed_names() {
    let mut ld = booted();
    let nid = rtld::nid::get_nid(&b"my_func".to_vec());
    let dynamic = DynamicInfo {
        symbols: vec![SymbolInfo {
            name: nid,
            library: Some(b"foo".to_vec()),
            ty: SymbolType::Func,
            value: 0x100,
        }],
        relocs: Vec::new(),
        plt_relocs: Vec::new(),
        text_rel: false,
    };
    let mut img = image_with(dynamic);
    img.modules.push(rtld::image::ModuleInfo { id: 0, name: b"foo".to_vec() });
    let id = ld
        .load(b"/lib/foo.sprx".to_vec(), LoadFlags { bits: 0 }, false, false, img)
        .unwrap();
    ld.sys_dynlib_process_needed_and_relocate().unwrap();
    let addr = ld.sys_dynlib_dlsym(id, &b"my_func".to_vec()).unwrap();
    let base = ld.modules.iter().find(|m| m.id == id).unwrap().mem.addr;
    assert_eq!(addr, base + 0x100);
    // A name that hashes to nothing known misses.
    let r = ld.sys_dynlib_dlsym(id, &b"no_such_func".to_vec());
    assert!(r.is_err());
}

#[test]
fn load_prx_surfaces_failed_relocation() {
    // A first-time load whose relocation pass fails is a path the
    // reference behavior leaves unimplemented: it fails loudly.
    let mut ld = booted();
    let dynamic = DynamicInfo {
        symbols: vec![obj_symbol(0x4010)],
        relocs: vec![RelocEntry { ty: 0x77, offset: 0x4000, symbol: 0, addend: 0 }],
        plt_relocs: Vec::new(),
        text_rel: false,
    };
    let r = ld.sys_dynlib_load_prx(b"/lib/bad.sprx".to_vec(), 0, false, image_with(dynamic));
    assert!(matches!(r, Err(SysErr::Unspecified)));
    // The module is registered and initialized all the same; a later
    // load of the same path shares it without re-running the pass.
    let id2 = ld
        .sys_dynlib_load_prx(b"/lib/bad.sprx".to_vec(), 0, false,
            image_with(DynamicInfo {
                symbols: Vec::new(),
                relocs: Vec::new(),
                plt_relocs: Vec::new(),
                text_rel: false,
            }))
        .unwrap();
    assert_eq!(ld.globals.iter().filter(|g| **g == id2).count(), 1);
}
