use vstd::prelude::*;
use vstd::bytes::spec_u64_from_le_bytes;
use crate::errno::RelocateError;
use crate::image::{SymbolType, RelocEntry, R_X86_64_NONE, R_X86_64_64, R_X86_64_GLOB_DAT,
    R_X86_64_JUMP_SLOT, R_X86_64_RELATIVE, R_X86_64_DTPMOD64, R_X86_64_DTPOFF64};
use crate::module::{Module, ModuleMem, Relocated, PROT_EXEC, spec_find_seg, find_seg};
use crate::resolve::{ResolveFlags, spec_resolve, resolve_with_local};
use crate::util::{spec_write_word, write_word, read_word, clone_bytes};

verus! {

/// What the engine decides to do with one relocation-table entry.
#[derive(Debug, Clone, Copy, PartialEq, Eq, Structural)]
pub enum RelocStep {
    /// The sentinel type: processing of the remaining table stops.
    Halt,
    /// The symbol did not resolve; the entry is left for a later pass.
    Miss,
    /// Write the value at the entry's target and record how it resolved.
    Apply(Relocated, u64),
    /// The entry's type is not supported: the pass fails.
    Unsupported,
}

/// A relocation failure, by the data that identifies it: which table,
/// the module's path, and the offending type code.
pub struct RelocErr {
    /// Whether the entry sat in the procedure-linkage-table subset.
    pub plt: bool,
    pub path: Seq<u8>,
    pub ty: u32,
}

/// Whether a returned error reports exactly this failure.
pub open spec fn spec_err_matches(e: RelocateError, ev: RelocErr) -> bool {
    match e {
        RelocateError::UnsupportedRela(p, t) => !ev.plt && p@ == ev.path && t == ev.ty,
        RelocateError::UnsupportedPlt(p, t) => ev.plt && p@ == ev.path && t == ev.ty,
        RelocateError::UnprotectFailed(_) => false,
    }
}

/// The address a resolved symbol stands for: the owning module's load
/// address plus its relocation base plus the symbol's value.
pub open spec fn spec_resolved_addr(mods: Seq<Module>, mi: int, si: int) -> u64 {
    vstd::wrapping::u64_specs::wrapping_add(
        vstd::wrapping::u64_specs::wrapping_add(
            mods[mi].mem.addr, mods[mi].mem.base as u64),
        mods[mi].spec_symbols()[si].value as u64)
}

/// How a resolved symbol is recorded and the value it contributes: code
/// symbols as executable references, everything else as data.
pub open spec fn spec_get_relocated(mods: Seq<Module>, mi: int, si: int) -> (Relocated, u64) {
    let a = spec_resolved_addr(mods, mi, si);
    let ty = mods[mi].spec_symbols()[si].ty;
    if ty == SymbolType::Func || ty == SymbolType::Entry {
        (Relocated::Executable(a), a)
    } else {
        (Relocated::Data(mods[mi].id, a), a)
    }
}

/// The raw value currently stored at the entry's target.
pub open spec fn spec_target_word(mods: Seq<Module>, idx: int, e: RelocEntry, mem: Seq<u8>) -> u64 {
    let off = mods[idx].mem.base + e.offset;
    spec_u64_from_le_bytes(mem.subrange(off, off + 8))
}

/// The decision for one general-table entry, by its type's documented
/// numeric semantics. All value arithmetic wraps modulo the native
/// width, as the processor's relocation formulas do.
pub open spec fn spec_rela_step(mods: Seq<Module>, idx: int, e: RelocEntry, mem: Seq<u8>)
    -> RelocStep {
    let m = mods[idx];
    if e.ty == R_X86_64_NONE {
        RelocStep::Halt
    } else if e.ty == R_X86_64_64 {
        match spec_resolve(mods, idx, e.symbol as int, ResolveFlags::spec_empty()) {
            None => RelocStep::Miss,
            Some(p) => {
                let hv = spec_get_relocated(mods, p.0, p.1);
                RelocStep::Apply(hv.0,
                    vstd::wrapping::u64_specs::wrapping_add_signed(hv.1, e.addend))
            },
        }
    } else if e.ty == R_X86_64_GLOB_DAT {
        match spec_resolve(mods, idx, e.symbol as int, ResolveFlags::spec_empty()) {
            None => RelocStep::Miss,
            Some(p) => {
                let hv = spec_get_relocated(mods, p.0, p.1);
                RelocStep::Apply(hv.0, hv.1)
            },
        }
    } else if e.ty == R_X86_64_RELATIVE {
        match spec_find_seg(m.mem.segments@, 0, m.mem.base + e.addend) {
            None => RelocStep::Miss,
            Some(k) => {
                let a = vstd::wrapping::u64_specs::wrapping_add_signed(
                    vstd::wrapping::u64_specs::wrapping_add(m.mem.addr, m.mem.base as u64),
                    e.addend);
                if m.mem.segments@[k].prot & PROT_EXEC != 0 {
                    RelocStep::Apply(Relocated::Executable(a), a)
                } else {
                    RelocStep::Apply(Relocated::Data(m.id, a), a)
                }
            },
        }
    } else if e.ty == R_X86_64_DTPMOD64 {
        match spec_resolve(mods, idx, e.symbol as int, ResolveFlags::spec_empty()) {
            None => RelocStep::Miss,
            Some(p) => {
                let index = mods[p.0].tls_index as u64;
                let v = vstd::wrapping::u64_specs::wrapping_add(
                    spec_target_word(mods, idx, e, mem), index);
                RelocStep::Apply(Relocated::Tls(mods[p.0].id, index), v)
            },
        }
    } else if e.ty == R_X86_64_DTPOFF64 {
        match spec_resolve(mods, idx, e.symbol as int, ResolveFlags::spec_empty()) {
            None => RelocStep::Miss,
            Some(p) => {
                // The reference behavior reads the requesting entry's
                // symbol index in the owning module's table.
                if e.symbol < mods[p.0].spec_symbols().len() {
                    let v = vstd::wrapping::u64_specs::wrapping_add_signed(
                        vstd::wrapping::u64_specs::wrapping_add(
                            spec_target_word(mods, idx, e, mem),
                            mods[p.0].spec_symbols()[e.symbol as int].value as u64),
                        e.addend);
                    RelocStep::Apply(Relocated::Data(mods[p.0].id, v), v)
                } else {
                    RelocStep::Miss
                }
            },
        }
    } else {
        RelocStep::Unsupported
    }
}

/// The decision for one procedure-linkage-table entry: only jump slots
/// are supported; resolution uses the permissive raw-name flag.
pub open spec fn spec_plt_step(mods: Seq<Module>, idx: int, e: RelocEntry) -> RelocStep {
    if e.ty != R_X86_64_JUMP_SLOT {
        RelocStep::Unsupported
    } else {
        match spec_resolve(mods, idx, e.symbol as int,
            (ResolveFlags { unk1: true, unk3: false, unk4: false })) {
            None => RelocStep::Miss,
            Some(p) => {
                let hv = spec_get_relocated(mods, p.0, p.1);
                RelocStep::Apply(hv.0,
                    vstd::wrapping::u64_specs::wrapping_add_signed(hv.1, e.addend))
            },
        }
    }
}

/// The general-table pass from entry `i` on: entries with a recorded
/// resolution are skipped, a sentinel ends the pass, misses are left
/// unrecorded, applications write the value and record the resolution,
/// and an unsupported type stops the pass with an error.
pub open spec fn spec_rela_fold(
    mods: Seq<Module>,
    idx: int,
    i: int,
    mem: Seq<u8>,
    cache: Seq<Option<Relocated>>,
) -> (Seq<u8>, Seq<Option<Relocated>>, Option<RelocErr>)
    decreases mods[idx].spec_relocs().len() - i,
{
    let relocs = mods[idx].spec_relocs();
    if i < 0 || i >= relocs.len() {
        (mem, cache, None)
    } else if cache[i] is Some {
        spec_rela_fold(mods, idx, i + 1, mem, cache)
    } else {
        let e = relocs[i];
        match spec_rela_step(mods, idx, e, mem) {
            RelocStep::Halt => (mem, cache, None),
            RelocStep::Miss => spec_rela_fold(mods, idx, i + 1, mem, cache),
            RelocStep::Apply(how, v) => spec_rela_fold(mods, idx, i + 1,
                spec_write_word(mem, mods[idx].mem.base + e.offset, v),
                cache.update(i, Some(how))),
            RelocStep::Unsupported => (mem, cache,
                Some(RelocErr { plt: false, path: mods[idx].path@, ty: e.ty })),
        }
    }
}

/// The procedure-linkage-table pass from entry `i` on; its cache slots
/// sit after the general table's.
pub open spec fn spec_plt_fold(
    mods: Seq<Module>,
    idx: int,
    i: int,
    mem: Seq<u8>,
    cache: Seq<Option<Relocated>>,
) -> (Seq<u8>, Seq<Option<Relocated>>, Option<RelocErr>)
    decreases mods[idx].spec_plt_relocs().len() - i,
{
    let plts = mods[idx].spec_plt_relocs();
    let nrel = mods[idx].spec_relocs().len() as int;
    if i < 0 || i >= plts.len() {
        (mem, cache, None)
    } else if cache[nrel + i] is Some {
        spec_plt_fold(mods, idx, i + 1, mem, cache)
    } else {
        let e = plts[i];
        match spec_plt_step(mods, idx, e) {
            RelocStep::Halt => (mem, cache, None),
            RelocStep::Miss => spec_plt_fold(mods, idx, i + 1, mem, cache),
            RelocStep::Apply(how, v) => spec_plt_fold(mods, idx, i + 1,
                spec_write_word(mem, mods[idx].mem.base + e.offset, v),
                cache.update(nrel + i, Some(how))),
            RelocStep::Unsupported => (mem, cache,
                Some(RelocErr { plt: true, path: mods[idx].path@, ty: e.ty })),
        }
    }
}

/// One whole module: the general table, then, unless they are marked
/// done, the procedure-linkage-table entries.
pub open spec fn spec_single_fold(mods: Seq<Module>, idx: int, mem: Seq<u8>,
    cache: Seq<Option<Relocated>>) -> (Seq<u8>, Seq<Option<Relocated>>, Option<RelocErr>) {
    let r = spec_rela_fold(mods, idx, 0, mem, cache);
    if r.2 is Some {
        r
    } else if !mods[idx].flags.jmpslots_done {
        spec_plt_fold(mods, idx, 0, r.0, r.1)
    } else {
        r
    }
}

fn rela_step(mods: &Vec<Module>, idx: usize, e: RelocEntry, mem: &Vec<u8>) -> (r: RelocStep)
    requires
        idx < mods@.len(),
        e.symbol < mods@[idx as int].spec_symbols().len(),
        mods@[idx as int].mem.base + e.offset + 8 <= mem@.len(),
        e.ty == R_X86_64_RELATIVE ==> 0 <= e.addend <= crate::image::MAX_REGION
            && mods@[idx as int].mem.base <= crate::image::MAX_REGION,
    ensures
        r == spec_rela_step(mods@, idx as int, e, mem@),
{
    let ml = mem.len();
    let base = mods[idx].mem.base;
    assert(base + e.offset + 8 <= ml);
    if e.ty == R_X86_64_NONE {
        RelocStep::Halt
    } else if e.ty == R_X86_64_64 {
        match resolve_with_local(mods, idx, e.symbol, ResolveFlags::empty()) {
            None => RelocStep::Miss,
            Some((mi, si)) => {
                let (how, v) = get_relocated(mods, mi, si);
                RelocStep::Apply(how, v.wrapping_add_signed(e.addend))
            },
        }
    } else if e.ty == R_X86_64_GLOB_DAT {
        match resolve_with_local(mods, idx, e.symbol, ResolveFlags::empty()) {
            None => RelocStep::Miss,
            Some((mi, si)) => {
                let (how, v) = get_relocated(mods, mi, si);
                RelocStep::Apply(how, v)
            },
        }
    } else if e.ty == R_X86_64_RELATIVE {
        let addend = e.addend as usize;
        match find_seg(&mods[idx].mem.segments, base + addend) {
            None => RelocStep::Miss,
            Some(k) => {
                let a = mods[idx].mem.addr.wrapping_add(base as u64).wrapping_add_signed(e.addend);
                if mods[idx].mem.segments[k].prot & PROT_EXEC != 0 {
                    RelocStep::Apply(Relocated::Executable(a), a)
                } else {
                    RelocStep::Apply(Relocated::Data(mods[idx].id, a), a)
                }
            },
        }
    } else if e.ty == R_X86_64_DTPMOD64 {
        match resolve_with_local(mods, idx, e.symbol, ResolveFlags::empty()) {
            None => RelocStep::Miss,
            Some((mi, _si)) => {
                let index = mods[mi].tls_index as u64;
                let raw = read_word(mem, base + e.offset);
                RelocStep::Apply(Relocated::Tls(mods[mi].id, index), raw.wrapping_add(index))
            },
        }
    } else if e.ty == R_X86_64_DTPOFF64 {
        match resolve_with_local(mods, idx, e.symbol, ResolveFlags::empty()) {
            None => RelocStep::Miss,
            Some((mi, _si)) => {
                let nsyms = match &mods[mi].dynamic {
                    Some(d) => d.symbols.len(),
                    None => 0,
                };
                if e.symbol < nsyms {
                    let symval = match &mods[mi].dynamic {
                        Some(d) => d.symbols[e.symbol].value,
                        None => 0,
                    };
                    let raw = read_word(mem, base + e.offset);
                    let v = raw.wrapping_add(symval as u64).wrapping_add_signed(e.addend);
                    RelocStep::Apply(Relocated::Data(mods[mi].id, v), v)
                } else {
                    RelocStep::Miss
                }
            },
        }
    } else {
        RelocStep::Unsupported
    }
}

fn plt_step(mods: &Vec<Module>, idx: usize, e: RelocEntry) -> (r: RelocStep)
    requires
        idx < mods@.len(),
        e.symbol < mods@[idx as int].spec_symbols().len(),
    ensures
        r == spec_plt_step(mods@, idx as int, e),
{
    if e.ty != R_X86_64_JUMP_SLOT {
        RelocStep::Unsupported
    } else {
        match resolve_with_local(mods, idx, e.symbol,
            ResolveFlags { unk1: true, unk3: false, unk4: false }) {
            None => RelocStep::Miss,
            Some((mi, si)) => {
                let (how, v) = get_relocated(mods, mi, si);
                RelocStep::Apply(how, v.wrapping_add_signed(e.addend))
            },
        }
    }
}

fn get_relocated(mods: &Vec<Module>, mi: usize, si: usize) -> (r: (Relocated, u64))
    requires
        mi < mods@.len(),
        si < mods@[mi as int].spec_symbols().len(),
    ensures
        r == spec_get_relocated(mods@, mi as int, si as int),
{
    let m = &mods[mi];
    let (ty, value) = match &m.dynamic {
        Some(d) => (d.symbols[si].ty, d.symbols[si].value),
        None => (SymbolType::NoType, 0),
    };
    let a = m.mem.addr.wrapping_add(m.mem.base as u64).wrapping_add(value as u64);
    match ty {
        SymbolType::Func => (Relocated::Executable(a), a),
        SymbolType::Entry => (Relocated::Executable(a), a),
        _ => (Relocated::Data(m.id, a), a),
    }
}

/// Applies the module's general relocation table to its mapped bytes:
/// exactly the pass described by [`spec_rela_fold`].
pub fn relocate_rela(mods: &Vec<Module>, idx: usize, mm: &mut ModuleMem)
    -> (r: Result<(), RelocateError>)
    requires
        idx < mods@.len(),
        mods@[idx as int].wf(),
        mods@[idx as int].dynamic is Some,
        mods@[idx as int].mem_wf(*old(mm)),
    ensures
        final(mm).bytes@ == spec_rela_fold(mods@, idx as int, 0, old(mm).bytes@,
            old(mm).reloc_cache@).0,
        final(mm).reloc_cache@ == spec_rela_fold(mods@, idx as int, 0, old(mm).bytes@,
            old(mm).reloc_cache@).1,
        (match r {
            Ok(()) => spec_rela_fold(mods@, idx as int, 0, old(mm).bytes@,
                old(mm).reloc_cache@).2 is None,
            Err(e) => {
                &&& spec_rela_fold(mods@, idx as int, 0, old(mm).bytes@,
                    old(mm).reloc_cache@).2 matches Some(ev) && spec_err_matches(e, ev)
                &&& e matches RelocateError::UnsupportedRela(_, _)
            },
        }),
        mods@[idx as int].mem_wf(*final(mm)),
{
    let ghost m0 = mm.bytes@;
    let ghost c0 = mm.reloc_cache@;
    let n = match &mods[idx].dynamic {
        Some(d) => d.relocs.len(),
        None => 0,
    };
    let base = mods[idx].mem.base;
    let mut i: usize = 0;
    while i < n
        invariant
            idx < mods@.len(),
            mods@[idx as int].wf(),
            mods@[idx as int].dynamic is Some,
            base == mods@[idx as int].mem.base,
            n == mods@[idx as int].spec_relocs().len(),
            0 <= i <= n,
            m0 == old(mm).bytes@,
            c0 == old(mm).reloc_cache@,
            mm.bytes@.len() == m0.len() == mods@[idx as int].mem.size,
            mm.reloc_cache@.len() == c0.len(),
            c0.len() == mods@[idx as int].spec_reloc_slots(),
            spec_rela_fold(mods@, idx as int, i as int, mm.bytes@, mm.reloc_cache@)
                == spec_rela_fold(mods@, idx as int, 0, m0, c0),
        decreases n - i,
    {
        let cached = mm.reloc_cache[i].is_some();
        if !cached {
            let e = match &mods[idx].dynamic {
                Some(d) => d.relocs[i],
                None => RelocEntry { ty: 0, offset: 0, symbol: 0, addend: 0 },
            };
            let ghost bpre = mm.bytes@;
            let ghost cpre = mm.reloc_cache@;
            let step = rela_step(mods, idx, e, &mm.bytes);
            match step {
                RelocStep::Halt => {
                    proof {
                        assert(spec_rela_fold(mods@, idx as int, i as int, mm.bytes@,
                            mm.reloc_cache@)
                            == (mm.bytes@, mm.reloc_cache@, None::<RelocErr>));
                    }
                    return Ok(());
                },
                RelocStep::Miss => {},
                RelocStep::Apply(how, v) => {
                    write_word(&mut mm.bytes, base + e.offset, v);
                    mm.reloc_cache.set(i, Some(how));
                    proof {
                        assert(spec_rela_fold(mods@, idx as int, i as int, bpre, cpre)
                            == spec_rela_fold(mods@, idx as int, i + 1, mm.bytes@,
                                mm.reloc_cache@));
                    }
                },
                RelocStep::Unsupported => {
                    let err = RelocateError::UnsupportedRela(clone_bytes(&mods[idx].path), e.ty);
                    proof {
                        assert(spec_rela_fold(mods@, idx as int, i as int, mm.bytes@,
                            mm.reloc_cache@)
                            == (mm.bytes@, mm.reloc_cache@, Some(RelocErr {
                                plt: false,
                                path: mods@[idx as int].path@,
                                ty: e.ty,
                            })));
                    }
                    return Err(err);
                },
            }
        }
        i = i + 1;
    }
    proof {
        assert(spec_rela_fold(mods@, idx as int, n as int, mm.bytes@, mm.reloc_cache@)
            == (mm.bytes@, mm.reloc_cache@, None::<RelocErr>));
    }
    Ok(())
}

/// Applies the module's procedure-linkage-table relocations: exactly
/// the pass described by [`spec_plt_fold`].
pub fn relocate_plt(mods: &Vec<Module>, idx: usize, mm: &mut ModuleMem)
    -> (r: Result<(), RelocateError>)
    requires
        idx < mods@.len(),
        mods@[idx as int].wf(),
        mods@[idx as int].dynamic is Some,
        mods@[idx as int].mem_wf(*old(mm)),
    ensures
        final(mm).bytes@ == spec_plt_fold(mods@, idx as int, 0, old(mm).bytes@,
            old(mm).reloc_cache@).0,
        final(mm).reloc_cache@ == spec_plt_fold(mods@, idx as int, 0, old(mm).bytes@,
            old(mm).reloc_cache@).1,
        (match r {
            Ok(()) => spec_plt_fold(mods@, idx as int, 0, old(mm).bytes@,
                old(mm).reloc_cache@).2 is None,
            Err(e) => {
                &&& spec_plt_fold(mods@, idx as int, 0, old(mm).bytes@,
                    old(mm).reloc_cache@).2 matches Some(ev) && spec_err_matches(e, ev)
                &&& e matches RelocateError::UnsupportedPlt(_, _)
            },
        }),
        mods@[idx as int].mem_wf(*final(mm)),
{
    let ghost m0 = mm.bytes@;
    let ghost c0 = mm.reloc_cache@;
    let (nrel, n) = match &mods[idx].dynamic {
        Some(d) => (d.relocs.len(), d.plt_relocs.len()),
        None => (0, 0),
    };
    let base = mods[idx].mem.base;
    let mut i: usize = 0;
    while i < n
        invariant
            idx < mods@.len(),
            mods@[idx as int].wf(),
            mods@[idx as int].dynamic is Some,
            base == mods@[idx as int].mem.base,
            nrel == mods@[idx as int].spec_relocs().len(),
            n == mods@[idx as int].spec_plt_relocs().len(),
            0 <= i <= n,
            m0 == old(mm).bytes@,
            c0 == old(mm).reloc_cache@,
            mm.bytes@.len() == m0.len() == mods@[idx as int].mem.size,
            mm.reloc_cache@.len() == c0.len(),
            c0.len() == mods@[idx as int].spec_reloc_slots(),
            spec_plt_fold(mods@, idx as int, i as int, mm.bytes@, mm.reloc_cache@)
                == spec_plt_fold(mods@, idx as int, 0, m0, c0),
        decreases n - i,
    {
        let cached = mm.reloc_cache[nrel + i].is_some();
        if !cached {
            let e = match &mods[idx].dynamic {
                Some(d) => d.plt_relocs[i],
                None => RelocEntry { ty: 0, offset: 0, symbol: 0, addend: 0 },
            };
            let ghost bpre = mm.bytes@;
            let ghost cpre = mm.reloc_cache@;
            let step = plt_step(mods, idx, e);
            match step {
                RelocStep::Halt => {
                    proof {
                        assert(false);
                    }
                },
                RelocStep::Miss => {},
                RelocStep::Apply(how, v) => {
                    write_word(&mut mm.bytes, base + e.offset, v);
                    mm.reloc_cache.set(nrel + i, Some(how));
                    proof {
                        assert(spec_plt_fold(mods@, idx as int, i as int, bpre, cpre)
                            == spec_plt_fold(mods@, idx as int, i + 1, mm.bytes@,
                                mm.reloc_cache@));
                    }
                },
                RelocStep::Unsupported => {
                    let err = RelocateError::UnsupportedPlt(clone_bytes(&mods[idx].path), e.ty);
                    proof {
                        assert(spec_plt_fold(mods@, idx as int, i as int, mm.bytes@,
                            mm.reloc_cache@)
                            == (mm.bytes@, mm.reloc_cache@, Some(RelocErr {
                                plt: true,
                                path: mods@[idx as int].path@,
                                ty: e.ty,
                            })));
                    }
                    return Err(err);
                },
            }
        }
        i = i + 1;
    }
    proof {
        assert(spec_plt_fold(mods@, idx as int, n as int, mm.bytes@, mm.reloc_cache@)
            == (mm.bytes@, mm.reloc_cache@, None::<RelocErr>));
    }
    Ok(())
}

/// Relocates one module: the general table first, then, unless they are
/// marked done, the procedure-linkage-table entries; exactly
/// [`spec_single_fold`].
pub fn relocate_single(mods: &Vec<Module>, idx: usize, mm: &mut ModuleMem)
    -> (r: Result<(), RelocateError>)
    requires
        idx < mods@.len(),
        mods@[idx as int].wf(),
        mods@[idx as int].dynamic is Some,
        mods@[idx as int].mem_wf(*old(mm)),
    ensures
        final(mm).bytes@ == spec_single_fold(mods@, idx as int, old(mm).bytes@,
            old(mm).reloc_cache@).0,
        final(mm).reloc_cache@ == spec_single_fold(mods@, idx as int, old(mm).bytes@,
            old(mm).reloc_cache@).1,
        (match r {
            Ok(()) => spec_single_fold(mods@, idx as int, old(mm).bytes@,
                old(mm).reloc_cache@).2 is None,
            Err(e) => {
                &&& spec_single_fold(mods@, idx as int, old(mm).bytes@,
                    old(mm).reloc_cache@).2 matches Some(ev) && spec_err_matches(e, ev)
                &&& !(e matches RelocateError::UnprotectFailed(_))
            },
        }),
        mods@[idx as int].mem_wf(*final(mm)),
{
    let r = relocate_rela(mods, idx, mm);
    if let Err(e) = r {
        return Err(e);
    }
    if !mods[idx].flags.jmpslots_done {
        let r = relocate_plt(mods, idx, mm);
        if let Err(e) = r {
            return Err(e);
        }
    }
    Ok(())
}

/// The general-table pass only records entries of its own table that
/// were unrecorded, and never disturbs other slots.
pub proof fn lemma_rela_frame(mods: Seq<Module>, idx: int, i: int, mem: Seq<u8>,
    cache: Seq<Option<Relocated>>)
    requires
        0 <= i,
        cache.len() >= mods[idx].spec_relocs().len(),
    ensures
        spec_rela_fold(mods, idx, i, mem, cache).1.len() == cache.len(),
        forall|j: int| 0 <= j < cache.len()
            && (j < i || j >= mods[idx].spec_relocs().len() || cache[j] is Some)
            ==> spec_rela_fold(mods, idx, i, mem, cache).1[j] == cache[j],
    decreases mods[idx].spec_relocs().len() - i,
{
    let relocs = mods[idx].spec_relocs();
    if i < relocs.len() {
        if cache[i] is Some {
            assert(spec_rela_fold(mods, idx, i, mem, cache)
                == spec_rela_fold(mods, idx, i + 1, mem, cache));
            lemma_rela_frame(mods, idx, i + 1, mem, cache);
        } else {
            let e = relocs[i];
            match spec_rela_step(mods, idx, e, mem) {
                RelocStep::Halt => {},
                RelocStep::Miss => {
                    assert(spec_rela_fold(mods, idx, i, mem, cache)
                        == spec_rela_fold(mods, idx, i + 1, mem, cache));
                    lemma_rela_frame(mods, idx, i + 1, mem, cache);
                },
                RelocStep::Apply(how, v) => {
                    let memx = spec_write_word(mem, mods[idx].mem.base + e.offset, v);
                    let cachex = cache.update(i, Some(how));
                    assert(spec_rela_fold(mods, idx, i, mem, cache)
                        == spec_rela_fold(mods, idx, i + 1, memx, cachex));
                    lemma_rela_frame(mods, idx, i + 1, memx, cachex);
                    assert forall|j: int| 0 <= j < cache.len()
                        && (j < i || j >= relocs.len() || cache[j] is Some)
                        implies spec_rela_fold(mods, idx, i, mem, cache).1[j] == cache[j] by {
                        assert(cachex[j] == cache[j]);
                        assert(spec_rela_fold(mods, idx, i + 1, memx, cachex).1[j] == cachex[j]);
                    }
                },
                RelocStep::Unsupported => {},
            }
        }
    }
}

/// The procedure-linkage-table pass only records entries of its own
/// slot range that were unrecorded, and never disturbs other slots.
pub proof fn lemma_plt_frame(mods: Seq<Module>, idx: int, i: int, mem: Seq<u8>,
    cache: Seq<Option<Relocated>>)
    requires
        0 <= i,
        cache.len() >= mods[idx].spec_reloc_slots(),
    ensures
        spec_plt_fold(mods, idx, i, mem, cache).1.len() == cache.len(),
        forall|j: int| 0 <= j < cache.len()
            && (j < mods[idx].spec_relocs().len() + i || cache[j] is Some)
            ==> spec_plt_fold(mods, idx, i, mem, cache).1[j] == cache[j],
    decreases mods[idx].spec_plt_relocs().len() - i,
{
    let plts = mods[idx].spec_plt_relocs();
    let nrel = mods[idx].spec_relocs().len() as int;
    if i < plts.len() {
        if cache[nrel + i] is Some {
            assert(spec_plt_fold(mods, idx, i, mem, cache)
                == spec_plt_fold(mods, idx, i + 1, mem, cache));
            lemma_plt_frame(mods, idx, i + 1, mem, cache);
        } else {
            let e = plts[i];
            match spec_plt_step(mods, idx, e) {
                RelocStep::Halt => {},
                RelocStep::Miss => {
                    assert(spec_plt_fold(mods, idx, i, mem, cache)
                        == spec_plt_fold(mods, idx, i + 1, mem, cache));
                    lemma_plt_frame(mods, idx, i + 1, mem, cache);
                },
                RelocStep::Apply(how, v) => {
                    let memx = spec_write_word(mem, mods[idx].mem.base + e.offset, v);
                    let cachex = cache.update(nrel + i, Some(how));
                    assert(spec_plt_fold(mods, idx, i, mem, cache)
                        == spec_plt_fold(mods, idx, i + 1, memx, cachex));
                    lemma_plt_frame(mods, idx, i + 1, memx, cachex);
                    assert forall|j: int| 0 <= j < cache.len()
                        && (j < nrel + i || cache[j] is Some)
                        implies spec_plt_fold(mods, idx, i, mem, cache).1[j] == cache[j] by {
                        assert(cachex[j] == cache[j]);
                        assert(spec_plt_fold(mods, idx, i + 1, memx, cachex).1[j] == cachex[j]);
                    }
                },
                RelocStep::Unsupported => {},
            }
        }
    }
}

/// Whether a step decides the same way regardless of the current
/// memory: the written value may differ, the verdict may not.
proof fn lemma_rela_step_stable(mods: Seq<Module>, idx: int, e: RelocEntry, mem: Seq<u8>,
    mem2: Seq<u8>)
    ensures
        (spec_rela_step(mods, idx, e, mem) is Miss)
            == (spec_rela_step(mods, idx, e, mem2) is Miss),
        (spec_rela_step(mods, idx, e, mem) is Halt)
            == (spec_rela_step(mods, idx, e, mem2) is Halt),
        (spec_rela_step(mods, idx, e, mem) is Unsupported)
            == (spec_rela_step(mods, idx, e, mem2) is Unsupported),
{
}

/// After a general-table pass that ran to completion, a second pass
/// over any memory whose cache agrees on the table's slots writes
/// nothing and records nothing.
pub proof fn lemma_rela_replay(mods: Seq<Module>, idx: int, i: int, mem: Seq<u8>,
    cache: Seq<Option<Relocated>>, mem2: Seq<u8>, cache2: Seq<Option<Relocated>>)
    requires
        0 <= i,
        cache.len() >= mods[idx].spec_relocs().len(),
        cache2.len() == cache.len(),
        spec_rela_fold(mods, idx, i, mem, cache).2 is None,
        forall|j: int| i <= j < mods[idx].spec_relocs().len()
            ==> cache2[j] == spec_rela_fold(mods, idx, i, mem, cache).1[j],
    ensures
        spec_rela_fold(mods, idx, i, mem2, cache2) == (mem2, cache2, None::<RelocErr>),
    decreases mods[idx].spec_relocs().len() - i,
{
    let relocs = mods[idx].spec_relocs();
    if i < relocs.len() {
        let r = spec_rela_fold(mods, idx, i, mem, cache);
        if cache[i] is Some {
            lemma_rela_frame(mods, idx, i + 1, mem, cache);
            assert(cache2[i] == cache[i]);
            lemma_rela_replay(mods, idx, i + 1, mem, cache, mem2, cache2);
        } else {
            let e = relocs[i];
            lemma_rela_step_stable(mods, idx, e, mem, mem2);
            match spec_rela_step(mods, idx, e, mem) {
                RelocStep::Halt => {
                    lemma_rela_frame(mods, idx, i, mem, cache);
                    assert(cache2[i] == cache[i]);
                    assert(spec_rela_fold(mods, idx, i, mem2, cache2)
                        == (mem2, cache2, None::<RelocErr>));
                },
                RelocStep::Miss => {
                    lemma_rela_frame(mods, idx, i + 1, mem, cache);
                    assert(cache2[i] == cache[i]);
                    lemma_rela_replay(mods, idx, i + 1, mem, cache, mem2, cache2);
                },
                RelocStep::Apply(how, v) => {
                    let memx = spec_write_word(mem, mods[idx].mem.base + e.offset, v);
                    let cachex = cache.update(i, Some(how));
                    lemma_rela_frame(mods, idx, i + 1, memx, cachex);
                    assert(cache2[i] == cachex[i]);
                    lemma_rela_replay(mods, idx, i + 1, memx, cachex, mem2, cache2);
                },
                RelocStep::Unsupported => {},
            }
        }
    }
}

/// The same replay property for the procedure-linkage-table pass.
pub proof fn lemma_plt_replay(mods: Seq<Module>, idx: int, i: int, mem: Seq<u8>,
    cache: Seq<Option<Relocated>>, mem2: Seq<u8>, cache2: Seq<Option<Relocated>>)
    requires
        0 <= i,
        cache.len() >= mods[idx].spec_reloc_slots(),
        cache2.len() == cache.len(),
        spec_plt_fold(mods, idx, i, mem, cache).2 is None,
        forall|j: int| mods[idx].spec_relocs().len() + i <= j < mods[idx].spec_reloc_slots()
            ==> cache2[j] == spec_plt_fold(mods, idx, i, mem, cache).1[j],
    ensures
        spec_plt_fold(mods, idx, i, mem2, cache2) == (mem2, cache2, None::<RelocErr>),
    decreases mods[idx].spec_plt_relocs().len() - i,
{
    let plts = mods[idx].spec_plt_relocs();
    let nrel = mods[idx].spec_relocs().len() as int;
    if i < plts.len() {
        if cache[nrel + i] is Some {
            lemma_plt_frame(mods, idx, i + 1, mem, cache);
            assert(cache2[nrel + i] == cache[nrel + i]);
            lemma_plt_replay(mods, idx, i + 1, mem, cache, mem2, cache2);
        } else {
            let e = plts[i];
            match spec_plt_step(mods, idx, e) {
                RelocStep::Halt => {},
                RelocStep::Miss => {
                    lemma_plt_frame(mods, idx, i + 1, mem, cache);
                    assert(cache2[nrel + i] == cache[nrel + i]);
                    lemma_plt_replay(mods, idx, i + 1, mem, cache, mem2, cache2);
                },
                RelocStep::Apply(how, v) => {
                    let memx = spec_write_word(mem, mods[idx].mem.base + e.offset, v);
                    let cachex = cache.update(nrel + i, Some(how));
                    lemma_plt_frame(mods, idx, i + 1, memx, cachex);
                    assert(cache2[nrel + i] == cachex[nrel + i]);
                    lemma_plt_replay(mods, idx, i + 1, memx, cachex, mem2, cache2);
                },
                RelocStep::Unsupported => {},
            }
        }
    }
}

/// Idempotence of relocation: after a relocation pass over a module
/// ran to completion, running the same pass again leaves the mapped
/// memory and the resolution cache exactly as they were — a recorded
/// entry is never re-resolved and never re-written.
pub proof fn lemma_relocate_idempotent(mods: Seq<Module>, idx: int, mem: Seq<u8>,
    cache: Seq<Option<Relocated>>)
    requires
        cache.len() == mods[idx].spec_reloc_slots(),
        spec_single_fold(mods, idx, mem, cache).2 is None,
    ensures
        spec_single_fold(mods, idx,
            spec_single_fold(mods, idx, mem, cache).0,
            spec_single_fold(mods, idx, mem, cache).1)
            == (spec_single_fold(mods, idx, mem, cache).0,
                spec_single_fold(mods, idx, mem, cache).1,
                None::<RelocErr>),
{
    let r = spec_rela_fold(mods, idx, 0, mem, cache);
    let s = spec_single_fold(mods, idx, mem, cache);
    lemma_rela_frame(mods, idx, 0, mem, cache);
    if mods[idx].flags.jmpslots_done {
        lemma_rela_replay(mods, idx, 0, mem, cache, r.0, r.1);
    } else {
        let p = spec_plt_fold(mods, idx, 0, r.0, r.1);
        lemma_plt_frame(mods, idx, 0, r.0, r.1);
        // A second general pass writes nothing: the procedure table's
        // pass did not touch the general table's slots.
        assert forall|j: int| 0 <= j < mods[idx].spec_relocs().len()
            implies p.1[j] == r.1[j] by {}
        lemma_rela_replay(mods, idx, 0, mem, cache, p.0, p.1);
        // A second procedure pass writes nothing either.
        lemma_plt_replay(mods, idx, 0, r.0, r.1, p.0, p.1);
    }
}

} // verus!
