use vstd::prelude::*;
use crate::image::SymbolInfo;
use crate::module::Module;
use crate::util::bytes_eq;

verus! {

/// Flags steering a symbol resolution. Their names follow the reference
/// behavior, which does not document their individual meaning; any of
/// them enables the version-less fallback pass.
#[derive(Debug, Clone, Copy, PartialEq, Eq, Structural)]
pub struct ResolveFlags {
    /// Raw-name lookup: skips hashing and the library constraint.
    pub unk1: bool,
    /// Permissive lookup, first variant.
    pub unk3: bool,
    /// Permissive lookup, second variant.
    pub unk4: bool,
}

impl ResolveFlags {
    pub open spec fn spec_empty() -> ResolveFlags {
        ResolveFlags { unk1: false, unk3: false, unk4: false }
    }

    pub fn empty() -> (r: ResolveFlags)
        ensures
            r == ResolveFlags::spec_empty(),
    {
        ResolveFlags { unk1: false, unk3: false, unk4: false }
    }

    /// Whether an unresolved symbol falls back to a version-less lookup
    /// across the whole list.
    pub open spec fn spec_permissive(&self) -> bool {
        self.unk1 || self.unk3 || self.unk4
    }

    pub fn permissive(&self) -> (r: bool)
        ensures
            r == self.spec_permissive(),
    {
        self.unk1 || self.unk3 || self.unk4
    }
}

/// The view of an optional library name.
pub open spec fn spec_lib_view(lib: Option<Vec<u8>>) -> Option<Seq<u8>> {
    match lib {
        Some(l) => Some(l@),
        None => None,
    }
}

/// Whether a symbol table entry matches the requested name and, when one
/// is given, the requested declaring library.
pub open spec fn spec_sym_match(s: SymbolInfo, name: Seq<u8>, lib: Option<Seq<u8>>) -> bool {
    &&& s.name@ == name
    &&& (match lib {
        None => true,
        Some(l) => s.library matches Some(sl) && sl@ == l,
    })
}

/// The first matching symbol in the table, from `k` on.
pub open spec fn spec_find_sym(
    syms: Seq<SymbolInfo>,
    k: int,
    name: Seq<u8>,
    lib: Option<Seq<u8>>,
) -> Option<int>
    decreases syms.len() - k,
{
    if k < 0 || k >= syms.len() {
        None
    } else if spec_sym_match(syms[k], name, lib) {
        Some(k)
    } else {
        spec_find_sym(syms, k + 1, name, lib)
    }
}

/// The first module in the list with the given id.
pub open spec fn spec_find_module(mods: Seq<Module>, k: int, id: u32) -> Option<int>
    decreases mods.len() - k,
{
    if k < 0 || k >= mods.len() {
        None
    } else if mods[k].id == id {
        Some(k)
    } else {
        spec_find_module(mods, k + 1, id)
    }
}

/// Search along a dependency list, from position `j` on: for each listed
/// module, in order, scan its symbol table; the first match wins.
pub open spec fn spec_search_dag(
    mods: Seq<Module>,
    dag: Seq<u32>,
    j: int,
    name: Seq<u8>,
    lib: Option<Seq<u8>>,
) -> Option<(int, int)>
    decreases dag.len() - j,
{
    if j < 0 || j >= dag.len() {
        None
    } else {
        match spec_find_module(mods, 0, dag[j]) {
            None => spec_search_dag(mods, dag, j + 1, name, lib),
            Some(mi) => match spec_find_sym(mods[mi].spec_symbols(), 0, name, lib) {
                Some(si) => Some((mi, si)),
                None => spec_search_dag(mods, dag, j + 1, name, lib),
            },
        }
    }
}

/// Resolution of a name against the requesting module's static list: a
/// strict pass honoring the library constraint, then, when permitted, a
/// version-less pass over the same list.
pub open spec fn spec_resolve_name(
    mods: Seq<Module>,
    idx: int,
    name: Seq<u8>,
    lib: Option<Seq<u8>>,
    permissive: bool,
) -> Option<(int, int)> {
    let dag = mods[idx].dag_static@;
    let first = spec_search_dag(mods, dag, 0, name, lib);
    if first is Some {
        first
    } else if permissive && lib is Some {
        spec_search_dag(mods, dag, 0, name, None)
    } else {
        None
    }
}

/// Resolution of a relocation symbol: the requesting module's own table
/// entry provides the name and the declaring-library constraint.
pub open spec fn spec_resolve(mods: Seq<Module>, idx: int, sym: int, flags: ResolveFlags)
    -> Option<(int, int)> {
    let s = mods[idx].spec_symbols()[sym];
    spec_resolve_name(mods, idx, s.name@, spec_lib_view(s.library), flags.spec_permissive())
}

fn sym_match(s: &SymbolInfo, name: &Vec<u8>, lib: Option<&Vec<u8>>) -> (r: bool)
    ensures
        r == spec_sym_match(*s, name@, (match lib {
            Some(l) => Some(l@),
            None => None::<Seq<u8>>,
        })),
{
    if !bytes_eq(&s.name, name) {
        return false;
    }
    match lib {
        None => true,
        Some(l) => match &s.library {
            Some(sl) => bytes_eq(sl, l),
            None => false,
        },
    }
}

fn find_sym(syms: &Vec<SymbolInfo>, name: &Vec<u8>, lib: Option<&Vec<u8>>) -> (r: Option<usize>)
    ensures
        (match r {
            Some(k) => spec_find_sym(syms@, 0, name@, (match lib {
                Some(l) => Some(l@),
                None => None::<Seq<u8>>,
            })) == Some(k as int) && k < syms@.len(),
            None => spec_find_sym(syms@, 0, name@, (match lib {
                Some(l) => Some(l@),
                None => None::<Seq<u8>>,
            })) is None,
        }),
{
    let ghost libv = match lib {
        Some(l) => Some(l@),
        None => None::<Seq<u8>>,
    };
    let n = syms.len();
    let mut k: usize = 0;
    while k < n
        invariant
            0 <= k <= n,
            n == syms@.len(),
            libv == (match lib {
                Some(l) => Some(l@),
                None => None::<Seq<u8>>,
            }),
            spec_find_sym(syms@, 0, name@, libv) == spec_find_sym(syms@, k as int, name@, libv),
        decreases n - k,
    {
        if sym_match(&syms[k], name, lib) {
            return Some(k);
        }
        k = k + 1;
    }
    None
}

/// Finds a loaded module by id.
pub fn find_module(mods: &Vec<Module>, id: u32) -> (r: Option<usize>)
    ensures
        (match r {
            Some(k) => spec_find_module(mods@, 0, id) == Some(k as int) && k < mods@.len()
                && mods@[k as int].id == id,
            None => spec_find_module(mods@, 0, id) is None,
        }),
{
    let n = mods.len();
    let mut k: usize = 0;
    while k < n
        invariant
            0 <= k <= n,
            n == mods@.len(),
            spec_find_module(mods@, 0, id) == spec_find_module(mods@, k as int, id),
        decreases n - k,
    {
        if mods[k].id == id {
            return Some(k);
        }
        k = k + 1;
    }
    None
}

fn search_dag(
    mods: &Vec<Module>,
    dag: &Vec<u32>,
    name: &Vec<u8>,
    lib: Option<&Vec<u8>>,
) -> (r: Option<(usize, usize)>)
    ensures
        (match r {
            Some(p) => spec_search_dag(mods@, dag@, 0, name@, (match lib {
                Some(l) => Some(l@),
                None => None::<Seq<u8>>,
            })) == Some((p.0 as int, p.1 as int))
                && p.0 < mods@.len() && p.1 < mods@[p.0 as int].spec_symbols().len(),
            None => spec_search_dag(mods@, dag@, 0, name@, (match lib {
                Some(l) => Some(l@),
                None => None::<Seq<u8>>,
            })) is None,
        }),
{
    let ghost libv = match lib {
        Some(l) => Some(l@),
        None => None::<Seq<u8>>,
    };
    let n = dag.len();
    let mut j: usize = 0;
    while j < n
        invariant
            0 <= j <= n,
            n == dag@.len(),
            libv == (match lib {
                Some(l) => Some(l@),
                None => None::<Seq<u8>>,
            }),
            spec_search_dag(mods@, dag@, 0, name@, libv)
                == spec_search_dag(mods@, dag@, j as int, name@, libv),
        decreases n - j,
    {
        match find_module(mods, dag[j]) {
            None => {},
            Some(mi) => {
                let found = match &mods[mi].dynamic {
                    Some(d) => find_sym(&d.symbols, name, lib),
                    None => {
                        proof {
                            assert(mods@[mi as int].spec_symbols() =~= Seq::<SymbolInfo>::empty());
                            assert(spec_find_sym(mods@[mi as int].spec_symbols(), 0, name@, libv)
                                is None);
                        }
                        None
                    },
                };
                if let Some(si) = found {
                    return Some((mi, si));
                }
            },
        }
        j = j + 1;
    }
    None
}

/// Resolves a name in the scope of the requesting module: searches its
/// static dependency list in order, honoring the declaring-library
/// constraint, with a version-less second pass when `permissive` allows
/// one.
pub fn resolve_name(
    mods: &Vec<Module>,
    idx: usize,
    name: &Vec<u8>,
    lib: Option<&Vec<u8>>,
    permissive: bool,
) -> (r: Option<(usize, usize)>)
    requires
        idx < mods@.len(),
    ensures
        (match r {
            Some(p) => spec_resolve_name(mods@, idx as int, name@, (match lib {
                Some(l) => Some(l@),
                None => None::<Seq<u8>>,
            }), permissive) == Some((p.0 as int, p.1 as int))
                && p.0 < mods@.len() && p.1 < mods@[p.0 as int].spec_symbols().len(),
            None => spec_resolve_name(mods@, idx as int, name@, (match lib {
                Some(l) => Some(l@),
                None => None::<Seq<u8>>,
            }), permissive) is None,
        }),
{
    let dag = &mods[idx].dag_static;
    let first = search_dag(mods, dag, name, lib);
    if first.is_some() {
        return first;
    }
    if permissive && lib.is_some() {
        return search_dag(mods, dag, name, None);
    }
    None
}

/// Resolves the symbol of a relocation entry of the module at `idx`.
pub fn resolve_with_local(
    mods: &Vec<Module>,
    idx: usize,
    sym: usize,
    flags: ResolveFlags,
) -> (r: Option<(usize, usize)>)
    requires
        idx < mods@.len(),
        sym < mods@[idx as int].spec_symbols().len(),
    ensures
        (match r {
            Some(p) => spec_resolve(mods@, idx as int, sym as int, flags)
                == Some((p.0 as int, p.1 as int))
                && p.0 < mods@.len() && p.1 < mods@[p.0 as int].spec_symbols().len(),
            None => spec_resolve(mods@, idx as int, sym as int, flags) is None,
        }),
{
    let d = match &mods[idx].dynamic {
        Some(d) => d,
        None => {
            proof {
                assert(false);
            }
            return None;
        },
    };
    let name = &d.symbols[sym].name;
    let lib = match &d.symbols[sym].library {
        Some(l) => Some(l),
        None => None,
    };
    let permissive = flags.permissive();
    resolve_name(mods, idx, name, lib, permissive)
}

} // verus!
