use vstd::prelude::*;

verus! {

/// The kernel's general-purpose zone allocator front end. The loader
/// only needs its "create a zone of fixed-size items" capability; the
/// zones themselves are a collaborator.
pub struct Uma {}

/// Flags for creating a zone.
#[derive(Debug, Clone, Copy, PartialEq, Eq, Structural)]
pub enum UmaFlags {
    /// `UMA_ZONE_ZINIT`.
    ZInit,
    /// `UMA_ZONE_OFFPAGE`.
    Offpage,
    /// `UMA_ZONE_MALLOC`.
    Malloc,
    /// `UMA_ZONE_VM`.
    Vm,
    /// `UMA_ZONE_HASH`.
    Hash,
    /// `UMA_ZONE_SECONDARY`.
    Secondary,
    /// `UMA_ZONE_REFCNT`.
    RefCnt,
    /// `UMA_ZONE_CACHESPREAD`.
    CacheSpread,
    /// `UMA_ZONE_VTOSLAB`.
    VToSlab,
    /// `UMA_ZFLAG_INTERNAL`.
    Internal,
    /// `UMA_ZFLAG_CACHEONLY`.
    Cacheonly,
}

/// The numeric value of a zone flag.
pub open spec fn spec_uma_flag_bits(f: UmaFlags) -> u32 {
    match f {
        UmaFlags::ZInit => 0x2,
        UmaFlags::Offpage => 0x8,
        UmaFlags::Malloc => 0x10,
        UmaFlags::Vm => 0x80,
        UmaFlags::Hash => 0x100,
        UmaFlags::Secondary => 0x200,
        UmaFlags::RefCnt => 0x400,
        UmaFlags::CacheSpread => 0x1000,
        UmaFlags::VToSlab => 0x2000,
        UmaFlags::Internal => 0x20000000,
        UmaFlags::Cacheonly => 0x80000000,
    }
}

impl UmaFlags {
    /// The flag's numeric value.
    pub fn bits(&self) -> (r: u32)
        ensures
            r == spec_uma_flag_bits(*self),
    {
        match self {
            UmaFlags::ZInit => 0x2,
            UmaFlags::Offpage => 0x8,
            UmaFlags::Malloc => 0x10,
            UmaFlags::Vm => 0x80,
            UmaFlags::Hash => 0x100,
            UmaFlags::Secondary => 0x200,
            UmaFlags::RefCnt => 0x400,
            UmaFlags::CacheSpread => 0x1000,
            UmaFlags::VToSlab => 0x2000,
            UmaFlags::Internal => 0x20000000,
            UmaFlags::Cacheonly => 0x80000000,
        }
    }
}

/// A zone of fixed-size items.
pub struct UmaZone {
    pub name: Vec<u8>,
    /// Size of one item; never zero.
    pub size: usize,
    /// Requested alignment, if any.
    pub align: Option<usize>,
    pub flags: Option<UmaFlags>,
}

impl Uma {
    pub fn new() -> (r: Uma)
        ensures
            true,
    {
        Uma {}
    }

    /// Creates a zone of `size`-byte items. The zone lives with its
    /// caller rather than being allocated from a master zone.
    pub fn create_zone(&self, name: Vec<u8>, size: usize, align: Option<usize>,
        flags: Option<UmaFlags>) -> (r: UmaZone)
        requires
            size >= 1,
        ensures
            r.name == name,
            r.size == size,
            r.align == align,
            r.flags == flags,
    {
        UmaZone { name, size, align, flags }
    }
}

} // verus!
