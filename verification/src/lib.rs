//! A verified model of a console kernel's executable loader and dynamic
//! linker: module mapping, symbol hashing and resolution, relocation, and
//! thread-local-storage layout.
use vstd::prelude::*;

pub mod blockpool;
pub mod errno;
pub mod image;
pub mod linker;
pub mod module;
pub mod nid;
pub mod reloc;
pub mod resolve;
pub mod uma;
pub mod util;

verus! {

/// Page granularity of the platform: mapped regions are rounded up to it.
pub const PAGE_SIZE: usize = 0x4000;

} // verus!

