use vstd::prelude::*;

verus! {

/// `EPERM`: operation not permitted.
pub const EPERM: i32 = 1;

/// `ENOENT`: no such file or directory.
pub const ENOENT: i32 = 2;

/// `ESRCH`: no such process; used for module and symbol lookup misses.
pub const ESRCH: i32 = 3;

/// `ENOEXEC`: executable format error.
pub const ENOEXEC: i32 = 8;

/// `ENOMEM`: caller buffer too small.
pub const ENOMEM: i32 = 12;

/// `EINVAL`: invalid argument.
pub const EINVAL: i32 = 22;

/// An error returned by the syscall surface of the linker.
#[derive(Debug, Clone, Copy, PartialEq, Eq, Structural)]
pub enum SysErr {
    /// A plain errno value; the caller turns it into a negative return code.
    Errno(i32),
    /// A condition the reference behavior leaves unspecified; surfaced
    /// loudly instead of being silently approximated.
    Unspecified,
}

/// An error from mapping a parsed image into a module region.
#[derive(Debug, Clone, Copy, PartialEq, Eq, Structural)]
pub enum MapError {
    /// The image declares more than one executable program.
    MultipleExecProgram,
    /// The image declares more than one data program.
    MultipleDataProgram,
    /// The image declares more than one read-only-after-relocation program.
    MultipleRelroProgram,
    /// The program at this index has an alignment that is not a power of
    /// two.
    InvalidProgramAlignment(usize),
    /// The address-space manager could not reserve this many bytes.
    MemoryAllocationFailed(usize),
}

/// An error from executing a new primary image.
#[derive(Debug, Clone, Copy, PartialEq, Eq, Structural)]
pub enum ExecError {
    /// The executable could not be opened; raised by the caller that does
    /// the file I/O, never by the loader itself.
    OpenExeFailed,
    /// The executable could not be parsed; raised by the caller that does
    /// the parsing, never by the loader itself.
    ReadExeFailed,
    /// The image type is not one the loader accepts for a primary image.
    InvalidExe,
    /// A statically linked primary image; the reference behavior leaves
    /// this path unimplemented, so it fails loudly.
    StaticExeNotSupported,
    /// The process already has a primary image; the reference behavior
    /// leaves a second execution unspecified, so it fails loudly.
    AlreadyExecuted,
    /// Mapping the image failed.
    MapFailed(MapError),
}

/// An error from loading a shared object.
#[derive(Debug, Clone, Copy, PartialEq, Eq, Structural)]
pub enum LoadError {
    /// The process does not have an executable image yet.
    NoExe,
    /// The file could not be opened; raised by the caller that does the
    /// file I/O, never by the loader itself.
    OpenFileFailed,
    /// The file could not be parsed; raised by the caller that does the
    /// parsing, never by the loader itself.
    OpenElfFailed,
    /// The image is not a valid shared object.
    InvalidElf,
    /// Mapping the image failed.
    MapFailed(MapError),
    /// The module needs relocations inside its text segment.
    ImpureText,
}

impl LoadError {
    /// The errno value a syscall returns for this error.
    pub fn errno(&self) -> (r: i32)
        ensures
            r == (match *self {
                LoadError::NoExe => EPERM,
                LoadError::OpenFileFailed => ENOENT,
                LoadError::OpenElfFailed => ENOEXEC,
                LoadError::InvalidElf => ENOEXEC,
                LoadError::MapFailed(_) => ENOEXEC,
                LoadError::ImpureText => EINVAL,
            }),
    {
        match *self {
            LoadError::NoExe => EPERM,
            LoadError::OpenFileFailed => ENOENT,
            LoadError::OpenElfFailed => ENOEXEC,
            LoadError::InvalidElf => ENOEXEC,
            LoadError::MapFailed(_) => ENOEXEC,
            LoadError::ImpureText => EINVAL,
        }
    }
}

/// An error from relocating modules.
#[derive(Debug)]
pub enum RelocateError {
    /// The memory of the module with this path could not be unprotected.
    UnprotectFailed(Vec<u8>),
    /// The module with this path holds a general relocation of this
    /// unsupported type.
    UnsupportedRela(Vec<u8>, u32),
    /// The module with this path holds a procedure-linkage-table
    /// relocation of this unsupported type.
    UnsupportedPlt(Vec<u8>, u32),
}

impl RelocateError {
    /// The errno value a syscall returns for this error. The reference
    /// behavior leaves the unprotect failure unhandled, so it is excluded.
    pub fn errno(&self) -> (r: i32)
        requires
            !(*self matches RelocateError::UnprotectFailed(_)),
        ensures
            r == (match *self {
                RelocateError::UnprotectFailed(_) => 0,
                RelocateError::UnsupportedRela(_, _) => ENOEXEC,
                RelocateError::UnsupportedPlt(_, _) => EINVAL,
            }),
    {
        match self {
            RelocateError::UnprotectFailed(_) => 0,
            RelocateError::UnsupportedRela(_, _) => ENOEXEC,
            RelocateError::UnsupportedPlt(_, _) => EINVAL,
        }
    }
}

} // verus!
