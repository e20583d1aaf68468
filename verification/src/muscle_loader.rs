//! Sizing and classification helpers for loading sealed muscle blobs.
use vstd::prelude::*;

use crate::bytes::str_eq;

verus! {

/// A muscle blob parsed and placed into executable memory.
pub struct LoadedMuscle {
    /// Entry point address.
    pub entry_point: u64,
    /// Number of pages allocated.
    pub memory_pages: u64,
    /// Muscle name.
    pub name: String,
    /// Target architecture label.
    pub arch: String,
}

/// Why a muscle blob failed to load.
#[derive(Clone, Copy, Debug, PartialEq, Eq, Structural)]
pub enum LoadError {
    /// The blob header is malformed.
    InvalidFormat,
    /// The blob's integrity hash does not match.
    IntegrityCheckFailed,
    /// Executable memory could not be allocated.
    MemoryAllocationFailed,
    /// The blob targets an unsupported architecture.
    ArchitectureMismatch,
    /// The sealed payload could not be opened.
    DecryptionFailed,
}

/// The number of 4096-byte pages that cover `size` bytes.
pub fn calculate_required_pages(size: usize) -> (r: usize)
    requires
        size + 4095 <= usize::MAX,
    ensures
        r == (size + 4095) / 4096,
        size > 0 ==> r * 4096 >= size,
        r * 4096 < size + 4096,
{
    proof {
        assert((size + 4095) / 4096 * 4096 >= size || size == 0) by (nonlinear_arith);
        assert((size + 4095) / 4096 * 4096 < size + 4096) by (nonlinear_arith);
    }
    (size + 4095) / 4096
}

/// Whether the architecture label names a supported target.
pub fn is_architecture_supported(arch: &str) -> (r: bool)
    ensures
        r == (arch@ == "aarch64"@ || arch@ == "x86_64"@),
{
    str_eq(arch, "aarch64") || str_eq(arch, "x86_64")
}

} // verus!
