//! The snapshot of system statistics that the kernel hands out in one call.

use vstd::prelude::*;

verus! {

/// One snapshot of the kernel's aggregate counters.
#[derive(Clone, Copy, Debug)]
pub struct SysInfo {
    /// Seconds since boot.
    pub uptime: usize,
    /// The load averages over one, five and fifteen minutes, in the
    /// kernel's fixed-point scale.
    pub loads: [u64; 3],
    /// Total usable main memory, in units of `mem_unit` bytes.
    pub totalram: u64,
    /// Available memory, in units of `mem_unit` bytes.
    pub freeram: u64,
    /// Memory used by buffers, in units of `mem_unit` bytes.
    pub bufferram: u64,
    /// The size of the memory unit, in bytes.
    pub mem_unit: u32,
}

/// The value that stands for a load of one in the kernel's fixed-point
/// scale: two to the power 11.
pub const LOAD_SCALE: u64 = 2048;

} // verus!
