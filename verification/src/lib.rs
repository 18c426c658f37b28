//! Facts about an Android host: battery, kernel, processor, memory, product
//! and installed packages.
//!
//! The library reads nothing by itself. Its caller reads the kernel's
//! files, takes the statistics snapshot, queries the property store and
//! runs the package managers, and hands the raw readings in; each readout
//! turns them into a typed fact or a typed error. A reading that could not
//! be had is handed in as `None`, and each readout states what it makes of
//! that. The one thing the library asks of the machine itself is the number
//! of its cores.

pub mod battery;
pub mod error;
pub mod general;
pub mod kernel;
pub mod memory;
pub mod number;
pub mod package;
pub mod path;
pub mod product;
pub mod split;
pub mod sysinfo;
pub mod table;
pub mod text;
pub mod tokens;

pub use crate::battery::{AndroidBatteryReadout, BatteryState};
pub use crate::error::ReadoutError;
pub use crate::general::AndroidGeneralReadout;
pub use crate::kernel::AndroidKernelReadout;
pub use crate::memory::AndroidMemoryReadout;
pub use crate::package::{AndroidPackageReadout, PackageManager};
pub use crate::product::AndroidProductReadout;
