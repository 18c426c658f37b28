//! The identity of the kernel, from one snapshot.

use crate::error::{text_result, ErrorModel, ReadoutError};
use vstd::prelude::*;

verus! {

/// What one identification call tells about the kernel.
pub struct KernelInfo {
    /// The name of the operating system.
    pub os_type: String,
    /// The release of the kernel.
    pub os_release: String,
}

/// Reads the identity of the kernel from the snapshot that it was made
/// with.
pub struct AndroidKernelReadout {
    utsname: Option<KernelInfo>,
}

/// What `os_release` returns for a snapshot, or for `None` where the
/// identification call failed.
pub open spec fn os_release_of(snapshot: Option<KernelInfo>) -> Result<Seq<char>, ErrorModel> {
    match snapshot {
        Some(info) => Ok(info.os_release@),
        None => Err(ErrorModel::SyscallFailure),
    }
}

/// What `os_type` returns.
pub open spec fn os_type_of(snapshot: Option<KernelInfo>) -> Result<Seq<char>, ErrorModel> {
    match snapshot {
        Some(info) => Ok(info.os_type@),
        None => Err(ErrorModel::SyscallFailure),
    }
}

impl AndroidKernelReadout {
    /// The snapshot that the readout was made with.
    pub closed spec fn snapshot(&self) -> Option<KernelInfo> {
        self.utsname
    }

    /// A readout of the snapshot `utsname`; `None` stands for an
    /// identification call that failed.
    pub fn new(utsname: Option<KernelInfo>) -> (readout: Self)
        ensures
            readout.snapshot() == utsname,
    {
        AndroidKernelReadout { utsname }
    }

    /// The release of the kernel.
    pub fn os_release(&self) -> (r: Result<String, ReadoutError>)
        ensures
            text_result(r) == os_release_of(self.snapshot()),
    {
        match &self.utsname {
            Some(info) => Ok(info.os_release.clone()),
            None => Err(ReadoutError::SyscallFailure),
        }
    }

    /// The name of the operating system.
    pub fn os_type(&self) -> (r: Result<String, ReadoutError>)
        ensures
            text_result(r) == os_type_of(self.snapshot()),
    {
        match &self.utsname {
            Some(info) => Ok(info.os_type.clone()),
            None => Err(ReadoutError::SyscallFailure),
        }
    }
}

} // verus!
