//! The file-system services; their operations run in the application,
//! which owns all file access.
use vstd::prelude::*;

verus! {

/// Creates directories.
#[derive(Debug, Clone, Copy, Default)]
pub struct ForgeCreateDirsService;

/// Reads file metadata.
#[derive(Debug, Clone, Copy)]
pub struct ForgeFileMetaService;

/// Low-level file remove service.
///
/// Provides primitive file deletion operations without snapshot
/// coordination. Snapshot management is handled at the service layer.
#[derive(Debug, Clone, Copy, Default)]
pub struct ForgeFileRemoveService;

impl ForgeFileRemoveService {
    /// The remove service.
    pub fn new() -> (r: Self)
        ensures
            r == ForgeFileRemoveService,
    {
        ForgeFileRemoveService
    }
}

} // verus!
