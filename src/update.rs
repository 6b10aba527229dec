//! Reconciling installed packages with a game update that overwrote some
//! of their files.

use vstd::prelude::*;
use crate::error::ManagerError;
use crate::hashing::FileHash;
use crate::paths::FsPath;
use crate::profile::{ModFileMetadata, ModVersion};

verus! {

/// Refuses to reinstall files of a package whose version on disk is not
/// the one installed: its files would not match the recorded hashes.
pub fn check_version(package: &FsPath, found: &ModVersion, recorded: &ModVersion) -> (r: Result<
    (),
    ManagerError,
>)
    ensures
        r is Ok <==> found@ == recorded@,
        r is Err ==> (r->Err_0 matches ManagerError::VersionMismatch { package: q, found: x, recorded: y }
            && q@ == package@ && x@ == found@ && y@ == recorded@),
{
    if found.same_as(recorded) {
        Ok(())
    } else {
        Err(
            ManagerError::VersionMismatch {
                package: package.duplicate(),
                found: found.duplicate(),
                recorded: recorded.duplicate(),
            },
        )
    }
}

/// Whether an installed file was overwritten: its game file no longer
/// hashes to what was installed.
pub fn needs_refresh(meta: &ModFileMetadata, game_hash: &FileHash) -> (r: bool)
    ensures
        r == (game_hash@ != meta.mod_hash@),
{
    !meta.mod_hash.same_as(game_hash)
}

/// What a dry run records for an overwritten file: the game file it now
/// finds becomes the original, and the mod file is taken to be unchanged.
pub fn dry_run_metadata(meta: &ModFileMetadata, game_hash: &FileHash) -> (r: ModFileMetadata)
    ensures
        r.mod_hash == meta.mod_hash,
        r.original_hash == Some(*game_hash),
{
    ModFileMetadata { mod_hash: meta.mod_hash, original_hash: Some(*game_hash) }
}

} // verus!
