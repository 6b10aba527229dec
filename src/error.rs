//! What can go wrong, as values the caller reports.

use vstd::prelude::*;
use crate::hashing::HashTextError;
use crate::paths::FsPath;
use crate::profile::ModVersion;

verus! {

/// The ways an operation on the profile, the journal or the game
/// directory can be refused.
#[derive(Clone, Debug)]
pub enum ManagerError {
    /// The package is already installed.
    AlreadyActivated { package: FsPath },
    /// The package is not installed.
    NotActivated { package: FsPath },
    /// A file of the package being installed is already installed by
    /// another package.
    PathConflict { file: FsPath, package: FsPath, active: FsPath },
    /// A backup is already where a new one would go: an earlier activation
    /// was interrupted, and needs repair.
    BackupExists { backup: FsPath },
    /// The package on disk is not the version that was installed.
    VersionMismatch { package: FsPath, found: ModVersion, recorded: ModVersion },
    /// Installed files no longer hash to what was installed.
    GameFilesChanged { package: FsPath },
    /// A journal entry names a file the profile records: the journal is
    /// stale.
    StaleJournalEntry { file: FsPath },
    /// A path that is not UTF-8 cannot be written to the journal.
    Encoding { file: FsPath },
    /// A journal line that is not an action and a path.
    JournalSyntax { line: String },
    /// A recorded hash that is not 28 bytes of hexadecimal.
    HashText { error: HashTextError },
    /// A file system operation on the path failed.
    Io { path: FsPath },
}

} // verus!
