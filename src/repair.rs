//! Undoing an interrupted activation from its journal.

use vstd::prelude::*;
use crate::error::ManagerError;
use crate::journal::JournalAction;
use crate::paths::{backup_dir_spec, mod_path_to_backup_path, mod_path_to_game_path, FsPath};
use crate::profile::{profile_has_file, Profile};

verus! {

/// How one journaled file is put back.
#[derive(Clone, Debug)]
pub enum UndoStep {
    /// The activation added the file: remove it.
    RemoveGameFile { game: FsPath },
    /// The activation replaced the file: copy the backup over it, then
    /// remove the backup.
    RestoreBackup { backup: FsPath, game: FsPath },
}

/// Decides how to undo one journal entry. An entry for a file the profile
/// records means the journal outlived its activation's commit, and nothing
/// is undone for it.
pub fn try_to_undo(path: &FsPath, action: JournalAction, p: &Profile) -> (r: Result<
    UndoStep,
    ManagerError,
>)
    ensures
        r is Err <==> profile_has_file(p@, path@),
        r is Err ==> (r->Err_0 matches ManagerError::StaleJournalEntry { file } && file@
            == path@),
        r is Ok && action == JournalAction::Added ==> (r->Ok_0 matches UndoStep::RemoveGameFile { game }
            && game@ == p@.root + path@),
        r is Ok && action == JournalAction::Replaced ==> (r->Ok_0 matches UndoStep::RestoreBackup { backup, game }
            && backup@ == backup_dir_spec() + path@ && game@ == p@.root + path@),
{
    if p.owner_of(path).is_some() {
        return Err(ManagerError::StaleJournalEntry { file: path.duplicate() });
    }
    let game = mod_path_to_game_path(path, &p.root_directory);
    match action {
        JournalAction::Added => Ok(UndoStep::RemoveGameFile { game }),
        JournalAction::Replaced => Ok(
            UndoStep::RestoreBackup { backup: mod_path_to_backup_path(path), game },
        ),
    }
}

} // verus!
