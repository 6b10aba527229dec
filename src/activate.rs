//! Installing a mod package: the checks made before any file is touched,
//! and the per-file protocol (journal, back up, install) whose outcome the
//! package's manifest records.

use vstd::prelude::*;
use crate::error::ManagerError;
use crate::hashing::FileHash;
use crate::journal::{all_utf8, journal_line, journal_line_spec, JournalAction};
use crate::paths::{
    backup_dir_spec, join, journal_path_spec, mod_path_to_backup_path, mod_path_to_game_path,
    mod_path_to_temp_path, prefix, temp_path_spec, FsPath,
};
use crate::profile::{has_key, profile_has_file, ModFileMetadata, Profile};

verus! {

/// Refuses a package that is already installed.
pub fn check_not_activated(p: &Profile, package: &FsPath) -> (r: Result<(), ManagerError>)
    ensures
        r is Ok <==> !has_key(p@.mods, package@),
        r is Err ==> (r->Err_0 matches ManagerError::AlreadyActivated { package: q } && q@
            == package@),
{
    if p.contains_mod(package) {
        Err(ManagerError::AlreadyActivated { package: package.duplicate() })
    } else {
        Ok(())
    }
}

/// Checks the given profile for file paths from a mod we wish to apply,
/// and returns an error if it already contains them: no two packages may
/// claim one file. The error names the first such file, in the order
/// given, and the first installed package that claims it.
pub fn check_for_profile_conflicts(package: &FsPath, mod_file_paths: &Vec<FsPath>, p: &Profile)
    -> (r: Result<(), ManagerError>)
    ensures
        r is Ok <==> forall|i: int|
            0 <= i < mod_file_paths@.len() ==> !profile_has_file(
                p@,
                (#[trigger] mod_file_paths@[i])@,
            ),
        r is Err ==> (r->Err_0 matches ManagerError::PathConflict { file, package: q, active }
            && q@ == package@ && (exists|i: int|
            0 <= i < mod_file_paths@.len() && (#[trigger] mod_file_paths@[i])@ == file@ && (
            forall|j: int|
                0 <= j < i ==> !profile_has_file(p@, (#[trigger] mod_file_paths@[j])@))) && (
        exists|m: int|
            0 <= m < p@.mods.len() && (#[trigger] p@.mods[m]).0 == active@ && has_key(
                p@.mods[m].1.files,
                file@,
            ))),
{
    let mut i: usize = 0;
    while i < mod_file_paths.len()
        invariant
            i <= mod_file_paths@.len(),
            forall|j: int|
                0 <= j < i ==> !profile_has_file(p@, (#[trigger] mod_file_paths@[j])@),
        decreases mod_file_paths@.len() - i,
    {
        match p.owner_of(&mod_file_paths[i]) {
            Some(m) => {
                assert(p@.mods[m as int].0 == p.mods@[m as int].0@);
                return Err(
                    ManagerError::PathConflict {
                        file: mod_file_paths[i].duplicate(),
                        package: package.duplicate(),
                        active: p.mods[m].0.duplicate(),
                    },
                );
            },
            None => {},
        }
        i = i + 1;
    }
    Ok(())
}

/// Whether a new backup may take the place of one already there.
#[derive(Clone, Copy, Debug, PartialEq, Eq, Structural)]
pub enum BackupMode {
    /// The first backup of a file: one already there means an earlier run
    /// was interrupted, and must be repaired first.
    FirstBackup,
    /// A refreshed backup after a game update: the old one is replaced.
    ReplaceExisting,
}

/// Decides whether the in-flight copy may be renamed onto the backup path.
pub fn check_backup_slot(mode: BackupMode, backup: &FsPath, backup_exists: bool) -> (r: Result<
    (),
    ManagerError,
>)
    ensures
        r is Ok <==> (!backup_exists || mode == BackupMode::ReplaceExisting),
        r is Err ==> (r->Err_0 matches ManagerError::BackupExists { backup: b } && b@
            == backup@),
{
    if backup_exists && mode == BackupMode::FirstBackup {
        Err(ManagerError::BackupExists { backup: backup.duplicate() })
    } else {
        Ok(())
    }
}

/// Which protocol a file goes through.
#[derive(Clone, Copy, Debug, PartialEq, Eq, Structural)]
pub enum JobKind {
    /// A file of a package being installed: journal it, back up what it
    /// replaces, install it.
    Activation,
    /// A file of an installed package that a game update overwrote: back up
    /// the new game file over the old backup, install the mod file again.
    Refresh,
}

/// One file's installation.
#[derive(Clone, Debug)]
pub struct InstallJob {
    pub kind: JobKind,
    /// The file's path inside the package.
    pub rel: FsPath,
    /// The game directory.
    pub root: FsPath,
    /// Hash, but write nothing.
    pub dry_run: bool,
}

impl InstallJob {
    pub open spec fn well_formed(&self) -> bool {
        &&& self.rel@.len() > 0
        &&& self.kind == JobKind::Refresh ==> !self.dry_run
    }

    pub open spec fn mode(&self) -> BackupMode {
        match self.kind {
            JobKind::Activation => BackupMode::FirstBackup,
            JobKind::Refresh => BackupMode::ReplaceExisting,
        }
    }

    pub open spec fn game_path(&self) -> Seq<Seq<u8>> {
        self.root@ + self.rel@
    }

    pub open spec fn game_dir(&self) -> Seq<Seq<u8>> {
        self.root@ + self.rel@.drop_last()
    }

    pub open spec fn backup_path(&self) -> Seq<Seq<u8>> {
        backup_dir_spec() + self.rel@
    }

    pub open spec fn backup_parent(&self) -> Seq<Seq<u8>> {
        backup_dir_spec() + self.rel@.drop_last()
    }

    pub open spec fn temp_path(&self) -> Seq<Seq<u8>> {
        temp_path_spec(self.rel@)
    }
}

/// Where one file's installation stands: what it is waiting to hear.
#[derive(Clone, Copy, Debug)]
pub enum InstallStage {
    /// Waiting on the attempt to open the game file.
    Probing,
    /// Waiting on the journal entry; `existed` tells whether a game file
    /// was there.
    Journaling { existed: bool },
    /// Waiting on the copy of the game file to the temp path.
    CopyingToTemp,
    /// Dry run: waiting on the game file's hash.
    HashingOriginal,
    /// Waiting on the backup's parent directory.
    MakingBackupDir { original: FileHash },
    /// Waiting to hear whether a backup is already there.
    CheckingBackup { original: FileHash },
    /// Waiting on the rename of the copy onto the backup path.
    PlacingBackup { original: FileHash },
    /// Waiting on the game file's parent directory.
    MakingGameDir { original: Option<FileHash> },
    /// Waiting on the mod file's copy into the game directory (or, in a dry
    /// run, its hash).
    Installing { original: Option<FileHash> },
    /// The file is installed.
    Finished,
    /// The file's installation stopped.
    Failed,
}

/// What came of the last action.
#[derive(Clone, Copy, Debug)]
pub enum InstallEvent {
    /// The game file could be opened.
    Found,
    /// There is no game file.
    Missing,
    /// The action succeeded.
    Done,
    /// The copy or hash finished with this digest.
    Hashed(FileHash),
    /// Whether the backup path is taken.
    Exists(bool),
    /// The action failed.
    Failed,
}

/// The next thing to do for one file.
#[derive(Clone, Debug)]
pub enum InstallAction {
    /// Try to open the game file for reading.
    OpenGameFile { path: FsPath },
    /// Append this line to the journal and sync it.
    AppendJournal { line: String },
    /// Show what the journal would record (dry run).
    EchoJournal { action: JournalAction, rel: FsPath },
    /// Copy the game file to the temp path, truncating what is there,
    /// hashing it, and sync the copy.
    CopyToTemp { from: FsPath, to: FsPath },
    /// Hash the file (dry run).
    HashFile { path: FsPath },
    /// Create the directory and its missing parents.
    CreateDirAll { path: FsPath },
    /// Find out whether something is at the path.
    CheckExists { path: FsPath },
    /// Rename `from` onto `to`.
    Rename { from: FsPath, to: FsPath },
    /// Copy the package's file into the game directory, hashing it.
    WriteModFile { rel: FsPath, to: FsPath },
    /// Hash the package's file (dry run).
    HashModFile { rel: FsPath },
    /// Record this metadata for the file.
    Finish { meta: ModFileMetadata },
    /// Stop with this error.
    Abort { error: ManagerError },
}

pub open spec fn is_terminal(s: InstallStage) -> bool {
    s is Finished || s is Failed
}

/// The path an action of the stage works on, for reporting its failure.
pub open spec fn stage_path(job: InstallJob, s: InstallStage) -> Seq<Seq<u8>> {
    match s {
        InstallStage::Journaling { .. } => journal_path_spec(),
        InstallStage::CopyingToTemp => job.temp_path(),
        InstallStage::MakingBackupDir { .. } => job.backup_parent(),
        InstallStage::CheckingBackup { .. } => job.backup_path(),
        InstallStage::PlacingBackup { .. } => job.backup_path(),
        InstallStage::MakingGameDir { .. } => job.game_dir(),
        _ => job.game_path(),
    }
}

/// The stop that follows a failed action: an I/O error on the stage's path.
pub open spec fn io_abort(job: InstallJob, s: InstallStage, n: InstallStage, a: InstallAction) -> bool {
    &&& n is Failed
    &&& a matches InstallAction::Abort { error: ManagerError::Io { path } }
    &&& path@ == stage_path(job, s)
}

/// The step from the mod file's write onward, once any backup is in place.
pub open spec fn install_next(
    job: InstallJob,
    original: Option<FileHash>,
    n: InstallStage,
    a: InstallAction,
) -> bool {
    if job.dry_run {
        &&& n == InstallStage::Installing { original }
        &&& a matches InstallAction::HashModFile { rel } && rel@ == job.rel@
    } else {
        &&& n == InstallStage::MakingGameDir { original }
        &&& a matches InstallAction::CreateDirAll { path } && path@ == job.game_dir()
    }
}

/// The journal step for a file that `existed` or not.
pub open spec fn journal_next(job: InstallJob, existed: bool, n: InstallStage, a: InstallAction) -> bool {
    let action = if existed {
        JournalAction::Replaced
    } else {
        JournalAction::Added
    };
    if job.dry_run {
        &&& n == InstallStage::Journaling { existed }
        &&& a matches InstallAction::EchoJournal { action: x, rel } && x == action && rel@
            == job.rel@
    } else if all_utf8(job.rel@) {
        &&& n == InstallStage::Journaling { existed }
        &&& a matches InstallAction::AppendJournal { line } && line@ == journal_line_spec(
            action,
            job.rel@,
        )
    } else {
        &&& n is Failed
        &&& a matches InstallAction::Abort { error: ManagerError::Encoding { file } } && file@
            == job.rel@
    }
}

/// One step of a file's installation: from stage `s` and the outcome `e` of
/// the last action, the next stage `n` and the action `a` to take.
pub open spec fn install_transition(
    job: InstallJob,
    s: InstallStage,
    e: InstallEvent,
    n: InstallStage,
    a: InstallAction,
) -> bool {
    match (s, e) {
        (InstallStage::Probing, InstallEvent::Found) => journal_next(job, true, n, a),
        (InstallStage::Probing, InstallEvent::Missing) => journal_next(job, false, n, a),
        (InstallStage::Journaling { existed }, InstallEvent::Done) => if !existed {
            install_next(job, None, n, a)
        } else if job.dry_run {
            &&& n is HashingOriginal
            &&& a matches InstallAction::HashFile { path } && path@ == job.game_path()
        } else {
            &&& n is CopyingToTemp
            &&& a matches InstallAction::CopyToTemp { from, to } && from@ == job.game_path()
                && to@ == job.temp_path()
        },
        (InstallStage::HashingOriginal, InstallEvent::Hashed(h)) => install_next(
            job,
            Some(h),
            n,
            a,
        ),
        (InstallStage::CopyingToTemp, InstallEvent::Hashed(h)) => {
            &&& n == InstallStage::MakingBackupDir { original: h }
            &&& a matches InstallAction::CreateDirAll { path } && path@ == job.backup_parent()
        },
        (InstallStage::MakingBackupDir { original }, InstallEvent::Done) => {
            &&& n == InstallStage::CheckingBackup { original }
            &&& a matches InstallAction::CheckExists { path } && path@ == job.backup_path()
        },
        (InstallStage::CheckingBackup { original }, InstallEvent::Exists(taken)) => if taken
            && job.mode() == BackupMode::FirstBackup {
            &&& n is Failed
            &&& a matches InstallAction::Abort { error: ManagerError::BackupExists { backup } }
                && backup@ == job.backup_path()
        } else {
            &&& n == InstallStage::PlacingBackup { original }
            &&& a matches InstallAction::Rename { from, to } && from@ == job.temp_path() && to@
                == job.backup_path()
        },
        (InstallStage::PlacingBackup { original }, InstallEvent::Done) => install_next(
            job,
            Some(original),
            n,
            a,
        ),
        (InstallStage::MakingGameDir { original }, InstallEvent::Done) => {
            &&& n == InstallStage::Installing { original }
            &&& a matches InstallAction::WriteModFile { rel, to } && rel@ == job.rel@ && to@
                == job.game_path()
        },
        (InstallStage::Installing { original }, InstallEvent::Hashed(h)) => {
            &&& n is Finished
            &&& a == InstallAction::Finish {
                meta: ModFileMetadata { mod_hash: h, original_hash: original },
            }
        },
        _ => io_abort(job, s, n, a),
    }
}

impl InstallJob {
    /// A file of a package being installed.
    pub fn activation(rel: FsPath, root: FsPath, dry_run: bool) -> (r: InstallJob)
        ensures
            r.kind == JobKind::Activation,
            r.rel@ == rel@,
            r.root@ == root@,
            r.dry_run == dry_run,
    {
        InstallJob { kind: JobKind::Activation, rel, root, dry_run }
    }

    /// A file of an installed package whose game file a game update
    /// overwrote.
    pub fn refresh(rel: FsPath, root: FsPath) -> (r: InstallJob)
        ensures
            r.kind == JobKind::Refresh,
            r.rel@ == rel@,
            r.root@ == root@,
            !r.dry_run,
    {
        InstallJob { kind: JobKind::Refresh, rel, root, dry_run: false }
    }

    /// The first stage and action: an activation first looks for the game
    /// file; a refresh, whose game file is known to be there, starts by
    /// copying it aside.
    pub fn start(&self) -> (r: (InstallStage, InstallAction))
        requires
            self.well_formed(),
        ensures
            self.kind == JobKind::Activation ==> (r.0 is Probing && (r.1 matches InstallAction::OpenGameFile { path } && path@ == self.game_path())),
            self.kind == JobKind::Refresh ==> (r.0 is CopyingToTemp && (r.1 matches InstallAction::CopyToTemp { from, to } && from@ == self.game_path() && to@ == self.temp_path())),
    {
        let game = mod_path_to_game_path(&self.rel, &self.root);
        match self.kind {
            JobKind::Activation => (InstallStage::Probing, InstallAction::OpenGameFile { path: game }),
            JobKind::Refresh => (
                InstallStage::CopyingToTemp,
                InstallAction::CopyToTemp { from: game, to: mod_path_to_temp_path(&self.rel) },
            ),
        }
    }

    fn game_dir_path(&self) -> (r: FsPath)
        requires
            self.well_formed(),
        ensures
            r@ == self.game_dir(),
    {
        let dir = prefix(&self.rel, self.rel.len() - 1);
        assert(dir@ == self.rel@.drop_last());
        join(&self.root, &dir)
    }

    fn backup_parent_path(&self) -> (r: FsPath)
        requires
            self.well_formed(),
        ensures
            r@ == self.backup_parent(),
    {
        let dir = prefix(&self.rel, self.rel.len() - 1);
        assert(dir@ == self.rel@.drop_last());
        mod_path_to_backup_path(&dir)
    }

    fn io_failure(&self, s: InstallStage) -> (r: (InstallStage, InstallAction))
        requires
            self.well_formed(),
        ensures
            io_abort(*self, s, r.0, r.1),
    {
        let path = match s {
            InstallStage::Journaling { .. } => crate::paths::get_journal_path(),
            InstallStage::CopyingToTemp => mod_path_to_temp_path(&self.rel),
            InstallStage::MakingBackupDir { .. } => self.backup_parent_path(),
            InstallStage::CheckingBackup { .. } => mod_path_to_backup_path(&self.rel),
            InstallStage::PlacingBackup { .. } => mod_path_to_backup_path(&self.rel),
            InstallStage::MakingGameDir { .. } => self.game_dir_path(),
            _ => mod_path_to_game_path(&self.rel, &self.root),
        };
        (InstallStage::Failed, InstallAction::Abort { error: ManagerError::Io { path } })
    }

    fn after_backup(&self, original: Option<FileHash>) -> (r: (InstallStage, InstallAction))
        requires
            self.well_formed(),
        ensures
            install_next(*self, original, r.0, r.1),
    {
        if self.dry_run {
            (InstallStage::Installing { original }, InstallAction::HashModFile { rel: self.rel.duplicate() })
        } else {
            (InstallStage::MakingGameDir { original }, InstallAction::CreateDirAll { path: self.game_dir_path() })
        }
    }

    fn journal(&self, existed: bool) -> (r: (InstallStage, InstallAction))
        requires
            self.well_formed(),
        ensures
            journal_next(*self, existed, r.0, r.1),
    {
        let action = if existed {
            JournalAction::Replaced
        } else {
            JournalAction::Added
        };
        if self.dry_run {
            (InstallStage::Journaling { existed }, InstallAction::EchoJournal { action, rel: self.rel.duplicate() })
        } else {
            match journal_line(action, &self.rel) {
                Ok(line) => (InstallStage::Journaling { existed }, InstallAction::AppendJournal { line }),
                Err(error) => (InstallStage::Failed, InstallAction::Abort { error }),
            }
        }
    }

    /// Takes one step of the file's installation: given where it stands and
    /// what came of the last action, the next stage and the action to take.
    pub fn advance(&self, s: InstallStage, e: InstallEvent) -> (r: (InstallStage, InstallAction))
        requires
            self.well_formed(),
        ensures
            install_transition(*self, s, e, r.0, r.1),
    {
        match (s, e) {
            (InstallStage::Probing, InstallEvent::Found) => self.journal(true),
            (InstallStage::Probing, InstallEvent::Missing) => self.journal(false),
            (InstallStage::Journaling { existed }, InstallEvent::Done) => {
                if !existed {
                    self.after_backup(None)
                } else if self.dry_run {
                    (InstallStage::HashingOriginal, InstallAction::HashFile { path: mod_path_to_game_path(&self.rel, &self.root) })
                } else {
                    (
                        InstallStage::CopyingToTemp,
                        InstallAction::CopyToTemp {
                            from: mod_path_to_game_path(&self.rel, &self.root),
                            to: mod_path_to_temp_path(&self.rel),
                        },
                    )
                }
            },
            (InstallStage::HashingOriginal, InstallEvent::Hashed(h)) => self.after_backup(Some(h)),
            (InstallStage::CopyingToTemp, InstallEvent::Hashed(h)) => (
                InstallStage::MakingBackupDir { original: h },
                InstallAction::CreateDirAll { path: self.backup_parent_path() },
            ),
            (InstallStage::MakingBackupDir { original }, InstallEvent::Done) => (
                InstallStage::CheckingBackup { original },
                InstallAction::CheckExists { path: mod_path_to_backup_path(&self.rel) },
            ),
            (InstallStage::CheckingBackup { original }, InstallEvent::Exists(taken)) => {
                let mode = match self.kind {
                    JobKind::Activation => BackupMode::FirstBackup,
                    JobKind::Refresh => BackupMode::ReplaceExisting,
                };
                let backup = mod_path_to_backup_path(&self.rel);
                match check_backup_slot(mode, &backup, taken) {
                    Ok(()) => (
                        InstallStage::PlacingBackup { original },
                        InstallAction::Rename { from: mod_path_to_temp_path(&self.rel), to: backup },
                    ),
                    Err(error) => (InstallStage::Failed, InstallAction::Abort { error }),
                }
            },
            (InstallStage::PlacingBackup { original }, InstallEvent::Done) => self.after_backup(Some(original)),
            (InstallStage::MakingGameDir { original }, InstallEvent::Done) => (
                InstallStage::Installing { original },
                InstallAction::WriteModFile {
                    rel: self.rel.duplicate(),
                    to: mod_path_to_game_path(&self.rel, &self.root),
                },
            ),
            (InstallStage::Installing { original }, InstallEvent::Hashed(h)) => (
                InstallStage::Finished,
                InstallAction::Finish { meta: ModFileMetadata { mod_hash: h, original_hash: original } },
            ),
            _ => self.io_failure(s),
        }
    }
}

/// A file whose path has a component that is not UTF-8 cannot be
/// journaled, so its activation stops right after the game file was looked
/// for, before anything is written: the only action taken before was
/// opening the game file for reading.
pub proof fn lemma_non_utf8_path_aborts(
    job: InstallJob,
    e: InstallEvent,
    n: InstallStage,
    a: InstallAction,
)
    requires
        job.kind == JobKind::Activation,
        !job.dry_run,
        !all_utf8(job.rel@),
        install_transition(job, InstallStage::Probing, e, n, a),
    ensures
        n is Failed,
        a is Abort,
{
}

/// The stages reached only once the file's journal entry was written.
pub open spec fn past_journal(s: InstallStage) -> bool {
    !(s is Probing) && !(s is Journaling) && !(s is Failed)
}

/// During an activation, the journal entry for a file comes before any
/// write to the game directory: the mod file is written only from a stage
/// past the journal, and the only way past it is a journal write that
/// succeeded.
pub proof fn lemma_journal_before_game_write(
    job: InstallJob,
    s: InstallStage,
    e: InstallEvent,
    n: InstallStage,
    a: InstallAction,
)
    requires
        job.kind == JobKind::Activation,
        install_transition(job, s, e, n, a),
    ensures
        a is WriteModFile ==> past_journal(s),
        past_journal(n) ==> past_journal(s) || (s is Journaling && e is Done),
{
}

} // verus!
