use modman::activate::{
    check_backup_slot, check_for_profile_conflicts, check_not_activated, BackupMode, InstallAction,
    InstallEvent, InstallJob, InstallStage,
};
use modman::error::ManagerError;
use modman::hashing::hash_bytes;
use modman::journal::JournalAction;
use modman::paths::FsPath;
use modman::profile::{ModFileMetadata, ModManifest, ModVersion, Profile};

fn path(s: &str) -> FsPath {
    FsPath { parts: s.split('/').map(|p| p.as_bytes().to_vec()).collect() }
}

fn text(p: &FsPath) -> String {
    p.parts
        .iter()
        .map(|b| String::from_utf8(b.clone()).unwrap())
        .collect::<Vec<_>>()
        .join("/")
}

fn version() -> ModVersion {
    ModVersion { major: 1, minor: 0, patch: 0, pre: String::new(), build: String::new() }
}

fn profile_with_m1() -> Profile {
    let mut p = Profile::new(path("/game"));
    let mut m = ModManifest::new(version());
    m.record_file(
        path("data/a.bin"),
        ModFileMetadata { mod_hash: hash_bytes(b"A*"), original_hash: Some(hash_bytes(b"AAA")) },
    );
    p.add_manifest(path("M1"), m);
    p
}

/// Runs the job through the given outcomes, returning every action taken.
fn run(job: &InstallJob, events: &[InstallEvent]) -> (InstallStage, Vec<InstallAction>) {
    let (mut stage, first) = job.start();
    let mut actions = vec![first];
    for e in events {
        let (next, a) = job.advance(stage, *e);
        stage = next;
        actions.push(a);
    }
    (stage, actions)
}

#[test]
fn backup_slot_first_backup_refuses_existing() {
    let b = path("modman-backup/originals/data/a.bin");
    match check_backup_slot(BackupMode::FirstBackup, &b, true) {
        Err(ManagerError::BackupExists { backup }) => assert!(backup.same_as(&b)),
        other => panic!("unexpected {:?}", other),
    }
    assert!(check_backup_slot(BackupMode::FirstBackup, &b, false).is_ok());
}

#[test]
fn backup_slot_replace_existing_accepts_existing() {
    let b = path("modman-backup/originals/data/a.bin");
    assert!(check_backup_slot(BackupMode::ReplaceExisting, &b, true).is_ok());
    assert!(check_backup_slot(BackupMode::ReplaceExisting, &b, false).is_ok());
}

#[test]
fn already_activated_is_refused() {
    let p = profile_with_m1();
    assert!(matches!(
        check_not_activated(&p, &path("M1")),
        Err(ManagerError::AlreadyActivated { .. })
    ));
    assert!(check_not_activated(&p, &path("M2")).is_ok());
}

#[test]
fn conflict_names_file_and_both_packages() {
    let p = profile_with_m1();
    let files = vec![path("other.bin"), path("data/a.bin")];
    match check_for_profile_conflicts(&path("M2"), &files, &p) {
        Err(ManagerError::PathConflict { file, package, active }) => {
            assert_eq!(text(&file), "data/a.bin");
            assert_eq!(text(&package), "M2");
            assert_eq!(text(&active), "M1");
        }
        other => panic!("unexpected {:?}", other),
    }
}

#[test]
fn no_conflict_for_disjoint_files() {
    let p = profile_with_m1();
    assert!(check_for_profile_conflicts(&path("M2"), &vec![path("data/b.bin")], &p).is_ok());
    assert!(check_for_profile_conflicts(&path("M2"), &vec![], &p).is_ok());
}

#[test]
fn install_replaced_file_backs_up_then_installs() {
    let job = InstallJob::activation(path("data/a.bin"), path("/game"), false);
    let original = hash_bytes(b"AAA");
    let installed = hash_bytes(b"A*");
    let (stage, actions) = run(
        &job,
        &[
            InstallEvent::Found,
            InstallEvent::Done,
            InstallEvent::Hashed(original),
            InstallEvent::Done,
            InstallEvent::Exists(false),
            InstallEvent::Done,
            InstallEvent::Done,
            InstallEvent::Hashed(installed),
        ],
    );
    assert!(matches!(stage, InstallStage::Finished));
    assert!(matches!(&actions[0], InstallAction::OpenGameFile { path } if text(path) == "/game/data/a.bin"));
    assert!(matches!(&actions[1], InstallAction::AppendJournal { line } if line == "Replace data/a.bin\n"));
    assert!(matches!(&actions[2], InstallAction::CopyToTemp { from, to }
        if text(from) == "/game/data/a.bin" && text(to) == "modman-backup/temp/a.bin.part"));
    assert!(matches!(&actions[3], InstallAction::CreateDirAll { path } if text(path) == "modman-backup/originals/data"));
    assert!(matches!(&actions[4], InstallAction::CheckExists { path } if text(path) == "modman-backup/originals/data/a.bin"));
    assert!(matches!(&actions[5], InstallAction::Rename { from, to }
        if text(from) == "modman-backup/temp/a.bin.part" && text(to) == "modman-backup/originals/data/a.bin"));
    assert!(matches!(&actions[6], InstallAction::CreateDirAll { path } if text(path) == "/game/data"));
    assert!(matches!(&actions[7], InstallAction::WriteModFile { rel, to }
        if text(rel) == "data/a.bin" && text(to) == "/game/data/a.bin"));
    match &actions[8] {
        InstallAction::Finish { meta } => {
            assert_eq!(meta.mod_hash, installed);
            assert_eq!(meta.original_hash, Some(original));
        }
        other => panic!("unexpected {:?}", other),
    }
}

#[test]
fn install_new_file_needs_no_backup() {
    let job = InstallJob::activation(path("new.bin"), path("/game"), false);
    let installed = hash_bytes(b"N");
    let (_, actions) = run(
        &job,
        &[InstallEvent::Missing, InstallEvent::Done, InstallEvent::Done, InstallEvent::Hashed(installed)],
    );
    assert!(matches!(&actions[1], InstallAction::AppendJournal { line } if line == "Add new.bin\n"));
    assert!(matches!(&actions[2], InstallAction::CreateDirAll { path } if text(path) == "/game"));
    match &actions[4] {
        InstallAction::Finish { meta } => {
            assert_eq!(meta.mod_hash, installed);
            assert_eq!(meta.original_hash, None);
        }
        other => panic!("unexpected {:?}", other),
    }
}

#[test]
fn install_refuses_existing_backup() {
    let job = InstallJob::activation(path("data/a.bin"), path("/game"), false);
    let (stage, actions) = run(
        &job,
        &[
            InstallEvent::Found,
            InstallEvent::Done,
            InstallEvent::Hashed(hash_bytes(b"AAA")),
            InstallEvent::Done,
            InstallEvent::Exists(true),
        ],
    );
    assert!(matches!(stage, InstallStage::Failed));
    assert!(matches!(actions.last().unwrap(), InstallAction::Abort { error: ManagerError::BackupExists { .. } }));
}

#[test]
fn refresh_replaces_existing_backup() {
    let job = InstallJob::refresh(path("data/a.bin"), path("/game"));
    let patched = hash_bytes(b"BBB");
    let (stage, actions) = run(
        &job,
        &[
            InstallEvent::Hashed(patched),
            InstallEvent::Done,
            InstallEvent::Exists(true),
            InstallEvent::Done,
            InstallEvent::Done,
            InstallEvent::Hashed(hash_bytes(b"A*")),
        ],
    );
    assert!(matches!(stage, InstallStage::Finished));
    assert!(matches!(&actions[0], InstallAction::CopyToTemp { .. }));
    assert!(matches!(&actions[3], InstallAction::Rename { .. }));
    match actions.last().unwrap() {
        InstallAction::Finish { meta } => assert_eq!(meta.original_hash, Some(patched)),
        other => panic!("unexpected {:?}", other),
    }
}

#[test]
fn non_utf8_path_aborts_before_writing() {
    let rel = FsPath { parts: vec![b"data".to_vec(), vec![0x80, 0x61]] };
    let job = InstallJob::activation(rel, path("/game"), false);
    for probe in [InstallEvent::Found, InstallEvent::Missing] {
        let (stage, actions) = run(&job, &[probe]);
        assert!(matches!(stage, InstallStage::Failed));
        assert!(matches!(&actions[0], InstallAction::OpenGameFile { .. }));
        assert!(matches!(&actions[1], InstallAction::Abort { error: ManagerError::Encoding { .. } }));
    }
}

#[test]
fn dry_run_only_hashes() {
    let job = InstallJob::activation(path("data/a.bin"), path("/game"), true);
    let original = hash_bytes(b"AAA");
    let (stage, actions) = run(
        &job,
        &[InstallEvent::Found, InstallEvent::Done, InstallEvent::Hashed(original), InstallEvent::Hashed(hash_bytes(b"A*"))],
    );
    assert!(matches!(stage, InstallStage::Finished));
    assert!(matches!(&actions[1], InstallAction::EchoJournal { action: JournalAction::Replaced, .. }));
    assert!(matches!(&actions[2], InstallAction::HashFile { .. }));
    assert!(matches!(&actions[3], InstallAction::HashModFile { .. }));
}

#[test]
fn failed_action_aborts_with_its_path() {
    let job = InstallJob::activation(path("data/a.bin"), path("/game"), false);
    let (stage, actions) = run(&job, &[InstallEvent::Found, InstallEvent::Failed]);
    assert!(matches!(stage, InstallStage::Failed));
    assert!(matches!(actions.last().unwrap(), InstallAction::Abort { error: ManagerError::Io { path } }
        if text(path) == "modman-backup/activate.journal"));
}
