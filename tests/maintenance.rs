use modman::check::{backup_checks, collect_unknown_files, installed_checks};
use modman::error::ManagerError;
use modman::hashing::hash_bytes;
use modman::journal::JournalAction;
use modman::paths::FsPath;
use modman::profile::{Meta, ModFileMetadata, ModManifest, ModVersion, Profile};
use modman::repair::{try_to_undo, UndoStep};
use modman::update::{check_version, dry_run_metadata, needs_refresh};

fn path(s: &str) -> FsPath {
    FsPath { parts: s.split('/').map(|p| p.as_bytes().to_vec()).collect() }
}

fn text(p: &FsPath) -> String {
    p.parts
        .iter()
        .map(|b| String::from_utf8(b.clone()).unwrap())
        .collect::<Vec<_>>()
        .join("/")
}

fn version(minor: u64) -> ModVersion {
    ModVersion { major: 1, minor, patch: 0, pre: String::new(), build: String::new() }
}

fn profile_with_m1() -> Profile {
    let mut p = Profile::new(path("/game"));
    let mut m = ModManifest::new(version(0));
    m.record_file(
        path("data/a.bin"),
        ModFileMetadata { mod_hash: hash_bytes(b"A*"), original_hash: Some(hash_bytes(b"AAA")) },
    );
    m.record_file(path("new.bin"), ModFileMetadata { mod_hash: hash_bytes(b"N"), original_hash: None });
    p.add_manifest(path("M1"), m);
    p
}

#[test]
fn undo_added_file_removes_it() {
    let p = Profile::new(path("/game"));
    match try_to_undo(&path("new.bin"), JournalAction::Added, &p) {
        Ok(UndoStep::RemoveGameFile { game }) => assert_eq!(text(&game), "/game/new.bin"),
        other => panic!("unexpected {:?}", other),
    }
}

#[test]
fn undo_replaced_file_restores_backup() {
    let p = Profile::new(path("/game"));
    match try_to_undo(&path("data/a.bin"), JournalAction::Replaced, &p) {
        Ok(UndoStep::RestoreBackup { backup, game }) => {
            assert_eq!(text(&backup), "modman-backup/originals/data/a.bin");
            assert_eq!(text(&game), "/game/data/a.bin");
        }
        other => panic!("unexpected {:?}", other),
    }
}

#[test]
fn undo_refuses_entry_the_profile_records() {
    let p = profile_with_m1();
    match try_to_undo(&path("data/a.bin"), JournalAction::Replaced, &p) {
        Err(ManagerError::StaleJournalEntry { file }) => assert_eq!(text(&file), "data/a.bin"),
        other => panic!("unexpected {:?}", other),
    }
}

#[test]
fn version_mismatch_is_refused() {
    assert!(check_version(&path("M1"), &version(0), &version(0)).is_ok());
    match check_version(&path("M1"), &version(1), &version(0)) {
        Err(ManagerError::VersionMismatch { package, found, recorded }) => {
            assert_eq!(text(&package), "M1");
            assert_eq!(found.minor, 1);
            assert_eq!(recorded.minor, 0);
        }
        other => panic!("unexpected {:?}", other),
    }
    let mut pre = version(0);
    pre.pre = "beta".to_string();
    assert!(check_version(&path("M1"), &pre, &version(0)).is_err());
}

#[test]
fn refresh_needed_only_when_game_file_changed() {
    let meta = ModFileMetadata { mod_hash: hash_bytes(b"A*"), original_hash: Some(hash_bytes(b"AAA")) };
    assert!(!needs_refresh(&meta, &hash_bytes(b"A*")));
    assert!(needs_refresh(&meta, &hash_bytes(b"BBB")));
    let dry = dry_run_metadata(&meta, &hash_bytes(b"BBB"));
    assert_eq!(dry.mod_hash, hash_bytes(b"A*"));
    assert_eq!(dry.original_hash, Some(hash_bytes(b"BBB")));
}

#[test]
fn set_file_metadata_updates_one_file() {
    let mut p = profile_with_m1();
    let meta = ModFileMetadata { mod_hash: hash_bytes(b"A*"), original_hash: Some(hash_bytes(b"BBB")) };
    p.set_file_metadata(0, 0, meta);
    assert_eq!(p.mods[0].1.files[0].1.original_hash, Some(hash_bytes(b"BBB")));
    assert_eq!(text(&p.mods[0].1.files[0].0), "data/a.bin");
    assert_eq!(p.mods[0].1.files[1].1.mod_hash, hash_bytes(b"N"));
}

#[test]
fn unknown_backups_are_reported() {
    let p = profile_with_m1();
    let journal = vec![(path("pending.bin"), JournalAction::Replaced)];
    let found = vec![path("data/a.bin"), path("stray.bin"), path("pending.bin"), path("old/x.bin")];
    let unknown: Vec<String> = collect_unknown_files(found, &p, &journal).iter().map(text).collect();
    assert_eq!(unknown, vec!["stray.bin".to_string(), "old/x.bin".to_string()]);
}

#[test]
fn no_unknown_backups_when_all_are_known() {
    let p = profile_with_m1();
    assert!(collect_unknown_files(vec![path("data/a.bin")], &p, &vec![]).is_empty());
    assert!(collect_unknown_files(vec![], &p, &vec![]).is_empty());
}

#[test]
fn integrity_checks_list_backups_and_installed_files() {
    let p = profile_with_m1();
    let m = &p.mods[0].1;
    let backups = backup_checks(m);
    assert_eq!(backups.len(), 1);
    assert_eq!(text(&backups[0].path), "modman-backup/originals/data/a.bin");
    assert_eq!(backups[0].expected, hash_bytes(b"AAA"));
    let installed = installed_checks(m, &p.root_directory);
    assert_eq!(installed.len(), 2);
    assert_eq!(text(&installed[1].path), "/game/new.bin");
    assert_eq!(installed[1].expected, hash_bytes(b"N"));
}

#[test]
fn record_file_replaces_same_path() {
    let mut m = ModManifest::new(version(0));
    m.record_file(path("a"), ModFileMetadata { mod_hash: hash_bytes(b"1"), original_hash: None });
    m.record_file(path("a"), ModFileMetadata { mod_hash: hash_bytes(b"2"), original_hash: None });
    assert_eq!(m.files.len(), 1);
    assert_eq!(m.files[0].1.mod_hash, hash_bytes(b"2"));
    assert_eq!(m.find_file(&path("a")), Some(0));
    assert_eq!(m.find_file(&path("b")), None);
}

#[test]
fn default_meta_is_latest_format() {
    let m: Meta = Default::default();
    assert_eq!(m.version, 1);
}
