use modman::deactivate::{changed_files, check_game_files, plan_deactivation};
use modman::error::ManagerError;
use modman::hashing::hash_bytes;
use modman::paths::FsPath;
use modman::profile::{ModFileMetadata, ModManifest, ModVersion, Profile};

fn path(s: &str) -> FsPath {
    FsPath { parts: s.split('/').map(|p| p.as_bytes().to_vec()).collect() }
}

fn text(p: &FsPath) -> String {
    p.parts
        .iter()
        .map(|b| String::from_utf8(b.clone()).unwrap())
        .collect::<Vec<_>>()
        .join("/")
}

fn version() -> ModVersion {
    ModVersion { major: 1, minor: 0, patch: 0, pre: String::new(), build: String::new() }
}

fn m1() -> ModManifest {
    let mut m = ModManifest::new(version());
    m.record_file(
        path("data/a.bin"),
        ModFileMetadata { mod_hash: hash_bytes(b"A*"), original_hash: Some(hash_bytes(b"AAA")) },
    );
    m.record_file(path("new.bin"), ModFileMetadata { mod_hash: hash_bytes(b"N"), original_hash: None });
    m
}

#[test]
fn empty_package_round_trip() {
    let before = Profile::new(path("/game"));
    let mut p = Profile::new(path("/game"));
    p.add_manifest(path("M0"), ModManifest::new(version()));
    assert!(p.contains_mod(&path("M0")));
    let m = p.remove_manifest(&path("M0")).unwrap();
    assert!(m.files.is_empty());
    assert_eq!(p.mods.len(), before.mods.len());
    let plan = plan_deactivation(&m, &p.root_directory);
    assert!(plan.restores.is_empty());
    assert!(plan.removals.is_empty());
    assert!(plan.backup_removals.is_empty());
}

#[test]
fn all_new_files_are_removed_and_pruned_to_root() {
    let mut m = ModManifest::new(version());
    m.record_file(path("a/b/c.bin"), ModFileMetadata { mod_hash: hash_bytes(b"C"), original_hash: None });
    m.record_file(path("top.bin"), ModFileMetadata { mod_hash: hash_bytes(b"T"), original_hash: None });
    let plan = plan_deactivation(&m, &path("/game"));
    assert!(plan.restores.is_empty());
    assert!(plan.backup_removals.is_empty());
    assert_eq!(plan.removals.len(), 2);
    assert_eq!(text(&plan.removals[0].path), "/game/a/b/c.bin");
    let pruned: Vec<String> = plan.removals[0].prune.iter().map(text).collect();
    assert_eq!(pruned, vec!["/game/a/b".to_string(), "/game/a".to_string()]);
    assert_eq!(text(&plan.removals[1].path), "/game/top.bin");
    assert!(plan.removals[1].prune.is_empty());
}

#[test]
fn plan_restores_backups_and_removes_added_files() {
    let plan = plan_deactivation(&m1(), &path("/game"));
    assert_eq!(plan.restores.len(), 1);
    let r = &plan.restores[0];
    assert_eq!(text(&r.rel), "data/a.bin");
    assert_eq!(text(&r.backup), "modman-backup/originals/data/a.bin");
    assert_eq!(text(&r.game), "/game/data/a.bin");
    assert_eq!(r.expected, hash_bytes(b"AAA"));
    assert_eq!(plan.removals.len(), 1);
    assert_eq!(text(&plan.removals[0].path), "/game/new.bin");
    assert_eq!(plan.backup_removals.len(), 1);
    assert_eq!(text(&plan.backup_removals[0].path), "modman-backup/originals/data/a.bin");
    let pruned: Vec<String> = plan.backup_removals[0].prune.iter().map(text).collect();
    assert_eq!(pruned, vec!["modman-backup/originals/data".to_string()]);
}

#[test]
fn intact_game_files_pass() {
    let hashes = vec![hash_bytes(b"A*"), hash_bytes(b"N")];
    assert!(check_game_files(&path("M1"), &m1(), &hashes).is_ok());
    assert!(changed_files(&m1(), &hashes).is_empty());
}

#[test]
fn altered_game_file_blocks_uninstall() {
    let hashes = vec![hash_bytes(b"X"), hash_bytes(b"N")];
    match check_game_files(&path("M1"), &m1(), &hashes) {
        Err(ManagerError::GameFilesChanged { package }) => assert_eq!(text(&package), "M1"),
        other => panic!("unexpected {:?}", other),
    }
    let changed: Vec<String> = changed_files(&m1(), &hashes).iter().map(text).collect();
    assert_eq!(changed, vec!["data/a.bin".to_string()]);
}

#[test]
fn remove_manifest_of_absent_package_fails() {
    let mut p = Profile::new(path("/game"));
    p.add_manifest(path("M1"), m1());
    match p.remove_manifest(&path("M2")) {
        Err(ManagerError::NotActivated { package }) => assert_eq!(text(&package), "M2"),
        other => panic!("unexpected {:?}", other),
    }
    assert_eq!(p.mods.len(), 1);
}
