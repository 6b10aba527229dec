use modman::paths::{
    empty_parent_candidates, get_journal_path, mod_path_to_backup_path, mod_path_to_game_path,
    mod_path_to_temp_path, prune_step, DirRemoval, FsPath, PruneStep,
};

fn path(s: &str) -> FsPath {
    FsPath { parts: s.split('/').map(|p| p.as_bytes().to_vec()).collect() }
}

fn text(p: &FsPath) -> String {
    p.parts
        .iter()
        .map(|b| String::from_utf8(b.clone()).unwrap())
        .collect::<Vec<_>>()
        .join("/")
}

#[test]
fn game_path_appends_to_root() {
    let g = mod_path_to_game_path(&path("data/a.bin"), &path("game"));
    assert_eq!(text(&g), "game/data/a.bin");
}

#[test]
fn backup_path_is_under_originals() {
    let b = mod_path_to_backup_path(&path("data/a.bin"));
    assert_eq!(text(&b), "modman-backup/originals/data/a.bin");
}

#[test]
fn temp_path_uses_basename_with_part_suffix() {
    let t = mod_path_to_temp_path(&path("data/sub/a.bin"));
    assert_eq!(text(&t), "modman-backup/temp/a.bin.part");
}

#[test]
fn journal_lives_in_storage_root() {
    assert_eq!(text(&get_journal_path()), "modman-backup/activate.journal");
}

#[test]
fn prune_candidates_stop_below_root() {
    let c = empty_parent_candidates(&path("game/a/b/c.bin"), &path("game"));
    let names: Vec<String> = c.iter().map(text).collect();
    assert_eq!(names, vec!["game/a/b".to_string(), "game/a".to_string()]);
}

#[test]
fn prune_candidates_empty_for_file_directly_under_root() {
    let c = empty_parent_candidates(&path("game/c.bin"), &path("game"));
    assert!(c.is_empty());
}

#[test]
fn prune_step_outcomes() {
    assert_eq!(prune_step(DirRemoval::Removed, false), PruneStep::Continue);
    assert_eq!(prune_step(DirRemoval::NotFound, false), PruneStep::Stop);
    assert_eq!(prune_step(DirRemoval::NotEmpty, false), PruneStep::Stop);
    assert_eq!(prune_step(DirRemoval::PermissionDenied, false), PruneStep::Fail);
    assert_eq!(prune_step(DirRemoval::PermissionDenied, true), PruneStep::Stop);
    assert_eq!(prune_step(DirRemoval::OtherFailure, true), PruneStep::Fail);
}

#[test]
fn same_as_compares_components() {
    assert!(path("a/b").same_as(&path("a/b")));
    assert!(!path("a/b").same_as(&path("a/c")));
    assert!(!path("a/b").same_as(&path("a")));
}
