use modman::error::ManagerError;
use modman::journal::{journal_line, read_journal, read_journal_line, rel_path_text, JournalAction};
use modman::paths::FsPath;

fn path(s: &str) -> FsPath {
    FsPath { parts: s.split('/').map(|p| p.as_bytes().to_vec()).collect() }
}

fn text(p: &FsPath) -> String {
    p.parts
        .iter()
        .map(|b| String::from_utf8(b.clone()).unwrap())
        .collect::<Vec<_>>()
        .join("/")
}

#[test]
fn journal_line_for_added_file() {
    let line = journal_line(JournalAction::Added, &path("new.bin")).unwrap();
    assert_eq!(line, "Add new.bin\n");
}

#[test]
fn journal_line_for_replaced_file() {
    let line = journal_line(JournalAction::Replaced, &path("data/a.bin")).unwrap();
    assert_eq!(line, "Replace data/a.bin\n");
}

#[test]
fn journal_line_refuses_non_utf8_path() {
    let p = FsPath { parts: vec![b"data".to_vec(), vec![0xff, 0xfe]] };
    match journal_line(JournalAction::Added, &p) {
        Err(ManagerError::Encoding { file }) => assert!(file.same_as(&p)),
        other => panic!("unexpected {:?}", other),
    }
}

#[test]
fn rel_path_text_decodes_utf8_components() {
    let p = FsPath { parts: vec!["dé".as_bytes().to_vec(), b"x".to_vec()] };
    assert_eq!(rel_path_text(&p).unwrap(), "dé/x");
    let bad = FsPath { parts: vec![vec![0xc3]] };
    assert!(rel_path_text(&bad).is_none());
}

#[test]
fn read_line_add_and_replace() {
    let (p, a) = read_journal_line("Add new.bin").unwrap();
    assert_eq!(text(&p), "new.bin");
    assert_eq!(a, JournalAction::Added);
    let (p, a) = read_journal_line("  Replace\tdata/a.bin  ").unwrap();
    assert_eq!(text(&p), "data/a.bin");
    assert_eq!(a, JournalAction::Replaced);
}

#[test]
fn read_line_refuses_wrong_field_count() {
    assert!(matches!(read_journal_line(""), Err(ManagerError::JournalSyntax { .. })));
    assert!(matches!(read_journal_line("Add"), Err(ManagerError::JournalSyntax { .. })));
    assert!(matches!(read_journal_line("Add a b"), Err(ManagerError::JournalSyntax { .. })));
}

#[test]
fn read_line_refuses_unknown_word() {
    match read_journal_line("Delete a.bin") {
        Err(ManagerError::JournalSyntax { line }) => assert_eq!(line, "Delete a.bin"),
        other => panic!("unexpected {:?}", other),
    }
}

#[test]
fn read_line_refuses_abnormal_components() {
    assert!(read_journal_line("Add ../x").is_err());
    assert!(read_journal_line("Add ./x").is_err());
    assert!(read_journal_line("Add /etc/x").is_err());
    assert!(read_journal_line("Add a//b").is_err());
}

#[test]
fn read_journal_of_empty_text_is_empty() {
    assert!(read_journal("").unwrap().is_empty());
}

#[test]
fn read_journal_two_entries() {
    let j = read_journal("Replace data/a.bin\nAdd new.bin\n").unwrap();
    assert_eq!(j.len(), 2);
    assert_eq!(text(&j[0].0), "data/a.bin");
    assert_eq!(j[0].1, JournalAction::Replaced);
    assert_eq!(text(&j[1].0), "new.bin");
    assert_eq!(j[1].1, JournalAction::Added);
}

#[test]
fn read_journal_later_entry_overrides() {
    let j = read_journal("Add a.bin\nReplace a.bin").unwrap();
    assert_eq!(j.len(), 1);
    assert_eq!(j[0].1, JournalAction::Replaced);
}

#[test]
fn read_journal_refuses_blank_line() {
    assert!(read_journal("Add a.bin\n\nAdd b.bin\n").is_err());
}

#[test]
fn journal_line_reads_back() {
    let p = path("data/sub/a.bin");
    let line = journal_line(JournalAction::Replaced, &p).unwrap();
    let j = read_journal(&line).unwrap();
    assert_eq!(j.len(), 1);
    assert!(j[0].0.same_as(&p));
    assert_eq!(j[0].1, JournalAction::Replaced);
}
