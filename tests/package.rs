use modman::package::{scan_package_layout, LayoutError, PackageLayout, TopEntry};

fn entry(name: &str, is_dir: bool) -> TopEntry {
    TopEntry { name: name.to_string(), is_dir }
}

#[test]
fn layout_found_in_any_order() {
    let entries = vec![
        entry("m1", true),
        entry(".git", true),
        entry("README.txt", false),
        entry("VERSION.txt", false),
    ];
    assert_eq!(
        scan_package_layout(&entries),
        Ok(PackageLayout { version: 3, readme: 2, base_dir: 0 })
    );
}

#[test]
fn layout_refuses_stray_file() {
    let entries = vec![
        entry("VERSION.txt", false),
        entry("README.txt", false),
        entry("notes.txt", false),
        entry("m1", true),
    ];
    assert_eq!(scan_package_layout(&entries), Err(LayoutError::UnexpectedEntry { index: 2 }));
}

#[test]
fn layout_refuses_second_base_directory() {
    let entries = vec![
        entry("VERSION.txt", false),
        entry("a", true),
        entry("README.txt", false),
        entry("b", true),
    ];
    assert_eq!(scan_package_layout(&entries), Err(LayoutError::UnexpectedEntry { index: 3 }));
}

#[test]
fn layout_refuses_duplicate_version() {
    let entries = vec![entry("VERSION.txt", false), entry("VERSION.txt", false)];
    assert_eq!(scan_package_layout(&entries), Err(LayoutError::Duplicate { index: 1 }));
}

#[test]
fn layout_reports_missing_parts() {
    assert_eq!(scan_package_layout(&vec![]), Err(LayoutError::MissingVersion));
    assert_eq!(
        scan_package_layout(&vec![entry("VERSION.txt", false), entry("m1", true)]),
        Err(LayoutError::MissingReadme)
    );
    assert_eq!(
        scan_package_layout(&vec![entry("VERSION.txt", false), entry("README.txt", false)]),
        Err(LayoutError::MissingBaseDir)
    );
}
