//! The layout a mod package must have at its top level: a `VERSION.txt`,
//! a `README.txt`, and one base directory holding the files to install.
//! A `.git` entry, left by packages built with Git, is ignored.

use vstd::prelude::*;

verus! {

/// One entry at a package's top level.
#[derive(Clone, Debug)]
pub struct TopEntry {
    pub name: String,
    pub is_dir: bool,
}

/// Why a package's top level is not a package.
#[derive(Clone, Copy, Debug, PartialEq, Eq, Structural)]
pub enum LayoutError {
    /// Something besides the two text files and one base directory: a
    /// plain file, or a second directory.
    UnexpectedEntry { index: usize },
    /// `VERSION.txt` or `README.txt` appears twice.
    Duplicate { index: usize },
    MissingVersion,
    MissingReadme,
    MissingBaseDir,
}

/// Where the parts of a package are among its top-level entries.
#[derive(Clone, Copy, Debug, PartialEq, Eq, Structural)]
pub struct PackageLayout {
    pub version: usize,
    pub readme: usize,
    pub base_dir: usize,
}

pub open spec fn git_name() -> Seq<char> {
    seq!['.', 'g', 'i', 't']
}

pub open spec fn version_name() -> Seq<char> {
    seq!['V', 'E', 'R', 'S', 'I', 'O', 'N', '.', 't', 'x', 't']
}

pub open spec fn readme_name() -> Seq<char> {
    seq!['R', 'E', 'A', 'D', 'M', 'E', '.', 't', 'x', 't']
}

/// An entry that is neither ignored nor one of the two text files.
pub open spec fn is_other(e: TopEntry) -> bool {
    e.name@ != git_name() && e.name@ != version_name() && e.name@ != readme_name()
}

/// The package's layout, if its top level is one.
pub open spec fn valid_layout(entries: Seq<TopEntry>, l: PackageLayout) -> bool {
    &&& l.version < entries.len() && entries[l.version as int].name@ == version_name()
    &&& l.readme < entries.len() && entries[l.readme as int].name@ == readme_name()
    &&& l.base_dir < entries.len() && is_other(entries[l.base_dir as int])
        && entries[l.base_dir as int].is_dir
    &&& forall|i: int|
        0 <= i < entries.len() && (#[trigger] entries[i]).name@ == version_name() ==> i
            == l.version
    &&& forall|i: int|
        0 <= i < entries.len() && (#[trigger] entries[i]).name@ == readme_name() ==> i == l.readme
    &&& forall|i: int| 0 <= i < entries.len() && is_other(#[trigger] entries[i]) ==> i == l.base_dir
}

/// A package's top level has a layout exactly when some layout is valid
/// for it.
pub open spec fn has_layout(entries: Seq<TopEntry>) -> bool {
    exists|l: PackageLayout| valid_layout(entries, l)
}

fn name_is(name: &String, word: &str) -> (r: bool)
    ensures
        r == (name@ == word@),
{
    let n = name.as_str().unicode_len();
    if n != word.unicode_len() {
        return false;
    }
    let mut i: usize = 0;
    while i < n
        invariant
            i <= n,
            n == name@.len(),
            n == word@.len(),
            forall|j: int| 0 <= j < i ==> name@[j] == word@[j],
        decreases n - i,
    {
        if name.as_str().get_char(i) != word.get_char(i) {
            return false;
        }
        i = i + 1;
    }
    assert(name@ =~= word@);
    true
}

/// Finds the version file, the readme and the base directory among a
/// package's top-level entries, or says why they do not form a package.
pub fn scan_package_layout(entries: &Vec<TopEntry>) -> (r: Result<PackageLayout, LayoutError>)
    ensures
        r is Ok <==> has_layout(entries@),
        r matches Ok(l) ==> valid_layout(entries@, l),
        r matches Err(LayoutError::UnexpectedEntry { index }) ==> index < entries@.len()
            && is_other(entries@[index as int]) && (!entries@[index as int].is_dir || (exists|j: int|
            0 <= j < index && is_other(#[trigger] entries@[j]))),
        r matches Err(LayoutError::Duplicate { index }) ==> index < entries@.len() && (exists|j: int|
            0 <= j < index && (#[trigger] entries@[j]).name@ == entries@[index as int].name@
                && (entries@[j].name@ == version_name() || entries@[j].name@ == readme_name())),
        r == Err::<PackageLayout, LayoutError>(LayoutError::MissingVersion) ==> forall|j: int|
            0 <= j < entries@.len() ==> (#[trigger] entries@[j]).name@ != version_name(),
        r == Err::<PackageLayout, LayoutError>(LayoutError::MissingReadme) ==> forall|j: int|
            0 <= j < entries@.len() ==> (#[trigger] entries@[j]).name@ != readme_name(),
        r == Err::<PackageLayout, LayoutError>(LayoutError::MissingBaseDir) ==> forall|j: int|
            0 <= j < entries@.len() ==> !is_other(#[trigger] entries@[j]),
{
    proof {
        reveal_strlit(".git");
        reveal_strlit("VERSION.txt");
        reveal_strlit("README.txt");
        assert(".git"@ =~= git_name());
        assert("VERSION.txt"@ =~= version_name());
        assert("README.txt"@ =~= readme_name());
    }
    let mut version: Option<usize> = None;
    let mut readme: Option<usize> = None;
    let mut base_dir: Option<usize> = None;
    let mut i: usize = 0;
    while i < entries.len()
        invariant
            i <= entries@.len(),
            ".git"@ == git_name(),
            "VERSION.txt"@ == version_name(),
            "README.txt"@ == readme_name(),
            version matches Some(v) ==> v < i && entries@[v as int].name@ == version_name(),
            version is None ==> forall|j: int|
                0 <= j < i ==> (#[trigger] entries@[j]).name@ != version_name(),
            version matches Some(v) ==> forall|j: int|
                0 <= j < i && (#[trigger] entries@[j]).name@ == version_name() ==> j == v,
            readme matches Some(v) ==> v < i && entries@[v as int].name@ == readme_name(),
            readme is None ==> forall|j: int|
                0 <= j < i ==> (#[trigger] entries@[j]).name@ != readme_name(),
            readme matches Some(v) ==> forall|j: int|
                0 <= j < i && (#[trigger] entries@[j]).name@ == readme_name() ==> j == v,
            base_dir matches Some(v) ==> v < i && is_other(entries@[v as int]) && entries@[v as int].is_dir,
            base_dir is None ==> forall|j: int| 0 <= j < i ==> !is_other(#[trigger] entries@[j]),
            base_dir matches Some(v) ==> forall|j: int|
                0 <= j < i && is_other(#[trigger] entries@[j]) ==> j == v,
        decreases entries@.len() - i,
    {
        let e = &entries[i];
        if name_is(&e.name, ".git") {
        } else if name_is(&e.name, "VERSION.txt") {
            if version.is_some() {
                proof { lemma_no_layout_with_two(entries@, version->0 as int, i as int); }
                return Err(LayoutError::Duplicate { index: i });
            }
            version = Some(i);
        } else if name_is(&e.name, "README.txt") {
            if readme.is_some() {
                proof { lemma_no_layout_with_two(entries@, readme->0 as int, i as int); }
                return Err(LayoutError::Duplicate { index: i });
            }
            readme = Some(i);
        } else {
            if !e.is_dir || base_dir.is_some() {
                proof {
                    if base_dir is Some {
                        lemma_no_layout_with_two(entries@, base_dir->0 as int, i as int);
                    } else {
                        lemma_no_layout_with_file(entries@, i as int);
                    }
                }
                return Err(LayoutError::UnexpectedEntry { index: i });
            }
            base_dir = Some(i);
        }
        i = i + 1;
    }
    match (version, readme, base_dir) {
        (Some(v), Some(m), Some(b)) => {
            let l = PackageLayout { version: v, readme: m, base_dir: b };
            assert(valid_layout(entries@, l));
            Ok(l)
        },
        (None, _, _) => {
            proof {
                if has_layout(entries@) {
                    let l = choose|l: PackageLayout| valid_layout(entries@, l);
                    assert(entries@[l.version as int].name@ == version_name());
                }
            }
            Err(LayoutError::MissingVersion)
        },
        (_, None, _) => {
            proof {
                if has_layout(entries@) {
                    let l = choose|l: PackageLayout| valid_layout(entries@, l);
                    assert(entries@[l.readme as int].name@ == readme_name());
                }
            }
            Err(LayoutError::MissingReadme)
        },
        (_, _, None) => {
            proof {
                if has_layout(entries@) {
                    let l = choose|l: PackageLayout| valid_layout(entries@, l);
                    assert(is_other(entries@[l.base_dir as int]));
                }
            }
            Err(LayoutError::MissingBaseDir)
        },
    }
}

/// Two entries that would both have to be the one version file, readme or
/// base directory rule a layout out.
proof fn lemma_no_layout_with_two(entries: Seq<TopEntry>, a: int, b: int)
    requires
        0 <= a < b < entries.len(),
        (entries[a].name@ == version_name() && entries[b].name@ == version_name()) || (
        entries[a].name@ == readme_name() && entries[b].name@ == readme_name()) || (is_other(
            entries[a],
        ) && is_other(entries[b])),
    ensures
        !has_layout(entries),
{
    if has_layout(entries) {
        let l = choose|l: PackageLayout| valid_layout(entries, l);
        assert(valid_layout(entries, l));
        assert(entries[a] == entries[a]);
        assert(entries[b] == entries[b]);
    }
}

/// A plain file besides the two text files rules a layout out.
proof fn lemma_no_layout_with_file(entries: Seq<TopEntry>, a: int)
    requires
        0 <= a < entries.len(),
        is_other(entries[a]),
        !entries[a].is_dir,
    ensures
        !has_layout(entries),
{
    if has_layout(entries) {
        let l = choose|l: PackageLayout| valid_layout(entries, l);
        assert(entries[a] == entries[a]);
    }
}

} // verus!
