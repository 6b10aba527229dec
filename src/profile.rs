//! The profile: which mod packages are installed over which game
//! directory, and what each of their files hashed to.

use vstd::prelude::*;
use crate::error::ManagerError;
use crate::hashing::FileHash;
use crate::paths::FsPath;

verus! {

/// A package's semantic version: `MAJOR.MINOR.PATCH[-pre][+build]`.
#[derive(Clone, Debug)]
pub struct ModVersion {
    pub major: u64,
    pub minor: u64,
    pub patch: u64,
    /// The pre-release identifiers, without the leading `-`; empty if none.
    pub pre: String,
    /// The build metadata, without the leading `+`; empty if none.
    pub build: String,
}

pub struct VersionView {
    pub major: u64,
    pub minor: u64,
    pub patch: u64,
    pub pre: Seq<char>,
    pub build: Seq<char>,
}

impl View for ModVersion {
    type V = VersionView;

    open spec fn view(&self) -> VersionView {
        VersionView {
            major: self.major,
            minor: self.minor,
            patch: self.patch,
            pre: self.pre@,
            build: self.build@,
        }
    }
}

impl ModVersion {
    /// Whether two versions are the same in every part.
    pub fn same_as(&self, other: &ModVersion) -> (r: bool)
        ensures
            r == (self@ == other@),
    {
        self.major == other.major && self.minor == other.minor && self.patch == other.patch
            && self.pre == other.pre && self.build == other.build
    }

    pub fn duplicate(&self) -> (r: ModVersion)
        ensures
            r@ == self@,
    {
        ModVersion {
            major: self.major,
            minor: self.minor,
            patch: self.patch,
            pre: self.pre.clone(),
            build: self.build.clone(),
        }
    }
}

/// What the profile records of one installed file.
#[derive(Clone, Copy, Debug)]
pub struct ModFileMetadata {
    /// The hash of the bytes written into the game directory.
    pub mod_hash: FileHash,
    /// The hash of the file this one replaced, if there was one (and so a
    /// backup of it).
    pub original_hash: Option<FileHash>,
}

/// Entries of an ordered mapping keyed by paths.
pub type Entries<V> = Seq<(Seq<Seq<u8>>, V)>;

/// Entry `i` has key `k`.
pub open spec fn key_at<V>(s: Entries<V>, k: Seq<Seq<u8>>, i: int) -> bool {
    0 <= i < s.len() && s[i].0 == k
}

pub open spec fn has_key<V>(s: Entries<V>, k: Seq<Seq<u8>>) -> bool {
    exists|i: int| key_at(s, k, i)
}

/// Entry `i` is the first with key `k`.
pub open spec fn first_key_at<V>(s: Entries<V>, k: Seq<Seq<u8>>, i: int) -> bool {
    key_at(s, k, i) && forall|j: int| 0 <= j < i ==> s[j].0 != k
}

/// No key appears twice.
pub open spec fn unique_keys<V>(s: Entries<V>) -> bool {
    forall|i: int, j: int| 0 <= i < s.len() && 0 <= j < s.len() && i != j ==> s[i].0 != s[j].0
}

/// The record of one installed mod package.
#[derive(Clone, Debug)]
pub struct ModManifest {
    pub version: ModVersion,
    /// Each installed file, by its path relative to the package's base
    /// directory.
    pub files: Vec<(FsPath, ModFileMetadata)>,
}

pub struct ManifestView {
    pub version: VersionView,
    pub files: Entries<ModFileMetadata>,
}

pub open spec fn file_entries(v: Seq<(FsPath, ModFileMetadata)>) -> Entries<ModFileMetadata> {
    v.map_values(|e: (FsPath, ModFileMetadata)| (e.0@, e.1))
}

impl View for ModManifest {
    type V = ManifestView;

    open spec fn view(&self) -> ManifestView {
        ManifestView { version: self.version@, files: file_entries(self.files@) }
    }
}

impl ModManifest {
    /// A manifest with no files yet.
    pub fn new(version: ModVersion) -> (r: ModManifest)
        ensures
            r@.version == version@,
            r@.files == Seq::<(Seq<Seq<u8>>, ModFileMetadata)>::empty(),
    {
        let r = ModManifest { version, files: Vec::new() };
        assert(r@.files =~= Seq::<(Seq<Seq<u8>>, ModFileMetadata)>::empty());
        r
    }

    /// Where `rel` is recorded, if it is.
    pub fn find_file(&self, rel: &FsPath) -> (r: Option<usize>)
        ensures
            r is None <==> !has_key(self@.files, rel@),
            r matches Some(i) ==> first_key_at(self@.files, rel@, i as int),
    {
        let mut i: usize = 0;
        while i < self.files.len()
            invariant
                i <= self.files@.len(),
                forall|j: int| 0 <= j < i ==> self@.files[j].0 != rel@,
            decreases self.files@.len() - i,
        {
            if self.files[i].0.same_as(rel) {
                assert(key_at(self@.files, rel@, i as int));
                return Some(i);
            }
            i = i + 1;
        }
        None
    }

    /// Records a file's metadata, replacing what was recorded for the same
    /// path before.
    pub fn record_file(&mut self, rel: FsPath, meta: ModFileMetadata)
        ensures
            final(self)@.version == old(self)@.version,
            has_key(old(self)@.files, rel@) ==> (exists|i: int|
                first_key_at(old(self)@.files, rel@, i)
                    && final(self)@.files == old(self)@.files.update(i, (rel@, meta))),
            !has_key(old(self)@.files, rel@)
                ==> final(self)@.files == old(self)@.files.push((rel@, meta)),
    {
        match self.find_file(&rel) {
            Some(i) => {
                let ghost key = rel@;
                self.files.set(i, (rel, meta));
                assert(self@.files =~= old(self)@.files.update(i as int, (key, meta)));
            },
            None => {
                let ghost key = rel@;
                self.files.push((rel, meta));
                assert(self@.files =~= old(self)@.files.push((key, meta)));
            },
        }
    }
}

/// The profile document: the game directory and every installed package.
#[derive(Clone, Debug)]
pub struct Profile {
    /// The directory mod files are laid over.
    pub root_directory: FsPath,
    /// Each installed package's manifest, by the package's path.
    pub mods: Vec<(FsPath, ModManifest)>,
}

pub struct ProfileView {
    pub root: Seq<Seq<u8>>,
    pub mods: Entries<ManifestView>,
}

pub open spec fn mod_entries(v: Seq<(FsPath, ModManifest)>) -> Entries<ManifestView> {
    v.map_values(|e: (FsPath, ModManifest)| (e.0@, e.1@))
}

impl View for Profile {
    type V = ProfileView;

    open spec fn view(&self) -> ProfileView {
        ProfileView { root: self.root_directory@, mods: mod_entries(self.mods@) }
    }
}

/// Some installed package records `rel` among its files.
pub open spec fn profile_has_file(p: ProfileView, rel: Seq<Seq<u8>>) -> bool {
    exists|i: int| 0 <= i < p.mods.len() && has_key(#[trigger] p.mods[i].1.files, rel)
}

/// Keys are unique at both levels, and no two packages claim one file.
pub open spec fn well_formed(p: ProfileView) -> bool {
    &&& unique_keys(p.mods)
    &&& forall|i: int| 0 <= i < p.mods.len() ==> unique_keys(#[trigger] p.mods[i].1.files)
    &&& forall|i: int, j: int, rel: Seq<Seq<u8>>|
        0 <= i < p.mods.len() && 0 <= j < p.mods.len() && i != j && #[trigger] has_key(
            p.mods[i].1.files,
            rel,
        ) ==> !#[trigger] has_key(p.mods[j].1.files, rel)
}

impl Profile {
    /// A profile with nothing installed yet.
    pub fn new(root_directory: FsPath) -> (r: Profile)
        ensures
            r@.root == root_directory@,
            r@.mods == Seq::<(Seq<Seq<u8>>, ManifestView)>::empty(),
    {
        let r = Profile { root_directory, mods: Vec::new() };
        assert(r@.mods =~= Seq::<(Seq<Seq<u8>>, ManifestView)>::empty());
        r
    }

    /// Where the package is recorded, if it is.
    pub fn find_mod(&self, package: &FsPath) -> (r: Option<usize>)
        ensures
            r is None <==> !has_key(self@.mods, package@),
            r matches Some(i) ==> first_key_at(self@.mods, package@, i as int),
    {
        let mut i: usize = 0;
        while i < self.mods.len()
            invariant
                i <= self.mods@.len(),
                forall|j: int| 0 <= j < i ==> self@.mods[j].0 != package@,
            decreases self.mods@.len() - i,
        {
            if self.mods[i].0.same_as(package) {
                assert(key_at(self@.mods, package@, i as int));
                return Some(i);
            }
            i = i + 1;
        }
        None
    }

    /// Whether the package is installed.
    pub fn contains_mod(&self, package: &FsPath) -> (r: bool)
        ensures
            r == has_key(self@.mods, package@),
    {
        self.find_mod(package).is_some()
    }

    /// The first package, in profile order, that records `rel`.
    pub fn owner_of(&self, rel: &FsPath) -> (r: Option<usize>)
        ensures
            r is None <==> !profile_has_file(self@, rel@),
            r matches Some(i) ==> i < self@.mods.len() && has_key(
                self@.mods[i as int].1.files,
                rel@,
            ) && forall|j: int| 0 <= j < i ==> !has_key(#[trigger] self@.mods[j].1.files, rel@),
    {
        let mut i: usize = 0;
        while i < self.mods.len()
            invariant
                i <= self.mods@.len(),
                forall|j: int| 0 <= j < i ==> !has_key(#[trigger] self@.mods[j].1.files, rel@),
            decreases self.mods@.len() - i,
        {
            if self.mods[i].1.find_file(rel).is_some() {
                assert(self@.mods[i as int].1 == self.mods@[i as int].1@);
                assert(has_key(self@.mods[i as int].1.files, rel@));
                return Some(i);
            }
            i = i + 1;
        }
        None
    }

    /// Records a newly installed package after the ones already there.
    pub fn add_manifest(&mut self, package: FsPath, manifest: ModManifest)
        ensures
            final(self)@.root == old(self)@.root,
            final(self)@.mods == old(self)@.mods.push((package@, manifest@)),
    {
        let ghost entry = (package@, manifest@);
        self.mods.push((package, manifest));
        assert(self@.mods =~= old(self)@.mods.push(entry));
    }

    /// Takes a package's manifest out of the profile.
    pub fn remove_manifest(&mut self, package: &FsPath) -> (r: Result<ModManifest, ManagerError>)
        ensures
            final(self)@.root == old(self)@.root,
            r is Ok <==> has_key(old(self)@.mods, package@),
            r matches Ok(m) ==> (exists|i: int|
                first_key_at(old(self)@.mods, package@, i) && m@ == old(self)@.mods[i].1
                    && final(self)@.mods == old(self)@.mods.remove(i)),
            r is Err ==> (r->Err_0 matches ManagerError::NotActivated { package: p } && p@
                == package@),
            r is Err ==> final(self)@ == old(self)@,
    {
        match self.find_mod(package) {
            Some(i) => {
                let (_, m) = self.mods.remove(i);
                assert(self@.mods =~= old(self)@.mods.remove(i as int));
                Ok(m)
            },
            None => Err(ManagerError::NotActivated { package: package.duplicate() }),
        }
    }
}

impl Profile {
    /// Replaces the metadata recorded for file `f` of package `m`.
    pub fn set_file_metadata(&mut self, m: usize, f: usize, meta: ModFileMetadata)
        requires
            m < old(self)@.mods.len(),
            f < old(self)@.mods[m as int].1.files.len(),
        ensures
            final(self)@.root == old(self)@.root,
            final(self)@.mods == old(self)@.mods.update(
                m as int,
                (
                    old(self)@.mods[m as int].0,
                    ManifestView {
                        version: old(self)@.mods[m as int].1.version,
                        files: old(self)@.mods[m as int].1.files.update(
                            f as int,
                            (old(self)@.mods[m as int].1.files[f as int].0, meta),
                        ),
                    },
                ),
            ),
    {
        let ghost before = self.mods@[m as int].1.files@;
        let (key, mut manifest) = self.mods.remove(m);
        let (rel, _) = manifest.files.remove(f);
        manifest.files.insert(f, (rel, meta));
        assert(manifest.files@ =~= before.update(f as int, (before[f as int].0, meta)));
        assert(manifest@.files =~= old(self)@.mods[m as int].1.files.update(
            f as int,
            (old(self)@.mods[m as int].1.files[f as int].0, meta),
        ));
        self.mods.insert(m, (key, manifest));
        assert(self@.mods =~= old(self)@.mods.update(
            m as int,
            (
                old(self)@.mods[m as int].0,
                ManifestView {
                    version: old(self)@.mods[m as int].1.version,
                    files: old(self)@.mods[m as int].1.files.update(
                        f as int,
                        (old(self)@.mods[m as int].1.files[f as int].0, meta),
                    ),
                },
            ),
        ));
    }
}

/// Recording a package keeps the profile well formed when the package is
/// not installed yet, its own paths are unique, and none of them is claimed
/// by an installed package.
pub proof fn lemma_add_manifest_well_formed(p: ProfileView, package: Seq<Seq<u8>>, m: ManifestView)
    requires
        well_formed(p),
        !has_key(p.mods, package),
        unique_keys(m.files),
        forall|i: int| 0 <= i < m.files.len() ==> !profile_has_file(p, (#[trigger] m.files[i]).0),
    ensures
        well_formed(ProfileView { root: p.root, mods: p.mods.push((package, m)) }),
{
    let q = ProfileView { root: p.root, mods: p.mods.push((package, m)) };
    let n = p.mods.len() as int;
    assert forall|i: int, j: int|
        0 <= i < q.mods.len() && 0 <= j < q.mods.len() && i != j implies q.mods[i].0 != q.mods[j].0 by {
        if i == n {
            assert(!key_at(p.mods, package, j));
        } else if j == n {
            assert(!key_at(p.mods, package, i));
        }
    }
    assert forall|i: int, j: int, rel: Seq<Seq<u8>>|
        0 <= i < q.mods.len() && 0 <= j < q.mods.len() && i != j && #[trigger] has_key(
            q.mods[i].1.files,
            rel,
        ) implies !#[trigger] has_key(q.mods[j].1.files, rel) by {
        if i == n {
            let k = choose|k: int| key_at(m.files, rel, k);
            assert(!profile_has_file(p, m.files[k].0));
        } else if j == n {
            if has_key(m.files, rel) {
                let k = choose|k: int| key_at(m.files, rel, k);
                assert(!profile_has_file(p, m.files[k].0));
                assert(q.mods[i] == p.mods[i]);
            }
        } else {
            assert(q.mods[i] == p.mods[i]);
            assert(q.mods[j] == p.mods[j]);
        }
    }
}

/// Facts about the stored document itself.
#[derive(Clone, Copy, Debug)]
pub struct Meta {
    /// The on-disk format's version.
    pub version: u8,
}

impl Default for Meta {
    /// The latest format.
    fn default() -> (r: Meta)
        ensures
            r.version == 1,
    {
        Meta { version: 1 }
    }
}

/// The stored document: a profile and facts about its format.
#[derive(Clone, Debug)]
pub struct ProfileFileData {
    pub profile: Profile,
    pub meta: Meta,
}

} // verus!
