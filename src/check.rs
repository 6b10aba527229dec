//! Checking the stored state: stray backups, and backups and installed
//! files that no longer hash to what the profile recorded.

use vstd::prelude::*;
use crate::deactivate::backed_up;
use crate::hashing::FileHash;
use crate::journal::{journal_entries, JournalAction};
use crate::paths::{backup_dir_spec, mod_path_to_backup_path, mod_path_to_game_path, FsPath};
use crate::profile::{has_key, key_at, profile_has_file, Entries, ModManifest, Profile, ProfileView};

verus! {

/// The paths, in order, that neither the journal nor any manifest names.
pub open spec fn unknown(
    paths: Seq<Seq<Seq<u8>>>,
    p: ProfileView,
    journal: Entries<JournalAction>,
) -> Seq<Seq<Seq<u8>>>
    decreases paths.len(),
{
    if paths.len() == 0 {
        Seq::empty()
    } else if !has_key(journal, paths.last()) && !profile_has_file(p, paths.last()) {
        unknown(paths.drop_last(), p, journal).push(paths.last())
    } else {
        unknown(paths.drop_last(), p, journal)
    }
}

pub open spec fn paths_view(v: Seq<FsPath>) -> Seq<Seq<Seq<u8>>> {
    v.map_values(|p: FsPath| p@)
}

/// Whether the journal has an entry for `rel`.
pub fn journal_contains(jm: &Vec<(FsPath, JournalAction)>, rel: &FsPath) -> (r: bool)
    ensures
        r == has_key(journal_entries(jm@), rel@),
{
    let mut i: usize = 0;
    while i < jm.len()
        invariant
            i <= jm@.len(),
            forall|j: int| 0 <= j < i ==> journal_entries(jm@)[j].0 != rel@,
        decreases jm@.len() - i,
    {
        if jm[i].0.same_as(rel) {
            assert(key_at(journal_entries(jm@), rel@, i as int));
            return true;
        }
        i = i + 1;
    }
    false
}

/// Returns the mod_file_paths (backed-up files, relative to the backup
/// directory) that aren't mentioned in the profile or the journal.
pub fn collect_unknown_files(
    mod_file_paths: Vec<FsPath>,
    p: &Profile,
    jm: &Vec<(FsPath, JournalAction)>,
) -> (r: Vec<FsPath>)
    ensures
        paths_view(r@) == unknown(paths_view(mod_file_paths@), p@, journal_entries(jm@)),
{
    let ghost all = paths_view(mod_file_paths@);
    let ghost j = journal_entries(jm@);
    let mut r: Vec<FsPath> = Vec::new();
    let mut k: usize = 0;
    while k < mod_file_paths.len()
        invariant
            k <= all.len(),
            all == paths_view(mod_file_paths@),
            j == journal_entries(jm@),
            paths_view(r@) == unknown(all.subrange(0, k as int), p@, j),
        decreases all.len() - k,
    {
        assert(all.subrange(0, k + 1).drop_last() =~= all.subrange(0, k as int));
        assert(all.subrange(0, k + 1).last() == mod_file_paths@[k as int]@);
        let path = &mod_file_paths[k];
        if !journal_contains(jm, path) && p.owner_of(path).is_none() {
            let ghost before = r@;
            r.push(path.duplicate());
            assert(paths_view(r@) =~= paths_view(before).push(path@));
        }
        k = k + 1;
    }
    assert(all.subrange(0, all.len() as int) =~= all);
    r
}

/// A file to hash, and what it should hash to.
#[derive(Clone, Debug)]
pub struct IntegrityCheck {
    pub rel: FsPath,
    pub path: FsPath,
    pub expected: FileHash,
}

/// The backups of a manifest's files, with what each hashed to when it was
/// made.
pub fn backup_checks(manifest: &ModManifest) -> (r: Vec<IntegrityCheck>)
    ensures
        r@.len() == backed_up(manifest@.files).len(),
        forall|i: int|
            0 <= i < r@.len() ==> {
                let c = #[trigger] r@[i];
                let f = backed_up(manifest@.files)[i];
                &&& c.rel@ == f.0
                &&& c.path@ == backup_dir_spec() + f.0
                &&& f.1.original_hash == Some(c.expected)
            },
{
    let ghost files = manifest@.files;
    let mut r: Vec<IntegrityCheck> = Vec::new();
    let mut k: usize = 0;
    while k < manifest.files.len()
        invariant
            k <= files.len(),
            files == manifest@.files,
            r@.len() == backed_up(files.subrange(0, k as int)).len(),
            forall|i: int|
                0 <= i < r@.len() ==> {
                    let c = #[trigger] r@[i];
                    let f = backed_up(files.subrange(0, k as int))[i];
                    &&& c.rel@ == f.0
                    &&& c.path@ == backup_dir_spec() + f.0
                    &&& f.1.original_hash == Some(c.expected)
                },
        decreases files.len() - k,
    {
        assert(files.subrange(0, k + 1).drop_last() =~= files.subrange(0, k as int));
        assert(files.subrange(0, k + 1).last() == files[k as int]);
        let rel = &manifest.files[k].0;
        match manifest.files[k].1.original_hash {
            Some(h) => {
                r.push(IntegrityCheck { rel: rel.duplicate(), path: mod_path_to_backup_path(rel), expected: h });
            },
            None => {},
        }
        k = k + 1;
    }
    assert(files.subrange(0, files.len() as int) =~= files);
    r
}

/// A manifest's installed files, with what each hashed to when installed.
pub fn installed_checks(manifest: &ModManifest, root: &FsPath) -> (r: Vec<IntegrityCheck>)
    ensures
        r@.len() == manifest@.files.len(),
        forall|i: int|
            0 <= i < r@.len() ==> {
                let c = #[trigger] r@[i];
                &&& c.rel@ == manifest@.files[i].0
                &&& c.path@ == root@ + manifest@.files[i].0
                &&& c.expected == manifest@.files[i].1.mod_hash
            },
{
    let mut r: Vec<IntegrityCheck> = Vec::new();
    let mut k: usize = 0;
    while k < manifest.files.len()
        invariant
            k <= manifest@.files.len(),
            r@.len() == k,
            forall|i: int|
                0 <= i < k ==> {
                    let c = #[trigger] r@[i];
                    &&& c.rel@ == manifest@.files[i].0
                    &&& c.path@ == root@ + manifest@.files[i].0
                    &&& c.expected == manifest@.files[i].1.mod_hash
                },
        decreases manifest@.files.len() - k,
    {
        let rel = &manifest.files[k].0;
        r.push(
            IntegrityCheck {
                rel: rel.duplicate(),
                path: mod_path_to_game_path(rel, root),
                expected: manifest.files[k].1.mod_hash,
            },
        );
        k = k + 1;
    }
    r
}

} // verus!
