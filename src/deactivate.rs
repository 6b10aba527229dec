//! Uninstalling a mod package: checking its files are as installed, then
//! the plan that restores backups, removes added files and prunes the
//! directories they leave empty.

use vstd::prelude::*;
use crate::error::ManagerError;
use crate::hashing::FileHash;
use crate::paths::{
    backup_dir, backup_dir_spec, empty_parent_candidates, is_proper_ancestor,
    mod_path_to_backup_path, mod_path_to_game_path, FsPath,
};
use crate::profile::{
    first_key_at, has_key, key_at, Entries, ManifestView, ModFileMetadata, ModManifest, ProfileView,
    VersionView,
};

verus! {

/// The files that replaced a game file, and so have a backup, in order.
pub open spec fn backed_up(files: Entries<ModFileMetadata>) -> Entries<ModFileMetadata>
    decreases files.len(),
{
    if files.len() == 0 {
        Seq::empty()
    } else if files.last().1.original_hash is Some {
        backed_up(files.drop_last()).push(files.last())
    } else {
        backed_up(files.drop_last())
    }
}

/// The files that were new to the game directory, in order.
pub open spec fn added(files: Entries<ModFileMetadata>) -> Entries<ModFileMetadata>
    decreases files.len(),
{
    if files.len() == 0 {
        Seq::empty()
    } else if files.last().1.original_hash is None {
        added(files.drop_last()).push(files.last())
    } else {
        added(files.drop_last())
    }
}

/// The files whose game file no longer hashes to what was installed.
pub open spec fn changed(files: Entries<ModFileMetadata>, hashes: Seq<FileHash>) -> Seq<
    Seq<Seq<u8>>,
>
    decreases files.len(),
{
    if files.len() == 0 {
        Seq::empty()
    } else if files.last().1.mod_hash@ != hashes[files.len() - 1]@ {
        changed(files.drop_last(), hashes).push(files.last().0)
    } else {
        changed(files.drop_last(), hashes)
    }
}

/// The installed files, by their path in the package, whose game file
/// hashed (in `hashes`, one per file in manifest order) to something other
/// than what was installed.
pub fn changed_files(manifest: &ModManifest, hashes: &Vec<FileHash>) -> (r: Vec<FsPath>)
    requires
        hashes@.len() == manifest@.files.len(),
    ensures
        r@.len() == changed(manifest@.files, hashes@).len(),
        forall|i: int|
            0 <= i < r@.len() ==> (#[trigger] r@[i])@ == changed(manifest@.files, hashes@)[i],
{
    let ghost files = manifest@.files;
    let mut r: Vec<FsPath> = Vec::new();
    let mut k: usize = 0;
    while k < manifest.files.len()
        invariant
            k <= files.len(),
            files == manifest@.files,
            hashes@.len() == files.len(),
            r@.len() == changed(files.subrange(0, k as int), hashes@).len(),
            forall|i: int|
                0 <= i < r@.len() ==> (#[trigger] r@[i])@ == changed(
                    files.subrange(0, k as int),
                    hashes@,
                )[i],
        decreases files.len() - k,
    {
        assert(files.subrange(0, k + 1).drop_last() =~= files.subrange(0, k as int));
        assert(files[k as int].1 == manifest.files@[k as int].1);
        if !manifest.files[k].1.mod_hash.same_as(&hashes[k]) {
            r.push(manifest.files[k].0.duplicate());
        }
        k = k + 1;
    }
    assert(files.subrange(0, files.len() as int) =~= files);
    r
}

/// Refuses to uninstall a package whose installed files changed since:
/// restoring the backups would silently undo what changed them (most
/// likely a game update; updating first brings the backups in line).
pub fn check_game_files(package: &FsPath, manifest: &ModManifest, hashes: &Vec<FileHash>) -> (r:
    Result<(), ManagerError>)
    requires
        hashes@.len() == manifest@.files.len(),
    ensures
        r is Ok <==> forall|i: int|
            0 <= i < hashes@.len() ==> (#[trigger] hashes@[i])@ == manifest@.files[i].1.mod_hash@,
        r is Err ==> (r->Err_0 matches ManagerError::GameFilesChanged { package: q } && q@
            == package@),
{
    let ghost files = manifest@.files;
    let mut k: usize = 0;
    while k < manifest.files.len()
        invariant
            k <= files.len(),
            files == manifest@.files,
            hashes@.len() == files.len(),
            forall|i: int| 0 <= i < k ==> (#[trigger] hashes@[i])@ == files[i].1.mod_hash@,
        decreases files.len() - k,
    {
        assert(files[k as int].1 == manifest.files@[k as int].1);
        if !manifest.files[k].1.mod_hash.same_as(&hashes[k]) {
            return Err(ManagerError::GameFilesChanged { package: package.duplicate() });
        }
        k = k + 1;
    }
    Ok(())
}

/// Putting one backed-up original back.
#[derive(Clone, Debug)]
pub struct Restore {
    pub rel: FsPath,
    pub backup: FsPath,
    pub game: FsPath,
    /// What the backup hashed to when it was made.
    pub expected: FileHash,
}

/// Removing one file, then the directories it leaves empty.
#[derive(Clone, Debug)]
pub struct Removal {
    pub path: FsPath,
    /// The directories to try to remove once the file is gone, nearest
    /// first; the walk stops at the first that is not empty.
    pub prune: Vec<FsPath>,
}

/// Everything an uninstall does to the file system, in order: restore
/// backups, remove added files (both before the profile is committed), and
/// delete the restored backups (after).
#[derive(Clone, Debug)]
pub struct DeactivationPlan {
    pub restores: Vec<Restore>,
    pub removals: Vec<Removal>,
    pub backup_removals: Vec<Removal>,
}

/// `prune` lists the directories strictly between `up_to` and the file at
/// `p`, nearest first; none when `up_to` does not contain `p`.
pub open spec fn prunes(prune: Seq<FsPath>, p: Seq<Seq<u8>>, up_to: Seq<Seq<u8>>) -> bool {
    if is_proper_ancestor(up_to, p) {
        &&& prune.len() == p.len() - up_to.len() - 1
        &&& forall|j: int|
            0 <= j < prune.len() ==> (#[trigger] prune[j])@ == p.subrange(0, p.len() - 1 - j)
    } else {
        prune.len() == 0
    }
}

pub open spec fn is_removal(r: Removal, p: Seq<Seq<u8>>, up_to: Seq<Seq<u8>>) -> bool {
    r.path@ == p && prunes(r.prune@, p, up_to)
}

/// The plan for uninstalling the manifest's files from the game directory
/// at `root`.
pub open spec fn deactivation_plan_spec(
    root: Seq<Seq<u8>>,
    files: Entries<ModFileMetadata>,
    plan: DeactivationPlan,
) -> bool {
    let b = backed_up(files);
    let a = added(files);
    &&& plan.restores@.len() == b.len()
    &&& forall|i: int|
        0 <= i < b.len() ==> {
            let x = #[trigger] plan.restores@[i];
            &&& x.rel@ == b[i].0
            &&& x.backup@ == backup_dir_spec() + b[i].0
            &&& x.game@ == root + b[i].0
            &&& b[i].1.original_hash == Some(x.expected)
        }
    &&& plan.removals@.len() == a.len()
    &&& forall|i: int|
        0 <= i < a.len() ==> is_removal(#[trigger] plan.removals@[i], root + a[i].0, root)
    &&& plan.backup_removals@.len() == b.len()
    &&& forall|i: int|
        0 <= i < b.len() ==> is_removal(
            #[trigger] plan.backup_removals@[i],
            backup_dir_spec() + b[i].0,
            backup_dir_spec(),
        )
}

/// A removal of `p`, pruning up to (not including) `up_to`.
fn removal_of(p: FsPath, up_to: &FsPath) -> (r: Removal)
    ensures
        is_removal(r, p@, up_to@),
{
    let inside = p.len() > up_to.len() && prefix_matches(&p, up_to);
    let prune = if inside {
        empty_parent_candidates(&p, up_to)
    } else {
        Vec::new()
    };
    Removal { path: p, prune }
}

/// Whether `up_to` is the start of `p`.
fn prefix_matches(p: &FsPath, up_to: &FsPath) -> (r: bool)
    requires
        up_to@.len() <= p@.len(),
    ensures
        r == (p@.subrange(0, up_to@.len() as int) == up_to@),
{
    let head = crate::paths::prefix(p, up_to.len());
    head.same_as(up_to)
}

/// Plans the uninstall of a manifest's files from the game directory at
/// `root`.
pub fn plan_deactivation(manifest: &ModManifest, root: &FsPath) -> (r: DeactivationPlan)
    ensures
        deactivation_plan_spec(root@, manifest@.files, r),
{
    let ghost files = manifest@.files;
    let originals = backup_dir();
    let mut restores: Vec<Restore> = Vec::new();
    let mut removals: Vec<Removal> = Vec::new();
    let mut backup_removals: Vec<Removal> = Vec::new();
    let mut k: usize = 0;
    while k < manifest.files.len()
        invariant
            k <= files.len(),
            files == manifest@.files,
            originals@ == backup_dir_spec(),
            deactivation_plan_spec(
                root@,
                files.subrange(0, k as int),
                DeactivationPlan { restores, removals, backup_removals },
            ),
        decreases files.len() - k,
    {
        let ghost pre = files.subrange(0, k as int);
        assert(files.subrange(0, k + 1).drop_last() =~= pre);
        assert(files.subrange(0, k + 1).last() == files[k as int]);
        let rel = &manifest.files[k].0;
        assert(files[k as int].0 == rel@);
        match manifest.files[k].1.original_hash {
            Some(h) => {
                let backup = mod_path_to_backup_path(rel);
                restores.push(
                    Restore {
                        rel: rel.duplicate(),
                        backup: backup.duplicate(),
                        game: mod_path_to_game_path(rel, root),
                        expected: h,
                    },
                );
                backup_removals.push(removal_of(backup, &originals));
            },
            None => {
                removals.push(removal_of(mod_path_to_game_path(rel, root), root));
            },
        }
        k = k + 1;
    }
    assert(files.subrange(0, files.len() as int) =~= files);
    DeactivationPlan { restores, removals, backup_removals }
}

/// The profile with a newly installed package recorded after the others.
pub open spec fn with_manifest(p: ProfileView, package: Seq<Seq<u8>>, m: ManifestView) -> ProfileView {
    ProfileView { root: p.root, mods: p.mods.push((package, m)) }
}

/// Recording a package that was not installed and then taking it out
/// again leaves the profile as it was: the package is found, and taking
/// out the first entry for it removes exactly what was recorded.
pub proof fn lemma_record_then_remove(p: ProfileView, package: Seq<Seq<u8>>, m: ManifestView)
    requires
        !has_key(p.mods, package),
    ensures
        has_key(with_manifest(p, package, m).mods, package),
        forall|i: int|
            first_key_at(with_manifest(p, package, m).mods, package, i) ==> (ProfileView {
                root: p.root,
                mods: with_manifest(p, package, m).mods.remove(i),
            }) == p,
{
    let installed = with_manifest(p, package, m);
    let n = p.mods.len() as int;
    assert(installed.mods[n].0 == package);
    assert(key_at(installed.mods, package, n));
    assert forall|i: int| first_key_at(installed.mods, package, i) implies ProfileView {
        root: p.root,
        mods: installed.mods.remove(i),
    } == p by {
        if i < n {
            assert(installed.mods[i] == p.mods[i]);
            assert(key_at(p.mods, package, i));
        }
        assert(i == n);
        assert(installed.mods.remove(i) =~= p.mods);
    }
}

/// Installing a package that holds no files records an empty manifest;
/// uninstalling it finds that manifest, takes it out and leaves the profile
/// as it was before the install; and its uninstall plan touches no file.
pub proof fn lemma_empty_package_round_trip(
    p: ProfileView,
    package: Seq<Seq<u8>>,
    version: VersionView,
    plan: DeactivationPlan,
)
    requires
        !has_key(p.mods, package),
        deactivation_plan_spec(p.root, Seq::empty(), plan),
    ensures
        ({
            let installed = with_manifest(
                p,
                package,
                ManifestView { version, files: Seq::empty() },
            );
            &&& has_key(installed.mods, package)
            &&& forall|i: int|
                first_key_at(installed.mods, package, i) ==> ProfileView {
                    root: installed.root,
                    mods: installed.mods.remove(i),
                } == p
        }),
        plan.restores@.len() == 0,
        plan.removals@.len() == 0,
        plan.backup_removals@.len() == 0,
{
    lemma_record_then_remove(p, package, ManifestView { version, files: Seq::empty() });
}

proof fn lemma_all_added(files: Entries<ModFileMetadata>)
    requires
        forall|i: int| 0 <= i < files.len() ==> (#[trigger] files[i]).1.original_hash is None,
    ensures
        added(files) == files,
        backed_up(files).len() == 0,
    decreases files.len(),
{
    if files.len() > 0 {
        let rest = files.drop_last();
        assert forall|i: int| 0 <= i < rest.len() implies (#[trigger] rest[i]).1.original_hash is None by {
            assert(rest[i] == files[i]);
        }
        lemma_all_added(rest);
        assert(files.last() == files[files.len() - 1]);
        assert(rest.push(files.last()) =~= files);
    }
}

/// Uninstalling a package whose every file was new to the game directory
/// restores nothing and deletes no backup; it removes each file, and then
/// tries the directories between the file and the game directory, nearest
/// first: every one of them, and never the game directory or anything
/// above it.
pub proof fn lemma_new_files_removed_and_pruned(
    root: Seq<Seq<u8>>,
    files: Entries<ModFileMetadata>,
    plan: DeactivationPlan,
)
    requires
        deactivation_plan_spec(root, files, plan),
        forall|i: int| 0 <= i < files.len() ==> (#[trigger] files[i]).1.original_hash is None,
        forall|i: int| 0 <= i < files.len() ==> (#[trigger] files[i]).0.len() > 0,
    ensures
        plan.restores@.len() == 0,
        plan.backup_removals@.len() == 0,
        plan.removals@.len() == files.len(),
        forall|i: int|
            0 <= i < files.len() ==> (#[trigger] plan.removals@[i]).path@ == root + files[i].0,
        forall|i: int|
            0 <= i < files.len() ==> (#[trigger] plan.removals@[i]).prune@.len() == files[i].0.len()
                - 1,
        forall|i: int, j: int|
            0 <= i < files.len() && 0 <= j < plan.removals@[i].prune@.len() ==> {
                let d = (#[trigger] plan.removals@[i].prune@[j])@;
                &&& is_proper_ancestor(root, d)
                &&& is_proper_ancestor(d, root + files[i].0)
            },
{
    lemma_all_added(files);
    assert forall|i: int, j: int|
        0 <= i < files.len() && 0 <= j < plan.removals@[i].prune@.len() implies {
        let d = (#[trigger] plan.removals@[i].prune@[j])@;
        &&& is_proper_ancestor(root, d)
        &&& is_proper_ancestor(d, root + files[i].0)
    } by {
        let path = root + files[i].0;
        let r = plan.removals@[i];
        assert(files[i].0.len() > 0);
        assert(path.subrange(0, root.len() as int) =~= root);
        assert(is_proper_ancestor(root, path));
        let d = r.prune@[j]@;
        assert(d == path.subrange(0, path.len() - 1 - j));
        assert(d.subrange(0, root.len() as int) =~= root);
        assert(path.subrange(0, d.len() as int) =~= d);
    }
    assert forall|i: int| 0 <= i < files.len() implies (#[trigger] plan.removals@[i]).prune@.len()
        == files[i].0.len() - 1 by {
        let path = root + files[i].0;
        assert(files[i].0.len() > 0);
        assert(path.subrange(0, root.len() as int) =~= root);
    }
}

} // verus!
