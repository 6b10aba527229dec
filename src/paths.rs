//! Paths as sequences of components, and the fixed places the manager keeps
//! its own files.

use vstd::prelude::*;
use vstd::string::{StrSliceExecFns, StringSliceAdditionalSpecFns};

verus! {

/// A file system path, held as the bytes of each of its components.
///
/// A relative path inside a mod package holds only normal components; a
/// path that starts at the file system root holds the root as its first
/// component (`"/"`), which no normal component can equal.
#[derive(Clone, Debug)]
pub struct FsPath {
    pub parts: Vec<Vec<u8>>,
}

impl View for FsPath {
    type V = Seq<Seq<u8>>;

    open spec fn view(&self) -> Seq<Seq<u8>> {
        parts_view(self.parts@)
    }
}

/// The byte strings held by a sequence of component vectors.
pub open spec fn parts_view(v: Seq<Vec<u8>>) -> Seq<Seq<u8>> {
    v.map_values(|b: Vec<u8>| b@)
}

/// A component that names a file or directory: not empty, no separator,
/// and neither `.` nor `..`.
pub open spec fn is_normal_part(b: Seq<u8>) -> bool {
    &&& b.len() > 0
    &&& !b.contains(0x2fu8)
    &&& b != seq![0x2eu8]
    &&& b != seq![0x2eu8, 0x2eu8]
}

/// A path relative to a mod package's base directory.
pub open spec fn is_rel_path(p: Seq<Seq<u8>>) -> bool {
    &&& p.len() > 0
    &&& forall|i: int| 0 <= i < p.len() ==> is_normal_part(#[trigger] p[i])
}

/// Copies a byte string.
pub fn copy_bytes(b: &Vec<u8>) -> (r: Vec<u8>)
    ensures
        r@ == b@,
{
    let mut r: Vec<u8> = Vec::with_capacity(b.len());
    let mut i: usize = 0;
    while i < b.len()
        invariant
            i <= b.len(),
            r@ == b@.subrange(0, i as int),
        decreases b.len() - i,
    {
        r.push(b[i]);
        i = i + 1;
    }
    r
}

/// Whether two byte strings are equal.
pub fn bytes_equal(a: &Vec<u8>, b: &Vec<u8>) -> (r: bool)
    ensures
        r == (a@ == b@),
{
    if a.len() != b.len() {
        return false;
    }
    let mut i: usize = 0;
    while i < a.len()
        invariant
            i <= a.len(),
            a.len() == b.len(),
            a@.subrange(0, i as int) == b@.subrange(0, i as int),
        decreases a.len() - i,
    {
        if a[i] != b[i] {
            assert(a@[i as int] != b@[i as int]);
            return false;
        }
        assert(a@.subrange(0, i + 1) == a@.subrange(0, i as int).push(a@[i as int]));
        assert(b@.subrange(0, i + 1) =~= b@.subrange(0, i as int).push(b@[i as int]));
        i = i + 1;
    }
    assert(a@ == a@.subrange(0, a@.len() as int));
    assert(b@ == b@.subrange(0, b@.len() as int));
    true
}

impl FsPath {
    /// A path with no components.
    pub fn empty() -> (r: FsPath)
        ensures
            r@ == Seq::<Seq<u8>>::empty(),
    {
        FsPath { parts: Vec::new() }
    }

    /// The number of components.
    pub fn len(&self) -> (r: usize)
        ensures
            r == self@.len(),
    {
        self.parts.len()
    }

    /// A copy of this path.
    pub fn duplicate(&self) -> (r: FsPath)
        ensures
            r@ == self@,
    {
        let mut parts: Vec<Vec<u8>> = Vec::with_capacity(self.parts.len());
        let mut i: usize = 0;
        while i < self.parts.len()
            invariant
                i <= self@.len(),
                parts@.len() == i,
                forall|j: int| 0 <= j < i ==> (#[trigger] parts@[j])@ == self@[j],
            decreases self@.len() - i,
        {
            let part = copy_bytes(&self.parts[i]);
            parts.push(part);
            i = i + 1;
        }
        assert(parts_view(parts@) =~= self@);
        FsPath { parts }
    }

    /// Appends one component.
    pub fn push_part(&mut self, part: Vec<u8>)
        ensures
            final(self)@ == old(self)@.push(part@),
    {
        self.parts.push(part);
        assert(self@ =~= old(self)@.push(part@));
    }

    /// Whether two paths name the same components.
    pub fn same_as(&self, other: &FsPath) -> (r: bool)
        ensures
            r == (self@ == other@),
    {
        if self.parts.len() != other.parts.len() {
            return false;
        }
        let mut i: usize = 0;
        while i < self.parts.len()
            invariant
                i <= self@.len(),
                self@.len() == other@.len(),
                self@.subrange(0, i as int) == other@.subrange(0, i as int),
            decreases self@.len() - i,
        {
            if !bytes_equal(&self.parts[i], &other.parts[i]) {
                assert(self@.subrange(0, self@.len() as int)[i as int] != other@.subrange(
                    0,
                    other@.len() as int,
                )[i as int]);
                assert(self@ =~= self@.subrange(0, self@.len() as int));
                assert(other@ =~= other@.subrange(0, other@.len() as int));
                return false;
            }
            assert(self@.subrange(0, i + 1) =~= self@.subrange(0, i as int).push(self@[i as int]));
            assert(other@.subrange(0, i + 1) =~= other@.subrange(0, i as int).push(
                other@[i as int],
            ));
            i = i + 1;
        }
        assert(self@ =~= self@.subrange(0, self@.len() as int));
        assert(other@ =~= other@.subrange(0, other@.len() as int));
        true
    }
}

/// The path `a` followed by the components of `b`.
pub fn join(a: &FsPath, b: &FsPath) -> (r: FsPath)
    ensures
        r@ == a@ + b@,
{
    let mut r = a.duplicate();
    let mut i: usize = 0;
    while i < b.parts.len()
        invariant
            i <= b@.len(),
            r@ == a@ + b@.subrange(0, i as int),
        decreases b@.len() - i,
    {
        let part = copy_bytes(&b.parts[i]);
        r.push_part(part);
        assert(b@.subrange(0, i + 1) =~= b@.subrange(0, i as int).push(b@[i as int]));
        assert(r@ =~= a@ + b@.subrange(0, i + 1));
        i = i + 1;
    }
    assert(b@.subrange(0, b@.len() as int) =~= b@);
    r
}

/// Given a relative mod file path,
/// return its game file path, i.e., it appended to the profile's root directory.
pub fn mod_path_to_game_path(mod_path: &FsPath, root_directory: &FsPath) -> (r: FsPath)
    ensures
        r@ == root_directory@ + mod_path@,
{
    join(root_directory, mod_path)
}

/// The bytes of a component name written as text.
fn part_from(name: &str) -> (r: Vec<u8>)
    ensures
        r@ == name.spec_bytes(),
{
    name.as_bytes_vec()
}

/// A relative path of one component.
fn single(name: &str) -> (r: FsPath)
    ensures
        r@ == seq![name.spec_bytes()],
{
    let mut r = FsPath::empty();
    r.push_part(part_from(name));
    r
}

/// A relative path of two components.
fn pair(first: &str, second: &str) -> (r: FsPath)
    ensures
        r@ == seq![first.spec_bytes(), second.spec_bytes()],
{
    let mut r = single(first);
    r.push_part(part_from(second));
    r
}

pub open spec fn storage_part() -> Seq<u8> {
    "modman-backup".spec_bytes()
}

/// The directory where the manager keeps everything it stores:
/// `modman-backup`.
pub open spec fn storage_dir_spec() -> Seq<Seq<u8>> {
    seq![storage_part()]
}

/// Where backed-up originals live: `modman-backup/originals`.
pub open spec fn backup_dir_spec() -> Seq<Seq<u8>> {
    seq![storage_part(), "originals".spec_bytes()]
}

/// Where in-flight copies live: `modman-backup/temp`.
pub open spec fn temp_dir_spec() -> Seq<Seq<u8>> {
    seq![storage_part(), "temp".spec_bytes()]
}

/// The activation journal: `modman-backup/activate.journal`.
pub open spec fn journal_path_spec() -> Seq<Seq<u8>> {
    seq![storage_part(), "activate.journal".spec_bytes()]
}

/// The suffix of an in-flight copy's file name.
pub open spec fn part_suffix() -> Seq<u8> {
    ".part".spec_bytes()
}

/// The profile document: `modman.profile`.
pub fn profile_path() -> (r: FsPath)
    ensures
        r@ == seq!["modman.profile".spec_bytes()],
{
    single("modman.profile")
}

/// The sibling the profile is written to before it is renamed into place:
/// `modman.profile.new`.
pub fn profile_temp_path() -> (r: FsPath)
    ensures
        r@ == seq!["modman.profile.new".spec_bytes()],
{
    single("modman.profile.new")
}

/// The storage root, `modman-backup`.
pub fn storage_dir() -> (r: FsPath)
    ensures
        r@ == storage_dir_spec(),
{
    single("modman-backup")
}

/// The note left in the storage root: `modman-backup/README.txt`.
pub fn backup_readme_path() -> (r: FsPath)
    ensures
        r@ == seq![storage_part(), "README.txt".spec_bytes()],
{
    pair("modman-backup", "README.txt")
}

/// The directory of backed-up originals.
pub fn backup_dir() -> (r: FsPath)
    ensures
        r@ == backup_dir_spec(),
{
    pair("modman-backup", "originals")
}

/// The directory of in-flight copies.
pub fn temp_dir() -> (r: FsPath)
    ensures
        r@ == temp_dir_spec(),
{
    pair("modman-backup", "temp")
}

/// Where the activation journal is kept.
pub fn get_journal_path() -> (r: FsPath)
    ensures
        r@ == journal_path_spec(),
{
    pair("modman-backup", "activate.journal")
}

/// Given a relative mod file path,
/// return its backup path, i.e., it appended to our backup directory.
pub fn mod_path_to_backup_path(mod_path: &FsPath) -> (r: FsPath)
    ensures
        r@ == backup_dir_spec() + mod_path@,
{
    join(&backup_dir(), mod_path)
}

/// The in-flight copy's name for a path: its last component with `.part`
/// appended, inside the temp directory.
pub open spec fn temp_path_spec(mod_path: Seq<Seq<u8>>) -> Seq<Seq<u8>> {
    temp_dir_spec().push(mod_path.last() + part_suffix())
}

/// Given a relative mod file path,
/// return its temporary path, i.e.,
/// its file name appended to our temp directory,
/// with a `.part` suffix.
pub fn mod_path_to_temp_path(mod_path: &FsPath) -> (r: FsPath)
    requires
        mod_path@.len() > 0,
    ensures
        r@ == temp_path_spec(mod_path@),
{
    let last = mod_path.parts.len() - 1;
    let mut name = copy_bytes(&mod_path.parts[last]);
    let suffix = part_from(".part");
    let mut i: usize = 0;
    while i < suffix.len()
        invariant
            i <= suffix@.len(),
            suffix@ == part_suffix(),
            name@ == mod_path@.last() + suffix@.subrange(0, i as int),
        decreases suffix@.len() - i,
    {
        name.push(suffix[i]);
        assert(suffix@.subrange(0, i + 1) =~= suffix@.subrange(0, i as int).push(suffix@[i as int]));
        assert(name@ =~= mod_path@.last() + suffix@.subrange(0, i + 1));
        i = i + 1;
    }
    assert(suffix@.subrange(0, suffix@.len() as int) =~= suffix@);
    let mut r = temp_dir();
    r.push_part(name);
    r
}

/// The first `n` components of a path.
pub fn prefix(p: &FsPath, n: usize) -> (r: FsPath)
    requires
        n <= p@.len(),
    ensures
        r@ == p@.subrange(0, n as int),
{
    let mut parts: Vec<Vec<u8>> = Vec::with_capacity(n);
    let mut i: usize = 0;
    while i < n
        invariant
            i <= n,
            n <= p@.len(),
            parts@.len() == i,
            forall|j: int| 0 <= j < i ==> (#[trigger] parts@[j])@ == p@[j],
        decreases n - i,
    {
        parts.push(copy_bytes(&p.parts[i]));
        i = i + 1;
    }
    let r = FsPath { parts };
    assert(r@ =~= p@.subrange(0, n as int));
    r
}

/// Whether `a` is a proper ancestor of `p`: a strict prefix of its
/// components.
pub open spec fn is_proper_ancestor(a: Seq<Seq<u8>>, p: Seq<Seq<u8>>) -> bool {
    a.len() < p.len() && p.subrange(0, a.len() as int) == a
}

/// The directories that may be left empty once the file at `p` is gone,
/// nearest first: every ancestor of `p` strictly below `up_to`.
pub fn empty_parent_candidates(p: &FsPath, up_to: &FsPath) -> (r: Vec<FsPath>)
    requires
        is_proper_ancestor(up_to@, p@),
    ensures
        r@.len() == p@.len() - up_to@.len() - 1,
        forall|i: int|
            0 <= i < r@.len() ==> (#[trigger] r@[i])@ == p@.subrange(0, p@.len() - 1 - i),
{
    let mut r: Vec<FsPath> = Vec::new();
    let mut k: usize = p.parts.len() - 1;
    while k > up_to.parts.len()
        invariant
            up_to@.len() <= k < p@.len(),
            r@.len() == p@.len() - 1 - k,
            forall|i: int|
                0 <= i < r@.len() ==> (#[trigger] r@[i])@ == p@.subrange(0, p@.len() - 1 - i),
        decreases k,
    {
        r.push(prefix(p, k));
        k = k - 1;
    }
    r
}

/// What removing one empty-looking directory came to.
#[derive(Clone, Copy, Debug, PartialEq, Eq, Structural)]
pub enum DirRemoval {
    Removed,
    NotFound,
    NotEmpty,
    PermissionDenied,
    OtherFailure,
}

/// What to do after one directory removal while pruning empty parents.
#[derive(Clone, Copy, Debug, PartialEq, Eq, Structural)]
pub enum PruneStep {
    /// Go on with the next parent up.
    Continue,
    /// Stop; pruning is done.
    Stop,
    /// Stop and report the failure.
    Fail,
}

/// Decides how pruning goes on after a removal. A parent that is already
/// gone (another worker got it) or still holds files ends the walk
/// quietly; on Windows a denied removal is taken the same way, as the
/// directory may still be held open by a worker.
pub fn prune_step(outcome: DirRemoval, on_windows: bool) -> (r: PruneStep)
    ensures
        outcome == DirRemoval::Removed ==> r == PruneStep::Continue,
        outcome == DirRemoval::NotFound ==> r == PruneStep::Stop,
        outcome == DirRemoval::NotEmpty ==> r == PruneStep::Stop,
        outcome == DirRemoval::PermissionDenied ==> r == (if on_windows {
            PruneStep::Stop
        } else {
            PruneStep::Fail
        }),
        outcome == DirRemoval::OtherFailure ==> r == PruneStep::Fail,
{
    match outcome {
        DirRemoval::Removed => PruneStep::Continue,
        DirRemoval::NotFound => PruneStep::Stop,
        DirRemoval::NotEmpty => PruneStep::Stop,
        DirRemoval::PermissionDenied => {
            if on_windows {
                PruneStep::Stop
            } else {
                PruneStep::Fail
            }
        },
        DirRemoval::OtherFailure => PruneStep::Fail,
    }
}

} // verus!
