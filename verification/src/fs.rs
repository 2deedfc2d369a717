//! The filesystem side of workspace generation, as data.
//!
//! Creating directories and writing files on a real disk is left to the
//! embedding program. This module gives it a precise job description: an
//! [`FsAction`] is one directory creation or one file write, a plan is a
//! sequence of them, and [`MemFs`] is a filesystem model on which a plan's
//! effect — including exactly when and how it fails — is defined and proved.

use vstd::prelude::*;
use vstd::string::StringExecFns;

pub use cargo_toml::{CargoToml, Dependency, PackageSection, WorkspaceSection};

pub mod cargo_toml;

use cargo_toml::SpecCargoToml;

verus! {

/// Everything that can go wrong when a workspace is materialized.
#[derive(Clone, Copy, Debug, PartialEq, Eq, Structural)]
pub enum IOError {
    /// A path cannot be represented as text for the filesystem interface.
    InvalidPath,
    /// The target of a creation without overwrite already exists.
    AlreadyExists,
    /// Any other failure reported by the operating system.
    UnderlyingIOError,
    /// The manifest table could not be encoded.
    SerializationError,
}

#[verifier::external_type_specification]
#[verifier::external_body]
pub struct ExPathBuf(std::path::PathBuf);

/// Relies on `Path::to_str`: the borrowed text of the path, when the path is
/// valid text. Only the failure side is stated: a failed unpacking is always
/// an invalid path, never another error.
#[verifier::external_body]
pub fn unpack_path(path: &std::path::PathBuf) -> (r: Result<&str, IOError>)
    ensures
        match r {
            Ok(_) => true,
            Err(e) => e == IOError::InvalidPath,
        },
{
    match path.to_str() {
        Some(s) => Ok(s),
        None => Err(IOError::InvalidPath),
    }
}

/// What one generated file holds: fixed stub text, or a manifest whose text
/// encoding the embedding program produces from the structured table.
pub enum FileContent {
    Text(String),
    Manifest(CargoToml),
}

/// Mathematical image of a [`FileContent`].
pub enum SpecFileContent {
    Text(Seq<char>),
    Manifest(SpecCargoToml),
}

impl View for FileContent {
    type V = SpecFileContent;

    open spec fn view(&self) -> SpecFileContent {
        match self {
            FileContent::Text(s) => SpecFileContent::Text(s@),
            FileContent::Manifest(m) => SpecFileContent::Manifest(m@),
        }
    }
}

impl DeepView for FileContent {
    type V = SpecFileContent;

    open spec fn deep_view(&self) -> SpecFileContent {
        self.view()
    }
}

/// One step of materializing a workspace. Paths are sequences of segments
/// relative to the working directory; the embedding program joins them with
/// its separator.
pub enum FsAction {
    CreateDir(Vec<String>),
    WriteFile(Vec<String>, FileContent),
}

/// Mathematical image of an [`FsAction`].
pub enum SpecFsAction {
    CreateDir(Seq<Seq<char>>),
    WriteFile(Seq<Seq<char>>, SpecFileContent),
}

impl View for FsAction {
    type V = SpecFsAction;

    open spec fn view(&self) -> SpecFsAction {
        match self {
            FsAction::CreateDir(p) => SpecFsAction::CreateDir(p.deep_view()),
            FsAction::WriteFile(p, c) => SpecFsAction::WriteFile(p.deep_view(), c.deep_view()),
        }
    }
}

impl DeepView for FsAction {
    type V = SpecFsAction;

    open spec fn deep_view(&self) -> SpecFsAction {
        self.view()
    }
}

/// One node of the filesystem model.
pub enum FsEntry {
    Directory,
    File(FileContent),
}

/// Mathematical image of an [`FsEntry`].
pub enum SpecFsEntry {
    Directory,
    File(SpecFileContent),
}

impl View for FsEntry {
    type V = SpecFsEntry;

    open spec fn view(&self) -> SpecFsEntry {
        match self {
            FsEntry::Directory => SpecFsEntry::Directory,
            FsEntry::File(c) => SpecFsEntry::File(c.deep_view()),
        }
    }
}

impl DeepView for FsEntry {
    type V = SpecFsEntry;

    open spec fn deep_view(&self) -> SpecFsEntry {
        self.view()
    }
}

/// A path bound to what sits at it.
pub struct MemFsEntry {
    pub path: Vec<String>,
    pub entry: FsEntry,
}

/// Mathematical image of a [`MemFsEntry`].
pub struct SpecMemFsEntry {
    pub path: Seq<Seq<char>>,
    pub entry: SpecFsEntry,
}

impl View for MemFsEntry {
    type V = SpecMemFsEntry;

    open spec fn view(&self) -> SpecMemFsEntry {
        SpecMemFsEntry { path: self.path.deep_view(), entry: self.entry.deep_view() }
    }
}

impl DeepView for MemFsEntry {
    type V = SpecMemFsEntry;

    open spec fn deep_view(&self) -> SpecMemFsEntry {
        self.view()
    }
}

/// The filesystem model: the nodes created so far, in creation order.
pub struct MemFs {
    pub entries: Vec<MemFsEntry>,
}

impl View for MemFs {
    type V = Seq<SpecMemFsEntry>;

    open spec fn view(&self) -> Seq<SpecMemFsEntry> {
        self.entries.deep_view()
    }
}

/// Some node of the model sits at `path`.
pub open spec fn fs_contains(fs: Seq<SpecMemFsEntry>, path: Seq<Seq<char>>) -> bool {
    exists|k: int| 0 <= k < fs.len() && fs[k].path == path
}

/// The node at `path`, when one is there.
pub open spec fn fs_entry_at(fs: Seq<SpecMemFsEntry>, path: Seq<Seq<char>>) -> SpecFsEntry {
    let k = choose|k: int| 0 <= k < fs.len() && fs[k].path == path;
    fs[k].entry
}

/// No two nodes of the model share a path.
pub open spec fn fs_wf(fs: Seq<SpecMemFsEntry>) -> bool {
    forall|k1: int, k2: int| 0 <= k1 < k2 < fs.len() ==> fs[k1].path != fs[k2].path
}

/// A node can be created at `path` only under an existing directory; a
/// single-segment path sits under the working directory itself.
pub open spec fn fs_parent_ok(fs: Seq<SpecMemFsEntry>, path: Seq<Seq<char>>) -> bool {
    path.len() == 1 || (fs_contains(fs, path.drop_last()) && fs_entry_at(
        fs,
        path.drop_last(),
    ) is Directory)
}

/// The effect of one action on the model: the new model on success, the
/// reason on failure — an empty path is invalid, an occupied path must not
/// be created again (a file write onto a directory is not an overwrite but
/// an ordinary failure), and the parent directory must already be there.
pub open spec fn spec_apply_action(fs: Seq<SpecMemFsEntry>, a: SpecFsAction) -> Result<
    Seq<SpecMemFsEntry>,
    IOError,
> {
    match a {
        SpecFsAction::CreateDir(p) => {
            if p.len() == 0 {
                Err(IOError::InvalidPath)
            } else if fs_contains(fs, p) {
                Err(IOError::AlreadyExists)
            } else if !fs_parent_ok(fs, p) {
                Err(IOError::UnderlyingIOError)
            } else {
                Ok(fs.push(SpecMemFsEntry { path: p, entry: SpecFsEntry::Directory }))
            }
        },
        SpecFsAction::WriteFile(p, c) => {
            if p.len() == 0 {
                Err(IOError::InvalidPath)
            } else if fs_contains(fs, p) {
                if fs_entry_at(fs, p) is Directory {
                    Err(IOError::UnderlyingIOError)
                } else {
                    Err(IOError::AlreadyExists)
                }
            } else if !fs_parent_ok(fs, p) {
                Err(IOError::UnderlyingIOError)
            } else {
                Ok(fs.push(SpecMemFsEntry { path: p, entry: SpecFsEntry::File(c) }))
            }
        },
    }
}

/// The effect of a plan, applied front to back and stopped at the first
/// failure: the model as it then stands — earlier actions keep their effect,
/// there is no rollback — and the failure, if one came.
pub open spec fn spec_apply(fs: Seq<SpecMemFsEntry>, actions: Seq<SpecFsAction>) -> (
    Seq<SpecMemFsEntry>,
    Option<IOError>,
)
    decreases actions.len(),
{
    if actions.len() == 0 {
        (fs, None)
    } else {
        match spec_apply_action(fs, actions[0]) {
            Ok(fs2) => spec_apply(fs2, actions.drop_first()),
            Err(e) => (fs, Some(e)),
        }
    }
}

/// The effect of one action alone.
pub proof fn lemma_apply_one(fs: Seq<SpecMemFsEntry>, a: SpecFsAction)
    ensures
        spec_apply(fs, seq![a]) == (match spec_apply_action(fs, a) {
            Ok(fs2) => (fs2, None::<IOError>),
            Err(e) => (fs, Some(e)),
        }),
{
    assert(seq![a].len() == 1);
    assert(seq![a][0] == a);
    assert(seq![a].drop_first() =~= Seq::<SpecFsAction>::empty());
    match spec_apply_action(fs, a) {
        Ok(fs2) => {
            assert(spec_apply(fs, seq![a]) == spec_apply(fs2, seq![a].drop_first()));
            assert(spec_apply(fs2, seq![a].drop_first()) == (fs2, None::<IOError>));
        },
        Err(e) => {
            assert(spec_apply(fs, seq![a]) == (fs, Some(e)));
        },
    }
}

/// Applying a concatenation is applying the front part, then — when it went
/// through — the back part on what the front produced.
pub proof fn lemma_apply_split(fs: Seq<SpecMemFsEntry>, a: Seq<SpecFsAction>, b: Seq<SpecFsAction>)
    ensures
        spec_apply(fs, a + b) == ({
            let (f1, e1) = spec_apply(fs, a);
            if e1 is None {
                spec_apply(f1, b)
            } else {
                (f1, e1)
            }
        }),
    decreases a.len(),
{
    if a.len() == 0 {
        assert(a + b =~= b);
    } else {
        assert((a + b)[0] == a[0]);
        match spec_apply_action(fs, a[0]) {
            Ok(fs2) => {
                assert((a + b).drop_first() =~= a.drop_first() + b);
                lemma_apply_split(fs2, a.drop_first(), b);
            },
            Err(_) => {},
        }
    }
}

/// Adding a node at a fresh path keeps the model well formed.
pub proof fn lemma_push_wf(fs: Seq<SpecMemFsEntry>, e: SpecMemFsEntry)
    requires
        fs_wf(fs),
        !fs_contains(fs, e.path),
    ensures
        fs_wf(fs.push(e)),
{
    assert forall|k1: int, k2: int| 0 <= k1 < k2 < fs.push(e).len() implies fs.push(e)[k1].path
        != fs.push(e)[k2].path by {
        assert(fs.push(e)[k1] == fs[k1]);
        if k2 < fs.len() {
            assert(fs.push(e)[k2] == fs[k2]);
        }
    }
}

/// Adding a node at one path puts nothing at any other.
pub proof fn lemma_push_not_contains(fs: Seq<SpecMemFsEntry>, e: SpecMemFsEntry, p: Seq<Seq<char>>)
    requires
        !fs_contains(fs, p),
        e.path != p,
    ensures
        !fs_contains(fs.push(e), p),
{
    if fs_contains(fs.push(e), p) {
        let k = choose|k: int| 0 <= k < fs.push(e).len() && fs.push(e)[k].path == p;
        if k < fs.len() {
            assert(fs.push(e)[k] == fs[k]);
            assert(fs_contains(fs, p));
        }
        assert(false);
    }
}

/// A path's segments joined with `/`.
pub open spec fn spec_path_text(path: Seq<Seq<char>>) -> Seq<char>
    decreases path.len(),
{
    if path.len() == 0 {
        Seq::empty()
    } else if path.len() == 1 {
        path[0]
    } else {
        spec_path_text(path.drop_last()) + "/"@ + path.last()
    }
}

/// The text of a segment path: the segments joined with `/`, for handing to
/// a filesystem interface that takes one string.
pub fn path_text(path: &Vec<String>) -> (r: String)
    ensures
        r@ == spec_path_text(path.deep_view()),
{
    let ghost dv = path.deep_view();
    let mut r = String::new();
    let mut i: usize = 0;
    proof {
        assert(dv.take(0) =~= Seq::<Seq<char>>::empty());
    }
    while i < path.len()
        invariant
            dv == path.deep_view(),
            dv.len() == path@.len(),
            0 <= i <= path@.len(),
            r@ == spec_path_text(dv.take(i as int)),
        decreases path@.len() - i,
    {
        if i > 0 {
            r.append("/");
        }
        r.append(path[i].as_str());
        proof {
            assert(dv.take(i as int + 1).drop_last() =~= dv.take(i as int));
            assert(dv.take(i as int + 1).last() == dv[i as int]);
        }
        i = i + 1;
    }
    proof {
        assert(dv.take(path@.len() as int) =~= dv);
    }
    r
}

/// In a well-formed model the node found at some index is the node that
/// lookup by its path gives.
pub proof fn lemma_entry_at(fs: Seq<SpecMemFsEntry>, k: int)
    requires
        fs_wf(fs),
        0 <= k < fs.len(),
    ensures
        fs_contains(fs, fs[k].path),
        fs_entry_at(fs, fs[k].path) == fs[k].entry,
{
    let p = fs[k].path;
    assert(fs_contains(fs, p));
    let k2 = choose|k2: int| 0 <= k2 < fs.len() && fs[k2].path == p;
    if k2 < k {
        assert(fs[k2].path != fs[k].path);
    } else if (k < k2) {
        assert(fs[k].path != fs[k2].path);
    }
}

/// The first `n` segments of a path, as a fresh vector.
pub(crate) fn prefix_path(p: &Vec<String>, n: usize) -> (r: Vec<String>)
    requires
        n <= p@.len(),
    ensures
        r.deep_view() == p.deep_view().subrange(0, n as int),
{
    let mut r: Vec<String> = Vec::new();
    let mut k: usize = 0;
    while k < n
        invariant
            k <= n <= p@.len(),
            r@.len() == k,
            forall|j: int| 0 <= j < k ==> r@[j]@ == p@[j]@,
        decreases n - k,
    {
        r.push(p[k].clone());
        k = k + 1;
    }
    proof {
        assert(r.deep_view() =~= p.deep_view().subrange(0, n as int));
    }
    r
}

fn paths_equal(a: &Vec<String>, b: &Vec<String>) -> (r: bool)
    ensures
        r == (a.deep_view() == b.deep_view()),
{
    if a.len() != b.len() {
        proof {
            assert(a.deep_view().len() == a@.len());
            assert(b.deep_view().len() == b@.len());
        }
        return false;
    }
    let n = a.len();
    let mut k: usize = 0;
    while k < n
        invariant
            n == a@.len() && n == b@.len(),
            0 <= k <= n,
            forall|j: int| 0 <= j < k ==> a@[j]@ == b@[j]@,
        decreases n - k,
    {
        if a[k] == b[k] {
            k = k + 1;
        } else {
            proof {
                assert(a.deep_view()[k as int] != b.deep_view()[k as int]);
            }
            return false;
        }
    }
    proof {
        assert(a.deep_view() =~= b.deep_view());
    }
    true
}

fn clone_manifest(m: &CargoToml) -> (r: CargoToml)
    ensures
        r@ == m@,
{
    let package = match &m.package {
        Some(p) => Some(
            PackageSection {
                pkg_name: p.pkg_name.clone(),
                pkg_version: p.pkg_version.clone(),
                pkg_edition: p.pkg_edition.clone(),
            },
        ),
        None => None,
    };
    let dependencies = match &m.dependencies {
        Some(ds) => {
            let mut v: Vec<Dependency> = Vec::new();
            let mut k: usize = 0;
            while k < ds.len()
                invariant
                    k <= ds@.len(),
                    v@.len() == k,
                    forall|j: int| 0 <= j < k ==> v@[j]@ == ds@[j]@,
                decreases ds@.len() - k,
            {
                v.push(Dependency { name: ds[k].name.clone(), path: ds[k].path.clone() });
                k = k + 1;
            }
            proof {
                assert(v.deep_view() =~= ds.deep_view());
            }
            Some(v)
        },
        None => None,
    };
    let workspace = match &m.workspace {
        Some(w) => {
            let members = prefix_path(&w.members, w.members.len());
            proof {
                assert(members.deep_view() =~= w.members.deep_view());
            }
            Some(WorkspaceSection { members })
        },
        None => None,
    };
    CargoToml { package, dependencies, workspace }
}

fn clone_content(c: &FileContent) -> (r: FileContent)
    ensures
        r.deep_view() == c.deep_view(),
{
    match c {
        FileContent::Text(s) => FileContent::Text(s.clone()),
        FileContent::Manifest(m) => FileContent::Manifest(clone_manifest(m)),
    }
}

impl MemFs {
    /// A model with nothing in it.
    pub fn new() -> (r: MemFs)
        ensures
            r@ == Seq::<SpecMemFsEntry>::empty(),
            fs_wf(r@),
    {
        let r = MemFs { entries: Vec::new() };
        proof {
            assert(r@ =~= Seq::<SpecMemFsEntry>::empty());
        }
        r
    }

    fn find(&self, path: &Vec<String>) -> (r: Option<usize>)
        ensures
            match r {
                Some(k) => 0 <= k < self@.len() && self@[k as int].path == path.deep_view(),
                None => !fs_contains(self@, path.deep_view()),
            },
    {
        let n = self.entries.len();
        let mut k: usize = 0;
        while k < n
            invariant
                n == self.entries@.len(),
                0 <= k <= n,
                forall|j: int| 0 <= j < k ==> self@[j].path != path.deep_view(),
            decreases n - k,
        {
            if paths_equal(&self.entries[k].path, path) {
                return Some(k);
            }
            k = k + 1;
        }
        None
    }

    /// Puts a directory at `path`, exactly as [`spec_apply_action`] describes:
    /// the path must be non-empty, free and under an existing directory, and
    /// nothing changes on failure.
    pub fn create_dir(&mut self, path: &Vec<String>) -> (r: Result<(), IOError>)
        requires
            fs_wf(old(self)@),
        ensures
            fs_wf(final(self)@),
            ({
                let res = spec_apply_action(
                    old(self)@,
                    SpecFsAction::CreateDir(path.deep_view()),
                );
                match r {
                    Ok(()) => res == Ok::<Seq<SpecMemFsEntry>, IOError>(final(self)@),
                    Err(e) => res == Err::<Seq<SpecMemFsEntry>, IOError>(e) && final(self)@
                        == old(self)@,
                }
            }),
    {
        if path.len() == 0 {
            return Err(IOError::InvalidPath);
        }
        if let Some(_) = self.find(path) {
            return Err(IOError::AlreadyExists);
        }
        if path.len() > 1 {
            let parent = prefix_path(path, path.len() - 1);
            proof {
                assert(parent.deep_view() =~= path.deep_view().drop_last());
            }
            match self.find(&parent) {
                None => {
                    return Err(IOError::UnderlyingIOError);
                },
                Some(k) => {
                    proof {
                        lemma_entry_at(self@, k as int);
                    }
                    match &self.entries[k].entry {
                        FsEntry::Directory => {},
                        FsEntry::File(_) => {
                            return Err(IOError::UnderlyingIOError);
                        },
                    }
                },
            }
        }
        let entry = MemFsEntry { path: prefix_path(path, path.len()), entry: FsEntry::Directory };
        self.entries.push(entry);
        proof {
            assert(path.deep_view().subrange(0, path@.len() as int) =~= path.deep_view());
            assert(self@ =~= old(self)@.push(
                SpecMemFsEntry { path: path.deep_view(), entry: SpecFsEntry::Directory },
            ));
        }
        Ok(())
    }

    /// Puts a file at `path`, exactly as [`spec_apply_action`] describes: the
    /// path must be non-empty, free — a write onto an existing file or
    /// directory fails, there is no overwrite — and under an existing
    /// directory, and nothing changes on failure.
    pub fn write_file(&mut self, path: &Vec<String>, content: &FileContent) -> (r: Result<
        (),
        IOError,
    >)
        requires
            fs_wf(old(self)@),
        ensures
            fs_wf(final(self)@),
            ({
                let res = spec_apply_action(
                    old(self)@,
                    SpecFsAction::WriteFile(path.deep_view(), content.deep_view()),
                );
                match r {
                    Ok(()) => res == Ok::<Seq<SpecMemFsEntry>, IOError>(final(self)@),
                    Err(e) => res == Err::<Seq<SpecMemFsEntry>, IOError>(e) && final(self)@
                        == old(self)@,
                }
            }),
    {
        if path.len() == 0 {
            return Err(IOError::InvalidPath);
        }
        if let Some(k) = self.find(path) {
            proof {
                lemma_entry_at(self@, k as int);
            }
            match &self.entries[k].entry {
                FsEntry::Directory => {
                    return Err(IOError::UnderlyingIOError);
                },
                FsEntry::File(_) => {
                    return Err(IOError::AlreadyExists);
                },
            }
        }
        if path.len() > 1 {
            let parent = prefix_path(path, path.len() - 1);
            proof {
                assert(parent.deep_view() =~= path.deep_view().drop_last());
            }
            match self.find(&parent) {
                None => {
                    return Err(IOError::UnderlyingIOError);
                },
                Some(k) => {
                    proof {
                        lemma_entry_at(self@, k as int);
                    }
                    match &self.entries[k].entry {
                        FsEntry::Directory => {},
                        FsEntry::File(_) => {
                            return Err(IOError::UnderlyingIOError);
                        },
                    }
                },
            }
        }
        let entry = MemFsEntry {
            path: prefix_path(path, path.len()),
            entry: FsEntry::File(clone_content(content)),
        };
        self.entries.push(entry);
        proof {
            assert(path.deep_view().subrange(0, path@.len() as int) =~= path.deep_view());
            assert(self@ =~= old(self)@.push(
                SpecMemFsEntry {
                    path: path.deep_view(),
                    entry: SpecFsEntry::File(content.deep_view()),
                },
            ));
        }
        Ok(())
    }
}

/// Runs a plan against the model, front to back, stopping at the first
/// failure; the model ends exactly where [`spec_apply`] says, and the result
/// carries the failure [`spec_apply`] predicts, if any.
pub fn apply_actions(fs: &mut MemFs, actions: &Vec<FsAction>) -> (r: Result<(), IOError>)
    requires
        fs_wf(old(fs)@),
    ensures
        fs_wf(final(fs)@),
        ({
            let outcome = spec_apply(old(fs)@, actions.deep_view());
            final(fs)@ == outcome.0 && match r {
                Ok(()) => outcome.1 is None,
                Err(e) => outcome.1 == Some(e),
            }
        }),
{
    let n = actions.len();
    let mut i: usize = 0;
    proof {
        assert(actions.deep_view().skip(0) =~= actions.deep_view());
    }
    while i < n
        invariant
            n == actions@.len(),
            0 <= i <= n,
            fs_wf(fs@),
            spec_apply(fs@, actions.deep_view().skip(i as int)) == spec_apply(
                old(fs)@,
                actions.deep_view(),
            ),
        decreases n - i,
    {
        proof {
            let av = actions.deep_view();
            assert(av[i as int] == actions@[i as int].deep_view());
            assert(av.skip(i as int)[0] == av[i as int]);
            assert(av.skip(i as int).drop_first() =~= av.skip(i as int + 1));
        }
        let step = match &actions[i] {
            FsAction::CreateDir(p) => fs.create_dir(p),
            FsAction::WriteFile(p, c) => fs.write_file(p, c),
        };
        match step {
            Ok(()) => {
                i = i + 1;
            },
            Err(e) => {
                return Err(e);
            },
        }
    }
    proof {
        assert(actions.deep_view().skip(n as int) =~= Seq::<SpecFsAction>::empty());
    }
    Ok(())
}

} // verus!
