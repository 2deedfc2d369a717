//! The workspace: an optional root crate and an ordered collection of member
//! crates, and the projection of the whole onto a plan of filesystem actions.
//!
//! The workspace directory is created first, each member is materialized in
//! declaration order, then the root crate's stub, and the root manifest is
//! written last — its member list and dependency table are accumulated from
//! the members as they are materialized, never guessed in advance.

use vstd::prelude::*;
use vstd::string::StringExecFns;

use crate::crates::{
    spec_crate_actions, spec_default_edition, spec_default_version, spec_member_manifest,
    spec_stub_file, spec_stub_text, Crate, SpecCrate,
};
use crate::fs::cargo_toml::{
    SpecCargoToml, SpecDependency, SpecPackageSection, SpecWorkspaceSection,
};
use crate::fs::{
    fs_contains, fs_entry_at, fs_wf, lemma_apply_one, lemma_apply_split, lemma_entry_at,
    lemma_push_not_contains, lemma_push_wf, spec_apply, spec_apply_action, CargoToml, Dependency,
    FileContent, FsAction, IOError, PackageSection, SpecFileContent, SpecFsAction, SpecFsEntry,
    SpecMemFsEntry, WorkspaceSection,
};

verus! {

/// A workspace being put together: its name, the directory it will live in,
/// an optional root crate and the member crates in declaration order.
pub struct Workspace {
    pub project_name: String,
    pub directory_name: String,
    pub root_crate: Option<Crate>,
    pub crates: Vec<Crate>,
}

/// Mathematical image of a [`Workspace`].
pub struct SpecWorkspace {
    pub project_name: Seq<char>,
    pub directory_name: Seq<char>,
    pub root_crate: Option<SpecCrate>,
    pub crates: Seq<SpecCrate>,
}

impl View for Workspace {
    type V = SpecWorkspace;

    open spec fn view(&self) -> SpecWorkspace {
        SpecWorkspace {
            project_name: self.project_name@,
            directory_name: self.directory_name@,
            root_crate: self.root_crate.deep_view(),
            crates: self.crates.deep_view(),
        }
    }
}

impl DeepView for Workspace {
    type V = SpecWorkspace;

    open spec fn deep_view(&self) -> SpecWorkspace {
        self.view()
    }
}

/// The member directories, in declaration order: the root manifest's
/// `workspace.members` list.
pub open spec fn spec_member_dirs(crates: Seq<SpecCrate>) -> Seq<Seq<char>> {
    crates.map_values(|c: SpecCrate| c.directory_name)
}

/// The dependency entry a member flagged as a root dependency contributes:
/// its name, pointing at `./` followed by its directory.
pub open spec fn spec_dep_entry(c: SpecCrate) -> SpecDependency {
    SpecDependency { name: c.crate_name, path: "./"@ + c.directory_name }
}

/// The root manifest's dependency table: one entry per member flagged as a
/// root dependency, in declaration order.
pub open spec fn spec_dep_entries(crates: Seq<SpecCrate>) -> Seq<SpecDependency>
    decreases crates.len(),
{
    if crates.len() == 0 {
        Seq::empty()
    } else {
        let front = spec_dep_entries(crates.drop_last());
        if crates.last().as_dependency {
            front.push(spec_dep_entry(crates.last()))
        } else {
            front
        }
    }
}

/// The root manifest: a `workspace.members` list always — even when empty —
/// and, exactly when a root crate was chosen, a `package` section named
/// after the project and the dependency table of the flagged members.
pub open spec fn spec_root_manifest(w: SpecWorkspace) -> SpecCargoToml {
    SpecCargoToml {
        package: match w.root_crate {
            Some(_) => Some(
                SpecPackageSection {
                    pkg_name: w.project_name,
                    pkg_version: spec_default_version(),
                    pkg_edition: spec_default_edition(),
                },
            ),
            None => None,
        },
        dependencies: match w.root_crate {
            Some(_) => Some(spec_dep_entries(w.crates)),
            None => None,
        },
        workspace: Some(SpecWorkspaceSection { members: spec_member_dirs(w.crates) }),
    }
}

/// The members' actions, one crate after the other in declaration order.
pub open spec fn spec_members_actions(crates: Seq<SpecCrate>, root_dir: Seq<char>) -> Seq<
    SpecFsAction,
>
    decreases crates.len(),
{
    if crates.len() == 0 {
        Seq::empty()
    } else {
        spec_members_actions(crates.drop_last(), root_dir) + spec_crate_actions(
            crates.last(),
            root_dir,
        )
    }
}

/// The root crate's actions, when one was chosen.
pub open spec fn spec_root_crate_actions(w: SpecWorkspace) -> Seq<SpecFsAction> {
    match w.root_crate {
        Some(c) => spec_crate_actions(c, w.directory_name),
        None => Seq::empty(),
    }
}

/// The whole plan of a workspace: create the workspace directory, then every
/// member, then the root crate's stub, and write the root manifest last.
pub open spec fn spec_workspace_actions(w: SpecWorkspace) -> Seq<SpecFsAction> {
    seq![SpecFsAction::CreateDir(seq![w.directory_name])] + spec_members_actions(
        w.crates,
        w.directory_name,
    ) + spec_root_crate_actions(w) + seq![
        SpecFsAction::WriteFile(
            seq![w.directory_name, "Cargo.toml"@],
            SpecFileContent::Manifest(spec_root_manifest(w)),
        ),
    ]
}

/// Appends `tail` to `acc` and keeps the models aligned.
fn push_actions(acc: &mut Vec<FsAction>, tail: Vec<FsAction>)
    ensures
        final(acc).deep_view() == old(acc).deep_view() + tail.deep_view(),
{
    let ghost tail0 = tail.deep_view();
    let mut tail = tail;
    acc.append(&mut tail);
    proof {
        assert(acc.deep_view() =~= old(acc).deep_view() + tail0);
    }
}

/// The path a flagged member contributes to the dependency table.
fn dep_path(directory_name: &String) -> (r: String)
    ensures
        r@ == "./"@ + directory_name@,
{
    let mut r = "./".to_owned();
    r.append(directory_name.as_str());
    r
}

impl Workspace {
    /// An empty workspace for the project: no root crate and no members yet,
    /// placed in the given directory, or in one named after the project when
    /// none is given.
    pub fn new(project_name: &String, directory_name: &Option<String>) -> (r: Workspace)
        ensures
            r@.project_name == project_name@,
            r@.directory_name == (match directory_name.deep_view() {
                Some(d) => d,
                None => project_name@,
            }),
            r@.root_crate is None,
            r@.crates == Seq::<SpecCrate>::empty(),
    {
        let r = Workspace {
            project_name: project_name.clone(),
            directory_name: match directory_name {
                Some(name) => name.clone(),
                None => project_name.clone(),
            },
            root_crate: None,
            crates: Vec::new(),
        };
        proof {
            assert(r@.crates =~= Seq::<SpecCrate>::empty());
        }
        r
    }

    /// The root crate's actions followed by the write of the root manifest,
    /// from the member list and dependency table accumulated while the
    /// members were materialized.
    pub fn write_root_crate(&self, deps: Vec<Dependency>, members: Vec<String>) -> (r: Vec<
        FsAction,
    >)
        requires
            deps.deep_view() == spec_dep_entries(self@.crates),
            members.deep_view() == spec_member_dirs(self@.crates),
        ensures
            r.deep_view() == spec_root_crate_actions(self@) + seq![
                SpecFsAction::WriteFile(
                    seq![self@.directory_name, "Cargo.toml"@],
                    SpecFileContent::Manifest(spec_root_manifest(self@)),
                ),
            ],
    {
        let mut actions: Vec<FsAction> = Vec::new();
        proof {
            assert(actions.deep_view() =~= Seq::<SpecFsAction>::empty());
        }
        match &self.root_crate {
            Some(c) => {
                let crate_actions = c.write_to_disk(&self.directory_name);
                push_actions(&mut actions, crate_actions);
                proof {
                    assert(actions.deep_view() =~= spec_root_crate_actions(self@));
                }
            },
            None => {},
        }
        let manifest = CargoToml {
            package: match &self.root_crate {
                Some(_) => Some(
                    PackageSection {
                        pkg_name: self.project_name.clone(),
                        pkg_version: "0.1.0".to_owned(),
                        pkg_edition: "2021".to_owned(),
                    },
                ),
                None => None,
            },
            dependencies: match &self.root_crate {
                Some(_) => Some(deps),
                None => None,
            },
            workspace: Some(WorkspaceSection { members }),
        };
        proof {
            assert(manifest@ == spec_root_manifest(self@));
        }
        let mut manifest_path: Vec<String> = Vec::new();
        manifest_path.push(self.directory_name.clone());
        manifest_path.push("Cargo.toml".to_owned());
        proof {
            assert(manifest_path.deep_view() =~= seq![self@.directory_name, "Cargo.toml"@]);
        }
        let ghost before = actions.deep_view();
        actions.push(FsAction::WriteFile(manifest_path, FileContent::Manifest(manifest)));
        proof {
            assert(actions.deep_view() =~= before + seq![
                SpecFsAction::WriteFile(
                    seq![self@.directory_name, "Cargo.toml"@],
                    SpecFileContent::Manifest(spec_root_manifest(self@)),
                ),
            ]);
        }
        actions
    }

    /// The whole plan that materializes this workspace, exactly as
    /// [`spec_workspace_actions`] lays it out: the workspace directory, the
    /// members in declaration order, the root crate's stub, the root
    /// manifest last.
    pub fn write_to_disk(&self) -> (r: Vec<FsAction>)
        ensures
            r.deep_view() == spec_workspace_actions(self@),
    {
        let mut actions: Vec<FsAction> = Vec::new();
        let mut root_path: Vec<String> = Vec::new();
        root_path.push(self.directory_name.clone());
        proof {
            assert(root_path.deep_view() =~= seq![self@.directory_name]);
        }
        actions.push(FsAction::CreateDir(root_path));
        let ghost first = seq![SpecFsAction::CreateDir(seq![self@.directory_name])];
        proof {
            assert(actions.deep_view() =~= first);
        }

        let mut deps: Vec<Dependency> = Vec::new();
        let mut members: Vec<String> = Vec::new();
        let ghost cs = self@.crates;
        proof {
            assert(cs.take(0) =~= Seq::<SpecCrate>::empty());
            assert(deps.deep_view() =~= spec_dep_entries(cs.take(0)));
            assert(members.deep_view() =~= spec_member_dirs(cs.take(0)));
        }
        let n = self.crates.len();
        let mut i: usize = 0;
        while i < n
            invariant
                n == self.crates@.len(),
                0 <= i <= n,
                cs == self@.crates,
                cs.len() == n,
                actions.deep_view() == first + spec_members_actions(
                    cs.take(i as int),
                    self@.directory_name,
                ),
                deps.deep_view() == spec_dep_entries(cs.take(i as int)),
                members.deep_view() == spec_member_dirs(cs.take(i as int)),
            decreases n - i,
        {
            let member = &self.crates[i];
            proof {
                assert(member@ == cs[i as int]);
                assert(cs.take(i as int + 1).drop_last() =~= cs.take(i as int));
                assert(cs.take(i as int + 1).last() == cs[i as int]);
            }
            let ghost members0 = members.deep_view();
            let ghost deps0 = deps.deep_view();
            let crate_actions = member.write_to_disk(&self.directory_name);
            push_actions(&mut actions, crate_actions);
            members.push(member.directory_name.clone());
            if member.as_dependency {
                deps.push(
                    Dependency {
                        name: member.crate_name.clone(),
                        path: dep_path(&member.directory_name),
                    },
                );
                proof {
                    assert(deps.deep_view() =~= deps0.push(spec_dep_entry(cs[i as int])));
                }
            }
            proof {
                assert(actions.deep_view() =~= first + spec_members_actions(
                    cs.take(i as int + 1),
                    self@.directory_name,
                ));
                assert(members.deep_view() =~= members0.push(cs[i as int].directory_name));
                assert(spec_member_dirs(cs.take(i as int + 1)) =~= members0.push(
                    cs[i as int].directory_name,
                ));
                assert(deps.deep_view() =~= spec_dep_entries(cs.take(i as int + 1)));
            }
            i = i + 1;
        }
        proof {
            assert(cs.take(n as int) =~= cs);
        }
        let tail = self.write_root_crate(deps, members);
        push_actions(&mut actions, tail);
        proof {
            assert(actions.deep_view() =~= spec_workspace_actions(self@));
        }
        actions
    }
}

/// Each member flagged as a root dependency appears in the dependency table:
/// its name, with the path `./` followed by its directory.
pub proof fn lemma_dep_entries_complete(crates: Seq<SpecCrate>, i: int) -> (k: int)
    requires
        0 <= i < crates.len(),
        crates[i].as_dependency,
    ensures
        0 <= k < spec_dep_entries(crates).len(),
        spec_dep_entries(crates)[k] == spec_dep_entry(crates[i]),
    decreases crates.len(),
{
    let front = spec_dep_entries(crates.drop_last());
    if i == crates.len() - 1 {
        front.len() as int
    } else {
        let k = lemma_dep_entries_complete(crates.drop_last(), i);
        assert(crates.drop_last()[i] == crates[i]);
        k
    }
}

/// Every entry of the dependency table comes from a member flagged as a root
/// dependency, with that member's name and directory.
pub proof fn lemma_dep_entries_sound(crates: Seq<SpecCrate>, k: int) -> (i: int)
    requires
        0 <= k < spec_dep_entries(crates).len(),
    ensures
        0 <= i < crates.len(),
        crates[i].as_dependency,
        spec_dep_entries(crates)[k] == spec_dep_entry(crates[i]),
    decreases crates.len(),
{
    let front = spec_dep_entries(crates.drop_last());
    if crates.last().as_dependency && k == front.len() {
        crates.len() - 1
    } else {
        let i = lemma_dep_entries_sound(crates.drop_last(), k);
        assert(crates.drop_last()[i] == crates[i]);
        i
    }
}

/// The root manifest's member list has exactly one entry per member crate,
/// in declaration order: entry `i` is member `i`'s directory.
pub proof fn lemma_root_manifest_members(w: SpecWorkspace)
    ensures
        spec_root_manifest(w).workspace is Some,
        spec_root_manifest(w).workspace->Some_0.members.len() == w.crates.len(),
        forall|i: int|
            0 <= i < w.crates.len() ==> spec_root_manifest(w).workspace->Some_0.members[i]
                == w.crates[i].directory_name,
{
}

/// The root manifest holds a `package` section — named after the project —
/// and a `dependencies` table exactly when a root crate was chosen, and a
/// member list in every case.
pub proof fn lemma_root_manifest_sections(w: SpecWorkspace)
    ensures
        spec_root_manifest(w).package is Some <==> w.root_crate is Some,
        spec_root_manifest(w).dependencies is Some <==> w.root_crate is Some,
        spec_root_manifest(w).workspace is Some,
        w.root_crate is Some ==> spec_root_manifest(w).package->Some_0.pkg_name == w.project_name,
{
}

/// Member `i`'s name and directory appear as an entry of the dependency
/// table.
pub open spec fn spec_member_in_dep_entries(crates: Seq<SpecCrate>, i: int) -> bool {
    exists|k: int|
        0 <= k < spec_dep_entries(crates).len() && spec_dep_entries(crates)[k] == spec_dep_entry(
            crates[i],
        )
}

/// Entry `k` of the dependency table carries the name and directory of some
/// member flagged as a root dependency.
pub open spec fn spec_dep_entry_from_member(crates: Seq<SpecCrate>, k: int) -> bool {
    exists|i: int|
        0 <= i < crates.len() && crates[i].as_dependency && spec_dep_entries(crates)[k]
            == spec_dep_entry(crates[i])
}

/// When a root crate was chosen, the root manifest's dependency table holds
/// an entry for each member flagged as a root dependency — its name, with
/// the path `./` followed by its directory — and nothing else.
pub proof fn lemma_root_manifest_dependencies(w: SpecWorkspace)
    requires
        w.root_crate is Some,
    ensures
        spec_root_manifest(w).dependencies == Some(spec_dep_entries(w.crates)),
        forall|i: int| #![trigger w.crates[i]]
            0 <= i < w.crates.len() && w.crates[i].as_dependency ==> spec_member_in_dep_entries(
                w.crates,
                i,
            ),
        forall|k: int|
            0 <= k < spec_dep_entries(w.crates).len() ==> #[trigger] spec_dep_entry_from_member(
                w.crates,
                k,
            ),
{
    assert forall|i: int| #![trigger w.crates[i]]
        0 <= i < w.crates.len() && w.crates[i].as_dependency implies spec_member_in_dep_entries(
        w.crates,
        i,
    ) by {
        let k = lemma_dep_entries_complete(w.crates, i);
        assert(0 <= k < spec_dep_entries(w.crates).len() && spec_dep_entries(w.crates)[k]
            == spec_dep_entry(w.crates[i]));
    }
    assert forall|k: int|
        0 <= k < spec_dep_entries(w.crates).len() implies #[trigger] spec_dep_entry_from_member(
        w.crates,
        k,
    ) by {
        let i = lemma_dep_entries_sound(w.crates, k);
        assert(0 <= i < w.crates.len() && w.crates[i].as_dependency && spec_dep_entries(
            w.crates,
        )[k] == spec_dep_entry(w.crates[i]));
    }
}

/// Materializing a workspace whose target directory already exists fails at
/// once with `AlreadyExists`, and the filesystem is left exactly as it was:
/// no file or directory is created.
pub proof fn lemma_existing_dir_fails(fs: Seq<SpecMemFsEntry>, w: SpecWorkspace)
    requires
        fs_contains(fs, seq![w.directory_name]),
    ensures
        spec_apply(fs, spec_workspace_actions(w)) == (fs, Some(IOError::AlreadyExists)),
{
    let plan = spec_workspace_actions(w);
    assert(plan[0] == SpecFsAction::CreateDir(seq![w.directory_name]));
    assert(seq![w.directory_name].len() == 1);
}


/// The node the workspace directory itself becomes.
pub open spec fn spec_workspace_dir_entry(d: Seq<char>) -> SpecMemFsEntry {
    SpecMemFsEntry { path: seq![d], entry: SpecFsEntry::Directory }
}

/// The nodes one member's actions create, in creation order.
pub open spec fn spec_member_entries(c: SpecCrate, d: Seq<char>) -> Seq<SpecMemFsEntry> {
    seq![
        SpecMemFsEntry { path: seq![d, c.directory_name], entry: SpecFsEntry::Directory },
        SpecMemFsEntry { path: seq![d, c.directory_name, "src"@], entry: SpecFsEntry::Directory },
        SpecMemFsEntry {
            path: seq![d, c.directory_name, "src"@, spec_stub_file(c.binary)],
            entry: SpecFsEntry::File(SpecFileContent::Text(spec_stub_text(c.binary))),
        },
        SpecMemFsEntry {
            path: seq![d, c.directory_name, "Cargo.toml"@],
            entry: SpecFsEntry::File(SpecFileContent::Manifest(spec_member_manifest(c))),
        },
    ]
}

/// The nodes all members create, member after member.
pub open spec fn spec_members_entries(crates: Seq<SpecCrate>, d: Seq<char>) -> Seq<SpecMemFsEntry>
    decreases crates.len(),
{
    if crates.len() == 0 {
        Seq::empty()
    } else {
        spec_members_entries(crates.drop_last(), d) + spec_member_entries(crates.last(), d)
    }
}

/// Every node a member creates lies under that member's directory: the
/// second segment of its path is the member's directory name.
proof fn lemma_members_entries_path(crates: Seq<SpecCrate>, d: Seq<char>, k: int) -> (j: int)
    requires
        0 <= k < spec_members_entries(crates, d).len(),
    ensures
        0 <= j < crates.len(),
        spec_members_entries(crates, d)[k].path.len() >= 2,
        spec_members_entries(crates, d)[k].path[1] == crates[j].directory_name,
    decreases crates.len(),
{
    let front = spec_members_entries(crates.drop_last(), d);
    if k < front.len() {
        let j = lemma_members_entries_path(crates.drop_last(), d, k);
        assert(crates.drop_last()[j] == crates[j]);
        assert(spec_members_entries(crates, d)[k] == front[k]);
        j
    } else {
        let e = spec_member_entries(crates.last(), d);
        assert(spec_members_entries(crates, d)[k] == e[k - front.len()]);
        crates.len() - 1
    }
}

/// The workspace directory node plus the members' nodes leave free every
/// path whose second segment is no member's directory.
proof fn lemma_base_free(crates: Seq<SpecCrate>, d: Seq<char>, p: Seq<Seq<char>>)
    requires
        p.len() >= 2,
        forall|j: int| 0 <= j < crates.len() ==> crates[j].directory_name != p[1],
    ensures
        !fs_contains(seq![spec_workspace_dir_entry(d)] + spec_members_entries(crates, d), p),
{
    let base = seq![spec_workspace_dir_entry(d)] + spec_members_entries(crates, d);
    if fs_contains(base, p) {
        let k = choose|k: int| 0 <= k < base.len() && base[k].path == p;
        if k == 0 {
            assert(base[0] == spec_workspace_dir_entry(d));
            assert(base[0].path.len() == 1);
        } else {
            assert(base[k] == spec_members_entries(crates, d)[k - 1]);
            let j = lemma_members_entries_path(crates, d, k - 1);
            assert(p[1] == crates[j].directory_name);
        }
        assert(false);
    }
}

/// One member's actions, on a well-formed filesystem that holds the
/// workspace directory and nothing yet at the member's paths: everything
/// succeeds, and exactly the member's nodes are added.
proof fn lemma_member_apply(fs: Seq<SpecMemFsEntry>, c: SpecCrate, d: Seq<char>)
    requires
        !c.is_root,
        fs_wf(fs),
        fs_contains(fs, seq![d]),
        fs_entry_at(fs, seq![d]) is Directory,
        !fs_contains(fs, seq![d, c.directory_name]),
        !fs_contains(fs, seq![d, c.directory_name, "src"@]),
        !fs_contains(fs, seq![d, c.directory_name, "src"@, spec_stub_file(c.binary)]),
        !fs_contains(fs, seq![d, c.directory_name, "Cargo.toml"@]),
    ensures
        spec_apply(fs, spec_crate_actions(c, d)) == (
            fs + spec_member_entries(c, d),
            None::<IOError>,
        ),
        fs_wf(fs + spec_member_entries(c, d)),
{
    reveal_strlit("src");
    reveal_strlit("Cargo.toml");
    let m = c.directory_name;
    let p1 = seq![d, m];
    let p2 = seq![d, m, "src"@];
    let p3 = seq![d, m, "src"@, spec_stub_file(c.binary)];
    let p4 = seq![d, m, "Cargo.toml"@];
    let a1 = SpecFsAction::CreateDir(p1);
    let a2 = SpecFsAction::CreateDir(p2);
    let a3 = SpecFsAction::WriteFile(p3, SpecFileContent::Text(spec_stub_text(c.binary)));
    let a4 = SpecFsAction::WriteFile(p4, SpecFileContent::Manifest(spec_member_manifest(c)));
    let e1 = SpecMemFsEntry { path: p1, entry: SpecFsEntry::Directory };
    let e2 = SpecMemFsEntry { path: p2, entry: SpecFsEntry::Directory };
    let e3 = SpecMemFsEntry {
        path: p3,
        entry: SpecFsEntry::File(SpecFileContent::Text(spec_stub_text(c.binary))),
    };
    let e4 = SpecMemFsEntry {
        path: p4,
        entry: SpecFsEntry::File(SpecFileContent::Manifest(spec_member_manifest(c))),
    };

    assert(p1.len() == 2 && p2.len() == 3 && p3.len() == 4 && p4.len() == 3);
    assert("src"@.len() == 3);
    assert("Cargo.toml"@.len() == 10);
    assert(p2[2] != p4[2]);

    assert(spec_crate_actions(c, d) =~= seq![a1] + seq![a2] + seq![a3] + seq![a4]);
    lemma_apply_split(fs, seq![a1] + seq![a2] + seq![a3], seq![a4]);
    lemma_apply_split(fs, seq![a1] + seq![a2], seq![a3]);
    lemma_apply_split(fs, seq![a1], seq![a2]);

    lemma_apply_one(fs, a1);
    assert(p1.drop_last() =~= seq![d]);
    assert(spec_apply_action(fs, a1) == Ok::<Seq<SpecMemFsEntry>, IOError>(fs.push(e1)));
    let f1 = fs.push(e1);
    lemma_push_wf(fs, e1);
    assert(spec_apply(fs, seq![a1]) == (f1, None::<IOError>));

    lemma_apply_one(f1, a2);
    lemma_push_not_contains(fs, e1, p2);
    assert(p2.drop_last() =~= p1);
    assert(f1[fs.len() as int] == e1);
    lemma_entry_at(f1, fs.len() as int);
    assert(spec_apply_action(f1, a2) == Ok::<Seq<SpecMemFsEntry>, IOError>(f1.push(e2)));
    let f2 = f1.push(e2);
    lemma_push_wf(f1, e2);
    assert(spec_apply(fs, seq![a1] + seq![a2]) == (f2, None::<IOError>));

    lemma_apply_one(f2, a3);
    lemma_push_not_contains(fs, e1, p3);
    lemma_push_not_contains(f1, e2, p3);
    assert(p3.drop_last() =~= p2);
    assert(f2[f1.len() as int] == e2);
    lemma_entry_at(f2, f1.len() as int);
    assert(spec_apply_action(f2, a3) == Ok::<Seq<SpecMemFsEntry>, IOError>(f2.push(e3)));
    let f3 = f2.push(e3);
    lemma_push_wf(f2, e3);
    assert(spec_apply(fs, seq![a1] + seq![a2] + seq![a3]) == (f3, None::<IOError>));

    lemma_apply_one(f3, a4);
    lemma_push_not_contains(fs, e1, p4);
    lemma_push_not_contains(f1, e2, p4);
    lemma_push_not_contains(f2, e3, p4);
    assert(p4.drop_last() =~= p1);
    assert(f3[fs.len() as int] == e1);
    lemma_entry_at(f3, fs.len() as int);
    assert(spec_apply_action(f3, a4) == Ok::<Seq<SpecMemFsEntry>, IOError>(f3.push(e4)));
    let f4 = f3.push(e4);
    lemma_push_wf(f3, e4);
    assert(spec_apply(fs, seq![a1] + seq![a2] + seq![a3] + seq![a4]) == (f4, None::<IOError>));

    assert(f4 =~= fs + spec_member_entries(c, d));
}

/// All members' actions, run after the workspace directory was created on a
/// fresh filesystem: every step succeeds when the members' directories are
/// pairwise distinct.
proof fn lemma_members_apply(crates: Seq<SpecCrate>, d: Seq<char>)
    requires
        forall|i: int, j: int|
            0 <= i < j < crates.len() ==> crates[i].directory_name != crates[j].directory_name,
        forall|i: int| 0 <= i < crates.len() ==> !(#[trigger] crates[i]).is_root,
    ensures
        spec_apply(seq![spec_workspace_dir_entry(d)], spec_members_actions(crates, d)) == (
            seq![spec_workspace_dir_entry(d)] + spec_members_entries(crates, d),
            None::<IOError>,
        ),
        fs_wf(seq![spec_workspace_dir_entry(d)] + spec_members_entries(crates, d)),
    decreases crates.len(),
{
    let fs0 = seq![spec_workspace_dir_entry(d)];
    if crates.len() == 0 {
        assert(spec_apply(fs0, spec_members_actions(crates, d)) == (fs0, None::<IOError>));
        assert(fs0 + spec_members_entries(crates, d) =~= fs0);
        assert(fs_wf(fs0));
    } else {
        let front = crates.drop_last();
        let c = crates.last();
        assert(forall|i: int, j: int|
            0 <= i < j < front.len() ==> front[i].directory_name != front[j].directory_name);
        assert(forall|i: int| 0 <= i < front.len() ==> !(#[trigger] front[i]).is_root);
        lemma_members_apply(front, d);
        let base = fs0 + spec_members_entries(front, d);
        lemma_apply_split(fs0, spec_members_actions(front, d), spec_crate_actions(c, d));

        assert(base[0] == spec_workspace_dir_entry(d));
        lemma_entry_at(base, 0);

        let m = c.directory_name;
        assert(forall|j: int| 0 <= j < front.len() ==> (#[trigger] front[j]).directory_name != m);
        lemma_base_free(front, d, seq![d, m]);
        lemma_base_free(front, d, seq![d, m, "src"@]);
        lemma_base_free(front, d, seq![d, m, "src"@, spec_stub_file(c.binary)]);
        lemma_base_free(front, d, seq![d, m, "Cargo.toml"@]);
        assert(!c.is_root);
        lemma_member_apply(base, c, d);

        assert(base + spec_member_entries(c, d) =~= fs0 + spec_members_entries(crates, d));
        assert(spec_apply(fs0, spec_members_actions(crates, d)) == (
            fs0 + spec_members_entries(crates, d),
            None::<IOError>,
        ));
    }
}

/// Materializing a workspace on a fresh filesystem succeeds outright,
/// provided the members' directories are pairwise distinct and none of them
/// is called `src` — when a root crate claims that directory — or
/// `Cargo.toml`: every directory is created before anything is put into it,
/// and nothing is created twice.
pub proof fn lemma_fresh_fs_succeeds(w: SpecWorkspace)
    requires
        forall|i: int, j: int|
            0 <= i < j < w.crates.len() ==> w.crates[i].directory_name
                != w.crates[j].directory_name,
        forall|i: int| 0 <= i < w.crates.len() ==> !(#[trigger] w.crates[i]).is_root,
        forall|i: int|
            0 <= i < w.crates.len() ==> (#[trigger] w.crates[i]).directory_name != "Cargo.toml"@,
        w.root_crate is Some ==> w.root_crate->0.is_root,
        w.root_crate is Some ==> forall|i: int|
            0 <= i < w.crates.len() ==> (#[trigger] w.crates[i]).directory_name != "src"@,
    ensures
        spec_apply(Seq::empty(), spec_workspace_actions(w)).1 is None,
{
    reveal_strlit("src");
    reveal_strlit("Cargo.toml");
    let d = w.directory_name;
    let s1 = seq![SpecFsAction::CreateDir(seq![d])];
    let s2 = spec_members_actions(w.crates, d);
    let s3 = spec_root_crate_actions(w);
    let s4 = seq![
        SpecFsAction::WriteFile(
            seq![d, "Cargo.toml"@],
            SpecFileContent::Manifest(spec_root_manifest(w)),
        ),
    ];
    assert(spec_workspace_actions(w) == s1 + s2 + s3 + s4);
    lemma_apply_split(Seq::empty(), s1 + s2 + s3, s4);
    lemma_apply_split(Seq::empty(), s1 + s2, s3);
    lemma_apply_split(Seq::empty(), s1, s2);

    let e0 = spec_workspace_dir_entry(d);
    lemma_apply_one(Seq::empty(), SpecFsAction::CreateDir(seq![d]));
    assert(!fs_contains(Seq::empty(), seq![d]));
    assert(spec_apply_action(Seq::empty(), SpecFsAction::CreateDir(seq![d]))
        == Ok::<Seq<SpecMemFsEntry>, IOError>(Seq::empty().push(e0)));
    let fs0 = seq![e0];
    assert(Seq::empty().push(e0) =~= fs0);
    assert(spec_apply(Seq::empty(), s1) == (fs0, None::<IOError>));

    lemma_members_apply(w.crates, d);
    let base = fs0 + spec_members_entries(w.crates, d);
    assert(spec_apply(fs0, s2) == (base, None::<IOError>));
    assert(spec_apply(Seq::empty(), s1 + s2) == (base, None::<IOError>));

    assert(base[0] == e0);
    lemma_entry_at(base, 0);

    let p4 = seq![d, "Cargo.toml"@];
    assert(forall|j: int|
        0 <= j < w.crates.len() ==> (#[trigger] w.crates[j]).directory_name != p4[1]);
    lemma_base_free(w.crates, d, p4);

    match w.root_crate {
        None => {
            assert(s3 =~= Seq::<SpecFsAction>::empty());
            assert(spec_apply(base, s3) == (base, None::<IOError>));
            assert(spec_apply(Seq::empty(), s1 + s2 + s3) == (base, None::<IOError>));

            lemma_apply_one(base, s4[0]);
            assert(p4.drop_last() =~= seq![d]);
            assert(spec_apply_action(base, s4[0]) == Ok::<Seq<SpecMemFsEntry>, IOError>(
                base.push(
                    SpecMemFsEntry {
                        path: p4,
                        entry: SpecFsEntry::File(
                            SpecFileContent::Manifest(spec_root_manifest(w)),
                        ),
                    },
                ),
            ));
            assert(s4 =~= seq![s4[0]]);
            assert(spec_apply(Seq::empty(), spec_workspace_actions(w)).1 is None);
        },
        Some(c) => {
            let ps = seq![d, "src"@];
            let pstub = seq![d, "src"@, spec_stub_file(c.binary)];
            let a_src = SpecFsAction::CreateDir(ps);
            let a_stub = SpecFsAction::WriteFile(
                pstub,
                SpecFileContent::Text(spec_stub_text(c.binary)),
            );
            let e_src = SpecMemFsEntry { path: ps, entry: SpecFsEntry::Directory };
            let e_stub = SpecMemFsEntry {
                path: pstub,
                entry: SpecFsEntry::File(SpecFileContent::Text(spec_stub_text(c.binary))),
            };
            assert(s3 == spec_crate_actions(c, d));
            assert(s3 =~= seq![a_src] + seq![a_stub]);
            lemma_apply_split(base, seq![a_src], seq![a_stub]);

            lemma_apply_one(base, a_src);
            assert(forall|j: int|
                0 <= j < w.crates.len() ==> (#[trigger] w.crates[j]).directory_name != ps[1]);
            lemma_base_free(w.crates, d, ps);
            assert(ps.drop_last() =~= seq![d]);
            assert(spec_apply_action(base, a_src) == Ok::<Seq<SpecMemFsEntry>, IOError>(
                base.push(e_src),
            ));
            let fr1 = base.push(e_src);
            lemma_push_wf(base, e_src);
            assert(spec_apply(base, seq![a_src]) == (fr1, None::<IOError>));

            lemma_apply_one(fr1, a_stub);
            assert(forall|j: int|
                0 <= j < w.crates.len() ==> (#[trigger] w.crates[j]).directory_name != pstub[1]);
            lemma_base_free(w.crates, d, pstub);
            assert(ps.len() == 2 && pstub.len() == 3);
            lemma_push_not_contains(base, e_src, pstub);
            assert(pstub.drop_last() =~= ps);
            assert(fr1[base.len() as int] == e_src);
            lemma_entry_at(fr1, base.len() as int);
            assert(spec_apply_action(fr1, a_stub) == Ok::<Seq<SpecMemFsEntry>, IOError>(
                fr1.push(e_stub),
            ));
            let fr2 = fr1.push(e_stub);
            lemma_push_wf(fr1, e_stub);
            assert(spec_apply(base, s3) == (fr2, None::<IOError>));
            assert(spec_apply(Seq::empty(), s1 + s2 + s3) == (fr2, None::<IOError>));

            lemma_apply_one(fr2, s4[0]);
            assert("src"@.len() == 3);
            assert("Cargo.toml"@.len() == 10);
            assert(ps[1] != p4[1]);
            lemma_push_not_contains(base, e_src, p4);
            lemma_push_not_contains(fr1, e_stub, p4);
            assert(p4.drop_last() =~= seq![d]);
            assert(fr2[0] == e0);
            lemma_entry_at(fr2, 0);
            assert(spec_apply_action(fr2, s4[0]) == Ok::<Seq<SpecMemFsEntry>, IOError>(
                fr2.push(
                    SpecMemFsEntry {
                        path: p4,
                        entry: SpecFsEntry::File(
                            SpecFileContent::Manifest(spec_root_manifest(w)),
                        ),
                    },
                ),
            ));
            assert(s4 =~= seq![s4[0]]);
            assert(spec_apply(Seq::empty(), spec_workspace_actions(w)).1 is None);
        },
    }
}

} // verus!
