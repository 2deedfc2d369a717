//! One buildable unit of the workspace: the root crate or a member crate.
//!
//! A crate knows how to materialize itself as a sequence of filesystem
//! actions: its directory (members only), a `src` directory, one fixed
//! source stub — an executable `main` or a library `run` — and, for members,
//! its own manifest. The root crate writes no manifest of its own: the
//! workspace folds it into the root manifest it writes last.

use vstd::prelude::*;

use crate::fs::cargo_toml::{SpecCargoToml, SpecPackageSection};
use crate::fs::{CargoToml, FileContent, FsAction, PackageSection, SpecFileContent, SpecFsAction};

verus! {

/// A crate of the workspace, as collected from the user.
pub struct Crate {
    pub is_root: bool,
    pub crate_name: String,
    pub directory_name: String,
    pub as_dependency: bool,
    pub binary: bool,
}

/// Mathematical image of a [`Crate`].
pub struct SpecCrate {
    pub is_root: bool,
    pub crate_name: Seq<char>,
    pub directory_name: Seq<char>,
    pub as_dependency: bool,
    pub binary: bool,
}

impl View for Crate {
    type V = SpecCrate;

    open spec fn view(&self) -> SpecCrate {
        SpecCrate {
            is_root: self.is_root,
            crate_name: self.crate_name@,
            directory_name: self.directory_name@,
            as_dependency: self.as_dependency,
            binary: self.binary,
        }
    }
}

impl DeepView for Crate {
    type V = SpecCrate;

    open spec fn deep_view(&self) -> SpecCrate {
        self.view()
    }
}

/// The text of the stub for an executable crate.
pub open spec fn spec_main_stub() -> Seq<char> {
    "fn main() {\n    println!(\"Hello, world!\");\n}\n"@
}

/// The text of the stub for a library crate.
pub open spec fn spec_lib_stub() -> Seq<char> {
    "pub fn run() {\n    println!(\"Hello, world!\");\n}\n"@
}

/// The stub a crate gets: a `main` program for an executable crate, an
/// exported `run` function for a library crate.
pub open spec fn spec_stub_text(binary: bool) -> Seq<char> {
    if binary {
        spec_main_stub()
    } else {
        spec_lib_stub()
    }
}

/// The stub's file name under the crate's `src` directory.
pub open spec fn spec_stub_file(binary: bool) -> Seq<char> {
    if binary {
        "main.rs"@
    } else {
        "lib.rs"@
    }
}

/// The version every generated package starts at.
pub open spec fn spec_default_version() -> Seq<char> {
    "0.1.0"@
}

/// The edition every generated package uses.
pub open spec fn spec_default_edition() -> Seq<char> {
    "2021"@
}

/// A member crate's own manifest: a `package` section with the crate's name
/// and the default version and edition, and nothing else — member manifests
/// never carry `dependencies` or `workspace` sections.
pub open spec fn spec_member_manifest(c: SpecCrate) -> SpecCargoToml {
    SpecCargoToml {
        package: Some(
            SpecPackageSection {
                pkg_name: c.crate_name,
                pkg_version: spec_default_version(),
                pkg_edition: spec_default_edition(),
            },
        ),
        dependencies: None,
        workspace: None,
    }
}

/// A member crate's own manifest never contains `dependencies` or
/// `workspace` sections.
pub proof fn lemma_member_manifest_package_only(c: SpecCrate)
    ensures
        spec_member_manifest(c).dependencies is None,
        spec_member_manifest(c).workspace is None,
        spec_member_manifest(c).package == Some(
            SpecPackageSection {
                pkg_name: c.crate_name,
                pkg_version: spec_default_version(),
                pkg_edition: spec_default_edition(),
            },
        ),
{
}

/// The actions that materialize one crate under the workspace directory
/// `root_dir`. A member gets its own directory, a `src` directory, its stub
/// and its manifest; the root crate lives in the workspace directory itself,
/// so only its `src` directory and stub are created, and its manifest is
/// left to the workspace's root manifest.
pub open spec fn spec_crate_actions(c: SpecCrate, root_dir: Seq<char>) -> Seq<SpecFsAction> {
    if c.is_root {
        seq![
            SpecFsAction::CreateDir(seq![root_dir, "src"@]),
            SpecFsAction::WriteFile(
                seq![root_dir, "src"@, spec_stub_file(c.binary)],
                SpecFileContent::Text(spec_stub_text(c.binary)),
            ),
        ]
    } else {
        seq![
            SpecFsAction::CreateDir(seq![root_dir, c.directory_name]),
            SpecFsAction::CreateDir(seq![root_dir, c.directory_name, "src"@]),
            SpecFsAction::WriteFile(
                seq![root_dir, c.directory_name, "src"@, spec_stub_file(c.binary)],
                SpecFileContent::Text(spec_stub_text(c.binary)),
            ),
            SpecFsAction::WriteFile(
                seq![root_dir, c.directory_name, "Cargo.toml"@],
                SpecFileContent::Manifest(spec_member_manifest(c)),
            ),
        ]
    }
}

/// The stub text for a crate kind, as a fresh string.
pub fn stub_text(binary: bool) -> (r: String)
    ensures
        r@ == spec_stub_text(binary),
{
    if binary {
        "fn main() {\n    println!(\"Hello, world!\");\n}\n".to_owned()
    } else {
        "pub fn run() {\n    println!(\"Hello, world!\");\n}\n".to_owned()
    }
}

/// The stub's file name for a crate kind.
pub fn stub_file_name(binary: bool) -> (r: String)
    ensures
        r@ == spec_stub_file(binary),
{
    if binary {
        "main.rs".to_owned()
    } else {
        "lib.rs".to_owned()
    }
}

impl Crate {
    /// The root crate: it carries the workspace's project name, lives in the
    /// workspace directory itself, and is never a dependency of itself.
    pub fn new_root(crate_name: &String, binary: bool) -> (r: Crate)
        ensures
            r@ == (SpecCrate {
                is_root: true,
                crate_name: crate_name@,
                directory_name: "."@,
                as_dependency: false,
                binary,
            }),
    {
        Crate {
            is_root: true,
            crate_name: crate_name.clone(),
            directory_name: ".".to_owned(),
            as_dependency: false,
            binary,
        }
    }

    /// A member crate with its name, the directory it lives in, whether the
    /// root crate depends on it, and whether it is an executable.
    pub fn new_member(
        crate_name: String,
        directory_name: String,
        as_dependency: bool,
        binary: bool,
    ) -> (r: Crate)
        ensures
            r@ == (SpecCrate {
                is_root: false,
                crate_name: crate_name@,
                directory_name: directory_name@,
                as_dependency,
                binary,
            }),
    {
        Crate { is_root: false, crate_name, directory_name, as_dependency, binary }
    }

    /// This crate's own manifest, as [`spec_member_manifest`] describes it.
    pub fn member_manifest(&self) -> (r: CargoToml)
        ensures
            r@ == spec_member_manifest(self@),
    {
        CargoToml {
            package: Some(
                PackageSection {
                    pkg_name: self.crate_name.clone(),
                    pkg_version: "0.1.0".to_owned(),
                    pkg_edition: "2021".to_owned(),
                },
            ),
            dependencies: None,
            workspace: None,
        }
    }

    /// The actions that materialize this crate under the workspace directory
    /// `root_dir`, exactly as [`spec_crate_actions`] lays them out.
    pub fn write_to_disk(&self, root_dir: &String) -> (r: Vec<FsAction>)
        ensures
            r.deep_view() == spec_crate_actions(self@, root_dir@),
    {
        let mut actions: Vec<FsAction> = Vec::new();
        if self.is_root {
            let mut src_dir: Vec<String> = Vec::new();
            src_dir.push(root_dir.clone());
            src_dir.push("src".to_owned());
            proof {
                assert(src_dir.deep_view() =~= seq![root_dir@, "src"@]);
            }
            let mut stub: Vec<String> = Vec::new();
            stub.push(root_dir.clone());
            stub.push("src".to_owned());
            stub.push(stub_file_name(self.binary));
            proof {
                assert(stub.deep_view() =~= seq![root_dir@, "src"@, spec_stub_file(self.binary)]);
            }
            actions.push(FsAction::CreateDir(src_dir));
            actions.push(FsAction::WriteFile(stub, FileContent::Text(stub_text(self.binary))));
            proof {
                assert(actions.deep_view() =~= spec_crate_actions(self@, root_dir@));
            }
        } else {
            let mut own_dir: Vec<String> = Vec::new();
            own_dir.push(root_dir.clone());
            own_dir.push(self.directory_name.clone());
            proof {
                assert(own_dir.deep_view() =~= seq![root_dir@, self.directory_name@]);
            }
            let mut src_dir: Vec<String> = Vec::new();
            src_dir.push(root_dir.clone());
            src_dir.push(self.directory_name.clone());
            src_dir.push("src".to_owned());
            proof {
                assert(src_dir.deep_view() =~= seq![root_dir@, self.directory_name@, "src"@]);
            }
            let mut stub: Vec<String> = Vec::new();
            stub.push(root_dir.clone());
            stub.push(self.directory_name.clone());
            stub.push("src".to_owned());
            stub.push(stub_file_name(self.binary));
            proof {
                assert(stub.deep_view() =~= seq![
                    root_dir@,
                    self.directory_name@,
                    "src"@,
                    spec_stub_file(self.binary),
                ]);
            }
            let mut manifest_path: Vec<String> = Vec::new();
            manifest_path.push(root_dir.clone());
            manifest_path.push(self.directory_name.clone());
            manifest_path.push("Cargo.toml".to_owned());
            proof {
                assert(manifest_path.deep_view() =~= seq![
                    root_dir@,
                    self.directory_name@,
                    "Cargo.toml"@,
                ]);
            }
            actions.push(FsAction::CreateDir(own_dir));
            actions.push(FsAction::CreateDir(src_dir));
            actions.push(FsAction::WriteFile(stub, FileContent::Text(stub_text(self.binary))));
            actions.push(
                FsAction::WriteFile(manifest_path, FileContent::Manifest(self.member_manifest())),
            );
            proof {
                assert(actions.deep_view() =~= spec_crate_actions(self@, root_dir@));
            }
        }
        actions
    }
}

} // verus!
