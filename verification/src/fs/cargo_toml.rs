//! The shape of a generated manifest, independent of its text encoding.
//!
//! A manifest is a structured table: an optional `package` section, an
//! optional `dependencies` table and an optional `workspace` section. The
//! embedding program hands this structure to a generic encoder; which
//! sections are present, and with what entries, is decided — and stated —
//! here.

use vstd::prelude::*;

verus! {

/// The `package` section of a manifest.
pub struct PackageSection {
    pub pkg_name: String,
    pub pkg_version: String,
    pub pkg_edition: String,
}

/// Mathematical image of a [`PackageSection`].
pub struct SpecPackageSection {
    pub pkg_name: Seq<char>,
    pub pkg_version: Seq<char>,
    pub pkg_edition: Seq<char>,
}

impl View for PackageSection {
    type V = SpecPackageSection;

    open spec fn view(&self) -> SpecPackageSection {
        SpecPackageSection {
            pkg_name: self.pkg_name@,
            pkg_version: self.pkg_version@,
            pkg_edition: self.pkg_edition@,
        }
    }
}

impl DeepView for PackageSection {
    type V = SpecPackageSection;

    open spec fn deep_view(&self) -> SpecPackageSection {
        self.view()
    }
}

/// One entry of the root manifest's `dependencies` table: a member crate's
/// name, mapped to the path of the directory the member lives in.
pub struct Dependency {
    pub name: String,
    pub path: String,
}

/// Mathematical image of a [`Dependency`].
pub struct SpecDependency {
    pub name: Seq<char>,
    pub path: Seq<char>,
}

impl View for Dependency {
    type V = SpecDependency;

    open spec fn view(&self) -> SpecDependency {
        SpecDependency { name: self.name@, path: self.path@ }
    }
}

impl DeepView for Dependency {
    type V = SpecDependency;

    open spec fn deep_view(&self) -> SpecDependency {
        self.view()
    }
}

/// The `workspace` section of a manifest: the member directories.
pub struct WorkspaceSection {
    pub members: Vec<String>,
}

/// Mathematical image of a [`WorkspaceSection`].
pub struct SpecWorkspaceSection {
    pub members: Seq<Seq<char>>,
}

impl View for WorkspaceSection {
    type V = SpecWorkspaceSection;

    open spec fn view(&self) -> SpecWorkspaceSection {
        SpecWorkspaceSection { members: self.members.deep_view() }
    }
}

impl DeepView for WorkspaceSection {
    type V = SpecWorkspaceSection;

    open spec fn deep_view(&self) -> SpecWorkspaceSection {
        self.view()
    }
}

/// The content of one manifest file. A member crate's manifest holds a
/// `package` section alone; the root manifest holds a `workspace` section
/// always, and a `package` and a `dependencies` section exactly when a root
/// crate was chosen.
pub struct CargoToml {
    pub package: Option<PackageSection>,
    pub dependencies: Option<Vec<Dependency>>,
    pub workspace: Option<WorkspaceSection>,
}

/// Mathematical image of a [`CargoToml`].
pub struct SpecCargoToml {
    pub package: Option<SpecPackageSection>,
    pub dependencies: Option<Seq<SpecDependency>>,
    pub workspace: Option<SpecWorkspaceSection>,
}

impl View for CargoToml {
    type V = SpecCargoToml;

    open spec fn view(&self) -> SpecCargoToml {
        SpecCargoToml {
            package: self.package.deep_view(),
            dependencies: self.dependencies.deep_view(),
            workspace: self.workspace.deep_view(),
        }
    }
}

impl DeepView for CargoToml {
    type V = SpecCargoToml;

    open spec fn deep_view(&self) -> SpecCargoToml {
        self.view()
    }
}

} // verus!
