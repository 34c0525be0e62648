//! What a session is given: the declarations of a manifest, the packages of
//! a lock file, and the configuration of the tool.

use vstd::prelude::*;

verus! {

/// How a manifest declares a dependency.
#[derive(Debug, PartialEq, Eq)]
pub enum Dependency {
    /// A range of versions, to be had from a registry.
    Version(String),
    /// A path on disk.
    Path(String),
    /// The URL of a git repository and a revision of it.
    GitRevision(String, String),
    /// The URL of a git repository and a range of versions.
    GitVersion(String, String),
}

/// The package that a manifest describes.
#[derive(Debug, PartialEq, Eq)]
pub struct Package {
    pub name: String,
}

/// A manifest: a package and the dependencies that it declares, by name.
#[derive(Debug, PartialEq, Eq)]
pub struct Manifest {
    pub package: Package,
    pub dependencies: Vec<(String, Dependency)>,
}

/// The configuration of the tool.
#[derive(Debug, PartialEq, Eq)]
pub struct Config {
    /// The directory below which mirrors and checkouts are kept.
    pub database: String,
}

/// Where a lock file says a package comes from.
#[derive(Debug, PartialEq, Eq)]
pub enum LockedSource {
    /// A path on disk.
    Path(String),
    /// The URL of a git repository.
    Git(String),
    /// A version in a registry.
    Registry(String),
}

/// A package of a lock file.
#[derive(Debug, PartialEq, Eq)]
pub struct LockedPackage {
    /// The revision that was picked.
    pub revision: Option<String>,
    /// The version that was picked, as a text.
    pub version: Option<String>,
    /// Where the package comes from.
    pub source: LockedSource,
}

/// A lock file: packages by name.
#[derive(Debug, PartialEq, Eq)]
pub struct Locked {
    pub packages: Vec<(String, LockedPackage)>,
}

/// The mathematical value of a [`Dependency`].
pub enum DependencyView {
    Version(Seq<char>),
    Path(Seq<char>),
    GitRevision(Seq<char>, Seq<char>),
    GitVersion(Seq<char>, Seq<char>),
}

impl View for Dependency {
    type V = DependencyView;

    open spec fn view(&self) -> DependencyView {
        match self {
            Dependency::Version(range) => DependencyView::Version(range@),
            Dependency::Path(path) => DependencyView::Path(path@),
            Dependency::GitRevision(url, revision) => DependencyView::GitRevision(url@, revision@),
            Dependency::GitVersion(url, range) => DependencyView::GitVersion(url@, range@),
        }
    }
}

impl DeepView for Dependency {
    type V = DependencyView;

    open spec fn deep_view(&self) -> DependencyView {
        self@
    }
}

/// The mathematical value of a [`LockedSource`].
pub enum LockedSourceView {
    Path(Seq<char>),
    Git(Seq<char>),
    Registry(Seq<char>),
}

impl View for LockedSource {
    type V = LockedSourceView;

    open spec fn view(&self) -> LockedSourceView {
        match self {
            LockedSource::Path(path) => LockedSourceView::Path(path@),
            LockedSource::Git(url) => LockedSourceView::Git(url@),
            LockedSource::Registry(version) => LockedSourceView::Registry(version@),
        }
    }
}

impl DeepView for LockedSource {
    type V = LockedSourceView;

    open spec fn deep_view(&self) -> LockedSourceView {
        self@
    }
}

/// The mathematical value of a [`LockedPackage`].
pub struct LockedPackageView {
    pub revision: Option<Seq<char>>,
    pub version: Option<Seq<char>>,
    pub source: LockedSourceView,
}

impl View for LockedPackage {
    type V = LockedPackageView;

    open spec fn view(&self) -> LockedPackageView {
        LockedPackageView {
            revision: self.revision.deep_view(),
            version: self.version.deep_view(),
            source: self.source@,
        }
    }
}

impl DeepView for LockedPackage {
    type V = LockedPackageView;

    open spec fn deep_view(&self) -> LockedPackageView {
        self@
    }
}

impl View for Locked {
    type V = Seq<(Seq<char>, LockedPackageView)>;

    open spec fn view(&self) -> Seq<(Seq<char>, LockedPackageView)> {
        self.packages.deep_view()
    }
}

} // verus!
