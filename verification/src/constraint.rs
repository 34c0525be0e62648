//! What a declaration of a manifest asks of the dependency that it names.

use crate::config::Dependency;
use vstd::prelude::*;
use vstd::std_specs::convert::FromSpecImpl;

verus! {

/// A constraint on a dependency.
#[derive(Clone, Debug, PartialEq, Eq)]
pub enum DependencyConstraint {
    /// The dependency is the one at a path: there is nothing to pick.
    Path,
    /// The version is to lie in this range.
    Version(String),
    /// The revision is to be this one.
    Revision(String),
}

/// The constraint of a declaration.
pub open spec fn constraint_of(cfg: &Dependency) -> DependencyConstraint {
    match cfg {
        Dependency::Path(_) => DependencyConstraint::Path,
        Dependency::Version(range) => DependencyConstraint::Version(*range),
        Dependency::GitVersion(_, range) => DependencyConstraint::Version(*range),
        Dependency::GitRevision(_, revision) => DependencyConstraint::Revision(*revision),
    }
}

impl<'a> From<&'a Dependency> for DependencyConstraint {
    fn from(cfg: &'a Dependency) -> (r: DependencyConstraint) {
        match cfg {
            Dependency::Path(_) => DependencyConstraint::Path,
            Dependency::Version(range) => DependencyConstraint::Version(range.clone()),
            Dependency::GitVersion(_, range) => DependencyConstraint::Version(range.clone()),
            Dependency::GitRevision(_, revision) => DependencyConstraint::Revision(
                revision.clone(),
            ),
        }
    }
}

impl<'a> FromSpecImpl<&'a Dependency> for DependencyConstraint {
    open spec fn obeys_from_spec() -> bool {
        true
    }

    open spec fn from_spec(cfg: &'a Dependency) -> DependencyConstraint {
        constraint_of(cfg)
    }
}

impl DependencyConstraint {
    /// The text of a constraint.
    pub open spec fn text(&self) -> Seq<char> {
        match self {
            DependencyConstraint::Path => "path"@,
            DependencyConstraint::Version(range) => range@,
            DependencyConstraint::Revision(revision) => revision@,
        }
    }

    /// Writes the constraint: the word `path`, the range, or the revision.
    pub fn to_string(&self) -> (r: String)
        ensures
            r@ == self.text(),
    {
        match self {
            DependencyConstraint::Path => String::from_str("path"),
            DependencyConstraint::Version(range) => range.clone(),
            DependencyConstraint::Revision(revision) => revision.clone(),
        }
    }
}

} // verus!
