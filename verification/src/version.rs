//! Semantic versions as plain data, parsed and ranked by the `semver` crate.

use vstd::prelude::*;

verus! {

/// One dot-separated part of a pre-release or of build metadata.
#[derive(Debug, PartialEq, Eq, Hash)]
pub enum Identifier {
    /// A part made of digits only.
    Numeric(u64),
    /// A part with letters, digits or hyphens.
    AlphaNumeric(String),
}

/// The mathematical value of an [`Identifier`].
pub enum IdentifierView {
    Numeric(u64),
    AlphaNumeric(Seq<char>),
}

impl View for Identifier {
    type V = IdentifierView;

    open spec fn view(&self) -> IdentifierView {
        match self {
            Identifier::Numeric(n) => IdentifierView::Numeric(*n),
            Identifier::AlphaNumeric(s) => IdentifierView::AlphaNumeric(s@),
        }
    }
}

impl DeepView for Identifier {
    type V = IdentifierView;

    open spec fn deep_view(&self) -> IdentifierView {
        self@
    }
}

impl Clone for Identifier {
    fn clone(&self) -> (r: Self)
        ensures
            r@ == self@,
    {
        match self {
            Identifier::Numeric(n) => Identifier::Numeric(*n),
            Identifier::AlphaNumeric(s) => Identifier::AlphaNumeric(s.clone()),
        }
    }
}

impl Identifier {
    /// Whether two identifiers have the same value.
    pub fn same(&self, other: &Identifier) -> (r: bool)
        ensures
            r == (self@ == other@),
    {
        match (self, other) {
            (Identifier::Numeric(a), Identifier::Numeric(b)) => *a == *b,
            (Identifier::AlphaNumeric(a), Identifier::AlphaNumeric(b)) => *a == *b,
            _ => false,
        }
    }
}

/// A semantic version: three numbers, a pre-release and build metadata.
#[derive(Debug, PartialEq, Eq, Hash)]
pub struct Version {
    pub major: u64,
    pub minor: u64,
    pub patch: u64,
    pub pre: Vec<Identifier>,
    pub build: Vec<Identifier>,
}

/// The mathematical value of a [`Version`].
pub struct VersionView {
    pub major: u64,
    pub minor: u64,
    pub patch: u64,
    pub pre: Seq<IdentifierView>,
    pub build: Seq<IdentifierView>,
}

impl View for Version {
    type V = VersionView;

    open spec fn view(&self) -> VersionView {
        VersionView {
            major: self.major,
            minor: self.minor,
            patch: self.patch,
            pre: self.pre.deep_view(),
            build: self.build.deep_view(),
        }
    }
}

impl DeepView for Version {
    type V = VersionView;

    open spec fn deep_view(&self) -> VersionView {
        self@
    }
}

/// Copies a list of identifiers.
fn clone_identifiers(list: &Vec<Identifier>) -> (r: Vec<Identifier>)
    ensures
        r.deep_view() == list.deep_view(),
{
    let mut out: Vec<Identifier> = Vec::new();
    let mut i: usize = 0;
    while i < list.len()
        invariant
            i <= list.len(),
            out.len() == i,
            forall|k: int| 0 <= k < i ==> out[k]@ == list[k]@,
        decreases list.len() - i,
    {
        out.push(list[i].clone());
        i = i + 1;
    }
    assert(out.deep_view() =~= list.deep_view());
    out
}

/// Whether two lists of identifiers have the same value.
fn same_identifiers(a: &Vec<Identifier>, b: &Vec<Identifier>) -> (r: bool)
    ensures
        r == (a.deep_view() == b.deep_view()),
{
    if a.len() != b.len() {
        assert(a.deep_view().len() != b.deep_view().len());
        return false;
    }
    let mut i: usize = 0;
    while i < a.len()
        invariant
            i <= a.len(),
            a.len() == b.len(),
            forall|k: int| 0 <= k < i ==> a[k]@ == b[k]@,
        decreases a.len() - i,
    {
        if !a[i].same(&b[i]) {
            assert(a.deep_view()[i as int] != b.deep_view()[i as int]);
            return false;
        }
        i = i + 1;
    }
    assert(a.deep_view() =~= b.deep_view());
    true
}

impl Clone for Version {
    fn clone(&self) -> (r: Self)
        ensures
            r@ == self@,
    {
        Version {
            major: self.major,
            minor: self.minor,
            patch: self.patch,
            pre: clone_identifiers(&self.pre),
            build: clone_identifiers(&self.build),
        }
    }
}

/// What `semver::Version::parse` makes of a text: the version it reads, or
/// nothing where it rejects the text.
pub uninterp spec fn parsed_version(text: Seq<char>) -> Option<VersionView>;

/// Whether `semver` ranks the first version strictly below the second.
pub uninterp spec fn version_precedes(a: VersionView, b: VersionView) -> bool;

/// Calls `semver::Version::parse` and copies the fields of what it returns.
/// The contract only gives the outcome its name: the same text always parses
/// to the same version or to the same refusal.
#[verifier::external_body]
fn semver_parse(text: &str) -> (r: Option<Version>)
    ensures
        r.deep_view() == parsed_version(text@),
{
    let own = |i| match i {
        semver::Identifier::Numeric(n) => Identifier::Numeric(n),
        semver::Identifier::AlphaNumeric(s) => Identifier::AlphaNumeric(s),
    };
    match semver::Version::parse(text) {
        Ok(v) => Some(Version {
            major: v.major,
            minor: v.minor,
            patch: v.patch,
            pre: v.pre.into_iter().map(own).collect(),
            build: v.build.into_iter().map(own).collect(),
        }),
        Err(_) => None,
    }
}

/// Compares two versions with `<` of `semver::Version`, each rebuilt field
/// by field. The contract names the outcome and adds that the order is
/// asymmetric: of two versions at most one ranks below the other.
#[verifier::external_body]
fn semver_less(a: &Version, b: &Version) -> (r: bool)
    ensures
        r == version_precedes(a@, b@),
        r ==> !version_precedes(b@, a@),
{
    let theirs = |i: &Identifier| match i {
        Identifier::Numeric(n) => semver::Identifier::Numeric(*n),
        Identifier::AlphaNumeric(s) => semver::Identifier::AlphaNumeric(s.clone()),
    };
    let rebuilt = |v: &Version| semver::Version {
        major: v.major,
        minor: v.minor,
        patch: v.patch,
        pre: v.pre.iter().map(theirs).collect(),
        build: v.build.iter().map(theirs).collect(),
    };
    rebuilt(a) < rebuilt(b)
}

impl Version {
    /// Reads a version from its text.
    pub fn parse(text: &str) -> (r: Option<Version>)
        ensures
            r.deep_view() == parsed_version(text@),
    {
        semver_parse(text)
    }

    /// Whether `self` ranks strictly below `other`.
    pub fn precedes(&self, other: &Version) -> (r: bool)
        ensures
            r == version_precedes(self@, other@),
            r ==> !version_precedes(other@, self@),
    {
        semver_less(self, other)
    }

    /// Whether two versions agree in every field, build metadata included.
    pub fn same(&self, other: &Version) -> (r: bool)
        ensures
            r == (self@ == other@),
    {
        self.major == other.major && self.minor == other.minor && self.patch == other.patch
            && same_identifiers(&self.pre, &other.pre) && same_identifiers(
            &self.build,
            &other.build,
        )
    }
}

} // verus!
