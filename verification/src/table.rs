//! The table of dependencies: every descriptor once, each under a reference
//! that stays its own.

use crate::text::{decimal, push_decimal};
use crate::version::{Version, VersionView};
use vstd::prelude::*;

verus! {

/// A reference to a dependency: its place in the table of the session that
/// gave the reference out.
#[derive(Clone, Copy, PartialEq, Eq, Structural, PartialOrd, Ord, Hash, Debug)]
pub struct DependencyRef(pub usize);

impl DependencyRef {
    /// Writes the reference: the decimal digits of its place.
    pub fn to_string(&self) -> (r: String)
        ensures
            r@ == decimal(self.0 as nat),
    {
        let mut out = String::new();
        push_decimal(&mut out, self.0);
        assert(out@ =~= decimal(self.0 as nat));
        out
    }
}

/// Where a dependency may be had from.
#[derive(Debug, PartialEq, Eq, Hash)]
pub enum DependencySource {
    /// A registry.
    Registry,
    /// A path on disk; such a dependency has no versions.
    Path(String),
    /// The URL of a git repository.
    Git(String),
}

/// The mathematical value of a [`DependencySource`].
pub enum SourceView {
    Registry,
    Path(Seq<char>),
    Git(Seq<char>),
}

impl View for DependencySource {
    type V = SourceView;

    open spec fn view(&self) -> SourceView {
        match self {
            DependencySource::Registry => SourceView::Registry,
            DependencySource::Path(path) => SourceView::Path(path@),
            DependencySource::Git(url) => SourceView::Git(url@),
        }
    }
}

impl DeepView for DependencySource {
    type V = SourceView;

    open spec fn deep_view(&self) -> SourceView {
        self@
    }
}

impl Clone for DependencySource {
    fn clone(&self) -> (r: Self)
        ensures
            r@ == self@,
    {
        match self {
            DependencySource::Registry => DependencySource::Registry,
            DependencySource::Path(path) => DependencySource::Path(path.clone()),
            DependencySource::Git(url) => DependencySource::Git(url.clone()),
        }
    }
}

impl DependencySource {
    /// Whether two sources are the same.
    pub fn same(&self, other: &DependencySource) -> (r: bool)
        ensures
            r == (self@ == other@),
    {
        match (self, other) {
            (DependencySource::Registry, DependencySource::Registry) => true,
            (DependencySource::Path(a), DependencySource::Path(b)) => *a == *b,
            (DependencySource::Git(a), DependencySource::Git(b)) => *a == *b,
            _ => false,
        }
    }
}

/// What identifies a dependency: its name, its source, and the revision and
/// the version that were picked for it, if any.
#[derive(Debug, PartialEq, Eq, Hash)]
pub struct DependencyEntry {
    pub name: String,
    pub source: DependencySource,
    pub revision: Option<String>,
    pub version: Option<Version>,
}

/// The mathematical value of a [`DependencyEntry`].
pub struct EntryView {
    pub name: Seq<char>,
    pub source: SourceView,
    pub revision: Option<Seq<char>>,
    pub version: Option<VersionView>,
}

impl View for DependencyEntry {
    type V = EntryView;

    open spec fn view(&self) -> EntryView {
        EntryView {
            name: self.name@,
            source: self.source@,
            revision: self.revision.deep_view(),
            version: self.version.deep_view(),
        }
    }
}

impl DeepView for DependencyEntry {
    type V = EntryView;

    open spec fn deep_view(&self) -> EntryView {
        self@
    }
}

impl Clone for DependencyEntry {
    fn clone(&self) -> (r: Self)
        ensures
            r@ == self@,
    {
        DependencyEntry {
            name: self.name.clone(),
            source: self.source.clone(),
            revision: match &self.revision {
                Some(revision) => Some(revision.clone()),
                None => None,
            },
            version: match &self.version {
                Some(version) => Some(version.clone()),
                None => None,
            },
        }
    }
}

impl DependencyEntry {
    /// Whether two descriptors agree in name, source, revision and version.
    pub fn same(&self, other: &DependencyEntry) -> (r: bool)
        ensures
            r == (self@ == other@),
    {
        let revisions = match (&self.revision, &other.revision) {
            (Some(a), Some(b)) => *a == *b,
            (None, None) => true,
            _ => false,
        };
        let versions = match (&self.version, &other.version) {
            (Some(a), Some(b)) => a.same(b),
            (None, None) => true,
            _ => false,
        };
        self.name == other.name && self.source.same(&other.source) && revisions && versions
    }
}

/// The table after `entry` was added: it grows by `entry` unless it holds it.
pub open spec fn table_with(table: Seq<EntryView>, entry: EntryView) -> Seq<EntryView> {
    if table.contains(entry) {
        table
    } else {
        table.push(entry)
    }
}

/// The place under which `entry` stands once it was added to `table`.
pub open spec fn table_ref(table: Seq<EntryView>, entry: EntryView) -> int {
    table_with(table, entry).index_of(entry)
}

/// Adding keeps every descriptor once and at its place, and the added one
/// stands at the place that `table_ref` names.
pub proof fn lemma_table_with(table: Seq<EntryView>, entry: EntryView)
    requires
        table.no_duplicates(),
    ensures
        table_with(table, entry).no_duplicates(),
        table.is_prefix_of(table_with(table, entry)),
        0 <= table_ref(table, entry) < table_with(table, entry).len(),
        table_with(table, entry)[table_ref(table, entry)] == entry,
        forall|i: int|
            0 <= i < table_with(table, entry).len() && table_with(table, entry)[i] == entry ==> i
                == table_ref(table, entry),
{
    let after = table_with(table, entry);
    if !table.contains(entry) {
        assert forall|i: int, j: int| 0 <= i < after.len() && 0 <= j < after.len() && i != j implies after[i]
            != after[j] by {
            if i < table.len() && j < table.len() {
            } else if i < table.len() {
                assert(table.contains(after[i]));
            } else {
                assert(table.contains(after[j]));
            }
        }
        assert(after[table.len() as int] == entry);
    }
    assert(after.contains(entry));
}

/// Adding a descriptor a second time gives the reference of the first time
/// and leaves the table as it is; adding a different descriptor gives a
/// different reference.
pub proof fn lemma_add_deduplicates(table: Seq<EntryView>, first: EntryView, second: EntryView)
    requires
        table.no_duplicates(),
    ensures
        first == second ==> table_with(table_with(table, first), second) == table_with(table, first)
            && table_ref(table_with(table, first), second) == table_ref(table, first),
        first != second ==> table_ref(table_with(table, first), second) != table_ref(table, first),
{
    let once = table_with(table, first);
    lemma_table_with(table, first);
    lemma_table_with(once, second);
    let twice = table_with(once, second);
    if first != second {
        assert(twice[table_ref(table, first)] == once[table_ref(table, first)]);
    }
}

/// The dependencies of a session.
#[derive(Debug)]
pub struct DependencyTable {
    list: Vec<DependencyEntry>,
}

impl View for DependencyTable {
    type V = Seq<EntryView>;

    closed spec fn view(&self) -> Seq<EntryView> {
        self.list.deep_view()
    }
}

impl DependencyTable {
    /// No descriptor stands in the table twice.
    pub open spec fn wf(&self) -> bool {
        self@.no_duplicates()
    }

    /// A table without dependencies.
    pub fn new() -> (r: DependencyTable)
        ensures
            r@ == Seq::<EntryView>::empty(),
            r.wf(),
    {
        let r = DependencyTable { list: Vec::new() };
        assert(r.list.deep_view() =~= Seq::<EntryView>::empty());
        r
    }

    /// The number of dependencies.
    pub fn len(&self) -> (r: usize)
        ensures
            r == self@.len(),
    {
        self.list.len()
    }

    /// The descriptor under a reference that this table gave out.
    pub fn get(&self, id: DependencyRef) -> (r: &DependencyEntry)
        requires
            id.0 < self@.len(),
        ensures
            r@ == self@[id.0 as int],
    {
        &self.list[id.0]
    }

    /// Adds a descriptor and gives its reference: that of the equal
    /// descriptor where the table holds one, else a new one at the end.
    pub fn add(&mut self, entry: DependencyEntry) -> (id: DependencyRef)
        requires
            old(self).wf(),
        ensures
            final(self).wf(),
            final(self)@ == table_with(old(self)@, entry@),
            id.0 == table_ref(old(self)@, entry@),
            id.0 < final(self)@.len(),
            final(self)@[id.0 as int] == entry@,
            old(self)@.is_prefix_of(final(self)@),
    {
        let mut i: usize = 0;
        while i < self.list.len()
            invariant
                i <= self.list.len(),
                *self == *old(self),
                self.wf(),
                forall|k: int| 0 <= k < i ==> self@[k] != entry@,
            decreases self.list.len() - i,
        {
            if self.list[i].same(&entry) {
                proof {
                    assert(self@[i as int] == entry@);
                    assert(self@.contains(entry@));
                    lemma_table_with(self@, entry@);
                }
                return DependencyRef(i);
            }
            i = i + 1;
        }
        proof {
            assert(!self@.contains(entry@));
            lemma_table_with(self@, entry@);
        }
        let id = DependencyRef(self.list.len());
        self.list.push(entry);
        assert(self.list.deep_view() =~= old(self)@.push(entry@));
        id
    }
}

} // verus!
