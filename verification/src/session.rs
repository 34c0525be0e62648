//! A session: the dependencies, the names of a lock file and the interned
//! paths of one run of the tool.

use crate::config::{
    Config, Dependency, DependencyView, Locked, LockedPackageView, LockedSource,
    LockedSourceView, Manifest,
};
use crate::error::{Error, ErrorKind, ErrorView};
use crate::table::{
    lemma_table_with, table_ref, table_with, DependencyEntry, DependencyRef, DependencySource,
    DependencyTable, EntryView, SourceView,
};
use crate::text::text_equal;
use crate::version::{parsed_version, Version};
use vstd::hash_map::StringHashMap;
use vstd::prelude::*;

verus! {

/// `Arena` of `typed_arena`, as a type whose inside is not looked at.
#[verifier::external_type_specification]
#[verifier::external_body]
#[verifier::reject_recursive_types(T)]
pub struct ExArena<T>(typed_arena::Arena<T>);

/// `Arena::new` of `typed_arena`: an arena that holds nothing yet.
pub assume_specification<T>[ typed_arena::Arena::<T>::new ]() -> (r: typed_arena::Arena<T>)
;

/// Calls `Arena::alloc` of `typed_arena`, which moves the value into the
/// arena and hands out a reference to it that lives as long as the arena.
#[verifier::external_body]
fn arena_alloc<'a>(arena: &'a typed_arena::Arena<String>, value: String) -> (r: &'a String)
    ensures
        r@ == value@,
{
    arena.alloc(value)
}

/// The arenas that keep what must live as long as the session.
pub struct SessionArenas {
    /// The arena of the interned paths.
    pub path: typed_arena::Arena<String>,
}

impl SessionArenas {
    /// Arenas that hold nothing yet.
    pub fn new() -> SessionArenas {
        SessionArenas { path: typed_arena::Arena::new() }
    }
}

/// The source that a declaration of a manifest stands for.
pub open spec fn declared_source(declaration: DependencyView) -> SourceView {
    match declaration {
        DependencyView::Version(_) => SourceView::Registry,
        DependencyView::Path(path) => SourceView::Path(path),
        DependencyView::GitRevision(url, _) => SourceView::Git(url),
        DependencyView::GitVersion(url, _) => SourceView::Git(url),
    }
}

/// The descriptor of a declared dependency: nothing is picked yet.
pub open spec fn declared_entry(name: Seq<char>, declaration: DependencyView) -> EntryView {
    EntryView { name: name, source: declared_source(declaration), revision: None, version: None }
}

/// The source that a source of a lock file stands for.
pub open spec fn locked_source(source: LockedSourceView) -> SourceView {
    match source {
        LockedSourceView::Path(path) => SourceView::Path(path),
        LockedSourceView::Git(url) => SourceView::Git(url),
        LockedSourceView::Registry(_) => SourceView::Registry,
    }
}

/// The descriptor of a locked package: it carries the revision and the
/// version that were picked.
pub open spec fn locked_entry(name: Seq<char>, package: LockedPackageView) -> EntryView {
    EntryView {
        name: name,
        source: locked_source(package.source),
        revision: package.revision,
        version: match package.version {
            Some(text) => parsed_version(text),
            None => None,
        },
    }
}

/// Every version that the packages give reads as a version.
pub open spec fn readable(packages: Seq<(Seq<char>, LockedPackageView)>) -> bool {
    forall|i: int|
        0 <= i < packages.len() ==> ((#[trigger] packages[i]).1.version matches Some(text)
            ==> parsed_version(text) is Some)
}

/// The table after the packages were added to it, first to last.
pub open spec fn locked_table(
    table: Seq<EntryView>,
    packages: Seq<(Seq<char>, LockedPackageView)>,
) -> Seq<EntryView>
    decreases packages.len(),
{
    if packages.len() == 0 {
        table
    } else {
        table_with(
            locked_table(table, packages.drop_last()),
            locked_entry(packages.last().0, packages.last().1),
        )
    }
}

/// The references of the packages by name, once the packages were added to
/// `table`; of two packages of one name the later one counts.
pub open spec fn locked_names(
    table: Seq<EntryView>,
    packages: Seq<(Seq<char>, LockedPackageView)>,
) -> Map<Seq<char>, DependencyRef>
    decreases packages.len(),
{
    if packages.len() == 0 {
        Map::empty()
    } else {
        locked_names(table, packages.drop_last()).insert(
            packages.last().0,
            DependencyRef(
                table_ref(
                    locked_table(table, packages.drop_last()),
                    locked_entry(packages.last().0, packages.last().1),
                ) as usize,
            ),
        )
    }
}

/// The interned paths after `path` was interned.
pub open spec fn interned_with(paths: Seq<Seq<char>>, path: Seq<char>) -> Seq<Seq<char>> {
    if paths.contains(path) {
        paths
    } else {
        paths.push(path)
    }
}

/// The failure for a name that no lock file gave.
pub open spec fn not_declared(name: Seq<char>) -> ErrorView {
    ErrorView {
        kind: ErrorKind::NotDeclared,
        msg: "Dependency `"@ + name
            + "` does not exist. Did you forget to add it to the manifest?"@,
        causes: Seq::empty(),
    }
}

/// The failure for a lock file with a version that does not read as one.
pub open spec fn unreadable_version(name: Seq<char>, text: Seq<char>) -> ErrorView {
    ErrorView {
        kind: ErrorKind::Invalid,
        msg: "Package `"@ + name + "` is locked to `"@ + text + "`, which is not a version."@,
        causes: Seq::empty(),
    }
}

/// Whether the package at place `i` gives a version that does not read as one.
pub open spec fn unreadable_at(packages: Seq<(Seq<char>, LockedPackageView)>, i: int) -> bool {
    packages[i].1.version matches Some(text) && parsed_version(text) is None
}

/// The place of the first package whose version does not read as one.
pub open spec fn first_unreadable(packages: Seq<(Seq<char>, LockedPackageView)>) -> int {
    choose|i: int|
        0 <= i < packages.len() && unreadable_at(packages, i) && forall|j: int|
            0 <= j < i ==> !unreadable_at(packages, j)
}

/// Adding locked packages keeps every descriptor once and at its place.
pub proof fn lemma_locked_table(
    table: Seq<EntryView>,
    packages: Seq<(Seq<char>, LockedPackageView)>,
)
    requires
        table.no_duplicates(),
    ensures
        locked_table(table, packages).no_duplicates(),
        table.is_prefix_of(locked_table(table, packages)),
    decreases packages.len(),
{
    if packages.len() > 0 {
        lemma_locked_table(table, packages.drop_last());
        lemma_table_with(
            locked_table(table, packages.drop_last()),
            locked_entry(packages.last().0, packages.last().1),
        );
    }
}

/// After a lock file was taken in, the name of each of its packages gives a
/// reference whose descriptor is that of the package: its name, its source,
/// and the revision and version that were picked. Of two packages of one
/// name the later one is meant.
pub proof fn lemma_locked_name_resolves(
    table: Seq<EntryView>,
    packages: Seq<(Seq<char>, LockedPackageView)>,
    i: int,
)
    requires
        table.no_duplicates(),
        locked_table(table, packages).len() <= usize::MAX,
        0 <= i < packages.len(),
        forall|j: int| i < j < packages.len() ==> (#[trigger] packages[j]).0 != packages[i].0,
    ensures
        locked_names(table, packages).contains_key(packages[i].0),
        locked_names(table, packages)[packages[i].0].0 < locked_table(table, packages).len(),
        locked_table(table, packages)[locked_names(table, packages)[packages[i].0].0 as int]
            == locked_entry(packages[i].0, packages[i].1),
    decreases packages.len(),
{
    let earlier = packages.drop_last();
    let before = locked_table(table, earlier);
    let entry = locked_entry(packages.last().0, packages.last().1);
    lemma_locked_table(table, earlier);
    lemma_table_with(before, entry);
    if i == packages.len() - 1 {
    } else {
        assert(earlier[i] == packages[i]);
        assert forall|j: int| i < j < earlier.len() implies (#[trigger] earlier[j]).0
            != earlier[i].0 by {
            assert(earlier[j] == packages[j]);
        }
        lemma_locked_name_resolves(table, earlier, i);
    }
}

/// After a lock file was taken in, a name that none of its packages has
/// gives no reference.
pub proof fn lemma_locked_name_absent(
    table: Seq<EntryView>,
    packages: Seq<(Seq<char>, LockedPackageView)>,
    name: Seq<char>,
)
    requires
        forall|i: int| 0 <= i < packages.len() ==> (#[trigger] packages[i]).0 != name,
    ensures
        !locked_names(table, packages).contains_key(name),
    decreases packages.len(),
{
    if packages.len() > 0 {
        let earlier = packages.drop_last();
        assert forall|i: int| 0 <= i < earlier.len() implies (#[trigger] earlier[i]).0 != name by {
            assert(earlier[i] == packages[i]);
        }
        lemma_locked_name_absent(table, earlier, name);
        assert(packages.last() == packages[packages.len() - 1]);
    }
}

/// Interning a path a second time changes nothing, and two different paths
/// are kept at different places.
pub proof fn lemma_intern_idempotent(paths: Seq<Seq<char>>, first: Seq<char>, second: Seq<char>)
    requires
        paths.no_duplicates(),
    ensures
        interned_with(paths, first).no_duplicates(),
        interned_with(paths, first).contains(first),
        interned_with(interned_with(paths, first), first) == interned_with(paths, first),
        first != second ==> interned_with(interned_with(paths, first), second).index_of(first)
            != interned_with(interned_with(paths, first), second).index_of(second),
{
    let once = interned_with(paths, first);
    if !paths.contains(first) {
        assert(once[paths.len() as int] == first);
        assert forall|a: int, b: int|
            0 <= a < once.len() && 0 <= b < once.len() && a != b implies once[a] != once[b] by {
            if a < paths.len() && b < paths.len() {
            } else if a < paths.len() {
                assert(paths.contains(once[a]));
            } else {
                assert(paths.contains(once[b]));
            }
        }
    }
    assert(once.contains(first));
    let both = interned_with(once, second);
    if first != second {
        if !once.contains(second) {
            assert(both[once.len() as int] == second);
        }
        let at = once.index_of(first);
        assert(both[at] == first);
        assert(both.contains(first));
        assert(both.contains(second));
    }
}

/// The state of one run of the tool.
pub struct Session<'ctx> {
    /// The path of the package within which the tool runs.
    pub root: &'ctx str,
    /// The manifest of that package.
    pub manifest: &'ctx Manifest,
    /// The configuration of the tool.
    pub config: &'ctx Config,
    arenas: &'ctx SessionArenas,
    deps: DependencyTable,
    paths: Vec<&'ctx String>,
    names: StringHashMap<DependencyRef>,
}

impl<'ctx> Session<'ctx> {
    /// The path of the package within which the tool runs.
    pub closed spec fn spec_root(&self) -> Seq<char> {
        self.root@
    }

    /// The manifest of that package.
    pub closed spec fn spec_manifest(&self) -> Manifest {
        *self.manifest
    }

    /// The configuration of the tool.
    pub closed spec fn spec_config(&self) -> Config {
        *self.config
    }

    /// The descriptors of the dependencies, each at the place that its
    /// reference names.
    pub closed spec fn table(&self) -> Seq<EntryView> {
        self.deps@
    }

    /// The references of the locked packages by name.
    pub closed spec fn names(&self) -> Map<Seq<char>, DependencyRef> {
        self.names@
    }

    /// The interned paths, in the order in which they first came.
    pub closed spec fn paths(&self) -> Seq<Seq<char>> {
        self.paths.deep_view()
    }

    /// No descriptor and no path is kept twice.
    pub closed spec fn wf(&self) -> bool {
        &&& self.deps.wf()
        &&& self.paths.deep_view().no_duplicates()
    }

    /// A session without dependencies, names or paths.
    pub fn new(
        root: &'ctx str,
        manifest: &'ctx Manifest,
        config: &'ctx Config,
        arenas: &'ctx SessionArenas,
    ) -> (r: Session<'ctx>)
        ensures
            r.wf(),
            r.spec_root() == root@,
            r.spec_manifest() == *manifest,
            r.spec_config() == *config,
            r.table() == Seq::<EntryView>::empty(),
            r.names() == Map::<Seq<char>, DependencyRef>::empty(),
            r.paths() == Seq::<Seq<char>>::empty(),
    {
        let r = Session {
            root: root,
            manifest: manifest,
            config: config,
            arenas: arenas,
            deps: DependencyTable::new(),
            paths: Vec::new(),
            names: StringHashMap::new(),
        };
        assert(r.paths.deep_view() =~= Seq::<Seq<char>>::empty());
        r
    }

    /// The path of the package within which the tool runs.
    pub fn root(&self) -> (r: &'ctx str)
        ensures
            r@ == self.spec_root(),
    {
        self.root
    }

    /// The manifest of that package.
    pub fn manifest(&self) -> (r: &'ctx Manifest)
        ensures
            *r == self.spec_manifest(),
    {
        self.manifest
    }

    /// The configuration of the tool.
    pub fn config(&self) -> (r: &'ctx Config)
        ensures
            *r == self.spec_config(),
    {
        self.config
    }

    /// Takes in a dependency that `manifest` declares and gives its
    /// reference. The descriptor has the declared name and source and
    /// nothing picked; what the manifest holds besides plays no part.
    pub fn load_dependency(
        &mut self,
        name: &str,
        cfg: &Dependency,
        manifest: &Manifest,
    ) -> (id: DependencyRef)
        requires
            old(self).wf(),
        ensures
            final(self).wf(),
            final(self).table() == table_with(old(self).table(), declared_entry(name@, cfg@)),
            id.0 == table_ref(old(self).table(), declared_entry(name@, cfg@)),
            id.0 < final(self).table().len(),
            final(self).table()[id.0 as int] == declared_entry(name@, cfg@),
            old(self).table().is_prefix_of(final(self).table()),
            final(self).names() == old(self).names(),
            final(self).paths() == old(self).paths(),
            final(self).spec_root() == old(self).spec_root(),
            final(self).spec_config() == old(self).spec_config(),
    {
        let src = match cfg {
            Dependency::Version(_) => DependencySource::Registry,
            Dependency::Path(path) => DependencySource::Path(path.clone()),
            Dependency::GitRevision(url, _) => DependencySource::Git(url.clone()),
            Dependency::GitVersion(url, _) => DependencySource::Git(url.clone()),
        };
        self.deps.add(
            DependencyEntry {
                name: String::from_str(name),
                source: src,
                revision: None,
                version: None,
            },
        )
    }

    /// Takes in a lock file: every package is added with the revision and
    /// the version that were picked for it, and the names of the packages
    /// replace the names that an earlier lock file gave.
    pub fn load_locked(&mut self, locked: &Locked)
        requires
            old(self).wf(),
            readable(locked@),
        ensures
            final(self).wf(),
            final(self).table() == locked_table(old(self).table(), locked@),
            final(self).names() == locked_names(old(self).table(), locked@),
            old(self).table().is_prefix_of(final(self).table()),
            final(self).paths() == old(self).paths(),
            final(self).spec_root() == old(self).spec_root(),
            final(self).spec_config() == old(self).spec_config(),
    {
        let mut names: StringHashMap<DependencyRef> = StringHashMap::new();
        let ghost start = self.table();
        let ghost all = locked@;
        let mut i: usize = 0;
        assert(all.take(0) =~= Seq::<(Seq<char>, LockedPackageView)>::empty());
        while i < locked.packages.len()
            invariant
                i <= locked.packages.len(),
                all == locked@,
                readable(all),
                start == old(self).table(),
                self.wf(),
                self.table() == locked_table(start, all.take(i as int)),
                names@ == locked_names(start, all.take(i as int)),
                self.paths() == old(self).paths(),
                self.spec_root() == old(self).spec_root(),
                self.spec_config() == old(self).spec_config(),
            decreases locked.packages.len() - i,
        {
            proof {
                let next = all.take(i + 1);
                assert(next.drop_last() =~= all.take(i as int));
                assert(next.last() == all[i as int]);
            }
            let name = &locked.packages[i].0;
            let package = &locked.packages[i].1;
            let src = match &package.source {
                LockedSource::Path(path) => DependencySource::Path(path.clone()),
                LockedSource::Git(url) => DependencySource::Git(url.clone()),
                LockedSource::Registry(_) => DependencySource::Registry,
            };
            let revision = match &package.revision {
                Some(revision) => Some(revision.clone()),
                None => None,
            };
            let version = match &package.version {
                Some(text) => Version::parse(text.as_str()),
                None => None,
            };
            let id = self.deps.add(
                DependencyEntry {
                    name: name.clone(),
                    source: src,
                    revision: revision,
                    version: version,
                },
            );
            names.insert(name.clone(), id);
            i = i + 1;
        }
        proof {
            assert(all.take(all.len() as int) =~= all);
            lemma_locked_table(start, all);
        }
        self.names = names;
    }

    /// Takes in a lock file as `load_locked` does, unless one of its
    /// packages gives a version that does not read as one: the session then
    /// stays as it is, and the failure names the first such package.
    pub fn try_load_locked(&mut self, locked: &Locked) -> (r: Result<(), Error>)
        requires
            old(self).wf(),
        ensures
            final(self).wf(),
            final(self).paths() == old(self).paths(),
            final(self).spec_root() == old(self).spec_root(),
            final(self).spec_config() == old(self).spec_config(),
            match r {
                Ok(_) => {
                    &&& readable(locked@)
                    &&& final(self).table() == locked_table(old(self).table(), locked@)
                    &&& final(self).names() == locked_names(old(self).table(), locked@)
                },
                Err(e) => {
                    &&& !readable(locked@)
                    &&& final(self).table() == old(self).table()
                    &&& final(self).names() == old(self).names()
                    &&& e@ == unreadable_version(
                        locked@[first_unreadable(locked@)].0,
                        locked@[first_unreadable(locked@)].1.version->0,
                    )
                },
            },
    {
        let ghost all = locked@;
        let mut i: usize = 0;
        while i < locked.packages.len()
            invariant
                i <= locked.packages.len(),
                all == locked@,
                *self == *old(self),
                self.wf(),
                forall|k: int| 0 <= k < i ==> !unreadable_at(all, k),
            decreases locked.packages.len() - i,
        {
            let name = &locked.packages[i].0;
            match &locked.packages[i].1.version {
                Some(text) => {
                    if Version::parse(text.as_str()).is_none() {
                        proof {
                            assert(unreadable_at(all, i as int));
                            let first = first_unreadable(all);
                            assert(unreadable_at(all, first));
                            assert(first == i);
                        }
                        let mut msg = String::from_str("Package `");
                        msg.append(name.as_str());
                        msg.append("` is locked to `");
                        msg.append(text.as_str());
                        msg.append("`, which is not a version.");
                        return Err(Error::new(ErrorKind::Invalid, msg));
                    }
                },
                None => {},
            }
            i = i + 1;
        }
        proof {
            assert forall|k: int| 0 <= k < all.len() implies ((#[trigger] all[k]).1.version matches Some(
                text,
            ) ==> parsed_version(text) is Some) by {
                assert(!unreadable_at(all, k));
            }
        }
        self.load_locked(locked);
        Ok(())
    }

    /// The descriptor of a dependency of this session.
    pub fn dependency(&self, dep: DependencyRef) -> (r: &DependencyEntry)
        requires
            dep.0 < self.table().len(),
        ensures
            r@ == self.table()[dep.0 as int],
    {
        self.deps.get(dep)
    }

    /// The source of a dependency of this session.
    pub fn dependency_source(&self, dep: DependencyRef) -> (r: DependencySource)
        requires
            dep.0 < self.table().len(),
        ensures
            r@ == self.table()[dep.0 as int].source,
    {
        self.deps.get(dep).source.clone()
    }

    /// The number of dependencies: the references below it are those that
    /// this session gave out.
    pub fn dependency_count(&self) -> (r: usize)
        ensures
            r == self.table().len(),
    {
        self.deps.len()
    }

    /// The reference of the locked package of that name, or the failure
    /// that says that there is none.
    pub fn dependency_with_name(&self, name: &str) -> (r: Result<DependencyRef, Error>)
        ensures
            match r {
                Ok(id) => self.names().contains_key(name@) && self.names()[name@] == id,
                Err(e) => !self.names().contains_key(name@) && e@ == not_declared(name@),
            },
    {
        match self.names.get(name) {
            Some(id) => Ok(*id),
            None => {
                let mut msg = String::from_str("Dependency `");
                msg.append(name);
                msg.append("` does not exist. Did you forget to add it to the manifest?");
                Err(Error::new(ErrorKind::NotDeclared, msg))
            },
        }
    }

    /// Interns a path: the reference that comes back lives as long as the
    /// session's arenas, and an equal path gets the reference that was
    /// handed out for it before.
    pub fn intern_path(&mut self, buf: String) -> (r: &'ctx str)
        requires
            old(self).wf(),
        ensures
            final(self).wf(),
            r@ == buf@,
            final(self).paths() == interned_with(old(self).paths(), buf@),
            final(self).table() == old(self).table(),
            final(self).names() == old(self).names(),
            final(self).spec_root() == old(self).spec_root(),
            final(self).spec_config() == old(self).spec_config(),
    {
        let mut i: usize = 0;
        while i < self.paths.len()
            invariant
                i <= self.paths.len(),
                *self == *old(self),
                self.wf(),
                forall|k: int| 0 <= k < i ==> self.paths()[k] != buf@,
            decreases self.paths.len() - i,
        {
            let kept: &'ctx String = self.paths[i];
            if text_equal(kept.as_str(), buf.as_str()) {
                assert(self.paths()[i as int] == buf@);
                return kept.as_str();
            }
            i = i + 1;
        }
        assert(!self.paths().contains(buf@));
        let kept: &'ctx String = arena_alloc(&self.arenas.path, buf);
        self.paths.push(kept);
        assert(self.paths.deep_view() =~= old(self).paths().push(buf@));
        assert(self.paths().no_duplicates()) by {
            assert forall|a: int, b: int|
                0 <= a < self.paths().len() && 0 <= b < self.paths().len() && a != b implies self.paths()[a]
                != self.paths()[b] by {
                if a < old(self).paths().len() && b < old(self).paths().len() {
                } else if a < old(self).paths().len() {
                    assert(old(self).paths().contains(self.paths()[a]));
                } else {
                    assert(old(self).paths().contains(self.paths()[b]));
                }
            }
        }
        kept.as_str()
    }
}

} // verus!
