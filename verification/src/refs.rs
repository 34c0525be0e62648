//! The named references of a mirror: tags, branches, and the versions that
//! the tags stand for.

use crate::text::{
    lemma_bytes_precede_asymmetric, strip_prefix, text_equal, text_less, text_precedes,
};
use crate::version::{parsed_version, version_precedes, Version, VersionView};
use vstd::hash_set::StringHashSet;
use vstd::prelude::*;
use vstd::utf8::encode_utf8;

verus! {

/// Whether some entry of `list` carries `name`.
pub open spec fn has_name(list: Seq<(Seq<char>, Seq<char>)>, name: Seq<char>) -> bool {
    exists|i: int| 0 <= i < list.len() && (#[trigger] list[i]).0 == name
}

/// The place of an entry of `list` that carries `name`.
pub open spec fn name_index(list: Seq<(Seq<char>, Seq<char>)>, name: Seq<char>) -> int {
    choose|i: int| 0 <= i < list.len() && (#[trigger] list[i]).0 == name
}

/// No two entries of `list` carry the same name.
pub open spec fn distinct_names(list: Seq<(Seq<char>, Seq<char>)>) -> bool {
    forall|i: int, j: int|
        0 <= i < j < list.len() ==> (#[trigger] list[i]).0 != (#[trigger] list[j]).0
}

/// What `list` gives for `name`, if anything.
pub open spec fn hash_of(list: Seq<(Seq<char>, Seq<char>)>, name: Seq<char>) -> Option<
    Seq<char>,
> {
    if has_name(list, name) {
        Some(list[name_index(list, name)].1)
    } else {
        None
    }
}

/// `list` after `name` was set to `hash`: an entry that carries `name`
/// keeps its place and takes the new hash, a new name goes to the end.
pub open spec fn with_name(
    list: Seq<(Seq<char>, Seq<char>)>,
    name: Seq<char>,
    hash: Seq<char>,
) -> Seq<(Seq<char>, Seq<char>)> {
    if has_name(list, name) {
        list.update(name_index(list, name), (name, hash))
    } else {
        list.push((name, hash))
    }
}

/// `base` after every entry of `top` was set in it, first to last.
pub open spec fn overlaid(
    base: Seq<(Seq<char>, Seq<char>)>,
    top: Seq<(Seq<char>, Seq<char>)>,
) -> Seq<(Seq<char>, Seq<char>)>
    decreases top.len(),
{
    if top.len() == 0 {
        base
    } else {
        with_name(overlaid(base, top.drop_last()), top.last().0, top.last().1)
    }
}

/// Setting a name keeps the names distinct.
pub proof fn lemma_with_name_distinct(
    list: Seq<(Seq<char>, Seq<char>)>,
    name: Seq<char>,
    hash: Seq<char>,
)
    requires
        distinct_names(list),
    ensures
        distinct_names(with_name(list, name, hash)),
        hash_of(with_name(list, name, hash), name) == Some(hash),
        forall|other: Seq<char>|
            other != name ==> hash_of(with_name(list, name, hash), other) == hash_of(list, other),
{
    let next = with_name(list, name, hash);
    if has_name(list, name) {
        let at = name_index(list, name);
        assert(next[at].0 == name);
        assert forall|other: Seq<char>| other != name implies hash_of(next, other) == hash_of(
            list,
            other,
        ) by {
            if has_name(list, other) {
                let k = name_index(list, other);
                assert(next[k].0 == other);
                let m = name_index(next, other);
                assert(list[m].0 == other);
                assert(m == k);
            } else if has_name(next, other) {
                let m = name_index(next, other);
                assert(list[m].0 == other);
            }
        }
        assert(has_name(next, name));
        let m = name_index(next, name);
        assert(list[m].0 == name || m == at);
        assert(m == at);
    } else {
        assert(next[list.len() as int].0 == name);
        assert(has_name(next, name));
        let m = name_index(next, name);
        if m < list.len() {
            assert(list[m].0 == name);
        }
        assert forall|other: Seq<char>| other != name implies hash_of(next, other) == hash_of(
            list,
            other,
        ) by {
            if has_name(list, other) {
                let k = name_index(list, other);
                assert(next[k].0 == other);
                let m2 = name_index(next, other);
                assert(list[m2].0 == other);
                assert(m2 == k);
            } else if has_name(next, other) {
                let m2 = name_index(next, other);
                assert(list[m2].0 == other);
            }
        }
    }
}

/// Names and the hashes they point at, each name once, in the order in which
/// the names first came.
#[derive(Clone, Debug, PartialEq, Eq)]
pub struct RefMap {
    entries: Vec<(String, String)>,
}

impl View for RefMap {
    type V = Seq<(Seq<char>, Seq<char>)>;

    closed spec fn view(&self) -> Seq<(Seq<char>, Seq<char>)> {
        self.entries.deep_view()
    }
}

impl RefMap {
    /// Every name occurs once.
    pub open spec fn wf(&self) -> bool {
        distinct_names(self@)
    }

    /// A map without names.
    pub fn new() -> (r: RefMap)
        ensures
            r@ == Seq::<(Seq<char>, Seq<char>)>::empty(),
            r.wf(),
    {
        let r = RefMap { entries: Vec::new() };
        assert(r.entries.deep_view() =~= Seq::<(Seq<char>, Seq<char>)>::empty());
        r
    }

    /// The number of names.
    pub fn len(&self) -> (r: usize)
        ensures
            r == self@.len(),
    {
        self.entries.len()
    }

    /// The name and the hash at place `i`.
    pub fn entry(&self, i: usize) -> (r: (&String, &String))
        requires
            i < self@.len(),
        ensures
            r.0@ == self@[i as int].0,
            r.1@ == self@[i as int].1,
    {
        (&self.entries[i].0, &self.entries[i].1)
    }

    /// The place of `name`, if the map holds it.
    fn position(&self, name: &str) -> (r: Option<usize>)
        requires
            self.wf(),
        ensures
            match r {
                Some(i) => i < self@.len() && self@[i as int].0 == name@ && has_name(self@, name@)
                    && name_index(self@, name@) == i,
                None => !has_name(self@, name@),
            },
    {
        let mut i: usize = 0;
        while i < self.entries.len()
            invariant
                i <= self.entries.len(),
                forall|k: int| 0 <= k < i ==> (#[trigger] self@[k]).0 != name@,
                distinct_names(self@),
            decreases self.entries.len() - i,
        {
            if text_equal(self.entries[i].0.as_str(), name) {
                assert(self@[i as int].0 == name@);
                return Some(i);
            }
            i = i + 1;
        }
        None
    }

    /// The hash that `name` points at.
    pub fn get(&self, name: &str) -> (r: Option<&String>)
        requires
            self.wf(),
        ensures
            match r {
                Some(hash) => hash_of(self@, name@) == Some(hash@),
                None => hash_of(self@, name@) is None,
            },
    {
        match self.position(name) {
            Some(i) => Some(&self.entries[i].1),
            None => None,
        }
    }

    /// Points `name` at `hash`, whatever it pointed at before.
    pub fn insert(&mut self, name: String, hash: String)
        requires
            old(self).wf(),
        ensures
            final(self)@ == with_name(old(self)@, name@, hash@),
            final(self).wf(),
    {
        proof {
            lemma_with_name_distinct(self@, name@, hash@);
        }
        match self.position(name.as_str()) {
            Some(i) => {
                self.entries.set(i, (name, hash));
                assert(self.entries.deep_view() =~= with_name(old(self)@, name@, hash@));
            },
            None => {
                self.entries.push((name, hash));
                assert(self.entries.deep_view() =~= with_name(old(self)@, name@, hash@));
            },
        }
    }

    /// Sets every name of `top` in this map, first to last, so that where
    /// both hold a name the hash of `top` stays.
    pub fn overlay(&mut self, top: &RefMap)
        requires
            old(self).wf(),
        ensures
            final(self)@ == overlaid(old(self)@, top@),
            final(self).wf(),
    {
        let mut i: usize = 0;
        assert(top@.take(0) =~= Seq::<(Seq<char>, Seq<char>)>::empty());
        while i < top.len()
            invariant
                i <= top@.len(),
                self.wf(),
                self@ == overlaid(old(self)@, top@.take(i as int)),
            decreases top@.len() - i,
        {
            let (name, hash) = top.entry(i);
            proof {
                let next = top@.take(i + 1);
                assert(next.drop_last() =~= top@.take(i as int));
                assert(next.last() == top@[i as int]);
            }
            self.insert(name.clone(), hash.clone());
            i = i + 1;
        }
        assert(top@.take(top@.len() as int) =~= top@);
    }
}

/// The tag that a full reference name stands for: what follows `refs/tags/`.
pub open spec fn tag_of(name: Seq<char>) -> Option<Seq<char>> {
    if "refs/tags/"@.is_prefix_of(name) {
        Some(name.skip("refs/tags/"@.len() as int))
    } else {
        None
    }
}

/// The branch that a full reference name stands for: what follows
/// `refs/remotes/origin/`, unless the name is that of a tag.
pub open spec fn branch_of(name: Seq<char>) -> Option<Seq<char>> {
    if "refs/tags/"@.is_prefix_of(name) {
        None
    } else if "refs/remotes/origin/"@.is_prefix_of(name) {
        Some(name.skip("refs/remotes/origin/"@.len() as int))
    } else {
        None
    }
}

/// The tags among `refs`, each a pair of a hash and a full reference name:
/// those whose hash is one of `revs`, a later one replacing the hash of an
/// earlier one of the same name.
pub open spec fn tags_of(refs: Seq<(Seq<char>, Seq<char>)>, revs: Seq<Seq<char>>) -> Seq<
    (Seq<char>, Seq<char>),
>
    decreases refs.len(),
{
    if refs.len() == 0 {
        Seq::empty()
    } else {
        let earlier = tags_of(refs.drop_last(), revs);
        let (hash, name) = refs.last();
        match tag_of(name) {
            Some(tag) => if revs.contains(hash) {
                with_name(earlier, tag, hash)
            } else {
                earlier
            },
            None => earlier,
        }
    }
}

/// The branches among `refs`, chosen as the tags are.
pub open spec fn branches_of(refs: Seq<(Seq<char>, Seq<char>)>, revs: Seq<Seq<char>>) -> Seq<
    (Seq<char>, Seq<char>),
>
    decreases refs.len(),
{
    if refs.len() == 0 {
        Seq::empty()
    } else {
        let earlier = branches_of(refs.drop_last(), revs);
        let (hash, name) = refs.last();
        match branch_of(name) {
            Some(branch) => if revs.contains(hash) {
                with_name(earlier, branch, hash)
            } else {
                earlier
            },
            None => earlier,
        }
    }
}

/// The version that a tag stands for: what `semver` reads after a leading `v`.
pub open spec fn tagged_version(tag: Seq<char>) -> Option<VersionView> {
    if "v"@.is_prefix_of(tag) {
        parsed_version(tag.skip("v"@.len() as int))
    } else {
        None
    }
}

/// The versions among `tags`, each with the hash of its tag, in the order of
/// the tags.
pub open spec fn versions_among(tags: Seq<(Seq<char>, Seq<char>)>) -> Seq<
    (VersionView, Seq<char>),
>
    decreases tags.len(),
{
    if tags.len() == 0 {
        Seq::empty()
    } else {
        let earlier = versions_among(tags.drop_last());
        match tagged_version(tags.last().0) {
            Some(version) => earlier.push((version, tags.last().1)),
            None => earlier,
        }
    }
}

/// The order of versions with their hashes: by version, and among versions
/// of which neither ranks below the other, by hash.
pub open spec fn entry_precedes(a: (VersionView, Seq<char>), b: (VersionView, Seq<char>)) -> bool {
    version_precedes(a.0, b.0) || (!version_precedes(b.0, a.0) && text_precedes(a.1, b.1))
}

/// Newest first: no entry comes right before one that it ranks below.
pub open spec fn descending(list: Seq<(VersionView, Seq<char>)>) -> bool {
    forall|i: int, j: int|
        0 <= i && j == i + 1 && j < list.len() ==> !entry_precedes(
            #[trigger] list[i],
            #[trigger] list[j],
        )
}

/// Inserting an item into a sequence adds it to what the sequence holds.
pub proof fn lemma_insert_to_multiset<A>(list: Seq<A>, at: int, item: A)
    requires
        0 <= at <= list.len(),
    ensures
        list.insert(at, item).to_multiset() == list.to_multiset().insert(item),
{
    let longer = list.insert(at, item);
    assert(longer.remove(at) =~= list);
    assert(longer[at] == item);
    vstd::seq_lib::to_multiset_remove(longer, at);
    longer.to_multiset_ensures();
    assert(longer.contains(item));
    assert(longer.to_multiset() =~= list.to_multiset().insert(item));
}

/// Whether `a` ranks strictly below `b`.
pub fn entry_less(a: &(Version, String), b: &(Version, String)) -> (r: bool)
    ensures
        r == entry_precedes(a.deep_view(), b.deep_view()),
        r ==> !entry_precedes(b.deep_view(), a.deep_view()),
{
    if a.0.precedes(&b.0) {
        true
    } else if b.0.precedes(&a.0) {
        false
    } else {
        proof {
            lemma_bytes_precede_asymmetric(encode_utf8(a.1@), encode_utf8(b.1@));
        }
        text_less(a.1.as_str(), b.1.as_str())
    }
}

/// Puts `item` into a list that is newest first, below every entry that it
/// ranks below and above the first that it does not.
pub fn insert_ranked(list: &mut Vec<(Version, String)>, item: (Version, String))
    requires
        descending(old(list).deep_view()),
    ensures
        descending(final(list).deep_view()),
        final(list).deep_view().to_multiset() == old(list).deep_view().to_multiset().insert(
            item.deep_view(),
        ),
{
    let mut at: usize = 0;
    let mut searching = true;
    while searching
        invariant
            at <= list.len(),
            *list == *old(list),
            at > 0 ==> !entry_precedes(list.deep_view()[at - 1], item.deep_view()),
            !searching ==> at == list.len() || !entry_precedes(
                item.deep_view(),
                list.deep_view()[at as int],
            ),
        decreases list.len() - at + (if searching { 1nat } else { 0nat }),
    {
        if at < list.len() && entry_less(&item, &list[at]) {
            at = at + 1;
        } else {
            searching = false;
        }
    }
    let ghost before = list.deep_view();
    let ghost value = item.deep_view();
    list.insert(at, item);
    proof {
        assert(list.deep_view() =~= before.insert(at as int, value));
        lemma_insert_to_multiset(before, at as int, value);
        let after = list.deep_view();
        assert forall|i: int, j: int| 0 <= i && j == i + 1 && j < after.len() implies !entry_precedes(
            #[trigger] after[i],
            #[trigger] after[j],
        ) by {
            if j < at {
                assert(after[i] == before[i] && after[j] == before[j]);
            } else if j == at {
                assert(after[i] == before[at - 1]);
            } else if i == at {
                assert(after[j] == before[at as int]);
            } else {
                assert(after[i] == before[i - 1] && after[j] == before[j - 1]);
            }
        }
    }
}

/// Orders versions newest first. Entries of which neither ranks below the
/// other come out by falling hash.
pub fn rank_versions(list: Vec<(Version, String)>) -> (r: Vec<(Version, String)>)
    ensures
        descending(r.deep_view()),
        r.deep_view().to_multiset() == list.deep_view().to_multiset(),
{
    let mut rest = list;
    let mut out: Vec<(Version, String)> = Vec::new();
    assert(out.deep_view() =~= Seq::<(VersionView, Seq<char>)>::empty());
    assert(out.deep_view().to_multiset().add(rest.deep_view().to_multiset())
        =~= list.deep_view().to_multiset()) by {
        out.deep_view().to_multiset_ensures();
    }
    while rest.len() > 0
        invariant
            descending(out.deep_view()),
            out.deep_view().to_multiset().add(rest.deep_view().to_multiset())
                == list.deep_view().to_multiset(),
        decreases rest.len(),
    {
        let ghost before = rest.deep_view();
        let ghost sorted = out.deep_view();
        let item = rest.pop().unwrap();
        proof {
            assert(before =~= rest.deep_view().push(item.deep_view()));
            vstd::seq_lib::to_multiset_build(rest.deep_view(), item.deep_view());
        }
        insert_ranked(&mut out, item);
        assert(out.deep_view().to_multiset().add(rest.deep_view().to_multiset()) =~= sorted.to_multiset().add(
            before.to_multiset(),
        ));
    }
    assert(rest.deep_view() =~= Seq::<(VersionView, Seq<char>)>::empty());
    assert(out.deep_view().to_multiset() =~= list.deep_view().to_multiset()) by {
        rest.deep_view().to_multiset_ensures();
    }
    out
}

/// Every hash that a list gives is one of `revs`.
pub open spec fn points_into(list: Seq<(Seq<char>, Seq<char>)>, revs: Seq<Seq<char>>) -> bool {
    forall|i: int| 0 <= i < list.len() ==> revs.contains((#[trigger] list[i]).1)
}

/// Setting a name to a known revision keeps a list within the known
/// revisions.
proof fn lemma_with_name_points_into(
    list: Seq<(Seq<char>, Seq<char>)>,
    name: Seq<char>,
    hash: Seq<char>,
    revs: Seq<Seq<char>>,
)
    requires
        points_into(list, revs),
        revs.contains(hash),
    ensures
        points_into(with_name(list, name, hash), revs),
{
    let next = with_name(list, name, hash);
    assert forall|i: int| 0 <= i < next.len() implies revs.contains((#[trigger] next[i]).1) by {
        if has_name(list, name) {
            if i != name_index(list, name) {
                assert(next[i] == list[i]);
            }
        } else {
            if i < list.len() {
                assert(next[i] == list[i]);
            }
        }
    }
}

/// A reference to a revision that is not known is dropped: the tags and the
/// branches that are kept give known revisions only, each name once.
pub proof fn lemma_only_known_revisions(refs: Seq<(Seq<char>, Seq<char>)>, revs: Seq<Seq<char>>)
    ensures
        points_into(tags_of(refs, revs), revs),
        points_into(branches_of(refs, revs), revs),
        distinct_names(tags_of(refs, revs)),
        distinct_names(branches_of(refs, revs)),
    decreases refs.len(),
{
    if refs.len() > 0 {
        lemma_only_known_revisions(refs.drop_last(), revs);
        let (hash, name) = refs.last();
        let tags = tags_of(refs.drop_last(), revs);
        let branches = branches_of(refs.drop_last(), revs);
        if revs.contains(hash) {
            match tag_of(name) {
                Some(tag) => {
                    lemma_with_name_points_into(tags, tag, hash, revs);
                    lemma_with_name_distinct(tags, tag, hash);
                },
                None => {},
            }
            match branch_of(name) {
                Some(branch) => {
                    lemma_with_name_points_into(branches, branch, hash, revs);
                    lemma_with_name_distinct(branches, branch, hash);
                },
                None => {},
            }
        }
    }
}

/// Where no reference gives a known revision, nothing is kept.
pub proof fn lemma_unknown_revisions_leave_nothing(
    refs: Seq<(Seq<char>, Seq<char>)>,
    revs: Seq<Seq<char>>,
)
    requires
        forall|i: int| 0 <= i < refs.len() ==> !revs.contains((#[trigger] refs[i]).0),
    ensures
        tags_of(refs, revs) == Seq::<(Seq<char>, Seq<char>)>::empty(),
        branches_of(refs, revs) == Seq::<(Seq<char>, Seq<char>)>::empty(),
        versions_among(tags_of(refs, revs)) == Seq::<(VersionView, Seq<char>)>::empty(),
    decreases refs.len(),
{
    if refs.len() > 0 {
        let earlier = refs.drop_last();
        assert forall|i: int| 0 <= i < earlier.len() implies !revs.contains(
            (#[trigger] earlier[i]).0,
        ) by {
            assert(earlier[i] == refs[i]);
        }
        lemma_unknown_revisions_leave_nothing(earlier, revs);
        assert(refs.last() == refs[refs.len() - 1]);
    }
}

/// Laying `top` over `base` keeps the names distinct, and a name gives what
/// `top` gives for it, or what `base` gives where `top` does not hold it:
/// a tag wins over a branch of its name.
pub proof fn lemma_overlaid(
    base: Seq<(Seq<char>, Seq<char>)>,
    top: Seq<(Seq<char>, Seq<char>)>,
    name: Seq<char>,
)
    requires
        distinct_names(base),
        distinct_names(top),
    ensures
        distinct_names(overlaid(base, top)),
        hash_of(overlaid(base, top), name) == if has_name(top, name) {
            hash_of(top, name)
        } else {
            hash_of(base, name)
        },
    decreases top.len(),
{
    if top.len() > 0 {
        let earlier = top.drop_last();
        let last = top.last();
        assert forall|i: int, j: int| 0 <= i < j < earlier.len() implies (#[trigger] earlier[i]).0
            != (#[trigger] earlier[j]).0 by {
            assert(earlier[i] == top[i] && earlier[j] == top[j]);
        }
        lemma_overlaid(base, earlier, name);
        lemma_with_name_distinct(overlaid(base, earlier), last.0, last.1);
        let at = top.len() - 1;
        assert(top[at] == last);
        if name == last.0 {
            assert(has_name(top, name));
            let k = name_index(top, name);
            assert(k == at) by {
                if k < at {
                    assert(top[k].0 != top[at].0);
                }
            }
        } else {
            if has_name(earlier, name) {
                let k = name_index(earlier, name);
                assert(top[k] == earlier[k]);
                assert(has_name(top, name));
                let m = name_index(top, name);
                assert(m != at);
                assert(earlier[m] == top[m]);
                assert(m == k) by {
                    if m < k {
                        assert(earlier[m].0 != earlier[k].0);
                    }
                    if k < m {
                        assert(earlier[k].0 != earlier[m].0);
                    }
                }
            } else if has_name(top, name) {
                let m = name_index(top, name);
                assert(m != at);
                assert(earlier[m] == top[m]);
            }
        }
    }
}

/// All that a mirror tells about the versions of a dependency.
#[derive(Clone, Debug)]
pub struct GitVersions {
    /// The versions among the tags, each with the hash of its tag, newest first.
    pub versions: Vec<(Version, String)>,
    /// Branches and tags by name; where both share a name, the tag's hash.
    pub refs: RefMap,
    /// The revisions of the mirror, newest first.
    pub revs: Vec<String>,
}

/// The versions of a registry dependency.
#[derive(Clone, Copy, Debug, PartialEq, Eq)]
pub struct RegistryVersions;

/// The versions that a dependency can be had in.
#[derive(Clone, Debug)]
pub enum DependencyVersions {
    /// A path dependency has no versions: it is what lies on disk.
    Path,
    /// The versions of a registry dependency.
    Registry(RegistryVersions),
    /// The versions of a git dependency.
    Git(GitVersions),
}

/// The set of the known revisions.
fn known_revisions(revs: &Vec<String>) -> (known: StringHashSet)
    ensures
        forall|hash: Seq<char>| known@.contains(hash) <==> revs.deep_view().contains(hash),
{
    let mut known = StringHashSet::new();
    let mut i: usize = 0;
    while i < revs.len()
        invariant
            i <= revs.len(),
            forall|hash: Seq<char>|
                known@.contains(hash) <==> exists|k: int|
                    0 <= k < i && #[trigger] revs.deep_view()[k] == hash,
        decreases revs.len() - i,
    {
        let ghost before = known@;
        known.insert(revs[i].clone());
        proof {
            let added = revs.deep_view()[i as int];
            assert forall|hash: Seq<char>| known@.contains(hash) <==> exists|k: int|
                0 <= k < i + 1 && #[trigger] revs.deep_view()[k] == hash by {
                if before.contains(hash) {
                    let k = choose|k: int| 0 <= k < i && #[trigger] revs.deep_view()[k] == hash;
                    assert(0 <= k < i + 1 && revs.deep_view()[k] == hash);
                }
                if hash == added {
                    assert(revs.deep_view()[i as int] == hash);
                }
            }
        }
        i = i + 1;
    }
    proof {
        assert forall|hash: Seq<char>| known@.contains(hash) <==> revs.deep_view().contains(
            hash,
        ) by {
            if known@.contains(hash) {
                let k = choose|k: int| 0 <= k < i && #[trigger] revs.deep_view()[k] == hash;
                assert(revs.deep_view()[k] == hash);
            }
            if revs.deep_view().contains(hash) {
                let k = choose|k: int| 0 <= k < revs.deep_view().len() && revs.deep_view()[k] == hash;
                assert(revs.deep_view()[k] == hash);
            }
        }
    }
    known
}

/// Parts the references whose hash is a known revision into tags and
/// branches, each under its short name, and drops the others.
pub fn split_refs(refs: &Vec<(String, String)>, revs: &Vec<String>) -> (r: (RefMap, RefMap))
    ensures
        r.0@ == tags_of(refs.deep_view(), revs.deep_view()),
        r.1@ == branches_of(refs.deep_view(), revs.deep_view()),
        r.0.wf(),
        r.1.wf(),
{
    let known = known_revisions(revs);
    let mut tags = RefMap::new();
    let mut branches = RefMap::new();
    let ghost all = refs.deep_view();
    let ghost hashes = revs.deep_view();
    let mut i: usize = 0;
    assert(all.take(0) =~= Seq::<(Seq<char>, Seq<char>)>::empty());
    while i < refs.len()
        invariant
            i <= refs.len(),
            all == refs.deep_view(),
            hashes == revs.deep_view(),
            forall|hash: Seq<char>| known@.contains(hash) <==> hashes.contains(hash),
            tags.wf(),
            branches.wf(),
            tags@ == tags_of(all.take(i as int), hashes),
            branches@ == branches_of(all.take(i as int), hashes),
        decreases refs.len() - i,
    {
        proof {
            let next = all.take(i + 1);
            assert(next.drop_last() =~= all.take(i as int));
            assert(next.last() == all[i as int]);
        }
        let hash = &refs[i].0;
        let name = &refs[i].1;
        if known.contains(hash.as_str()) {
            match strip_prefix(name.as_str(), "refs/tags/") {
                Some(tag) => {
                    tags.insert(String::from_str(tag), hash.clone());
                },
                None => {
                    match strip_prefix(name.as_str(), "refs/remotes/origin/") {
                        Some(branch) => {
                            branches.insert(String::from_str(branch), hash.clone());
                        },
                        None => {},
                    }
                },
            }
        }
        i = i + 1;
    }
    assert(all.take(all.len() as int) =~= all);
    (tags, branches)
}

/// Reads the versions among the tags: those named `v` and a text that
/// `semver` takes for a version.
pub fn tagged_versions(tags: &RefMap) -> (r: Vec<(Version, String)>)
    ensures
        r.deep_view() == versions_among(tags@),
{
    let mut out: Vec<(Version, String)> = Vec::new();
    let mut i: usize = 0;
    assert(tags@.take(0) =~= Seq::<(Seq<char>, Seq<char>)>::empty());
    assert(out.deep_view() =~= Seq::<(VersionView, Seq<char>)>::empty());
    while i < tags.len()
        invariant
            i <= tags@.len(),
            out.deep_view() == versions_among(tags@.take(i as int)),
        decreases tags@.len() - i,
    {
        proof {
            let next = tags@.take(i + 1);
            assert(next.drop_last() =~= tags@.take(i as int));
            assert(next.last() == tags@[i as int]);
        }
        let (name, hash) = tags.entry(i);
        let ghost before = out.deep_view();
        match strip_prefix(name.as_str(), "v") {
            Some(text) => {
                match Version::parse(text) {
                    Some(version) => {
                        let ghost value = (version@, hash@);
                        out.push((version, hash.clone()));
                        assert(out.deep_view() =~= before.push(value));
                    },
                    None => {},
                }
            },
            None => {},
        }
        i = i + 1;
    }
    assert(tags@.take(tags@.len() as int) =~= tags@);
    out
}

/// Classifies what a mirror reports. `refs` pairs each hash with a full
/// reference name, `revs` lists the known revisions. References to unknown
/// revisions are dropped, tags and branches are told apart by their prefix,
/// the tags that read as versions are ranked newest first, and tags are laid
/// over branches.
pub fn git_versions(refs: Vec<(String, String)>, revs: Vec<String>) -> (out: GitVersions)
    ensures
        out.refs.wf(),
        out.refs@ == overlaid(
            branches_of(refs.deep_view(), revs.deep_view()),
            tags_of(refs.deep_view(), revs.deep_view()),
        ),
        descending(out.versions.deep_view()),
        out.versions.deep_view().to_multiset() == versions_among(
            tags_of(refs.deep_view(), revs.deep_view()),
        ).to_multiset(),
        out.revs == revs,
{
    let (tags, branches) = split_refs(&refs, &revs);
    let versions = rank_versions(tagged_versions(&tags));
    let mut merged = branches;
    merged.overlay(&tags);
    GitVersions { versions: versions, refs: merged, revs: revs }
}

} // verus!
