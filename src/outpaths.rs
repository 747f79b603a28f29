//! Output paths of every attribute on each system, before and after the
//! merge, and what changed between the two.
use vstd::prelude::*;
use crate::order::{insert_sorted, strictly_sorted};
use crate::text::views;
use vstd::hash_map::StringHashMap;

verus! {

/// One attribute on one system.
pub struct PackageArch {
    pub package: String,
    pub architecture: String,
}

/// The output path that an attribute has on a system.
pub struct OutPath {
    pub attr: PackageArch,
    pub path: String,
}

/// An attribute and system as plain text: `(package, architecture)`.
pub type Key = (Seq<char>, Seq<char>);

pub open spec fn key_of(a: PackageArch) -> Key {
    (a.package@, a.architecture@)
}

pub open spec fn keys(v: Seq<PackageArch>) -> Seq<Key> {
    v.map_values(|a: PackageArch| key_of(a))
}

/// The map from attribute and system to output path that a list of entries
/// describes; where an attribute comes twice, the later entry counts.
pub open spec fn outputs(es: Seq<OutPath>) -> Map<Key, Seq<char>>
    decreases es.len(),
{
    if es.len() == 0 {
        Map::empty()
    } else {
        outputs(es.drop_last()).insert(key_of(es.last().attr), es.last().path@)
    }
}

/// The package names that occur on some system in `m`.
pub open spec fn packages(m: Map<Key, Seq<char>>) -> Set<Seq<char>> {
    Set::new(|p: Seq<char>| exists|a: Seq<char>| m.contains_key((p, a)))
}

/// Packages that were there before and are gone after.
pub open spec fn removed_packages(before: Map<Key, Seq<char>>, after: Map<Key, Seq<char>>) -> Set<
    Seq<char>,
> {
    packages(before).difference(packages(after))
}

/// Packages that are there after and were not before.
pub open spec fn added_packages(before: Map<Key, Seq<char>>, after: Map<Key, Seq<char>>) -> Set<
    Seq<char>,
> {
    packages(after).difference(packages(before))
}

/// The attributes whose output path after differs from the one before, or
/// that had none before.
pub open spec fn needs_rebuild(before: Map<Key, Seq<char>>, after: Map<Key, Seq<char>>, k: Key) -> bool {
    after.contains_key(k) && (!before.contains_key(k) || before[k] != after[k])
}

/// The output paths before and after the merge; `None` until evaluated.
pub struct OutPathDiff {
    pub before: Option<Vec<OutPath>>,
    pub after: Option<Vec<OutPath>>,
}

proof fn lemma_outputs_dom(es: Seq<OutPath>, k: Key)
    ensures
        outputs(es).contains_key(k) <==> exists|i: int|
            0 <= i < es.len() && key_of(#[trigger] es[i].attr) == k,
    decreases es.len(),
{
    if es.len() > 0 {
        lemma_outputs_dom(es.drop_last(), k);
        if exists|i: int| 0 <= i < es.drop_last().len() && key_of(#[trigger] es.drop_last()[i].attr)
            == k {
            let i = choose|i: int|
                0 <= i < es.drop_last().len() && key_of(#[trigger] es.drop_last()[i].attr) == k;
            assert(es[i] == es.drop_last()[i]);
        }
        if exists|i: int| 0 <= i < es.len() && key_of(#[trigger] es[i].attr) == k {
            let i = choose|i: int| 0 <= i < es.len() && key_of(#[trigger] es[i].attr) == k;
            if i < es.len() - 1 {
                assert(es.drop_last()[i] == es[i]);
            }
        }
    }
}

proof fn lemma_outputs_last(es: Seq<OutPath>, j: int)
    requires
        0 <= j < es.len(),
        forall|i: int| j < i < es.len() ==> key_of(#[trigger] es[i].attr) != key_of(es[j].attr),
    ensures
        outputs(es).contains_key(key_of(es[j].attr)),
        outputs(es)[key_of(es[j].attr)] == es[j].path@,
    decreases es.len(),
{
    if j < es.len() - 1 {
        let d = es.drop_last();
        assert forall|i: int| j < i < d.len() implies key_of(#[trigger] d[i].attr) != key_of(
            d[j].attr,
        ) by {
            assert(d[i] == es[i]);
        }
        lemma_outputs_last(d, j);
        assert(key_of(es.last().attr) != key_of(es[j].attr));
    }
}

/// The entries of one architecture: where the counting entry of each of
/// its packages stands.
pub struct ArchIndex {
    pub architecture: String,
    pub packages: StringHashMap<usize>,
}

/// `idx` locates the counting entry of every attribute of `es`: one slot
/// per architecture, mapping each package to the position of its entry.
pub open spec fn indexes(idx: Seq<ArchIndex>, es: Seq<OutPath>) -> bool {
    &&& forall|s: int, t: int|
        0 <= s < idx.len() && 0 <= t < idx.len() && s != t ==> (#[trigger] idx[s]).architecture@
            != (#[trigger] idx[t]).architecture@
    &&& forall|s: int, p: Seq<char>|
        0 <= s < idx.len() && #[trigger] idx[s].packages@.contains_key(p) ==> last_at(
            es,
            (p, idx[s].architecture@),
            idx[s].packages@[p] as int,
        )
    &&& forall|i: int|
        0 <= i < es.len() ==> exists|s: int|
            0 <= s < idx.len() && (#[trigger] idx[s]).architecture@ == (
            #[trigger] es[i]).attr.architecture@ && idx[s].packages@.contains_key(
                es[i].attr.package@,
            )
}

proof fn lemma_last_at_grow(es: Seq<OutPath>, j: int, k: Key, i: int)
    requires
        0 <= j < es.len(),
    ensures
        k != key_of(es[j].attr) ==> (last_at(es.subrange(0, j + 1), k, i) <==> last_at(
            es.subrange(0, j),
            k,
            i,
        )),
        last_at(es.subrange(0, j + 1), key_of(es[j].attr), j),
{
    let a = es.subrange(0, j);
    let b = es.subrange(0, j + 1);
    assert(forall|l: int| 0 <= l < j ==> #[trigger] b[l] == a[l]);
    assert(b[j] == es[j]);
}

/// The index of `es`.
fn build_index(es: &Vec<OutPath>) -> (r: Vec<ArchIndex>)
    ensures
        indexes(r@, es@),
{
    let mut idx: Vec<ArchIndex> = Vec::new();
    let mut j: usize = 0;
    assert(es@.subrange(0, 0).len() == 0);
    while j < es.len()
        invariant
            j <= es@.len(),
            indexes(idx@, es@.subrange(0, j as int)),
        decreases es@.len() - j,
    {
        let e = &es[j];
        let ghost k = key_of(e.attr);
        let ghost old_idx = idx@;
        let ghost pre = es@.subrange(0, j as int);
        let ghost post = es@.subrange(0, j + 1);
        let mut s: usize = 0;
        while s < idx.len() && !(idx[s].architecture == e.attr.architecture)
            invariant
                s <= idx@.len(),
                idx@ == old_idx,
                k == key_of(e.attr),
                forall|t: int| 0 <= t < s ==> (#[trigger] idx@[t]).architecture@ != k.1,
            decreases idx@.len() - s,
        {
            s = s + 1;
        }
        if s < idx.len() {
            let mut slot = idx.remove(s);
            slot.packages.insert(e.attr.package.clone(), j);
            idx.insert(s, slot);
            assert(idx@ =~= old_idx.update(s as int, idx@[s as int]));
        } else {
            let mut packages: StringHashMap<usize> = StringHashMap::new();
            packages.insert(e.attr.package.clone(), j);
            idx.push(ArchIndex { architecture: e.attr.architecture.clone(), packages });
        }
        proof {
            assert(post[j as int] == es@[j as int]);
            lemma_last_at_grow(es@, j as int, k, j as int);
            assert forall|s2: int, p: Seq<char>|
                0 <= s2 < idx@.len() && #[trigger] idx@[s2].packages@.contains_key(p) implies last_at(
                post,
                (p, idx@[s2].architecture@),
                idx@[s2].packages@[p] as int,
            ) by {
                let kk = (p, idx@[s2].architecture@);
                if kk == k {
                    assert(idx@[s2].packages@[p] == j);
                } else {
                    lemma_last_at_grow(es@, j as int, kk, idx@[s2].packages@[p] as int);
                    assert(old_idx[s2].packages@.contains_key(p));
                }
            }
            assert forall|i: int| 0 <= i < post.len() implies exists|s2: int|
                0 <= s2 < idx@.len() && (#[trigger] idx@[s2]).architecture@ == (
                #[trigger] post[i]).attr.architecture@ && idx@[s2].packages@.contains_key(
                    post[i].attr.package@,
                ) by {
                if i == j {
                    assert(idx@[s as int].architecture@ == post[i].attr.architecture@);
                } else {
                    assert(post[i] == pre[i]);
                    let s2 = choose|s2: int|
                        0 <= s2 < old_idx.len() && (#[trigger] old_idx[s2]).architecture@ == (
                        #[trigger] pre[i]).attr.architecture@
                            && old_idx[s2].packages@.contains_key(pre[i].attr.package@);
                    assert(idx@[s2].architecture@ == post[i].attr.architecture@);
                }
            }
        }
        j = j + 1;
    }
    assert(es@.subrange(0, j as int) =~= es@);
    idx
}

/// Where the entry for `(package, architecture)` that counts stands in
/// `es`, if any.
fn last_index(
    es: &Vec<OutPath>,
    idx: &Vec<ArchIndex>,
    package: &String,
    architecture: &String,
) -> (r: Option<usize>)
    requires
        indexes(idx@, es@),
    ensures
        match r {
            None => !outputs(es@).contains_key((package@, architecture@)),
            Some(j) => j < es@.len() && key_of(es@[j as int].attr) == (package@, architecture@)
                && outputs(es@).contains_key((package@, architecture@)) && outputs(es@)[(
                package@,
                architecture@,
            )] == es@[j as int].path@ && forall|i: int|
                j < i < es@.len() ==> key_of(#[trigger] es@[i].attr) != (package@, architecture@),
        },
{
    let ghost k = (package@, architecture@);
    let mut s: usize = 0;
    while s < idx.len() && !(idx[s].architecture == *architecture)
        invariant
            s <= idx@.len(),
            forall|t: int| 0 <= t < s ==> (#[trigger] idx@[t]).architecture@ != architecture@,
        decreases idx@.len() - s,
    {
        s = s + 1;
    }
    let found = if s < idx.len() {
        match idx[s].packages.get(package.as_str()) {
            Some(j) => Some(*j),
            None => None,
        }
    } else {
        None
    };
    proof {
        lemma_outputs_dom(es@, k);
        match found {
            Some(j) => {
                assert(last_at(es@, k, j as int));
                lemma_outputs_last(es@, j as int);
            },
            None => {
                if exists|i: int| 0 <= i < es@.len() && key_of(#[trigger] es@[i].attr) == k {
                    let i = choose|i: int| 0 <= i < es@.len() && key_of(#[trigger] es@[i].attr) == k;
                    let s2 = choose|s2: int|
                        0 <= s2 < idx@.len() && (#[trigger] idx@[s2]).architecture@ == (
                        #[trigger] es@[i]).attr.architecture@
                            && idx@[s2].packages@.contains_key(es@[i].attr.package@);
                    if s < idx@.len() {
                        if s2 != s {
                            assert(idx@[s2].architecture@ != idx@[s as int].architecture@);
                        }
                    }
                }
            },
        }
    }
    found
}

/// Whether `package` occurs on some architecture in `es`.
fn has_package(es: &Vec<OutPath>, idx: &Vec<ArchIndex>, package: &String) -> (r: bool)
    requires
        indexes(idx@, es@),
    ensures
        r == packages(outputs(es@)).contains(package@),
{
    let mut s: usize = 0;
    while s < idx.len()
        invariant
            s <= idx@.len(),
            indexes(idx@, es@),
            forall|t: int| 0 <= t < s ==> !(#[trigger] idx@[t]).packages@.contains_key(package@),
        decreases idx@.len() - s,
    {
        if idx[s].packages.contains_key(package.as_str()) {
            proof {
                let a = idx@[s as int].architecture@;
                assert(idx@[s as int].packages@.contains_key(package@));
                let j = idx@[s as int].packages@[package@] as int;
                assert(last_at(es@, (package@, a), j));
                lemma_outputs_dom(es@, (package@, a));
                assert(outputs(es@).contains_key((package@, a)));
            }
            return true;
        }
        s = s + 1;
    }
    proof {
        assert forall|a: Seq<char>| !outputs(es@).contains_key((package@, a)) by {
            lemma_outputs_dom(es@, (package@, a));
            if exists|i: int| 0 <= i < es@.len() && key_of(#[trigger] es@[i].attr) == (package@, a) {
                let i = choose|i: int|
                    0 <= i < es@.len() && key_of(#[trigger] es@[i].attr) == (package@, a);
                let s2 = choose|s2: int|
                    0 <= s2 < idx@.len() && (#[trigger] idx@[s2]).architecture@ == (
                    #[trigger] es@[i]).attr.architecture@ && idx@[s2].packages@.contains_key(
                        es@[i].attr.package@,
                    );
                assert(!idx@[s2].packages@.contains_key(package@));
            }
        }
    }
    false
}

/// The packages of `from` that do not occur in `other`, sorted, each once.
fn packages_missing(from: &Vec<OutPath>, other: &Vec<OutPath>) -> (r: Vec<String>)
    ensures
        strictly_sorted(views(r@)),
        forall|p: Seq<char>|
            views(r@).contains(p) <==> packages(outputs(from@)).difference(
                packages(outputs(other@)),
            ).contains(p),
{
    let idx = build_index(other);
    let mut r: Vec<String> = Vec::new();
    let mut i: usize = 0;
    while i < from.len()
        invariant
            indexes(idx@, other@),
            i <= from@.len(),
            strictly_sorted(views(r@)),
            forall|p: Seq<char>|
                views(r@).contains(p) <==> (exists|j: int|
                    0 <= j < i && (#[trigger] from@[j]).attr.package@ == p)
                    && !packages(outputs(other@)).contains(p),
        decreases from@.len() - i,
    {
        let e = &from[i];
        if !has_package(other, &idx, &e.attr.package) {
            insert_sorted(&mut r, e.attr.package.clone());
        }
        proof {
            assert forall|p: Seq<char>|
                views(r@).contains(p) <==> (exists|j: int|
                    0 <= j < i + 1 && (#[trigger] from@[j]).attr.package@ == p)
                    && !packages(outputs(other@)).contains(p) by {
                if p == from@[i as int].attr.package@ {
                    assert(from@[i as int].attr.package@ == p);
                }
                if exists|j: int| 0 <= j < i + 1 && (#[trigger] from@[j]).attr.package@ == p {
                    let j = choose|j: int| 0 <= j < i + 1 && (#[trigger] from@[j]).attr.package@ == p;
                    if j < i {
                        assert(exists|j: int| 0 <= j < i && (#[trigger] from@[j]).attr.package@ == p);
                    }
                }
            }
        }
        i = i + 1;
    }
    proof {
        assert forall|p: Seq<char>|
            packages(outputs(from@)).contains(p) <==> exists|j: int|
                0 <= j < from@.len() && (#[trigger] from@[j]).attr.package@ == p by {
            if packages(outputs(from@)).contains(p) {
                let a = choose|a: Seq<char>| outputs(from@).contains_key((p, a));
                lemma_outputs_dom(from@, (p, a));
            }
            if exists|j: int| 0 <= j < from@.len() && (#[trigger] from@[j]).attr.package@ == p {
                let j = choose|j: int| 0 <= j < from@.len() && (#[trigger] from@[j]).attr.package@ == p;
                let a = from@[j].attr.architecture@;
                lemma_outputs_dom(from@, (p, a));
                assert(outputs(from@).contains_key((p, a)));
            }
        }
    }
    r
}

impl OutPathDiff {
    /// Nothing evaluated yet.
    pub fn new() -> (r: OutPathDiff)
        ensures
            r.before is None,
            r.after is None,
    {
        OutPathDiff { before: None, after: None }
    }

    /// Records the output paths of the target branch.
    pub fn set_before(&mut self, entries: Vec<OutPath>)
        ensures
            final(self).before == Some(entries),
            final(self).after == old(self).after,
    {
        self.before = Some(entries);
    }

    /// Records the output paths after the merge.
    pub fn set_after(&mut self, entries: Vec<OutPath>)
        ensures
            final(self).after == Some(entries),
            final(self).before == old(self).before,
    {
        self.after = Some(entries);
    }

    /// The packages removed and those added by the merge, each list sorted
    /// and without repetition; `None` until both sides are evaluated.
    pub fn package_diff(&self) -> (r: Option<(Vec<String>, Vec<String>)>)
        ensures
            r is Some <==> (self.before is Some && self.after is Some),
            r is Some ==> ({
                let before = outputs(self.before->Some_0@);
                let after = outputs(self.after->Some_0@);
                let (removed, added) = r->Some_0;
                &&& strictly_sorted(views(removed@))
                &&& strictly_sorted(views(added@))
                &&& forall|p: Seq<char>|
                    views(removed@).contains(p) <==> removed_packages(before, after).contains(p)
                &&& forall|p: Seq<char>|
                    views(added@).contains(p) <==> added_packages(before, after).contains(p)
            }),
    {
        match (&self.before, &self.after) {
            (Some(before), Some(after)) => {
                let removed = packages_missing(before, after);
                let added = packages_missing(after, before);
                Some((removed, added))
            },
            _ => None,
        }
    }

    /// The attributes to rebuild: those whose output path changed or that
    /// are new, each once; `None` until both sides are evaluated.
    pub fn calculate_rebuild(&self) -> (r: Option<Vec<PackageArch>>)
        ensures
            r is Some <==> (self.before is Some && self.after is Some),
            r is Some ==> ({
                let before = outputs(self.before->Some_0@);
                let after = outputs(self.after->Some_0@);
                let ks = keys(r->Some_0@);
                &&& ks.no_duplicates()
                &&& forall|k: Key| ks.contains(k) <==> needs_rebuild(before, after, k)
            }),
    {
        match (&self.before, &self.after) {
            (Some(before), Some(after)) => Some(rebuild_list(before, after)),
            _ => None,
        }
    }
}

/// `i` is the entry for `k` that counts in `es`: the last one.
pub open spec fn last_at(es: Seq<OutPath>, k: Key, i: int) -> bool {
    &&& 0 <= i < es.len()
    &&& key_of(es[i].attr) == k
    &&& forall|l: int| i < l < es.len() ==> key_of(#[trigger] es[l].attr) != k
}

proof fn lemma_last_exists(es: Seq<OutPath>, k: Key, i: int)
    requires
        0 <= i < es.len(),
        key_of(es[i].attr) == k,
    ensures
        exists|l: int| last_at(es, k, l),
    decreases es.len() - i,
{
    if exists|l: int| i < l < es.len() && key_of(#[trigger] es[l].attr) == k {
        let l = choose|l: int| i < l < es.len() && key_of(#[trigger] es[l].attr) == k;
        lemma_last_exists(es, k, l);
    } else {
        assert(last_at(es, k, i));
    }
}

/// The attributes listed in `rk` are those to rebuild whose counting entry
/// stands before `n` in `after`.
pub open spec fn rebuilt_upto(
    rk: Seq<Key>,
    b: Map<Key, Seq<char>>,
    a: Map<Key, Seq<char>>,
    after: Seq<OutPath>,
    n: int,
) -> bool {
    forall|kk: Key|
        rk.contains(kk) <==> (needs_rebuild(b, a, kk) && exists|i: int|
            0 <= i < n && #[trigger] last_at(after, kk, i))
}

/// See `OutPathDiff::calculate_rebuild`.
fn rebuild_list(before: &Vec<OutPath>, after: &Vec<OutPath>) -> (r: Vec<PackageArch>)
    ensures
        keys(r@).no_duplicates(),
        forall|k: Key| keys(r@).contains(k) <==> needs_rebuild(outputs(before@), outputs(after@), k),
{
    let ghost b = outputs(before@);
    let ghost a = outputs(after@);
    let before_idx = build_index(before);
    let after_idx = build_index(after);
    let mut r: Vec<PackageArch> = Vec::new();
    let mut j: usize = 0;
    while j < after.len()
        invariant
            indexes(before_idx@, before@),
            indexes(after_idx@, after@),
            j <= after@.len(),
            b == outputs(before@),
            a == outputs(after@),
            keys(r@).no_duplicates(),
            rebuilt_upto(keys(r@), b, a, after@, j as int),
        decreases after@.len() - j,
    {
        let e = &after[j];
        let ghost k = key_of(e.attr);
        let last = last_index(after, &after_idx, &e.attr.package, &e.attr.architecture);
        let is_last = match last {
            Some(x) => x == j,
            None => false,
        };
        proof {
            lemma_outputs_dom(after@, k);
            assert(key_of(after@[j as int].attr) == k);
            assert(is_last <==> last_at(after@, k, j as int));
        }
        let mut changed = false;
        if is_last {
            let prior = last_index(before, &before_idx, &e.attr.package, &e.attr.architecture);
            changed = match prior {
                None => true,
                Some(x) => !(before[x].path == e.path),
            };
            proof {
                assert(a.contains_key(k));
                assert(a[k] == after@[j as int].path@);
                match prior {
                    None => {},
                    Some(x) => {
                        assert(b[k] == before@[x as int].path@);
                    },
                }
                assert(changed == needs_rebuild(b, a, k));
            }
        }
        let ghost prev = r@;
        if changed {
            r.push(PackageArch { package: e.attr.package.clone(), architecture: e.attr.architecture.clone() });
        }
        proof {
            if changed {
                assert(keys(r@) =~= keys(prev).push(k));
                if keys(prev).contains(k) {
                    let i = choose|i: int| 0 <= i < j && #[trigger] last_at(after@, k, i);
                    assert(false);
                }
            } else {
                assert(keys(r@) =~= keys(prev));
            }
            assert forall|kk: Key|
                keys(r@).contains(kk) <==> (needs_rebuild(b, a, kk) && exists|i: int|
                    0 <= i < j + 1 && #[trigger] last_at(after@, kk, i)) by {
                assert(rebuilt_upto(keys(prev), b, a, after@, j as int));
                let now = exists|i: int| 0 <= i < j + 1 && #[trigger] last_at(after@, kk, i);
                let before_j = exists|i: int| 0 <= i < j && #[trigger] last_at(after@, kk, i);
                assert(keys(prev).contains(kk) == (needs_rebuild(b, a, kk) && before_j));
                if changed {
                    assert(keys(prev).push(k).last() == k);
                    assert(keys(r@).contains(k));
                }
                if now && !before_j {
                    let i = choose|i: int| 0 <= i < j + 1 && #[trigger] last_at(after@, kk, i);
                    assert(i == j);
                    assert(kk == k);
                }
                if before_j {
                    let i = choose|i: int| 0 <= i < j && #[trigger] last_at(after@, kk, i);
                    assert(last_at(after@, kk, i));
                    assert(now);
                }
                if kk == k && is_last {
                    assert(last_at(after@, kk, j as int));
                    assert(now);
                    if before_j {
                        let i = choose|i: int| 0 <= i < j && #[trigger] last_at(after@, kk, i);
                        assert(key_of(after@[j as int].attr) == kk);
                        assert(false);
                    }
                }
                if keys(r@).contains(kk) && kk != k {
                    let i = choose|i: int| 0 <= i < keys(r@).len() && keys(r@)[i] == kk;
                    if changed {
                        assert(i < keys(prev).len());
                        assert(keys(prev)[i] == kk);
                    }
                    assert(keys(prev).contains(kk));
                }
                if keys(prev).contains(kk) {
                    let i = choose|i: int| 0 <= i < keys(prev).len() && keys(prev)[i] == kk;
                    assert(keys(r@)[i] == kk);
                }
            }
        }
        let ghost jo = j as int;
        assert(rebuilt_upto(keys(r@), b, a, after@, jo + 1));
        j = j + 1;
        assert(rebuilt_upto(keys(r@), b, a, after@, j as int));
    }
    proof {
        assert(rebuilt_upto(keys(r@), b, a, after@, after@.len() as int));
        assert forall|k: Key| needs_rebuild(b, a, k) implies exists|i: int|
            0 <= i < after@.len() && #[trigger] last_at(after@, k, i) by {
            lemma_outputs_dom(after@, k);
            let i = choose|i: int| 0 <= i < after@.len() && key_of(#[trigger] after@[i].attr) == k;
            lemma_last_exists(after@, k, i);
        }
    }
    r
}

/// The removed and the added packages have none in common, and a package
/// present before and after, on any system and whatever its paths, is in
/// neither.
pub proof fn lemma_package_diff_disjoint(before: Map<Key, Seq<char>>, after: Map<Key, Seq<char>>)
    ensures
        removed_packages(before, after).disjoint(added_packages(before, after)),
        forall|p: Seq<char>|
            packages(before).contains(p) && packages(after).contains(p) ==> !removed_packages(
                before,
                after,
            ).contains(p) && !added_packages(before, after).contains(p),
{
}

/// An attribute present before and after with the same output path is not
/// rebuilt.
pub proof fn lemma_same_path_not_rebuilt(
    before: Map<Key, Seq<char>>,
    after: Map<Key, Seq<char>>,
    k: Key,
)
    requires
        before.contains_key(k),
        after.contains_key(k),
        before[k] == after[k],
    ensures
        !needs_rebuild(before, after, k),
{
}

} // verus!
