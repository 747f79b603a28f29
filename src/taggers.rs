//! Labels derived from what a pull request changes: paths, stdenvs, added
//! and removed packages, rebuild counts, and whether its author maintains
//! what it touches. Each gives the labels wanted on and wanted off.
use vstd::prelude::*;
use crate::outpaths::PackageArch;
use crate::stdenvs::System;
use crate::labels::{keep_where, lemma_keep_where_members, select_labels};
use crate::text::{has_string, starts_with, str_starts_with, views};

verus! {

/// Labels wanted on the issue, and labels wanted off it.
pub struct LabelPlan {
    pub add: Vec<String>,
    pub remove: Vec<String>,
}

/// A path label and the path prefixes that call for it.
pub struct TagPaths {
    pub tag: String,
    pub prefixes: Vec<String>,
}

/// Some changed path starts with one of the prefixes.
pub open spec fn paths_hit(prefixes: Seq<Seq<char>>, paths: Seq<Seq<char>>) -> bool {
    exists|i: int, j: int|
        0 <= i < prefixes.len() && 0 <= j < paths.len() && starts_with(
            #[trigger] paths[j],
            #[trigger] prefixes[i],
        )
}

/// The labels of `config`, in order, whose prefixes are (`hit`) or are not
/// matched by the changed paths.
pub open spec fn path_tags_where(config: Seq<TagPaths>, paths: Seq<Seq<char>>, hit: bool) -> Seq<
    Seq<char>,
>
    decreases config.len(),
{
    if config.len() == 0 {
        seq![]
    } else {
        let rest = path_tags_where(config.drop_last(), paths, hit);
        if paths_hit(views(config.last().prefixes@), paths) == hit {
            rest.push(config.last().tag@)
        } else {
            rest
        }
    }
}

/// Whether a changed path starts with one of the prefixes.
fn any_path_hit(prefixes: &Vec<String>, paths: &Vec<String>) -> (r: bool)
    ensures
        r == paths_hit(views(prefixes@), views(paths@)),
{
    let mut i: usize = 0;
    while i < prefixes.len()
        invariant
            i <= prefixes@.len(),
            forall|a: int, b: int|
                0 <= a < i && 0 <= b < paths@.len() ==> !starts_with(
                    #[trigger] views(paths@)[b],
                    #[trigger] views(prefixes@)[a],
                ),
        decreases prefixes@.len() - i,
    {
        let mut j: usize = 0;
        while j < paths.len()
            invariant
                i < prefixes@.len(),
                j <= paths@.len(),
                forall|a: int, b: int|
                    0 <= a < i && 0 <= b < paths@.len() ==> !starts_with(
                        #[trigger] views(paths@)[b],
                        #[trigger] views(prefixes@)[a],
                    ),
                forall|b: int|
                    0 <= b < j ==> !starts_with(
                        #[trigger] views(paths@)[b],
                        views(prefixes@)[i as int],
                    ),
            decreases paths@.len() - j,
        {
            if str_starts_with(paths[j].as_str(), prefixes[i].as_str()) {
                assert(starts_with(views(paths@)[j as int], views(prefixes@)[i as int]));
                return true;
            }
            j = j + 1;
        }
        i = i + 1;
    }
    false
}

/// The path labels: each label is wanted on where some changed path starts
/// with one of its prefixes, and wanted off otherwise. A label listed twice
/// is wanted on where either entry calls for it, and never both on and off.
pub fn path_tags(config: &Vec<TagPaths>, changed: &Vec<String>) -> (r: LabelPlan)
    ensures
        views(r.add@) == path_tags_where(config@, views(changed@), true),
        views(r.remove@) == keep_where(
            path_tags_where(config@, views(changed@), false),
            path_tags_where(config@, views(changed@), true),
            false,
        ),
        views(r.add@).to_set().disjoint(views(r.remove@).to_set()),
{
    let mut add: Vec<String> = Vec::new();
    let mut remove: Vec<String> = Vec::new();
    let mut i: usize = 0;
    while i < config.len()
        invariant
            i <= config@.len(),
            views(add@) == path_tags_where(config@.subrange(0, i as int), views(changed@), true),
            views(remove@) == path_tags_where(config@.subrange(0, i as int), views(changed@), false),
        decreases config@.len() - i,
    {
        let c = &config[i];
        let ghost pa = add@;
        let ghost pr = remove@;
        proof {
            assert(config@.subrange(0, i + 1).drop_last() =~= config@.subrange(0, i as int));
            assert(config@.subrange(0, i + 1).last() == config@[i as int]);
        }
        if any_path_hit(&c.prefixes, changed) {
            add.push(c.tag.clone());
            assert(views(add@) =~= views(pa).push(c.tag@));
        } else {
            remove.push(c.tag.clone());
            assert(views(remove@) =~= views(pr).push(c.tag@));
        }
        i = i + 1;
    }
    assert(config@.subrange(0, i as int) =~= config@);
    let remove = select_labels(remove.as_slice(), &add, false);
    proof {
        let a = path_tags_where(config@, views(changed@), true);
        let rm = path_tags_where(config@, views(changed@), false);
        lemma_keep_where_members(rm, a, false);
        assert forall|x: Seq<char>| !(views(add@).to_set().contains(x) && views(remove@).to_set().contains(x)) by {
            if views(remove@).to_set().contains(x) {
                assert(views(remove@).contains(x));
            }
        }
    }
    LabelPlan { add, remove }
}

pub open spec fn linux_stdenv_label() -> Seq<char> {
    "10.rebuild-linux-stdenv"@
}

pub open spec fn darwin_stdenv_label() -> Seq<char> {
    "10.rebuild-darwin-stdenv"@
}

pub open spec fn stdenv_label(s: System) -> Seq<char> {
    match s {
        System::X8664Linux => linux_stdenv_label(),
        System::X8664Darwin => darwin_stdenv_label(),
    }
}

/// The stdenv labels: one on for each system whose stdenv changed, in the
/// order given, and off for each system whose did not.
pub fn stdenv_tags(changed: &Vec<System>) -> (r: LabelPlan)
    ensures
        views(r.add@) == changed@.map_values(|s: System| stdenv_label(s)),
        views(r.remove@) == (if changed@.contains(System::X8664Darwin) {
            seq![]
        } else {
            seq![darwin_stdenv_label()]
        }) + (if changed@.contains(System::X8664Linux) {
            seq![]
        } else {
            seq![linux_stdenv_label()]
        }),
{
    let mut add: Vec<String> = Vec::new();
    let mut has_linux = false;
    let mut has_darwin = false;
    let mut i: usize = 0;
    while i < changed.len()
        invariant
            i <= changed@.len(),
            views(add@) == changed@.subrange(0, i as int).map_values(|s: System| stdenv_label(s)),
            has_linux == changed@.subrange(0, i as int).contains(System::X8664Linux),
            has_darwin == changed@.subrange(0, i as int).contains(System::X8664Darwin),
        decreases changed@.len() - i,
    {
        let ghost pa = add@;
        let ghost sub = changed@.subrange(0, i + 1);
        proof {
            assert(sub =~= changed@.subrange(0, i as int).push(changed@[i as int]));
        }
        match changed[i] {
            System::X8664Linux => {
                add.push("10.rebuild-linux-stdenv".to_owned());
                has_linux = true;
            },
            System::X8664Darwin => {
                add.push("10.rebuild-darwin-stdenv".to_owned());
                has_darwin = true;
            },
        }
        proof {
            assert(views(add@) =~= views(pa).push(stdenv_label(changed@[i as int])));
            assert(sub.map_values(|s: System| stdenv_label(s)) =~= changed@.subrange(
                0,
                i as int,
            ).map_values(|s: System| stdenv_label(s)).push(stdenv_label(changed@[i as int])));
            assert(sub[i as int] == changed@[i as int]);
            assert forall|s: System| sub.contains(s) <==> (changed@.subrange(0, i as int).contains(s)
                || s == changed@[i as int]) by {
                if sub.contains(s) {
                    let k = choose|k: int| 0 <= k < sub.len() && sub[k] == s;
                    if k < i {
                        assert(changed@.subrange(0, i as int)[k] == s);
                    }
                }
                if changed@.subrange(0, i as int).contains(s) {
                    let k = choose|k: int|
                        0 <= k < i && #[trigger] changed@.subrange(0, i as int)[k] == s;
                    assert(sub[k] == s);
                }
            }
        }
        i = i + 1;
    }
    assert(changed@.subrange(0, i as int) =~= changed@);
    let mut remove: Vec<String> = Vec::new();
    if !has_darwin {
        remove.push("10.rebuild-darwin-stdenv".to_owned());
    }
    let ghost pr = remove@;
    if !has_linux {
        remove.push("10.rebuild-linux-stdenv".to_owned());
        assert(views(remove@) =~= views(pr).push(linux_stdenv_label()));
    }
    assert(views(remove@) =~= (if has_darwin {
        seq![]
    } else {
        seq![darwin_stdenv_label()]
    }) + (if has_linux {
        seq![]
    } else {
        seq![linux_stdenv_label()]
    }));
    LabelPlan { add, remove }
}

pub open spec fn new_package_label() -> Seq<char> {
    "8.has: package (new)"@
}

pub open spec fn clean_up_label() -> Seq<char> {
    "8.has: clean-up"@
}

/// The labels for removed and added packages: clean-up where some package
/// went, new package where some came; none is taken off.
pub fn added_removed_tags(removed: &Vec<String>, added: &Vec<String>) -> (r: LabelPlan)
    ensures
        views(r.add@) == (if removed@.len() > 0 {
            seq![clean_up_label()]
        } else {
            seq![]
        }) + (if added@.len() > 0 {
            seq![new_package_label()]
        } else {
            seq![]
        }),
        r.remove@.len() == 0,
{
    let mut add: Vec<String> = Vec::new();
    if removed.len() > 0 {
        add.push("8.has: clean-up".to_owned());
    }
    let ghost pa = add@;
    if added.len() > 0 {
        add.push("8.has: package (new)".to_owned());
        assert(views(add@) =~= views(pa).push(new_package_label()));
    }
    assert(views(add@) =~= (if removed@.len() > 0 {
        seq![clean_up_label()]
    } else {
        seq![]
    }) + (if added@.len() > 0 {
        seq![new_package_label()]
    } else {
        seq![]
    }));
    LabelPlan { add, remove: Vec::new() }
}

/// How many of `attrs` are on the system named `arch`.
pub open spec fn count_on(attrs: Seq<PackageArch>, arch: Seq<char>) -> nat
    decreases attrs.len(),
{
    if attrs.len() == 0 {
        0
    } else {
        count_on(attrs.drop_last(), arch) + if attrs.last().architecture@ == arch {
            1nat
        } else {
            0nat
        }
    }
}

/// The rebuild-count buckets, smallest first.
pub open spec fn buckets() -> Seq<Seq<char>> {
    seq!["0"@, "1-10"@, "11-100"@, "101-500"@, "501+"@]
}

/// The bucket, as an index into `buckets`, that a rebuild count falls in.
pub open spec fn bucket_of(n: nat) -> int {
    if n == 0 {
        0
    } else if n <= 10 {
        1
    } else if n <= 100 {
        2
    } else if n <= 500 {
        3
    } else {
        4
    }
}

/// The rebuild-count labels of one system: `prefix` and the bucket.
pub open spec fn rebuild_labels(prefix: Seq<char>) -> Seq<Seq<char>> {
    buckets().map_values(|b: Seq<char>| prefix + b)
}

fn count_arch(attrs: &Vec<PackageArch>, arch: &str) -> (r: usize)
    ensures
        r == count_on(attrs@, arch@),
{
    let mut n: usize = 0;
    let mut i: usize = 0;
    while i < attrs.len()
        invariant
            i <= attrs@.len(),
            n == count_on(attrs@.subrange(0, i as int), arch@),
            n <= i,
        decreases attrs@.len() - i,
    {
        proof {
            assert(attrs@.subrange(0, i + 1).drop_last() =~= attrs@.subrange(0, i as int));
        }
        if crate::text::same_text(attrs[i].architecture.as_str(), arch) {
            n = n + 1;
        }
        i = i + 1;
    }
    assert(attrs@.subrange(0, i as int) =~= attrs@);
    n
}

fn bucket_index(n: usize) -> (r: usize)
    ensures
        r == bucket_of(n as nat),
{
    if n == 0 {
        0
    } else if n <= 10 {
        1
    } else if n <= 100 {
        2
    } else if n <= 500 {
        3
    } else {
        4
    }
}

/// Adds the label of bucket `chosen` to `add` and the other buckets'
/// labels to `remove`, each as `prefix` followed by the bucket.
fn push_bucket_labels(prefix: &str, chosen: usize, add: &mut Vec<String>, remove: &mut Vec<String>)
    requires
        chosen < 5,
    ensures
        views(final(add)@) == views(old(add)@).push(rebuild_labels(prefix@)[chosen as int]),
        views(final(remove)@) == views(old(remove)@) + rebuild_labels(prefix@).remove(
            chosen as int,
        ),
{
    let names = vec!["0", "1-10", "11-100", "101-500", "501+"];
    let ghost labels = rebuild_labels(prefix@);
    let ghost old_remove = views(remove@);
    let ghost old_add = views(add@);
    let mut k: usize = 0;
    while k < 5
        invariant
            chosen < 5,
            k <= 5,
            names@.len() == 5,
            forall|j: int| 0 <= j < 5 ==> (#[trigger] names@[j])@ == buckets()[j],
            labels == rebuild_labels(prefix@),
            views(add@) == (if k > chosen {
                old_add.push(labels[chosen as int])
            } else {
                old_add
            }),
            views(remove@) == old_remove + (if k > chosen {
                labels.subrange(0, k as int).remove(chosen as int)
            } else {
                labels.subrange(0, k as int)
            }),
        decreases 5 - k,
    {
        let mut label = prefix.to_owned();
        label.append(names[k]);
        assert(label@ == labels[k as int]);
        let ghost pr = views(remove@);
        let ghost pa = views(add@);
        if k == chosen {
            add.push(label);
            assert(views(add@) =~= pa.push(labels[chosen as int]));
        } else {
            remove.push(label);
            assert(views(remove@) =~= pr.push(labels[k as int]));
        }
        proof {
            if k < chosen {
                assert(labels.subrange(0, k + 1) =~= labels.subrange(0, k as int).push(
                    labels[k as int],
                ));
            } else if k == chosen {
                assert(labels.subrange(0, k + 1).remove(k as int) =~= labels.subrange(0, k as int));
            } else {
                assert(labels.subrange(0, k + 1).remove(chosen as int) =~= labels.subrange(
                    0,
                    k as int,
                ).remove(chosen as int).push(labels[k as int]));
            }
        }
        k = k + 1;
    }
    assert(labels.subrange(0, 5) =~= labels);
    assert(views(remove@) =~= old_remove + labels.remove(chosen as int));
}

/// The rebuild-count labels: for Darwin and then Linux, the label of the
/// bucket that the number of attributes to rebuild on it falls in goes on,
/// the other buckets' labels go off.
pub fn rebuild_tags(attrs: &Vec<PackageArch>) -> (r: LabelPlan)
    ensures
        views(r.add@) == seq![
            rebuild_labels("10.rebuild-darwin: "@)[bucket_of(count_on(attrs@, "x86_64-darwin"@))],
            rebuild_labels("10.rebuild-linux: "@)[bucket_of(count_on(attrs@, "x86_64-linux"@))],
        ],
        views(r.remove@) == rebuild_labels("10.rebuild-darwin: "@).remove(
            bucket_of(count_on(attrs@, "x86_64-darwin"@)),
        ) + rebuild_labels("10.rebuild-linux: "@).remove(
            bucket_of(count_on(attrs@, "x86_64-linux"@)),
        ),
{
    let darwin = bucket_index(count_arch(attrs, "x86_64-darwin"));
    let linux = bucket_index(count_arch(attrs, "x86_64-linux"));
    let mut add: Vec<String> = Vec::new();
    let mut remove: Vec<String> = Vec::new();
    push_bucket_labels("10.rebuild-darwin: ", darwin, &mut add, &mut remove);
    push_bucket_labels("10.rebuild-linux: ", linux, &mut add, &mut remove);
    assert(views(add@) =~= seq![
        rebuild_labels("10.rebuild-darwin: "@)[darwin as int],
        rebuild_labels("10.rebuild-linux: "@)[linux as int],
    ]);
    assert(views(remove@) =~= rebuild_labels("10.rebuild-darwin: "@).remove(darwin as int)
        + rebuild_labels("10.rebuild-linux: "@).remove(linux as int));
    LabelPlan { add, remove }
}

/// The maintainers of one touched package.
pub struct PackageMaintainers {
    pub package: String,
    pub maintainers: Vec<String>,
}

pub open spec fn maintainer_label() -> Seq<char> {
    "11.by: package-maintainer"@
}

/// `author` maintains one of the touched packages.
pub open spec fn maintains_any(author: Seq<char>, by_package: Seq<PackageMaintainers>) -> bool {
    exists|i: int|
        0 <= i < by_package.len() && views((#[trigger] by_package[i]).maintainers@).contains(author)
}

/// The maintainer label: on where the author maintains a touched package,
/// off otherwise.
pub fn maintainer_tags(author: &String, by_package: &Vec<PackageMaintainers>) -> (r: LabelPlan)
    ensures
        maintains_any(author@, by_package@) ==> views(r.add@) == seq![maintainer_label()]
            && r.remove@.len() == 0,
        !maintains_any(author@, by_package@) ==> views(r.remove@) == seq![maintainer_label()]
            && r.add@.len() == 0,
{
    let mut found = false;
    let mut i: usize = 0;
    while i < by_package.len() && !found
        invariant
            i <= by_package@.len(),
            found ==> maintains_any(author@, by_package@),
            !found ==> forall|j: int|
                0 <= j < i ==> !views((#[trigger] by_package@[j]).maintainers@).contains(author@),
        decreases by_package@.len() - i,
    {
        if has_string(&by_package[i].maintainers, author) {
            found = true;
        }
        i = i + 1;
    }
    let mut add: Vec<String> = Vec::new();
    let mut remove: Vec<String> = Vec::new();
    if found {
        add.push("11.by: package-maintainer".to_owned());
        assert(views(add@) =~= seq![maintainer_label()]);
    } else {
        remove.push("11.by: package-maintainer".to_owned());
        assert(views(remove@) =~= seq![maintainer_label()]);
    }
    LabelPlan { add, remove }
}

/// The most maintainers asked for review on one pull request, plus one.
pub const REVIEW_REQUEST_LIMIT: usize = 10;

/// Who to ask for a review: every maintainer, where there are fewer than
/// ten; nobody otherwise.
pub fn review_requests(maintainers: &Vec<String>) -> (r: Vec<String>)
    ensures
        maintainers@.len() < REVIEW_REQUEST_LIMIT ==> views(r@) == views(maintainers@),
        maintainers@.len() >= REVIEW_REQUEST_LIMIT ==> r@.len() == 0,
{
    let mut r: Vec<String> = Vec::new();
    if maintainers.len() < REVIEW_REQUEST_LIMIT {
        let mut i: usize = 0;
        while i < maintainers.len()
            invariant
                i <= maintainers@.len(),
                views(r@) == views(maintainers@.subrange(0, i as int)),
            decreases maintainers@.len() - i,
        {
            let ghost prev = r@;
            r.push(maintainers[i].clone());
            assert(views(r@) =~= views(prev).push(maintainers@[i as int]@));
            assert(views(r@) =~= views(maintainers@.subrange(0, i + 1)));
            i = i + 1;
        }
        assert(maintainers@.subrange(0, i as int) =~= maintainers@);
    }
    r
}

} // verus!
