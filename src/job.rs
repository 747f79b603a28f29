//! The evaluation job taken from the bus, and the build jobs it may give.
use vstd::prelude::*;
use crate::order::{insert_sorted, lemma_text_lt_irreflexive, strictly_sorted};
use crate::text::{has_string, same_text, views};

verus! {

/// The repository that a pull request belongs to.
#[derive(Clone, Debug)]
pub struct Repo {
    pub owner: String,
    pub name: String,
    pub full_name: String,
    pub clone_url: String,
}

/// The pull request to evaluate.
#[derive(Clone, Debug)]
pub struct Pr {
    pub number: u64,
    pub head_sha: String,
    pub target_branch: Option<String>,
}

/// One pull request to evaluate.
#[derive(Clone, Debug)]
pub struct EvaluationJob {
    pub repo: Repo,
    pub pr: Pr,
}

/// Which part of the package collection a build job builds from.
#[derive(Clone, Copy, Debug, PartialEq, Eq, Structural)]
pub enum Subset {
    Nixpkgs,
    NixOS,
}

/// A request to build some attributes of a pull request.
#[derive(Clone, Debug)]
pub struct BuildJob {
    pub repo: Repo,
    pub pr: Pr,
    pub subset: Option<Subset>,
    pub attrs: Vec<String>,
    pub request_id: String,
}

/// Two build jobs with the same contents.
pub open spec fn same_job(a: BuildJob, b: BuildJob) -> bool {
    a.repo == b.repo && a.pr == b.pr && a.subset == b.subset && a.attrs@ == b.attrs@
        && a.request_id == b.request_id
}

impl BuildJob {
    /// A field-by-field copy.
    pub fn duplicate(&self) -> (r: BuildJob)
        ensures
            same_job(r, *self),
    {
        BuildJob {
            repo: self.repo.duplicate(),
            pr: self.pr.duplicate(),
            subset: self.subset,
            attrs: crate::text::copy_strings(&self.attrs),
            request_id: self.request_id.clone(),
        }
    }
}

/// The most attributes that one pull request has built without asking.
pub const MAX_AUTO_BUILD_ATTRS: usize = 10;

/// The branch a pull request targets: `master` where none is named.
pub open spec fn target_branch_of(pr: Pr) -> Seq<char> {
    match pr.target_branch {
        Some(b) => b@,
        None => "master"@,
    }
}

/// The repository that holds the package collection.
pub open spec fn is_nixpkgs_repo(repo: Repo) -> bool {
    repo.name@ == "nixpkgs"@
}

impl Repo {
    /// A field-by-field copy.
    pub fn duplicate(&self) -> (r: Repo)
        ensures
            r == *self,
    {
        Repo {
            owner: self.owner.clone(),
            name: self.name.clone(),
            full_name: self.full_name.clone(),
            clone_url: self.clone_url.clone(),
        }
    }
}

impl Pr {
    /// A field-by-field copy.
    pub fn duplicate(&self) -> (r: Pr)
        ensures
            r == *self,
    {
        let target_branch = match &self.target_branch {
            Some(b) => Some(b.clone()),
            None => None,
        };
        Pr { number: self.number, head_sha: self.head_sha.clone(), target_branch }
    }

    /// The branch the pull request targets.
    pub fn target_branch_name(&self) -> (r: String)
        ensures
            r@ == target_branch_of(*self),
    {
        match &self.target_branch {
            Some(b) => b.clone(),
            None => "master".to_owned(),
        }
    }
}

impl EvaluationJob {
    /// Whether the job is for the package collection's own repository.
    pub fn is_nixpkgs(&self) -> (r: bool)
        ensures
            r == is_nixpkgs_repo(self.repo),
    {
        same_text(self.repo.name.as_str(), "nixpkgs")
    }
}

/// The attributes worth building: the emitted packages that the commits
/// probably touched.
pub open spec fn touched_packages(emitted: Seq<Seq<char>>, touched: Seq<Seq<char>>) -> Set<
    Seq<char>,
> {
    emitted.to_set().intersect(touched.to_set())
}

/// The emitted packages that are also among the touched ones, sorted and
/// each once.
pub fn packages_to_build(emitted: &Vec<String>, touched: &Vec<String>) -> (r: Vec<String>)
    ensures
        strictly_sorted(views(r@)),
        views(r@).to_set() == touched_packages(views(emitted@), views(touched@)),
        views(r@).len() == touched_packages(views(emitted@), views(touched@)).len(),
{
    let mut r: Vec<String> = Vec::new();
    let mut i: usize = 0;
    while i < emitted.len()
        invariant
            i <= emitted@.len(),
            strictly_sorted(views(r@)),
            forall|p: Seq<char>|
                views(r@).contains(p) <==> (views(emitted@).subrange(0, i as int).contains(p)
                    && views(touched@).contains(p)),
        decreases emitted@.len() - i,
    {
        if has_string(touched, &emitted[i]) {
            insert_sorted(&mut r, emitted[i].clone());
        }
        proof {
            let e = views(emitted@);
            assert forall|p: Seq<char>|
                e.subrange(0, i + 1).contains(p) <==> (e.subrange(0, i as int).contains(p) || p
                    == e[i as int]) by {
                if e.subrange(0, i + 1).contains(p) {
                    let k = choose|k: int| 0 <= k < i + 1 && #[trigger] e.subrange(0, i + 1)[k] == p;
                    if k < i {
                        assert(e.subrange(0, i as int)[k] == p);
                    }
                }
                if e.subrange(0, i as int).contains(p) {
                    let k = choose|k: int| 0 <= k < i && #[trigger] e.subrange(0, i as int)[k] == p;
                    assert(e.subrange(0, i + 1)[k] == p);
                }
                if p == e[i as int] {
                    assert(e.subrange(0, i + 1)[i as int] == p);
                }
            }
        }
        i = i + 1;
    }
    proof {
        let e = views(emitted@);
        assert(e.subrange(0, i as int) =~= e);
        let rv = views(r@);
        assert(rv.to_set() =~= touched_packages(e, views(touched@)));
        assert forall|a: int, b: int|
            0 <= a < rv.len() && 0 <= b < rv.len() && a != b implies #[trigger] rv[a]
                != #[trigger] rv[b] by {
            lemma_text_lt_irreflexive(rv[a]);
            if a < b {
                assert(crate::order::text_lt(rv[a], rv[b]));
            } else {
                assert(crate::order::text_lt(rv[b], rv[a]));
            }
        }
        rv.unique_seq_to_set();
    }
    r
}

/// A lowercase hexadecimal digit.
pub open spec fn is_lower_hex(c: char) -> bool {
    (48 <= c as int && c as int <= 57) || (97 <= c as int && c as int <= 102)
}

/// The text of a random (version 4, RFC 4122 variant) UUID: 36 characters,
/// hyphens at 8, 13, 18 and 23, lowercase hex digits elsewhere, `4` at 14
/// and one of `8`, `9`, `a`, `b` at 19.
pub open spec fn v4_text(s: Seq<char>) -> bool {
    &&& s.len() == 36
    &&& forall|i: int|
        0 <= i < 36 ==> if i == 8 || i == 13 || i == 18 || i == 23 {
            s[i] == '-'
        } else {
            is_lower_hex(#[trigger] s[i])
        }
    &&& s[14] == '4'
    &&& (s[19] == '8' || s[19] == '9' || s[19] == 'a' || s[19] == 'b')
}

/// Relies on `uuid::Uuid::new_v4`, which draws random bits and sets the
/// version nibble to 4 and the variant bits to `10`, and on the `Display`
/// of `uuid::fmt::Hyphenated` (`format_hyphenated`), which writes the 16
/// bytes as 32 lowercase hex digits with hyphens after the 8th, 12th, 16th
/// and 20th.
#[verifier::external_body]
fn new_request_id() -> (r: String)
    ensures
        v4_text(r@),
{
    uuid::Uuid::new_v4().hyphenated().to_string()
}

/// The build jobs to schedule once the package meta check has listed the
/// emitted packages: where the commits named packages and between one and
/// ten of them were emitted, one job for those, sorted; otherwise none (a
/// larger set means a mass rebuild, such as a merge of one branch into
/// another, and is never built unasked).
pub fn schedule_builds(
    job: &EvaluationJob,
    emitted: &Vec<String>,
    touched: &Option<Vec<String>>,
    request_id: String,
) -> (r: Vec<BuildJob>)
    ensures
        r@.len() <= 1,
        r@.len() == 1 <==> (touched is Some && 1 <= touched_packages(
            views(emitted@),
            views(touched->Some_0@),
        ).len() <= MAX_AUTO_BUILD_ATTRS),
        r@.len() == 1 ==> ({
            let b = r@[0];
            &&& b.repo == job.repo
            &&& b.pr == job.pr
            &&& b.subset == Some(Subset::Nixpkgs)
            &&& b.request_id == request_id
            &&& strictly_sorted(views(b.attrs@))
            &&& 1 <= b.attrs@.len() <= MAX_AUTO_BUILD_ATTRS
            &&& views(b.attrs@).to_set() == touched_packages(
                views(emitted@),
                views(touched->Some_0@),
            )
        }),
{
    let mut r: Vec<BuildJob> = Vec::new();
    if let Some(t) = touched {
        let attrs = packages_to_build(emitted, t);
        if attrs.len() >= 1 && attrs.len() <= MAX_AUTO_BUILD_ATTRS {
            r.push(
                BuildJob {
                    repo: job.repo.duplicate(),
                    pr: job.pr.duplicate(),
                    subset: Some(Subset::Nixpkgs),
                    attrs,
                    request_id,
                },
            );
        }
    }
    r
}

/// `schedule_builds` with a fresh random request id; a replayed job gets a
/// new one.
pub fn schedule_builds_now(
    job: &EvaluationJob,
    emitted: &Vec<String>,
    touched: &Option<Vec<String>>,
) -> (r: Vec<BuildJob>)
    ensures
        r@.len() <= 1,
        r@.len() == 1 <==> (touched is Some && 1 <= touched_packages(
            views(emitted@),
            views(touched->Some_0@),
        ).len() <= MAX_AUTO_BUILD_ATTRS),
        r@.len() == 1 ==> ({
            let b = r@[0];
            &&& b.repo == job.repo
            &&& b.pr == job.pr
            &&& b.subset == Some(Subset::Nixpkgs)
            &&& v4_text(b.request_id@)
            &&& strictly_sorted(views(b.attrs@))
            &&& 1 <= b.attrs@.len() <= MAX_AUTO_BUILD_ATTRS
            &&& views(b.attrs@).to_set() == touched_packages(
                views(emitted@),
                views(touched->Some_0@),
            )
        }),
{
    let id = new_request_id();
    schedule_builds(job, emitted, touched, id)
}

} // verus!
