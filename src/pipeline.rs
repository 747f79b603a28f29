//! The driver of one evaluation job: a state machine that, from the answer
//! to its last request, decides what to report and what to ask for next.
//! The code that talks to the code host, the checkout and the evaluator
//! performs each request and hands the answer back as an event.
use vstd::prelude::*;
use crate::checks::{
    checker_is, join_words, join_with, nixpkgs_check_list, op_command, EvalChecker,
};
use crate::issue::{is_wip, issue_is_closed, issue_is_wip, IssueSnapshot};
use crate::job::{
    same_job, target_branch_of, v4_text, BuildJob, EvaluationJob, MAX_AUTO_BUILD_ATTRS,
};
use crate::order::strictly_sorted;
use crate::outpaths::{
    added_packages, keys, needs_rebuild, outputs, removed_packages, Key, OutPath, OutPathDiff,
    PackageArch,
};
use crate::stdenvs::{Stdenvs, System};
use crate::strategy::{
    merge_conflict_label, EvaluationStrategy, Error, GenericStrategy, NixpkgsStrategy, Strategy,
};
use crate::taggers::{
    added_removed_tags, bucket_of, count_on, maintainer_tags, rebuild_labels, rebuild_tags,
    clean_up_label, darwin_stdenv_label, linux_stdenv_label, new_package_label, maintainer_label, maintains_any, review_requests,
    REVIEW_REQUEST_LIMIT,
    stdenv_label, stdenv_tags, LabelPlan, PackageMaintainers, TagPaths,
};
use crate::text::{split_text, views};
use crate::effects::{
    check_failure_in, check_failures, check_write_in, check_writes, is_status, last_overall,
    lemma_check_push, lemma_counts_concat, lemma_counts_empty, lemma_failure_push,
    lemma_last_overall_push, lemma_meta_push, lemma_no_schedules, lemma_overall_push, lemma_prefix,
    lemma_scheduled_push, lemma_schedules_go_to_concat, lemma_success_concat, lemma_success_push,
    lemma_meta_final_push, lemma_tail_concat, meta_final_in, meta_final_writes, meta_successes, overall_final_in, overall_final_writes, overall_success_in,
    overall_successes, scheduled, schedules_go_to, Context, Effect, Gist, JobEvent, Link,
    StatusState, StatusWrite,
};

verus! {

broadcast use {
    lemma_overall_push,
    lemma_check_push,
    lemma_success_push,
    lemma_failure_push,
    lemma_last_overall_push,
    lemma_scheduled_push,
    lemma_meta_push,
    lemma_meta_final_push,
};


/// How the job ends.
#[derive(Clone, Copy, Debug, PartialEq, Eq, Structural)]
pub enum Outcome {
    /// Acknowledged, nothing more done.
    Skipped,
    /// Acknowledged after the full evaluation.
    Completed,
}

/// What the runner is asked to do next.
pub enum Request {
    /// Fetch the issue, and the architectures its author may build on.
    FetchIssue,
    /// Clone the repository and check out the branch.
    Checkout { branch: String },
    /// Evaluate the stdenv of Linux and of Darwin in the tree as it is.
    EvalStdenvs,
    /// List the output paths of every attribute in the tree as it is.
    FindOutPaths,
    /// Fetch the pull request and tell whether its head commit exists.
    FetchPr,
    /// List the commit subjects and changed files of the pull request.
    CommitInfo,
    /// Merge the head commit.
    Merge,
    /// Run the evaluation check at this position.
    RunCheck { index: usize },
    /// Run the package meta check and list the packages it emits.
    MetaCheck,
    /// Work out who maintains what changed: the changed files, and each
    /// attribute to rebuild as its dotted path.
    Maintainers { paths: Vec<String>, attrs: Vec<Vec<String>> },
    /// Answer the previous request again: the last event did not fit it.
    Again,
    /// The job is over.
    Finish(Outcome),
}

/// Who maintains what changed.
pub struct MaintainerReport {
    pub maintainers: Vec<String>,
    pub by_package: Vec<PackageMaintainers>,
    /// The report as text, to paste.
    pub listing: String,
}

/// The answer to a request.
pub enum Event {
    Issue { issue: Option<IssueSnapshot>, architectures: Vec<String> },
    CheckedOut,
    Stdenvs { linux: Option<String>, darwin: Option<String> },
    /// The entries, or the evaluator's log where it failed.
    OutPaths(Result<Vec<OutPath>, String>),
    PrFetched { commit_exists: bool },
    /// `None` where listing failed.
    CommitInfo { messages: Option<Vec<String>>, files: Option<Vec<String>> },
    Merged(bool),
    CheckDone { ok: bool, log: String },
    /// The emitted packages, or the evaluator's log where it failed.
    Meta(Result<Vec<String>, String>),
    /// The report, or why it could not be made.
    Maintainers(Result<MaintainerReport, String>),
}

/// Where the job stands: which answer it waits for.
#[derive(Clone, Copy, Debug, PartialEq, Eq, Structural)]
pub enum Phase {
    AwaitIssue,
    AwaitCheckout,
    AwaitBaseStdenvs,
    AwaitBaseOutPaths,
    AwaitFetch,
    AwaitCommitInfo,
    AwaitMerge,
    AwaitHeadStdenvs,
    AwaitHeadOutPaths,
    AwaitCheck,
    AwaitMeta,
    AwaitMaintainers,
    Done,
}

/// The effects of one step and the next request.
pub struct Step {
    pub effects: Vec<Effect>,
    pub request: Request,
}

/// How far along the job a phase lies.
pub open spec fn rank(p: Phase) -> int {
    match p {
        Phase::AwaitIssue => 0,
        Phase::AwaitCheckout => 1,
        Phase::AwaitBaseStdenvs => 2,
        Phase::AwaitBaseOutPaths => 3,
        Phase::AwaitFetch => 4,
        Phase::AwaitCommitInfo => 5,
        Phase::AwaitMerge => 6,
        Phase::AwaitHeadStdenvs => 7,
        Phase::AwaitHeadOutPaths => 8,
        Phase::AwaitCheck => 9,
        Phase::AwaitMeta => 10,
        Phase::AwaitMaintainers => 11,
        Phase::Done => 12,
    }
}

/// The final writes that end a job's overall status.
pub open spec fn is_final_overall(x: Option<(Seq<char>, StatusState)>) -> bool {
    x == Some(("^.^!"@, StatusState::Success)) || x == Some(
        ("Complete, with errors"@, StatusState::Failure),
    ) || x == Some(("Failed to merge"@, StatusState::Failure)) || x == Some(
        ("Commit not found"@, StatusState::Error),
    )
}

/// The last overall write in `h` is the success one.
pub open spec fn succeeded(h: Seq<Effect>) -> bool {
    last_overall(h) == Some(("^.^!"@, StatusState::Success))
}

/// The last overall write in `h` reports a failed evaluation.
pub open spec fn completed_with_errors(h: Seq<Effect>) -> bool {
    last_overall(h) == Some(("Complete, with errors"@, StatusState::Failure))
}

/// Each of the `n` checks has had its final state written in `h`.
pub open spec fn ran_all_checks(h: Seq<Effect>, n: int) -> bool {
    forall|i: int| 0 <= i < n ==> #[trigger] check_writes(h, i, true) == 1
}

/// The command line of a check, its status description.
pub open spec fn check_cli(c: EvalChecker) -> Seq<char> {
    join_words(seq![op_command(c.op)] + views(c.args@))
}

/// The description of the meta check's status.
pub open spec fn meta_description() -> Seq<char> {
    "config.nix: checkMeta = true"@
}

/// One evaluation job in progress.
pub struct Driver {
    pub job: EvaluationJob,
    pub strategy: Strategy,
    pub phase: Phase,
    /// The login of the pull request's author.
    pub author: String,
    /// The architectures that build jobs go to; none for work in progress.
    pub architectures: Vec<String>,
    pub checks: Vec<EvalChecker>,
    /// The check that runs now, while waiting for one.
    pub next_check: usize,
    /// Whether every check run so far passed.
    pub all_ok: bool,
    /// The build jobs to schedule once the job succeeds.
    pub jobs: Vec<BuildJob>,
    /// The attributes to rebuild, once known.
    pub rebuild: Vec<PackageArch>,
    /// How the job ended, once it has.
    pub outcome: Outcome,
    /// Every effect handed out so far.
    pub history: Ghost<Seq<Effect>>,
    /// Whether the overall status has been written.
    pub opened: Ghost<bool>,
    /// Whether the target branch failed to evaluate.
    pub base_failed: Ghost<bool>,
}

impl Driver {
    /// How a job whose overall status was opened ended: with one of the
    /// final writes; a success only after every check and the meta check
    /// passed, followed by the build jobs to the driver's architectures;
    /// no build job otherwise.
    pub open spec fn ending_ok(&self) -> bool {
        let h = self.history@;
        &&& is_final_overall(last_overall(h))
        &&& succeeded(h) ==> {
            &&& check_failures(h) == 0
            &&& ran_all_checks(h, self.checks@.len() as int)
            &&& (self.strategy is Nixpkgs ==> meta_successes(h) >= 1)
            &&& scheduled(h).len() == self.jobs@.len()
            &&& forall|k: int|
                0 <= k < self.jobs@.len() ==> same_job(#[trigger] scheduled(h)[k], self.jobs@[k])
            &&& schedules_go_to(h, views(self.architectures@))
        }
        &&& !succeeded(h) ==> scheduled(h).len() == 0
    }

    /// The checks are the strategy's list.
    pub open spec fn checks_of_strategy(&self) -> bool {
        &&& (self.strategy is Nixpkgs ==> self.checks@.len() == nixpkgs_check_list().len()
            && forall|i: int|
            0 <= i < self.checks@.len() ==> checker_is(
                #[trigger] self.checks@[i],
                nixpkgs_check_list()[i],
            ))
        &&& (self.strategy is Generic ==> self.checks@.len() == 0)
    }

    /// What holds of a driver in each phase: what has been written to the
    /// overall status and to each check's status.
    pub open spec fn wf(&self) -> bool {
        let h = self.history@;
        &&& (self.phase == Phase::AwaitIssue ==> h.len() == 0 && !self.opened@
            && !self.base_failed@)
        &&& (self.phase != Phase::AwaitIssue && self.phase != Phase::Done ==> self.opened@
            && overall_final_writes(h) == 0 && !self.base_failed@)
        &&& (self.phase == Phase::Done ==> if self.opened@ {
            overall_final_writes(h) == if self.base_failed@ {
                2nat
            } else {
                1nat
            }
        } else {
            h.len() == 1 && (h[0] == Effect::Notify(JobEvent::IssueAlreadyClosed) || h[0]
                == Effect::Notify(JobEvent::IssueFetchFailed))
        })
        &&& (self.phase == Phase::Done && self.opened@ ==> self.ending_ok())
        &&& (self.phase != Phase::Done ==> scheduled(h).len() == 0)
        &&& (rank(self.phase) >= 9 && self.phase != Phase::Done ==> self.checks_of_strategy())
        &&& (self.phase == Phase::AwaitMaintainers ==> meta_successes(h) >= 1)
        &&& (rank(self.phase) <= 9 ==> self.jobs@.len() == 0)
        &&& (rank(self.phase) < 9 ==> forall|i: int, t: bool| #[trigger]
            check_writes(h, i, t) == 0)
        &&& (self.phase == Phase::AwaitCheck ==> self.next_check < self.checks@.len() && forall|
            i: int,
        |
            #![trigger check_writes(h, i, false)]
            #![trigger check_writes(h, i, true)]
            check_writes(h, i, false) == (if 0 <= i <= self.next_check {
                1nat
            } else {
                0nat
            }) && check_writes(h, i, true) == (if 0 <= i < self.next_check {
                1nat
            } else {
                0nat
            }))
        &&& (self.phase == Phase::AwaitMeta || self.phase == Phase::AwaitMaintainers ==> forall|
            i: int,
            t: bool,
        | #[trigger]
            check_writes(h, i, t) == (if 0 <= i < self.checks@.len() {
                1nat
            } else {
                0nat
            }))
        &&& (rank(self.phase) == 2 || rank(self.phase) == 3 || rank(self.phase) == 5 || rank(
            self.phase,
        ) == 7 || rank(self.phase) == 8 || rank(self.phase) == 10 || rank(self.phase) == 11
            ==> self.strategy is Nixpkgs)
        &&& (self.phase != Phase::Done ==> overall_successes(h) == 0)
        &&& (rank(self.phase) < 9 ==> check_failures(h) == 0)
        &&& (rank(self.phase) >= 9 && self.phase != Phase::Done ==> (self.all_ok <==> check_failures(h)
            == 0))
        &&& (self.phase == Phase::AwaitMeta || self.phase == Phase::AwaitMaintainers ==> self.all_ok)
        &&& (self.phase == Phase::Done ==> (overall_successes(h) > 0 ==> check_failures(h) == 0))
        &&& (self.phase == Phase::Done ==> forall|i: int|
            #![trigger check_writes(h, i, false)]
            #![trigger check_writes(h, i, true)]
            check_writes(h, i, true) == check_writes(h, i, false) && check_writes(h, i, false)
                <= 1)
    }
}


/// A write that sets no check's status.
pub open spec fn writes_no_check(e: Effect) -> bool {
    forall|i: int, t: bool| #[trigger] check_write_in(e, i, t) == 0
}

/// A write of the overall status.
fn overall(description: String, state: StatusState, link: Link) -> (r: Effect)
    ensures
        overall_final_in(r) == (if state == StatusState::Pending {
            0nat
        } else {
            1nat
        }),
        writes_no_check(r),
        overall_success_in(r) == (if state == StatusState::Success {
            1nat
        } else {
            0nat
        }),
        check_failure_in(r) == 0,
        r == (Effect::Status(StatusWrite { context: Context::Overall, description, state, link })),
{
    Effect::Status(StatusWrite { context: Context::Overall, description, state, link })
}

/// A pending write of the overall status.
fn progress(description: &str) -> (r: Effect)
    ensures
        overall_final_in(r) == 0,
        writes_no_check(r),
        overall_success_in(r) == 0,
        check_failure_in(r) == 0,
        is_status(r, Context::Overall, description@, StatusState::Pending),
        r->Status_0.link == Link::Unchanged,
{
    overall(description.to_owned(), StatusState::Pending, Link::Unchanged)
}

/// A write of another status than the overall one or a check's.
fn side_status(context: Context, description: &str, state: StatusState, link: Link) -> (r: Effect)
    requires
        context == Context::Meta || context == Context::Maintainers,
    ensures
        overall_final_in(r) == 0,
        writes_no_check(r),
        overall_success_in(r) == 0,
        check_failure_in(r) == 0,
        is_status(r, context, description@, state),
        r->Status_0.link == link,
{
    Effect::Status(StatusWrite { context, description: description.to_owned(), state, link })
}

/// An effect that writes no status.
pub open spec fn writes_no_status(e: Effect) -> bool {
    overall_final_in(e) == 0 && writes_no_check(e) && overall_success_in(e) == 0
        && check_failure_in(e) == 0
}

fn labels(plan: LabelPlan) -> (r: Effect)
    ensures
        writes_no_status(r),
        r == Effect::Labels(plan),
{
    Effect::Labels(plan)
}

fn gist(name: &str, description: String, content: String) -> (r: Gist)
    ensures
        r.name@ == name@,
        r.description == description,
        r.content == content,
{
    Gist { name: name.to_owned(), description, content }
}

fn concat(a: &str, b: &str) -> (r: String)
    ensures
        r@ == a@ + b@,
{
    let mut r = a.to_owned();
    r.append(b);
    r
}

/// The attributes to rebuild as the lines `architecture<TAB>package`.
pub open spec fn rebuild_lines(attrs: Seq<PackageArch>) -> Seq<Seq<char>> {
    attrs.map_values(|a: PackageArch| a.architecture@ + "\t"@ + a.package@)
}

/// The attributes to rebuild, one `architecture<TAB>package` per line.
pub fn rebuild_listing(attrs: &Vec<PackageArch>) -> (r: String)
    ensures
        r@ == join_with(rebuild_lines(attrs@), "\n"@),
{
    let mut r = String::new();
    let mut i: usize = 0;
    while i < attrs.len()
        invariant
            i <= attrs@.len(),
            r@ == join_with(rebuild_lines(attrs@.subrange(0, i as int)), "\n"@),
        decreases attrs@.len() - i,
    {
        if i > 0 {
            r.append("\n");
        }
        r.append(attrs[i].architecture.as_str());
        r.append("\t");
        r.append(attrs[i].package.as_str());
        proof {
            let w = rebuild_lines(attrs@.subrange(0, i + 1));
            assert(w.drop_last() =~= rebuild_lines(attrs@.subrange(0, i as int)));
            assert(w.last() == attrs@[i as int].architecture@ + "\t"@ + attrs@[i as int].package@);
            if i == 0 {
                assert(w.len() == 1);
            }
        }
        i = i + 1;
    }
    assert(attrs@.subrange(0, i as int) =~= attrs@);
    r
}

/// Each attribute to rebuild as the parts of its dotted path.
fn attr_paths(attrs: &Vec<PackageArch>) -> (r: Vec<Vec<String>>)
    ensures
        r@.len() == attrs@.len(),
        forall|i: int|
            0 <= i < r@.len() ==> crate::text::views((#[trigger] r@[i])@) == crate::text::split(
                attrs@[i].package@,
                '.',
            ),
{
    let mut r: Vec<Vec<String>> = Vec::new();
    let mut i: usize = 0;
    while i < attrs.len()
        invariant
            i <= attrs@.len(),
            r@.len() == i,
            forall|j: int|
                0 <= j < i ==> crate::text::views((#[trigger] r@[j])@) == crate::text::split(
                    attrs@[j].package@,
                    '.',
                ),
        decreases attrs@.len() - i,
    {
        r.push(split_text(attrs[i].package.as_str(), '.'));
        i = i + 1;
    }
    r
}

/// The event answers the request that the phase waits on.
pub open spec fn answers(p: Phase, ev: Event) -> bool {
    match p {
        Phase::AwaitIssue => ev is Issue,
        Phase::AwaitCheckout => ev is CheckedOut,
        Phase::AwaitBaseStdenvs => ev is Stdenvs,
        Phase::AwaitBaseOutPaths => ev is OutPaths,
        Phase::AwaitFetch => ev is PrFetched,
        Phase::AwaitCommitInfo => ev is CommitInfo,
        Phase::AwaitMerge => ev is Merged,
        Phase::AwaitHeadStdenvs => ev is Stdenvs,
        Phase::AwaitHeadOutPaths => ev is OutPaths,
        Phase::AwaitCheck => ev is CheckDone,
        Phase::AwaitMeta => ev is Meta,
        Phase::AwaitMaintainers => ev is Maintainers,
        Phase::Done => false,
    }
}

/// The event answers that an open issue was fetched.
pub open spec fn is_open_issue(ev: Event) -> bool {
    match ev {
        Event::Issue { issue: Some(iss), .. } => iss.state@ != "closed"@,
        _ => false,
    }
}

/// The event answers that a closed issue was fetched.
pub open spec fn is_closed_issue(ev: Event) -> bool {
    match ev {
        Event::Issue { issue: Some(iss), .. } => iss.state@ == "closed"@,
        _ => false,
    }
}

/// The event answers that the issue could not be fetched.
pub open spec fn is_missing_issue(ev: Event) -> bool {
    match ev {
        Event::Issue { issue: None, .. } => true,
        _ => false,
    }
}

/// The step makes progress: it asks for something new, and the job moves
/// to a later phase or to the next check.
pub open spec fn advances(o: Driver, n: Driver, r: Step) -> bool {
    &&& !(r.request is Again)
    &&& (n.phase == Phase::Done || rank(n.phase) > rank(o.phase) || (n.phase == Phase::AwaitCheck
        && o.phase == Phase::AwaitCheck && n.next_check == o.next_check + 1))
}

/// `e` puts the merge-conflict label on the issue.
pub open spec fn adds_merge_conflict(e: Effect) -> bool {
    match e {
        Effect::Labels(p) => views(p.add@) == seq![merge_conflict_label()] && p.remove@.len() == 0,
        _ => false,
    }
}

/// `e` takes the merge-conflict label off the issue.
pub open spec fn removes_merge_conflict(e: Effect) -> bool {
    match e {
        Effect::Labels(p) => views(p.remove@) == seq![merge_conflict_label()] && p.add@.len() == 0,
        _ => false,
    }
}

/// The stdenv labels to take off: those of the systems not in `changed`.
pub open spec fn stdenv_removals(changed: Seq<System>) -> Seq<Seq<char>> {
    (if changed.contains(System::X8664Darwin) {
        seq![]
    } else {
        seq![darwin_stdenv_label()]
    }) + (if changed.contains(System::X8664Linux) {
        seq![]
    } else {
        seq![linux_stdenv_label()]
    })
}

/// `e` sets the stdenv labels for `st`: on for each system whose stdenv
/// changed, off for each whose did not.
pub open spec fn stdenv_labels_for(e: Effect, st: Stdenvs) -> bool {
    match e {
        Effect::Labels(p) => views(p.add@) == st.changed_spec().map_values(
            |x: System| stdenv_label(x),
        ) && views(p.remove@) == stdenv_removals(st.changed_spec()),
        _ => false,
    }
}

/// `e` sets the maintainer label: on where `author` maintains a touched
/// package of `by`, off otherwise.
pub open spec fn maintainer_labels_for(
    e: Effect,
    author: Seq<char>,
    by: Seq<PackageMaintainers>,
) -> bool {
    match e {
        Effect::Labels(p) => (maintains_any(author, by) ==> views(p.add@) == seq![
            maintainer_label(),
        ] && p.remove@.len() == 0) && (!maintains_any(author, by) ==> views(p.remove@) == seq![
            maintainer_label(),
        ] && p.add@.len() == 0),
        _ => false,
    }
}

/// `e` asks each of `logins` for a review.
pub open spec fn reviews_for(e: Effect, logins: Seq<Seq<char>>) -> bool {
    match e {
        Effect::RequestReviews(v) => views(v@) == logins,
        _ => false,
    }
}

/// `e` sets the package labels of the complete diff `d`: clean-up where a
/// package went, new package where one came; none taken off.
pub open spec fn added_removed_for(e: Effect, d: OutPathDiff) -> bool {
    let before = outputs(d.before->Some_0@);
    let after = outputs(d.after->Some_0@);
    match e {
        Effect::Labels(p) => views(p.add@) == (if removed_packages(before, after) != Set::<
            Seq<char>,
        >::empty() {
            seq![clean_up_label()]
        } else {
            seq![]
        }) + (if added_packages(before, after) != Set::<Seq<char>>::empty() {
            seq![new_package_label()]
        } else {
            seq![]
        }) && p.remove@.len() == 0,
        _ => false,
    }
}

/// Both sides of the out-path diff are known.
pub open spec fn diff_complete(d: Option<OutPathDiff>) -> bool {
    d is Some && d->Some_0.before is Some && d->Some_0.after is Some
}

/// `attrs` is the rebuild list of the diff `d`: each attribute whose output
/// path changed or is new, once.
pub open spec fn rebuild_matches(attrs: Seq<PackageArch>, d: OutPathDiff) -> bool {
    &&& keys(attrs).no_duplicates()
    &&& forall|k: Key|
        keys(attrs).contains(k) <==> needs_rebuild(
            outputs(d.before->Some_0@),
            outputs(d.after->Some_0@),
            k,
        )
}

/// After the changed outputs, the strategy has given up its out-path diff
/// and kept everything else.
pub open spec fn snapshot_kept(os: NixpkgsStrategy, ns: Strategy) -> bool {
    &&& ns is Nixpkgs
    &&& ns->Nixpkgs_0.outpathdiff is None
    &&& ns->Nixpkgs_0.stdenvs == os.stdenvs
    &&& ns->Nixpkgs_0.changed_paths == os.changed_paths
    &&& ns->Nixpkgs_0.possibly_touched_packages == os.possibly_touched_packages
    &&& ns->Nixpkgs_0.tag_paths == os.tag_paths
}

/// What follows the changed-output labels, for the strategy `os` whose diff
/// is complete: the driver's rebuild list is the diff's; where it is not
/// empty the "Changed Paths" paste is linked; the maintainers are asked for
/// exactly when it is not empty and the changed files are known; otherwise
/// the rebuild-count labels are set at once. Effects from `from` on count.
pub open spec fn rebuild_flow(os: NixpkgsStrategy, n: Driver, r: Step, from: int) -> bool {
    let e = r.effects@;
    &&& rebuild_matches(n.rebuild@, os.outpathdiff->Some_0)
    &&& (n.phase == Phase::AwaitMaintainers) == (n.rebuild@.len() > 0 && os.changed_paths is Some)
    &&& (n.rebuild@.len() > 0 ==> exists|k: int|
        from <= k < e.len() && changed_paths_link(#[trigger] e[k], n.rebuild@))
    &&& (n.phase == Phase::Done ==> exists|k: int|
        from <= k < e.len() && rebuild_labels_for(#[trigger] e[k], n.rebuild@))
    &&& exists|k: int|
        from <= k < e.len() && added_removed_for(#[trigger] e[k], os.outpathdiff->Some_0)
}

/// `e` links from the overall status a paste "Changed Paths" that lists
/// the attributes to rebuild.
pub open spec fn changed_paths_link(e: Effect, attrs: Seq<PackageArch>) -> bool {
    match e {
        Effect::OverallLink(g) => g.name@ == "Changed Paths"@ && g.content@ == join_with(
            rebuild_lines(attrs),
            "\n"@,
        ),
        _ => false,
    }
}

/// `e` writes success to the maintainers status, linking a paste
/// "Potential Maintainers" that holds `content`.
pub open spec fn maintainers_status(e: Effect, content: Seq<char>) -> bool {
    is_status(
        e,
        Context::Maintainers,
        "matching changed paths to changed attrs..."@,
        StatusState::Success,
    ) && pastes(e->Status_0.link, "Potential Maintainers"@, content)
}

/// `e` sets the rebuild-count labels for the attributes `attrs`.
pub open spec fn rebuild_labels_for(e: Effect, attrs: Seq<PackageArch>) -> bool {
    match e {
        Effect::Labels(p) => views(p.add@) == seq![
            rebuild_labels("10.rebuild-darwin: "@)[bucket_of(count_on(attrs, "x86_64-darwin"@))],
            rebuild_labels("10.rebuild-linux: "@)[bucket_of(count_on(attrs, "x86_64-linux"@))],
        ],
        _ => false,
    }
}

/// A list holding exactly the members of `set` is empty exactly when the
/// set is.
pub proof fn lemma_nonempty_list_set(l: Seq<Seq<char>>, set: Set<Seq<char>>)
    requires
        forall|p: Seq<char>| l.contains(p) <==> set.contains(p),
    ensures
        (l.len() > 0) == (set != Set::<Seq<char>>::empty()),
{
    if l.len() > 0 {
        assert(l.contains(l[0]));
        assert(set.contains(l[0]));
        assert(!Set::<Seq<char>>::empty().contains(l[0]));
    } else {
        assert forall|p: Seq<char>| !set.contains(p) by {
            if set.contains(p) {
                assert(l.contains(p));
            }
        }
        assert(set =~= Set::<Seq<char>>::empty());
    }
}

/// The link that `e` writes.
pub open spec fn link_of(e: Effect) -> Link {
    e->Status_0.link
}

/// What one step does: `o` is the driver before it, `ev` the answer it
/// took, `n` the driver after it and `r` what it returned.
pub open spec fn step_post(o: Driver, ev: Event, n: Driver, r: Step) -> bool {
    let e = r.effects@;
    &&& n.history@ == o.history@ + e
    &&& n.job == o.job
    &&& (n.phase == Phase::Done) == (r.request is Finish)
    &&& (o.phase == Phase::Done ==> e.len() == 0 && n.phase == Phase::Done)
    &&& (o.phase != Phase::Done && !answers(o.phase, ev) ==> r.request == Request::Again && n == o)
    &&& (o.phase != Phase::Done && answers(o.phase, ev) ==> advances(o, n, r))
    &&& (o.phase != Phase::AwaitIssue ==> n.architectures == o.architectures)
    &&& (o.phase == Phase::AwaitIssue && is_closed_issue(ev) ==> e == seq![
        Effect::Notify(JobEvent::IssueAlreadyClosed),
    ] && r.request == Request::Finish(Outcome::Skipped))
    &&& (o.phase == Phase::AwaitIssue && is_missing_issue(ev) ==> e == seq![
        Effect::Notify(JobEvent::IssueFetchFailed),
    ] && r.request == Request::Finish(Outcome::Skipped))
    &&& (o.phase == Phase::AwaitIssue && is_open_issue(ev) ==> {
        let iss = ev->Issue_issue->Some_0;
        &&& n.phase == Phase::AwaitCheckout
        &&& n.architectures@ == if is_wip(iss.title@, views(iss.labels@)) {
            Seq::<String>::empty()
        } else {
            ev->Issue_architectures@
        }
        &&& e.len() > 0 && is_status(e[0], Context::Overall, "Starting"@, StatusState::Pending)
        &&& r.request matches Request::Checkout { branch } && branch@ == target_branch_of(o.job.pr)
    })
    &&& (o.phase == Phase::AwaitCheckout && answers(o.phase, ev) ==> e.len() == 1 && (
    if o.strategy is Nixpkgs {
        is_status(e[0], Context::Overall, "Checking original stdenvs"@, StatusState::Pending)
    } else {
        is_status(e[0], Context::Overall, "Fetching PR"@, StatusState::Pending)
    }))
    &&& (o.phase == Phase::AwaitBaseStdenvs && answers(o.phase, ev) ==> e.len() == 1 && is_status(
        e[0],
        Context::Overall,
        "Checking original out paths"@,
        StatusState::Pending,
    ))
    &&& (o.phase == Phase::AwaitBaseOutPaths && ev is OutPaths && ev->OutPaths_0 is Err ==> {
        &&& n.phase == Phase::Done
        &&& e.len() > 0
        &&& is_status(
            e[0],
            Context::Overall,
            "Target branch "@ + target_branch_of(o.job.pr) + " doesn't evaluate!"@,
            StatusState::Failure,
        )
        &&& pastes(link_of(e[0]), "Output path comparison"@, ev->OutPaths_0->Err_0@)
    })
    &&& (o.phase == Phase::AwaitFetch && ev == (Event::PrFetched { commit_exists: false }) ==> {
        &&& n.phase == Phase::Done
        &&& r.request == Request::Finish(Outcome::Skipped)
        &&& e.len() == 1
        &&& is_status(e[0], Context::Overall, "Commit not found"@, StatusState::Error)
    })
    &&& (o.phase == Phase::AwaitMerge && ev == Event::Merged(false) ==> {
        &&& n.phase == Phase::Done
        &&& r.request == Request::Finish(Outcome::Skipped)
        &&& e.len() > 0
        &&& is_status(e[0], Context::Overall, "Failed to merge"@, StatusState::Failure)
        &&& (o.strategy is Nixpkgs ==> e.len() == 2 && adds_merge_conflict(e[1]))
        &&& forall|i: int, t: bool| #[trigger] check_writes(e, i, t) == 0
    })
    &&& (o.phase == Phase::AwaitMerge && ev == Event::Merged(true) && o.strategy is Nixpkgs ==> e.len()
        > 0 && removes_merge_conflict(e[0]))
    &&& (n.phase == Phase::AwaitHeadStdenvs && answers(o.phase, ev) ==> e.len() > 0 && is_status(
        e.last(),
        Context::Overall,
        "Checking new stdenvs"@,
        StatusState::Pending,
    ))
    &&& (n.phase == Phase::AwaitHeadOutPaths && answers(o.phase, ev) ==> e.len() > 0 && is_status(
        e.last(),
        Context::Overall,
        "Checking new out paths"@,
        StatusState::Pending,
    ))
    &&& (n.phase == Phase::AwaitCheck && answers(o.phase, ev) ==> {
        &&& r.request == (Request::RunCheck { index: n.next_check })
        &&& e.len() > 0
        &&& pending_check_write(e.last(), n.next_check as int, n.checks@[n.next_check as int])
    })
    &&& (o.phase == Phase::AwaitCheck && ev is CheckDone ==> e.len() > 0 && check_result_write(
        e[0],
        o.next_check as int,
        o.checks@[o.next_check as int],
        ev->CheckDone_ok,
        ev->CheckDone_log@,
    ))
    &&& (n.phase == Phase::AwaitMeta && answers(o.phase, ev) ==> {
        &&& r.request == Request::MetaCheck
        &&& e.len() > 0
        &&& is_status(e.last(), Context::Meta, meta_description(), StatusState::Pending)
    })
    &&& (o.phase == Phase::AwaitMeta && ev is Meta && ev->Meta_0 is Ok ==> {
        &&& e.len() > 1
        &&& is_status(e[0], Context::Meta, meta_description(), StatusState::Success)
        &&& link_of(e[0]) == Link::Clear
        &&& is_status(e[1], Context::Overall, "Calculating Changed Outputs"@, StatusState::Pending)
    })
    &&& (o.phase == Phase::AwaitMeta && ev is Meta && ev->Meta_0 is Err ==> {
        &&& n.phase == Phase::Done
        &&& e.len() > 0
        &&& is_status(e[0], Context::Meta, meta_description(), StatusState::Failure)
        &&& pastes(link_of(e[0]), "Meta Check"@, ev->Meta_0->Err_0@)
    })
    &&& (o.phase == Phase::AwaitMeta && ev is Meta && ev->Meta_0 is Ok ==> {
        &&& n.jobs@.len() <= 1
        &&& forall|k: int|
            0 <= k < n.jobs@.len() ==> {
                let j = #[trigger] n.jobs@[k];
                &&& j.repo == o.job.repo
                &&& j.pr == o.job.pr
                &&& strictly_sorted(views(j.attrs@))
                &&& 1 <= j.attrs@.len() <= MAX_AUTO_BUILD_ATTRS
                &&& v4_text(j.request_id@)
            }
    })
    &&& (o.phase == Phase::AwaitMeta && ev is Meta && ev->Meta_0 is Ok && o.strategy is Nixpkgs
        && o.strategy->Nixpkgs_0.stdenvs is Some ==> e.len() > 2 && stdenv_labels_for(
        e[2],
        o.strategy->Nixpkgs_0.stdenvs->Some_0,
    ))
    &&& (n.phase == Phase::AwaitMaintainers && answers(o.phase, ev) ==> r.request is Maintainers
        && e.len() > 0 && changed_paths_link(e.last(), n.rebuild@))
    &&& (o.phase == Phase::AwaitMaintainers && ev is Maintainers ==> exists|k: int|
        0 <= k < e.len() && rebuild_labels_for(#[trigger] e[k], o.rebuild@))
    &&& (o.phase == Phase::AwaitMaintainers && ev is Maintainers ==> exists|k: int|
        0 <= k < e.len() && maintainers_status(
            #[trigger] e[k],
            match ev->Maintainers_0 {
                Ok(rep) => "Maintainers:\n"@ + rep.listing@,
                Err(m) => "Ignorable calculation error:\n"@ + m@,
            },
        ))
    &&& (o.phase == Phase::AwaitCheck && ev is CheckDone && o.next_check + 1 < o.checks@.len()
        ==> n.phase == Phase::AwaitCheck && n.next_check == o.next_check + 1)
    &&& (o.phase == Phase::AwaitCheck && ev is CheckDone && o.next_check + 1 >= o.checks@.len()
        ==> if o.all_ok && ev->CheckDone_ok {
        if o.strategy is Nixpkgs {
            n.phase == Phase::AwaitMeta
        } else {
            n.phase == Phase::Done && succeeded(e)
        }
    } else {
        n.phase == Phase::Done && completed_with_errors(e)
    })
    &&& (o.phase == Phase::AwaitMeta && ev is Meta && ev->Meta_0 is Ok ==> (n.phase
        == Phase::AwaitMaintainers || n.phase == Phase::Done) && (n.phase == Phase::Done
        ==> succeeded(e)))
    &&& (o.phase == Phase::AwaitMeta && ev is Meta && ev->Meta_0 is Err ==> {
        &&& e.len() == 3
        &&& is_status(e[1], Context::Overall, "Complete, with errors"@, StatusState::Failure)
        &&& completed_with_errors(e)
    })
    &&& (o.phase == Phase::AwaitMeta && ev is Meta ==> meta_final_writes(e) == 1)
    &&& (o.phase == Phase::AwaitMaintainers && ev is Maintainers ==> n.phase == Phase::Done
        && succeeded(e))
    &&& (o.phase == Phase::AwaitHeadOutPaths && ev is OutPaths && ev->OutPaths_0 is Err ==> {
        &&& n.phase == Phase::Done
        &&& completed_with_errors(e)
        &&& e.len() > 0
        &&& is_status(e[0], Context::Overall, "Complete, with errors"@, StatusState::Failure)
        &&& pastes(link_of(e[0]), "Output path comparison"@, ev->OutPaths_0->Err_0@)
    })
    &&& (o.phase == Phase::AwaitBaseOutPaths && ev is OutPaths && ev->OutPaths_0 is Err
        ==> completed_with_errors(e))
    &&& (o.phase == Phase::AwaitMeta && ev is Meta && ev->Meta_0 is Ok && o.strategy is Nixpkgs
        ==> snapshot_kept(o.strategy->Nixpkgs_0, n.strategy))
    &&& (o.phase == Phase::AwaitMeta && ev is Meta && ev->Meta_0 is Ok && o.strategy is Nixpkgs
        && diff_complete(o.strategy->Nixpkgs_0.outpathdiff) ==> rebuild_flow(
        o.strategy->Nixpkgs_0,
        n,
        r,
        0,
    ))
    &&& (o.phase == Phase::AwaitBaseStdenvs && ev is Stdenvs ==> n.strategy is Nixpkgs
        && n.strategy->Nixpkgs_0.stdenvs == Some(
        Stdenvs {
            linux_stdenv_before: ev->Stdenvs_linux,
            linux_stdenv_after: None,
            darwin_stdenv_before: ev->Stdenvs_darwin,
            darwin_stdenv_after: None,
        },
    ))
    &&& (o.phase == Phase::AwaitHeadStdenvs && ev is Stdenvs && o.strategy is Nixpkgs
        && o.strategy->Nixpkgs_0.stdenvs is Some ==> n.strategy is Nixpkgs
        && n.strategy->Nixpkgs_0.stdenvs == Some(
        Stdenvs {
            linux_stdenv_after: ev->Stdenvs_linux,
            darwin_stdenv_after: ev->Stdenvs_darwin,
            ..o.strategy->Nixpkgs_0.stdenvs->Some_0
        },
    ))
    &&& (o.phase == Phase::AwaitHeadStdenvs && ev is Stdenvs && o.strategy is Nixpkgs ==> (n.phase
        == Phase::AwaitHeadOutPaths) == (o.strategy->Nixpkgs_0.outpathdiff is Some))
    &&& (o.phase == Phase::AwaitMerge && ev == Event::Merged(true) && o.strategy is Nixpkgs ==> if o.strategy->Nixpkgs_0.stdenvs is Some {
        n.phase == Phase::AwaitHeadStdenvs
    } else if o.strategy->Nixpkgs_0.outpathdiff is Some {
        n.phase == Phase::AwaitHeadOutPaths
    } else {
        rank(n.phase) >= 9
    })
    &&& (o.phase == Phase::AwaitMaintainers && ev is Maintainers && ev->Maintainers_0 is Ok ==> {
        let rep = ev->Maintainers_0->Ok_0;
        &&& exists|k: int|
            0 <= k < e.len() && maintainer_labels_for(#[trigger] e[k], o.author@, rep.by_package@)
        &&& (0 < rep.maintainers@.len() < REVIEW_REQUEST_LIMIT ==> exists|k: int|
            0 <= k < e.len() && reviews_for(#[trigger] e[k], views(rep.maintainers@)))
    })
    &&& (o.phase != Phase::Done && n.phase == Phase::Done && r.request == Request::Finish(
        Outcome::Completed,
    ) ==> {
        &&& e.len() > 0
        &&& e.last() == Effect::Notify(JobEvent::TaskEvaluationCheckComplete)
        &&& succeeded(e) || (completed_with_errors(e) && scheduled(e).len() == 0)
    })
}

impl Driver {
    /// A driver for `job`, about to ask for the issue (`Request::FetchIssue`).
    /// The package collection's repository gets its own strategy, with the
    /// path labels `tag_paths`; any other repository the generic one.
    pub fn new(job: EvaluationJob, tag_paths: Vec<TagPaths>) -> (r: Driver)
        ensures
            r.wf(),
            r.phase == Phase::AwaitIssue,
            r.job == job,
            r.strategy is Nixpkgs <==> crate::job::is_nixpkgs_repo(job.repo),
    {
        let strategy = if job.is_nixpkgs() {
            Strategy::Nixpkgs(NixpkgsStrategy::new(tag_paths))
        } else {
            Strategy::Generic(GenericStrategy::new())
        };
        Driver {
            job,
            strategy,
            phase: Phase::AwaitIssue,
            author: String::new(),
            architectures: Vec::new(),
            checks: Vec::new(),
            next_check: 0,
            all_ok: true,
            jobs: Vec::new(),
            rebuild: Vec::new(),
            outcome: Outcome::Skipped,
            history: Ghost(Seq::empty()),
            opened: Ghost(false),
            base_failed: Ghost(false),
        }
    }

    /// Hands out `out` and asks for `request`.
    fn emit(&mut self, out: Vec<Effect>, request: Request) -> (r: Step)
        ensures
            final(self).history@ == old(self).history@ + out@,
            overall_final_writes(final(self).history@) == overall_final_writes(old(self).history@)
                + overall_final_writes(out@),
            forall|i: int, t: bool|
                #[trigger] check_writes(final(self).history@, i, t) == check_writes(
                    old(self).history@,
                    i,
                    t,
                ) + check_writes(out@, i, t),
            overall_successes(final(self).history@) == overall_successes(old(self).history@)
                + overall_successes(out@),
            check_failures(final(self).history@) == check_failures(old(self).history@)
                + check_failures(out@),
            scheduled(final(self).history@) == scheduled(old(self).history@) + scheduled(out@),
            meta_successes(final(self).history@) == meta_successes(old(self).history@)
                + meta_successes(out@),
            final(self).job == old(self).job,
            final(self).strategy == old(self).strategy,
            final(self).phase == old(self).phase,
            final(self).all_ok == old(self).all_ok,
            final(self).architectures == old(self).architectures,
            final(self).author == old(self).author,
            final(self).jobs == old(self).jobs,
            final(self).rebuild == old(self).rebuild,
            final(self).checks == old(self).checks,
            final(self).next_check == old(self).next_check,
            final(self).opened == old(self).opened,
            final(self).base_failed == old(self).base_failed,
            final(self).outcome == old(self).outcome,
            r.effects == out,
            r.request == request,
    {
        proof {
            lemma_counts_concat(self.history@, out@);
            lemma_success_concat(self.history@, out@);
            lemma_tail_concat(self.history@, out@);
        }
        self.history = Ghost(self.history@ + out@);
        Step { effects: out, request }
    }

    /// Ends the job with the effects `out`, which hold its last overall
    /// write; a completed job then reports that its evaluation is over.
    fn end(&mut self, out: Vec<Effect>, outcome: Outcome) -> (r: Step)
        requires
            old(self).opened@,
            overall_final_writes(old(self).history@) + overall_final_writes(out@) == if old(
                self,
            ).base_failed@ {
                2nat
            } else {
                1nat
            },
            forall|i: int|
                #![trigger check_writes(old(self).history@, i, true)]
                #![trigger check_writes(old(self).history@, i, false)]
                check_writes(old(self).history@, i, true) + check_writes(out@, i, true)
                    == check_writes(old(self).history@, i, false) + check_writes(out@, i, false)
                    && check_writes(old(self).history@, i, false) + check_writes(out@, i, false)
                    <= 1,
            overall_successes(old(self).history@) + overall_successes(out@) > 0 ==> check_failures(
                old(self).history@,
            ) + check_failures(out@) == 0,
            is_final_overall(last_overall(out@)),
            scheduled(old(self).history@).len() == 0,
            succeeded(out@) ==> {
                &&& check_failures(old(self).history@) + check_failures(out@) == 0
                &&& forall|i: int|
                    0 <= i < old(self).checks@.len() ==> #[trigger] check_writes(
                        old(self).history@,
                        i,
                        true,
                    ) + check_writes(out@, i, true) == 1
                &&& (old(self).strategy is Nixpkgs ==> meta_successes(old(self).history@)
                    + meta_successes(out@) >= 1)
                &&& scheduled(out@).len() == old(self).jobs@.len()
                &&& forall|k: int|
                    0 <= k < old(self).jobs@.len() ==> same_job(
                        #[trigger] scheduled(out@)[k],
                        old(self).jobs@[k],
                    )
                &&& schedules_go_to(out@, views(old(self).architectures@))
            },
            !succeeded(out@) ==> scheduled(out@).len() == 0,
            outcome == Outcome::Completed ==> succeeded(out@) || completed_with_errors(out@),
        ensures
            meta_final_writes(r.effects@) == meta_final_writes(out@),
            final(self).wf(),
            final(self).phase == Phase::Done,
            final(self).history@ == old(self).history@ + r.effects@,
            final(self).job == old(self).job,
            final(self).architectures == old(self).architectures,
            final(self).jobs == old(self).jobs,
            final(self).strategy == old(self).strategy,
            final(self).rebuild == old(self).rebuild,
            final(self).author == old(self).author,
            final(self).checks == old(self).checks,
            outcome == Outcome::Completed ==> r.effects@ == out@.push(
                Effect::Notify(JobEvent::TaskEvaluationCheckComplete),
            ),
            outcome == Outcome::Skipped ==> r.effects@ == out@,
            r.request == Request::Finish(outcome),
    {
        let mut out = out;
        if outcome == Outcome::Completed {
            out.push(Effect::Notify(JobEvent::TaskEvaluationCheckComplete));
        }
        self.phase = Phase::Done;
        self.outcome = outcome;
        let ghost h0 = self.history@;
        let r = self.emit(out, Request::Finish(outcome));
        proof {
            lemma_tail_concat(h0, out@);
            if succeeded(out@) {
                lemma_schedules_go_to_concat(h0, out@, views(self.architectures@));
                assert(scheduled(self.history@) =~= scheduled(out@));
                assert forall|i: int| 0 <= i < self.checks@.len() implies #[trigger] check_writes(
                    self.history@,
                    i,
                    true,
                ) == 1 by {
                    assert(check_writes(h0, i, true) + check_writes(out@, i, true) == 1);
                }
            }
            assert forall|i: int|
                #![trigger check_writes(self.history@, i, false)]
                #![trigger check_writes(self.history@, i, true)]
                check_writes(self.history@, i, true) == check_writes(self.history@, i, false)
                    && check_writes(self.history@, i, false) <= 1 by {
                assert(check_writes(h0, i, true) + check_writes(out@, i, true)
                    == check_writes(h0, i, false) + check_writes(out@, i, false));
            }
        }
        r
    }

    /// Asks for the last answer again, changing nothing.
    fn again(&mut self) -> (r: Step)
        requires
            old(self).wf(),
            old(self).phase != Phase::Done,
        ensures
            final(self).wf(),
            *final(self) == *old(self),
            final(self).history@ == old(self).history@ + r.effects@,
            r.request == Request::Again,
    {
        let r = Step { effects: Vec::new(), request: Request::Again };
        assert(self.history@ + r.effects@ =~= self.history@);
        r
    }
}



/// `e` sets check `k`, which is `c`, pending, with its command line as
/// description and no link.
pub open spec fn pending_check_write(e: Effect, k: int, c: EvalChecker) -> bool {
    match e {
        Effect::Status(w) => w.context == Context::Check(k as usize) && w.description@ == check_cli(
            c,
        ) && w.state == StatusState::Pending && w.link == Link::Clear,
        _ => false,
    }
}

/// `e` writes the result of check `k`, which is `c`: success with no link,
/// or failure linking a paste of the log.
pub open spec fn check_result_write(e: Effect, k: int, c: EvalChecker, ok: bool, log: Seq<char>) -> bool {
    match e {
        Effect::Status(w) => w.context == Context::Check(k as usize) && w.description@ == check_cli(c)
            && if ok {
            w.state == StatusState::Success && w.link == Link::Clear
        } else {
            w.state == StatusState::Failure && pastes(w.link, c.name@, log)
        },
        _ => false,
    }
}

/// The link is a paste named `name` holding `content`.
pub open spec fn pastes(l: Link, name: Seq<char>, content: Seq<char>) -> bool {
    match l {
        Link::Paste(g) => g.name@ == name && g.content@ == content,
        _ => false,
    }
}

/// A write of the status of check `k`.
fn check_status(k: usize, description: String, state: StatusState, link: Link) -> (r: Effect)
    ensures
        overall_final_in(r) == 0,
        overall_success_in(r) == 0,
        check_failure_in(r) == (if state != StatusState::Pending && state != StatusState::Success {
            1nat
        } else {
            0nat
        }),
        forall|i: int, t: bool|
            #[trigger] check_write_in(r, i, t) == (if i == k && (state != StatusState::Pending)
                == t {
                1nat
            } else {
                0nat
            }),
        r == (Effect::Status(StatusWrite { context: Context::Check(k), description, state, link })),
{
    Effect::Status(StatusWrite { context: Context::Check(k), description, state, link })
}

impl Driver {
    /// Ends the job before anything was written, reporting why.
    fn skip_unopened(&mut self, why: JobEvent) -> (r: Step)
        requires
            old(self).wf(),
            old(self).phase == Phase::AwaitIssue,
            why == JobEvent::IssueAlreadyClosed || why == JobEvent::IssueFetchFailed,
        ensures
            final(self).wf(),
            final(self).phase == Phase::Done,
            final(self).history@ == old(self).history@ + r.effects@,
            final(self).job == old(self).job,
            r.effects@ == seq![Effect::Notify(why)],
            r.request == Request::Finish(Outcome::Skipped),
    {
        self.phase = Phase::Done;
        self.outcome = Outcome::Skipped;
        let mut effects: Vec<Effect> = Vec::new();
        effects.push(Effect::Notify(why));
        let r = Step { effects, request: Request::Finish(Outcome::Skipped) };
        assert(r.effects@ =~= seq![Effect::Notify(why)]);
        assert(self.history@ + r.effects@ =~= seq![Effect::Notify(why)]);
        self.history = Ghost(self.history@ + r.effects@);
        proof {
            let h = self.history@;
            assert(h.drop_last() =~= Seq::<Effect>::empty());
            assert(overall_successes(h) == 0);
            assert(check_failures(h) == 0);
            assert forall|i: int|
                #![trigger check_writes(h, i, false)]
                #![trigger check_writes(h, i, true)]
                check_writes(h, i, true) == check_writes(h, i, false) && check_writes(h, i, false)
                    <= 1 by {
                assert(check_writes(h, i, true) == check_writes(h.drop_last(), i, true));
                assert(check_writes(h, i, false) == check_writes(h.drop_last(), i, false));
            }
        }
        r
    }

    fn is_nixpkgs_strategy(&self) -> (r: bool)
        ensures
            r == (self.strategy is Nixpkgs),
    {
        match &self.strategy {
            Strategy::Nixpkgs(_) => true,
            Strategy::Generic(_) => false,
        }
    }

    /// The job succeeded: its build jobs go out, one per job to the
    /// driver's architectures, then the overall success.
    fn finish_success(&mut self, out: Vec<Effect>) -> (r: Step)
        requires
            old(self).opened@,
            !old(self).base_failed@,
            overall_final_writes(old(self).history@) + overall_final_writes(out@) == 0,
            forall|i: int|
                #![trigger check_writes(old(self).history@, i, true)]
                #![trigger check_writes(old(self).history@, i, false)]
                check_writes(old(self).history@, i, true) + check_writes(out@, i, true)
                    == check_writes(old(self).history@, i, false) + check_writes(out@, i, false)
                    && check_writes(old(self).history@, i, false) + check_writes(out@, i, false)
                    <= 1,
            overall_successes(old(self).history@) + overall_successes(out@) == 0,
            scheduled(old(self).history@).len() == 0,
            scheduled(out@).len() == 0,
            check_failures(old(self).history@) + check_failures(out@) == 0,
            forall|i: int|
                0 <= i < old(self).checks@.len() ==> #[trigger] check_writes(
                    old(self).history@,
                    i,
                    true,
                ) + check_writes(out@, i, true) == 1,
            old(self).strategy is Nixpkgs ==> meta_successes(old(self).history@) + meta_successes(
                out@,
            ) >= 1,
        ensures
            meta_final_writes(r.effects@) == meta_final_writes(out@),
            final(self).wf(),
            final(self).phase == Phase::Done,
            final(self).history@ == old(self).history@ + r.effects@,
            final(self).job == old(self).job,
            final(self).architectures == old(self).architectures,
            final(self).strategy == old(self).strategy,
            final(self).jobs == old(self).jobs,
            final(self).rebuild == old(self).rebuild,
            final(self).author == old(self).author,
            final(self).checks == old(self).checks,
            r.request == Request::Finish(Outcome::Completed),
            r.effects@.len() > out@.len(),
            r.effects@.subrange(0, out@.len() as int) == out@,
            r.effects@.last() == Effect::Notify(JobEvent::TaskEvaluationCheckComplete),
            forall|i: int, t: bool|
                #[trigger] check_writes(r.effects@, i, t) == check_writes(out@, i, t),
            check_failures(r.effects@) == check_failures(out@),
            succeeded(r.effects@),
            scheduled(r.effects@).len() == final(self).jobs@.len(),
            forall|k: int|
                0 <= k < final(self).jobs@.len() ==> same_job(
                    #[trigger] scheduled(r.effects@)[k],
                    final(self).jobs@[k],
                ),
            schedules_go_to(r.effects@, views(final(self).architectures@)),
    {
        let mut out = out;
        let ghost out0 = out@;
        proof {
            lemma_no_schedules(out0);
        }
        let mut i: usize = 0;
        while i < self.jobs.len()
            invariant
                i <= self.jobs@.len(),
                out@.len() >= out0.len(),
                out@.subrange(0, out0.len() as int) == out0,
                overall_final_writes(out@) == overall_final_writes(out0),
                overall_successes(out@) == overall_successes(out0),
                check_failures(out@) == check_failures(out0),
                meta_successes(out@) == meta_successes(out0),
                meta_final_writes(out@) == meta_final_writes(out0),
                forall|k: int, t: bool| #[trigger]
                    check_writes(out@, k, t) == check_writes(out0, k, t),
                scheduled(out@).len() == i,
                forall|k: int| 0 <= k < i ==> same_job(#[trigger] scheduled(out@)[k], self.jobs@[k]),
                schedules_go_to(out@, views(self.architectures@)),
            decreases self.jobs@.len() - i,
        {
            let ghost before = out@;
            let e = Effect::Schedule {
                job: self.jobs[i].duplicate(),
                architectures: crate::text::copy_strings(&self.architectures),
            };
            out.push(e);
            proof {
                assert(out@.subrange(0, out0.len() as int) =~= before.subrange(0, out0.len() as int));
                assert forall|k: int| 0 <= k < out@.len() implies match #[trigger] out@[k] {
                    Effect::Schedule { architectures, .. } => views(architectures@) == views(
                        self.architectures@,
                    ),
                    _ => true,
                } by {
                    if k < before.len() {
                        assert(out@[k] == before[k]);
                    }
                }
            }
            i = i + 1;
        }
        let ghost before = out@;
        out.push(overall("^.^!".to_owned(), StatusState::Success, Link::Unchanged));
        proof {
            assert(out@.subrange(0, out0.len() as int) =~= before.subrange(0, out0.len() as int));
            assert forall|k: int| 0 <= k < out@.len() implies match #[trigger] out@[k] {
                Effect::Schedule { architectures, .. } => views(architectures@) == views(
                    self.architectures@,
                ),
                _ => true,
            } by {
                if k < before.len() {
                    assert(out@[k] == before[k]);
                }
            }
        }
        let ghost o1 = out@;
        let r = self.end(out, Outcome::Completed);
        proof {
            assert(r.effects@.subrange(0, out0.len() as int) =~= o1.subrange(0, out0.len() as int));
            assert forall|k: int| 0 <= k < r.effects@.len() implies match #[trigger] r.effects@[k] {
                Effect::Schedule { architectures, .. } => views(architectures@) == views(
                    self.architectures@,
                ),
                _ => true,
            } by {
                if k < o1.len() {
                    assert(r.effects@[k] == o1[k]);
                }
            }
        }
        r
    }

    /// The job failed after its overall status was opened.
    fn finish_failure(&mut self, out: Vec<Effect>) -> (r: Step)
        requires
            old(self).opened@,
            !old(self).base_failed@,
            overall_final_writes(old(self).history@) + overall_final_writes(out@) == 0,
            forall|i: int|
                #![trigger check_writes(old(self).history@, i, true)]
                #![trigger check_writes(old(self).history@, i, false)]
                check_writes(old(self).history@, i, true) + check_writes(out@, i, true)
                    == check_writes(old(self).history@, i, false) + check_writes(out@, i, false)
                    && check_writes(old(self).history@, i, false) + check_writes(out@, i, false)
                    <= 1,
            overall_successes(old(self).history@) + overall_successes(out@) == 0,
            scheduled(old(self).history@).len() == 0,
            scheduled(out@).len() == 0,
        ensures
            meta_final_writes(r.effects@) == meta_final_writes(out@),
            final(self).wf(),
            final(self).phase == Phase::Done,
            final(self).history@ == old(self).history@ + r.effects@,
            final(self).job == old(self).job,
            final(self).architectures == old(self).architectures,
            final(self).strategy == old(self).strategy,
            final(self).rebuild == old(self).rebuild,
            final(self).author == old(self).author,
            final(self).checks == old(self).checks,
            r.request == Request::Finish(Outcome::Completed),
            r.effects@.len() > out@.len(),
            r.effects@.subrange(0, out@.len() as int) == out@,
            r.effects@.last() == Effect::Notify(JobEvent::TaskEvaluationCheckComplete),
            forall|i: int, t: bool|
                #[trigger] check_writes(r.effects@, i, t) == check_writes(out@, i, t),
            check_failures(r.effects@) == check_failures(out@),
            r.effects@.len() == out@.len() + 2,
            is_status(
                r.effects@[out@.len() as int],
                Context::Overall,
                "Complete, with errors"@,
                StatusState::Failure,
            ),
            completed_with_errors(r.effects@),
            scheduled(r.effects@).len() == 0,
    {
        let mut out = out;
        let ghost out0 = out@;
        out.push(overall("Complete, with errors".to_owned(), StatusState::Failure, Link::Unchanged));
        let ghost o1 = out@;
        let r = self.end(out, Outcome::Completed);
        assert(o1.subrange(0, out0.len() as int) =~= out0);
        assert(r.effects@.subrange(0, out0.len() as int) =~= o1.subrange(0, out0.len() as int));
        r
    }

    /// A strategy step failed: the overall status says so, linking the
    /// paste that the error carries, if any.
    fn fail(&mut self, out: Vec<Effect>, e: Error) -> (r: Step)
        requires
            old(self).opened@,
            !old(self).base_failed@,
            overall_final_writes(old(self).history@) + overall_final_writes(out@) == 0,
            forall|i: int|
                #![trigger check_writes(old(self).history@, i, true)]
                #![trigger check_writes(old(self).history@, i, false)]
                check_writes(old(self).history@, i, true) + check_writes(out@, i, true)
                    == check_writes(old(self).history@, i, false) + check_writes(out@, i, false)
                    && check_writes(old(self).history@, i, false) + check_writes(out@, i, false)
                    <= 1,
            overall_successes(old(self).history@) + overall_successes(out@) == 0,
            scheduled(old(self).history@).len() == 0,
            scheduled(out@).len() == 0,
        ensures
            meta_final_writes(r.effects@) == meta_final_writes(out@),
            final(self).wf(),
            final(self).phase == Phase::Done,
            final(self).history@ == old(self).history@ + r.effects@,
            final(self).job == old(self).job,
            final(self).architectures == old(self).architectures,
            final(self).strategy == old(self).strategy,
            final(self).rebuild == old(self).rebuild,
            final(self).author == old(self).author,
            final(self).checks == old(self).checks,
            r.request == Request::Finish(Outcome::Completed),
            r.effects@.len() > out@.len(),
            r.effects@.subrange(0, out@.len() as int) == out@,
            r.effects@.last() == Effect::Notify(JobEvent::TaskEvaluationCheckComplete),
            forall|i: int, t: bool|
                #[trigger] check_writes(r.effects@, i, t) == check_writes(out@, i, t),
            check_failures(r.effects@) == check_failures(out@),
            r.effects@.len() == out@.len() + 2,
            is_status(
                r.effects@[out@.len() as int],
                Context::Overall,
                "Complete, with errors"@,
                StatusState::Failure,
            ),
            completed_with_errors(r.effects@),
            scheduled(r.effects@).len() == 0,
            e matches Error::FailWithGist(m, t, c) ==> r.effects@[out@.len() as int]->Status_0.link
                == (Link::Paste(Gist { name: t, description: m, content: c })),
    {
        let mut out = out;
        let ghost out0 = out@;
        let link = match e {
            Error::Fail(_) => Link::Unchanged,
            Error::FailWithGist(message, title, content) => Link::Paste(
                Gist { name: title, description: message, content },
            ),
        };
        out.push(overall("Complete, with errors".to_owned(), StatusState::Failure, link));
        let ghost o1 = out@;
        let r = self.end(out, Outcome::Completed);
        assert(o1.subrange(0, out0.len() as int) =~= out0);
        assert(r.effects@.subrange(0, out0.len() as int) =~= o1.subrange(0, out0.len() as int));
        assert(r.effects@[out0.len() as int] == o1[out0.len() as int]);
        r
    }

    /// Every check passed: the package collection goes on to its meta
    /// check, any other repository is done.
    fn evaluations_passed(&mut self, out: Vec<Effect>) -> (r: Step)
        requires
            old(self).opened@,
            !old(self).base_failed@,
            overall_final_writes(old(self).history@) + overall_final_writes(out@) == 0,
            forall|i: int, t: bool|
                #[trigger] check_writes(old(self).history@, i, t) + check_writes(out@, i, t) == (if 0
                    <= i < old(self).checks@.len() {
                    1nat
                } else {
                    0nat
                }),
            overall_successes(old(self).history@) + overall_successes(out@) == 0,
            check_failures(old(self).history@) + check_failures(out@) == 0,
            old(self).all_ok,
            scheduled(old(self).history@).len() == 0,
            scheduled(out@).len() == 0,
            old(self).checks_of_strategy(),
            old(self).strategy is Nixpkgs ==> old(self).jobs@.len() == 0,
        ensures
            final(self).wf(),
            final(self).history@ == old(self).history@ + r.effects@,
            final(self).job == old(self).job,
            final(self).strategy == old(self).strategy,
            final(self).architectures == old(self).architectures,
            final(self).checks == old(self).checks,
            (final(self).phase == Phase::AwaitMeta) == (old(self).strategy is Nixpkgs),
            final(self).phase == Phase::AwaitMeta || final(self).phase == Phase::Done,
            final(self).phase == Phase::AwaitMeta ==> r.request == Request::MetaCheck
                && r.effects@.len() > 0 && is_status(
                r.effects@.last(),
                Context::Meta,
                meta_description(),
                StatusState::Pending,
            ),
            final(self).phase == Phase::Done ==> r.request == Request::Finish(Outcome::Completed)
                && succeeded(r.effects@),
            final(self).phase == Phase::Done ==> r.effects@.last() == Effect::Notify(JobEvent::TaskEvaluationCheckComplete),
            r.effects@.len() > out@.len(),
            r.effects@.subrange(0, out@.len() as int) == out@,
            forall|i: int, t: bool|
                #[trigger] check_writes(r.effects@, i, t) == check_writes(out@, i, t),
            check_failures(r.effects@) == check_failures(out@),
    {
        let mut out = out;
        let ghost out0 = out@;
        if self.is_nixpkgs_strategy() {
            out.push(
                side_status(
                    Context::Meta,
                    "config.nix: checkMeta = true",
                    StatusState::Pending,
                    Link::Clear,
                ),
            );
            assert(out@.subrange(0, out0.len() as int) =~= out0);
            self.phase = Phase::AwaitMeta;
            self.emit(out, Request::MetaCheck)
        } else {
            self.finish_success(out)
        }
    }

    /// The tree is merged and evaluated: the checks begin.
    fn begin_evaluations(&mut self, out: Vec<Effect>) -> (r: Step)
        requires
            old(self).wf(),
            old(self).phase != Phase::AwaitIssue,
            rank(old(self).phase) < 9,
            overall_final_writes(out@) == 0,
            forall|i: int, t: bool| #[trigger] check_writes(out@, i, t) == 0,
            overall_successes(out@) == 0,
            check_failures(out@) == 0,
            scheduled(out@).len() == 0,
            old(self).jobs@.len() == 0,
        ensures
            final(self).wf(),
            final(self).history@ == old(self).history@ + r.effects@,
            final(self).job == old(self).job,
            final(self).strategy == old(self).strategy,
            final(self).architectures == old(self).architectures,
            final(self).phase == Phase::AwaitCheck || final(self).phase == Phase::AwaitMeta
                || final(self).phase == Phase::Done,
            final(self).phase == Phase::AwaitCheck ==> final(self).next_check == 0 && r.request
                == (Request::RunCheck { index: 0 }) && r.effects@.len() > 0 && pending_check_write(
                r.effects@.last(),
                0,
                final(self).checks@[0],
            ),
            final(self).phase == Phase::AwaitMeta ==> r.request == Request::MetaCheck
                && r.effects@.len() > 0 && is_status(
                r.effects@.last(),
                Context::Meta,
                meta_description(),
                StatusState::Pending,
            ),
            final(self).phase == Phase::Done ==> r.request == Request::Finish(Outcome::Completed)
                && succeeded(r.effects@),
            final(self).phase == Phase::Done ==> r.effects@.last() == Effect::Notify(JobEvent::TaskEvaluationCheckComplete),
            r.effects@.len() > out@.len(),
            r.effects@.subrange(0, out@.len() as int) == out@,
    {
        let mut out = out;
        let ghost out0 = out@;
        out.push(progress("Beginning Evaluations"));
        let checks = match &self.strategy {
            Strategy::Generic(g) => g.evaluation_checks(),
            Strategy::Nixpkgs(n) => n.evaluation_checks(),
        };
        self.checks = checks;
        self.all_ok = true;
        self.next_check = 0;
        if self.checks.len() > 0 {
            let description = self.checks[0].cli_cmd();
            out.push(check_status(0, description, StatusState::Pending, Link::Clear));
            assert(out@.subrange(0, out0.len() as int) =~= out0);
            self.phase = Phase::AwaitCheck;
            self.emit(out, Request::RunCheck { index: 0 })
        } else {
            let ghost o1 = out@;
            let r = self.evaluations_passed(out);
            assert(o1.subrange(0, out0.len() as int) =~= out0);
            assert(r.effects@.subrange(0, out0.len() as int) =~= o1.subrange(0, out0.len() as int));
            r
        }
    }
}

impl Driver {
    fn on_issue(&mut self, ev: Event) -> (r: Step)
        requires
            old(self).wf(),
            old(self).phase == Phase::AwaitIssue,
        ensures
            final(self).wf(),
            step_post(*old(self), ev, *final(self), r),
    {
        match ev {
            Event::Issue { issue, architectures } => {
                match issue {
                    None => self.skip_unopened(JobEvent::IssueFetchFailed),
                    Some(iss) => {
                        if issue_is_closed(&iss) {
                            return self.skip_unopened(JobEvent::IssueAlreadyClosed);
                        }
                        let wip = issue_is_wip(&iss);
                        self.architectures = if wip {
                            Vec::new()
                        } else {
                            architectures
                        };
                        let plan = match &self.strategy {
                            Strategy::Generic(g) => g.pre_clone(iss.title.as_str()),
                            Strategy::Nixpkgs(n) => n.pre_clone(iss.title.as_str()),
                        };
                        let mut out: Vec<Effect> = Vec::new();
                        out.push(progress("Starting"));
                        if plan.add.len() > 0 || plan.remove.len() > 0 {
                            out.push(labels(plan));
                        }
                        out.push(progress("Cloning project"));
                        let branch = self.job.pr.target_branch_name();
                        out.push(
                            overall(
                                concat("Checking out ", branch.as_str()),
                                StatusState::Pending,
                                Link::Unchanged,
                            ),
                        );
                        self.author = iss.author;
                        proof {
                            lemma_counts_empty();
                            assert(self.history@ =~= Seq::<Effect>::empty());
                        }
                        self.opened = Ghost(true);
                        self.phase = Phase::AwaitCheckout;
                        self.emit(out, Request::Checkout { branch })
                    },
                }
            },
            _ => self.again(),
        }
    }

    fn on_checkout(&mut self, ev: Event) -> (r: Step)
        requires
            old(self).wf(),
            old(self).phase == Phase::AwaitCheckout,
        ensures
            final(self).wf(),
            step_post(*old(self), ev, *final(self), r),
    {
        match ev {
            Event::CheckedOut => {
                let mut out: Vec<Effect> = Vec::new();
                if self.is_nixpkgs_strategy() {
                    out.push(progress("Checking original stdenvs"));
                    self.phase = Phase::AwaitBaseStdenvs;
                    self.emit(out, Request::EvalStdenvs)
                } else {
                    out.push(progress("Fetching PR"));
                    self.phase = Phase::AwaitFetch;
                    self.emit(out, Request::FetchPr)
                }
            },
            _ => self.again(),
        }
    }

    fn on_base_stdenvs(&mut self, ev: Event) -> (r: Step)
        requires
            old(self).wf(),
            old(self).phase == Phase::AwaitBaseStdenvs,
        ensures
            final(self).wf(),
            step_post(*old(self), ev, *final(self), r),
    {
        match ev {
            Event::Stdenvs { linux, darwin } => {
                let mut st = Stdenvs::new();
                st.identify_before(linux, darwin);
                match &mut self.strategy {
                    Strategy::Nixpkgs(n) => {
                        n.stdenvs = Some(st);
                    },
                    Strategy::Generic(_) => {},
                }
                let mut out: Vec<Effect> = Vec::new();
                out.push(progress("Checking original out paths"));
                self.phase = Phase::AwaitBaseOutPaths;
                self.emit(out, Request::FindOutPaths)
            },
            _ => self.again(),
        }
    }

    fn on_base_outpaths(&mut self, ev: Event) -> (r: Step)
        requires
            old(self).wf(),
            old(self).phase == Phase::AwaitBaseOutPaths,
        ensures
            final(self).wf(),
            step_post(*old(self), ev, *final(self), r),
    {
        match ev {
            Event::OutPaths(res) => {
                let mut out: Vec<Effect> = Vec::new();
                let log = match &res {
                    Ok(_) => String::new(),
                    Err(log) => log.clone(),
                };
                let result = match &mut self.strategy {
                    Strategy::Nixpkgs(n) => n.on_target_branch(res),
                    Strategy::Generic(g) => g.on_target_branch(res),
                };
                match result {
                    Ok(()) => {
                        out.push(progress("Fetching PR"));
                        self.phase = Phase::AwaitFetch;
                        self.emit(out, Request::FetchPr)
                    },
                    Err(_) => {
                        let branch = self.job.pr.target_branch_name();
                        let start = concat("Target branch ", branch.as_str());
                        let description = concat(start.as_str(), " doesn't evaluate!");
                        out.push(
                            overall(
                                description,
                                StatusState::Failure,
                                Link::Paste(gist("Output path comparison", String::new(), log)),
                            ),
                        );
                        out.push(
                            overall(
                                "Complete, with errors".to_owned(),
                                StatusState::Failure,
                                Link::Unchanged,
                            ),
                        );
                        self.base_failed = Ghost(true);
                        self.end(out, Outcome::Completed)
                    },
                }
            },
            _ => self.again(),
        }
    }

    fn on_fetch(&mut self, ev: Event) -> (r: Step)
        requires
            old(self).wf(),
            old(self).phase == Phase::AwaitFetch,
        ensures
            final(self).wf(),
            step_post(*old(self), ev, *final(self), r),
    {
        match ev {
            Event::PrFetched { commit_exists } => {
                let mut out: Vec<Effect> = Vec::new();
                if !commit_exists {
                    out.push(
                        overall("Commit not found".to_owned(), StatusState::Error, Link::Unchanged),
                    );
                    self.end(out, Outcome::Skipped)
                } else if self.is_nixpkgs_strategy() {
                    self.phase = Phase::AwaitCommitInfo;
                    self.emit(out, Request::CommitInfo)
                } else {
                    out.push(progress("Merging PR"));
                    self.phase = Phase::AwaitMerge;
                    self.emit(out, Request::Merge)
                }
            },
            _ => self.again(),
        }
    }

    fn on_commit_info(&mut self, ev: Event) -> (r: Step)
        requires
            old(self).wf(),
            old(self).phase == Phase::AwaitCommitInfo,
        ensures
            final(self).wf(),
            step_post(*old(self), ev, *final(self), r),
    {
        match ev {
            Event::CommitInfo { messages, files } => {
                let plan = match &mut self.strategy {
                    Strategy::Nixpkgs(n) => n.after_fetch(messages, files),
                    Strategy::Generic(g) => g.after_fetch(messages, files),
                };
                let mut out: Vec<Effect> = Vec::new();
                out.push(labels(plan));
                out.push(progress("Merging PR"));
                self.phase = Phase::AwaitMerge;
                self.emit(out, Request::Merge)
            },
            _ => self.again(),
        }
    }

    fn on_merge(&mut self, ev: Event) -> (r: Step)
        requires
            old(self).wf(),
            old(self).phase == Phase::AwaitMerge,
        ensures
            final(self).wf(),
            step_post(*old(self), ev, *final(self), r),
    {
        match ev {
            Event::Merged(merged) => {
                let mut out: Vec<Effect> = Vec::new();
                if !merged {
                    out.push(
                        overall("Failed to merge".to_owned(), StatusState::Failure, Link::Unchanged),
                    );
                    let plan = match &self.strategy {
                        Strategy::Generic(g) => g.merge_conflict(),
                        Strategy::Nixpkgs(n) => {
                            let p = n.merge_conflict();
                            assert(views(p.add@).len() == 1);
                            assert(p.add@.len() == 1);
                            p
                        },
                    };
                    if plan.add.len() > 0 || plan.remove.len() > 0 {
                        out.push(labels(plan));
                    }
                    return self.end(out, Outcome::Skipped);
                }
                let plan = match &self.strategy {
                    Strategy::Generic(g) => g.after_merge(),
                    Strategy::Nixpkgs(n) => {
                        let p = n.after_merge();
                        assert(views(p.remove@).len() == 1);
                        assert(p.remove@.len() == 1);
                        p
                    },
                };
                let ghost p0 = plan;
                if plan.add.len() > 0 || plan.remove.len() > 0 {
                    out.push(labels(plan));
                }
                proof {
                    if self.strategy is Nixpkgs {
                        assert(out@[0] == Effect::Labels(p0));
                        assert(removes_merge_conflict(out@[0]));
                    }
                }
                let (has_stdenvs, has_diff) = match &self.strategy {
                    Strategy::Nixpkgs(n) => (n.stdenvs.is_some(), n.outpathdiff.is_some()),
                    Strategy::Generic(_) => (false, false),
                };
                if has_stdenvs {
                    out.push(progress("Checking new stdenvs"));
                    self.phase = Phase::AwaitHeadStdenvs;
                    self.emit(out, Request::EvalStdenvs)
                } else if has_diff {
                    out.push(progress("Checking new out paths"));
                    self.phase = Phase::AwaitHeadOutPaths;
                    self.emit(out, Request::FindOutPaths)
                } else {
                    let ghost o = out@;
                    let r = self.begin_evaluations(out);
                    proof {
                        if o.len() > 0 {
                            assert(r.effects@.subrange(0, o.len() as int)[0] == r.effects@[0]);
                        }
                    }
                    r
                }
            },
            _ => self.again(),
        }
    }

    fn on_head_stdenvs(&mut self, ev: Event) -> (r: Step)
        requires
            old(self).wf(),
            old(self).phase == Phase::AwaitHeadStdenvs,
        ensures
            final(self).wf(),
            step_post(*old(self), ev, *final(self), r),
    {
        match ev {
            Event::Stdenvs { linux, darwin } => {
                let has_diff = match &mut self.strategy {
                    Strategy::Nixpkgs(n) => {
                        let ghost before = n.stdenvs;
                        match &mut n.stdenvs {
                            Some(st) => st.identify_after(linux, darwin),
                            None => {},
                        }
                        proof {
                            if before is Some {
                                assert(n.stdenvs->Some_0 == (Stdenvs {
                                    linux_stdenv_after: linux,
                                    darwin_stdenv_after: darwin,
                                    ..before->Some_0
                                }));
                            }
                        }
                        n.outpathdiff.is_some()
                    },
                    Strategy::Generic(_) => false,
                };
                let mut out: Vec<Effect> = Vec::new();
                if has_diff {
                    out.push(progress("Checking new out paths"));
                    self.phase = Phase::AwaitHeadOutPaths;
                    self.emit(out, Request::FindOutPaths)
                } else {
                    self.begin_evaluations(out)
                }
            },
            _ => self.again(),
        }
    }

    fn on_head_outpaths(&mut self, ev: Event) -> (r: Step)
        requires
            old(self).wf(),
            old(self).phase == Phase::AwaitHeadOutPaths,
        ensures
            final(self).wf(),
            step_post(*old(self), ev, *final(self), r),
    {
        match ev {
            Event::OutPaths(res) => {
                let branch = self.job.pr.target_branch_name();
                let result = match &mut self.strategy {
                    Strategy::Nixpkgs(n) => n.after_merge_outpaths(res, branch.as_str()),
                    Strategy::Generic(_) => Ok(()),
                };
                let out: Vec<Effect> = Vec::new();
                match result {
                    Ok(()) => self.begin_evaluations(out),
                    Err(e) => self.fail(out, e),
                }
            },
            _ => self.again(),
        }
    }

    fn on_check(&mut self, ev: Event) -> (r: Step)
        requires
            old(self).wf(),
            old(self).phase == Phase::AwaitCheck,
        ensures
            final(self).wf(),
            step_post(*old(self), ev, *final(self), r),
    {
        match ev {
            Event::CheckDone { ok, log } => {
                let k = self.next_check;
                let description = self.checks[k].cli_cmd();
                let mut out: Vec<Effect> = Vec::new();
                if ok {
                    out.push(check_status(k, description, StatusState::Success, Link::Clear));
                } else {
                    let name = self.checks[k].name();
                    let paste = Gist { name, description: "Failure".to_owned(), content: log };
                    out.push(check_status(k, description, StatusState::Failure, Link::Paste(paste)));
                }
                self.all_ok = self.all_ok && ok;
                if k < self.checks.len() - 1 {
                    let next = self.checks[k + 1].cli_cmd();
                    out.push(check_status(k + 1, next, StatusState::Pending, Link::Clear));
                    self.next_check = k + 1;
                    self.emit(out, Request::RunCheck { index: k + 1 })
                } else if self.all_ok {
                    let ghost o = out@;
                    let r = self.evaluations_passed(out);
                    assert(r.effects@.subrange(0, o.len() as int)[0] == r.effects@[0]);
                    r
                } else {
                    let ghost o = out@;
                    let r = self.finish_failure(out);
                    assert(r.effects@.subrange(0, o.len() as int)[0] == r.effects@[0]);
                    r
                }
            },
            _ => self.again(),
        }
    }
}



impl Driver {
    /// The labels for what changed, then either a request for the
    /// maintainers of what changed or the end of the job.
    fn changed_outputs(&mut self, out: Vec<Effect>) -> (r: Step)
        requires
            old(self).wf(),
            old(self).phase == Phase::AwaitMeta,
            overall_final_writes(out@) == 0,
            forall|i: int, t: bool| #[trigger] check_writes(out@, i, t) == 0,
            overall_successes(out@) == 0,
            check_failures(out@) == 0,
            scheduled(out@).len() == 0,
            meta_successes(out@) >= 1,
        ensures
            meta_final_writes(r.effects@) == meta_final_writes(out@),
            final(self).wf(),
            final(self).history@ == old(self).history@ + r.effects@,
            final(self).job == old(self).job,
            final(self).jobs == old(self).jobs,
            final(self).architectures == old(self).architectures,
            final(self).phase == Phase::AwaitMaintainers || final(self).phase == Phase::Done,
            final(self).phase == Phase::AwaitMaintainers ==> r.request is Maintainers,
            final(self).phase == Phase::Done ==> r.request == Request::Finish(Outcome::Completed)
                && succeeded(r.effects@),
            final(self).phase == Phase::Done ==> r.effects@.last() == Effect::Notify(JobEvent::TaskEvaluationCheckComplete),
            r.effects@.len() > out@.len(),
            r.effects@.subrange(0, out@.len() as int) == out@,
            is_status(
                r.effects@[out@.len() as int],
                Context::Overall,
                "Calculating Changed Outputs"@,
                StatusState::Pending,
            ),
            old(self).strategy is Nixpkgs && old(self).strategy->Nixpkgs_0.stdenvs is Some ==> r.effects@.len()
                > out@.len() + 1 && stdenv_labels_for(
                r.effects@[out@.len() + 1int],
                old(self).strategy->Nixpkgs_0.stdenvs->Some_0,
            ),
            final(self).phase == Phase::AwaitMaintainers ==> r.effects@.len() > 0
                && changed_paths_link(r.effects@.last(), final(self).rebuild@),
            final(self).strategy is Nixpkgs ==> final(self).strategy->Nixpkgs_0.outpathdiff is None,
            old(self).strategy is Nixpkgs ==> snapshot_kept(
                old(self).strategy->Nixpkgs_0,
                final(self).strategy,
            ),
            old(self).strategy is Nixpkgs && diff_complete(
                old(self).strategy->Nixpkgs_0.outpathdiff,
            ) ==> rebuild_flow(
                old(self).strategy->Nixpkgs_0,
                *final(self),
                r,
                out@.len() as int,
            ),
    {
        let mut out = out;
        let ghost out0 = out@;
        out.push(progress("Calculating Changed Outputs"));
        let ghost out1 = out@;
        let mut diff: Option<OutPathDiff> = None;
        let mut paths: Option<Vec<String>> = None;
        let mut stdenv_plan: Option<LabelPlan> = None;
        let ghost sopt = if self.strategy is Nixpkgs {
            self.strategy->Nixpkgs_0.stdenvs
        } else {
            None
        };
        let ghost dopt = if self.strategy is Nixpkgs {
            self.strategy->Nixpkgs_0.outpathdiff
        } else {
            None
        };
        match &mut self.strategy {
            Strategy::Nixpkgs(n) => {
                match &n.stdenvs {
                    Some(st) => {
                        let changed = if st.are_same() {
                            Vec::new()
                        } else {
                            st.changed()
                        };
                        let plan = stdenv_tags(&changed);
                        assert(changed@ =~= st.changed_spec());
                        assert(views(plan.add@) == st.changed_spec().map_values(
                            |x: System| stdenv_label(x),
                        ));
                        assert(views(plan.remove@) == stdenv_removals(st.changed_spec()));
                        stdenv_plan = Some(plan);
                    },
                    None => {},
                }
                std::mem::swap(&mut diff, &mut n.outpathdiff);
                paths = match &n.changed_paths {
                    Some(v) => Some(crate::text::copy_strings(v)),
                    None => None,
                };
            },
            Strategy::Generic(_) => {},
        }
        if let Some(plan) = stdenv_plan {
            out.push(labels(plan));
        }
        let ghost out2 = out@;
        proof {
            assert(out2.subrange(0, out1.len() as int) =~= out1);
            if sopt is Some {
                assert(stdenv_labels_for(out2[out1.len() as int], sopt->Some_0));
            }
        }
        let d = match diff {
            Some(d) => d,
            None => {
                let ghost o = out@;
                assert(o.subrange(0, out2.len() as int) =~= out2);
                let r = self.finish_success(out);
                proof {
                    lemma_prefix(out2, o, r.effects@);
                    lemma_prefix(out1, out2, r.effects@);
                    assert(out1.subrange(0, out0.len() as int) =~= out0);
                    lemma_prefix(out0, out1, r.effects@);
                }
                return r;
            },
        };
        let ghost kd = out@.len() as int;
        if let Some((removed, added)) = d.package_diff() {
            let plan = added_removed_tags(&removed, &added);
            proof {
                let b = outputs(d.before->Some_0@);
                let a = outputs(d.after->Some_0@);
                lemma_nonempty_list_set(views(removed@), removed_packages(b, a));
                lemma_nonempty_list_set(views(added@), added_packages(b, a));
            }
            out.push(labels(plan));
            assert(added_removed_for(out@[kd], d));
        }
        let attrs = match d.calculate_rebuild() {
            Some(attrs) => attrs,
            None => {
                let ghost o = out@;
                assert(o.subrange(0, out2.len() as int) =~= out2);
                let r = self.finish_success(out);
                proof {
                    lemma_prefix(out2, o, r.effects@);
                    if diff_complete(dopt) {
                        assert(o.subrange(0, o.len() as int) =~= o);
                        lemma_prefix(o, o, r.effects@);
                        assert(r.effects@[kd] == o[kd]);
                        assert(added_removed_for(r.effects@[kd], dopt->Some_0));
                    }
                    lemma_prefix(out1, out2, r.effects@);
                    assert(out1.subrange(0, out0.len() as int) =~= out0);
                    lemma_prefix(out0, out1, r.effects@);
                }
                return r;
            },
        };
        self.rebuild = attrs;
        if self.rebuild.len() > 0 {
            let listing = rebuild_listing(&self.rebuild);
            let ghost kl = out@.len() as int;
            out.push(Effect::OverallLink(gist("Changed Paths", String::new(), listing)));
            assert(changed_paths_link(out@[kl], self.rebuild@));
            if let Some(paths) = paths {
                let request = Request::Maintainers { paths, attrs: attr_paths(&self.rebuild) };
                self.phase = Phase::AwaitMaintainers;
                let ghost o = out@;
                assert(o.subrange(0, out2.len() as int) =~= out2);
                assert(out1.subrange(0, out0.len() as int) =~= out0);
                let r = self.emit(out, request);
                proof {
                    assert(r.effects@.subrange(0, o.len() as int) =~= o);
                    lemma_prefix(out2, o, r.effects@);
                    if diff_complete(dopt) {
                        assert(o.subrange(0, o.len() as int) =~= o);
                        lemma_prefix(o, o, r.effects@);
                        assert(r.effects@[kd] == o[kd]);
                        assert(added_removed_for(r.effects@[kd], dopt->Some_0));
                    }
                    lemma_prefix(out1, out2, r.effects@);
                    lemma_prefix(out0, out1, r.effects@);
                    assert(changed_paths_link(r.effects@[kl], self.rebuild@));
                }
                return r;
            }
            let ghost kr = out@.len() as int;
            out.push(labels(rebuild_tags(&self.rebuild)));
            let ghost o = out@;
            assert(o.subrange(0, out2.len() as int) =~= out2);
            let r = self.finish_success(out);
            proof {
                lemma_prefix(out2, o, r.effects@);
                    if diff_complete(dopt) {
                        assert(o.subrange(0, o.len() as int) =~= o);
                        lemma_prefix(o, o, r.effects@);
                        assert(r.effects@[kd] == o[kd]);
                        assert(added_removed_for(r.effects@[kd], dopt->Some_0));
                    }
                lemma_prefix(out1, out2, r.effects@);
                assert(out1.subrange(0, out0.len() as int) =~= out0);
                lemma_prefix(out0, out1, r.effects@);
                assert(o.subrange(0, o.len() as int) =~= o);
                lemma_prefix(o, o, r.effects@);
                assert(r.effects@[kl] == o[kl]);
                assert(r.effects@[kr] == o[kr]);
                assert(changed_paths_link(r.effects@[kl], self.rebuild@));
                assert(rebuild_labels_for(r.effects@[kr], self.rebuild@));
            }
            return r;
        }
        let ghost kr = out@.len() as int;
        out.push(labels(rebuild_tags(&self.rebuild)));
        let ghost o = out@;
        assert(o.subrange(0, out2.len() as int) =~= out2);
        let r = self.finish_success(out);
        proof {
            lemma_prefix(out2, o, r.effects@);
                    if diff_complete(dopt) {
                        assert(o.subrange(0, o.len() as int) =~= o);
                        lemma_prefix(o, o, r.effects@);
                        assert(r.effects@[kd] == o[kd]);
                        assert(added_removed_for(r.effects@[kd], dopt->Some_0));
                    }
            lemma_prefix(out1, out2, r.effects@);
            assert(out1.subrange(0, out0.len() as int) =~= out0);
            lemma_prefix(out0, out1, r.effects@);
            assert(o.subrange(0, o.len() as int) =~= o);
                lemma_prefix(o, o, r.effects@);
            assert(r.effects@[kr] == o[kr]);
            assert(rebuild_labels_for(r.effects@[kr], self.rebuild@));
        }
        r
    }

    fn on_meta(&mut self, ev: Event) -> (r: Step)
        requires
            old(self).wf(),
            old(self).phase == Phase::AwaitMeta,
        ensures
            final(self).wf(),
            step_post(*old(self), ev, *final(self), r),
    {
        match ev {
            Event::Meta(res) => {
                let mut out: Vec<Effect> = Vec::new();
                let ok = res.is_ok();
                let log = match &res {
                    Ok(_) => String::new(),
                    Err(log) => log.clone(),
                };
                let result = match &self.strategy {
                    Strategy::Nixpkgs(n) => n.all_evaluations_passed(&self.job, res),
                    Strategy::Generic(g) => g.all_evaluations_passed(&self.job, res),
                };
                if ok {
                    out.push(
                        side_status(
                            Context::Meta,
                            "config.nix: checkMeta = true",
                            StatusState::Success,
                            Link::Clear,
                        ),
                    );
                } else {
                    let paste = gist("Meta Check", "Failure".to_owned(), log);
                    out.push(
                        side_status(
                            Context::Meta,
                            "config.nix: checkMeta = true",
                            StatusState::Failure,
                            Link::Paste(paste),
                        ),
                    );
                }
                match result {
                    Ok(jobs) => {
                        self.jobs = jobs;
                        let ghost o = out@;
                        let r = self.changed_outputs(out);
                        assert(r.effects@.subrange(0, o.len() as int)[0] == r.effects@[0]);
                        r
                    },
                    Err(e) => {
                    let ghost o = out@;
                    let r = self.fail(out, e);
                    assert(r.effects@.subrange(0, o.len() as int)[0] == r.effects@[0]);
                    r
                }
                }
            },
            _ => self.again(),
        }
    }

    fn on_maintainers(&mut self, ev: Event) -> (r: Step)
        requires
            old(self).wf(),
            old(self).phase == Phase::AwaitMaintainers,
        ensures
            final(self).wf(),
            step_post(*old(self), ev, *final(self), r),
    {
        match ev {
            Event::Maintainers(res) => {
                let mut out: Vec<Effect> = Vec::new();
                let content = match res {
                    Ok(report) => {
                        let asked = review_requests(&report.maintainers);
                        proof {
                            assert(views(asked@).len() == asked@.len());
                            assert(views(report.maintainers@).len() == report.maintainers@.len());
                        }
                        if asked.len() > 0 {
                            out.push(Effect::RequestReviews(asked));
                        }
                        out.push(labels(maintainer_tags(&self.author, &report.by_package)));
                        proof {
                            assert(maintainer_labels_for(
                                out@[out@.len() - 1],
                                self.author@,
                                report.by_package@,
                            ));
                            if 0 < report.maintainers@.len() < REVIEW_REQUEST_LIMIT {
                                assert(reviews_for(out@[0], views(report.maintainers@)));
                            }
                        }
                        concat("Maintainers:\n", report.listing.as_str())
                    },
                    Err(e) => concat("Ignorable calculation error:\n", e.as_str()),
                };
                let ghost want = content@;
                let ghost pre = out@;
                let paste = gist("Potential Maintainers", String::new(), content);
                let ghost k = out@.len() as int;
                out.push(
                    side_status(
                        Context::Maintainers,
                        "matching changed paths to changed attrs...",
                        StatusState::Success,
                        Link::Paste(paste),
                    ),
                );
                proof {
                    assert(maintainers_status(out@[k], want));
                }
                let ghost k2 = out@.len() as int;
                out.push(labels(rebuild_tags(&self.rebuild)));
                let ghost o = out@;
                let r = self.finish_success(out);
                proof {
                    assert(r.effects@.subrange(0, o.len() as int)[k] == r.effects@[k]);
                    assert(maintainers_status(r.effects@[k], want));
                    assert(r.effects@.subrange(0, o.len() as int)[k2] == r.effects@[k2]);
                    assert(rebuild_labels_for(r.effects@[k2], old(self).rebuild@));
                    assert forall|j: int| 0 <= j < pre.len() implies r.effects@[j] == #[trigger] pre[j] by {
                        assert(o[j] == pre[j]);
                        assert(r.effects@.subrange(0, o.len() as int)[j] == r.effects@[j]);
                    }
                    if ev is Maintainers && ev->Maintainers_0 is Ok {
                        let rep = ev->Maintainers_0->Ok_0;
                        assert(maintainer_labels_for(
                            r.effects@[pre.len() - 1],
                            old(self).author@,
                            rep.by_package@,
                        ));
                        if 0 < rep.maintainers@.len() < REVIEW_REQUEST_LIMIT {
                            assert(reviews_for(r.effects@[0], views(rep.maintainers@)));
                        }
                    }
                }
                r
            },
            _ => self.again(),
        }
    }

    /// Takes the answer to the last request and says what to do next.
    /// Every step keeps the invariant `wf`, which ties the phase to what has
    /// been written to the overall status and to each check's status, and
    /// does what `step_post` says: an answer that fits moves the job on,
    /// with the status writes, labels, events and build jobs named there.
    pub fn step(&mut self, ev: Event) -> (r: Step)
        requires
            old(self).wf(),
        ensures
            final(self).wf(),
            step_post(*old(self), ev, *final(self), r),
    {
        match self.phase {
            Phase::AwaitIssue => self.on_issue(ev),
            Phase::AwaitCheckout => self.on_checkout(ev),
            Phase::AwaitBaseStdenvs => self.on_base_stdenvs(ev),
            Phase::AwaitBaseOutPaths => self.on_base_outpaths(ev),
            Phase::AwaitFetch => self.on_fetch(ev),
            Phase::AwaitCommitInfo => self.on_commit_info(ev),
            Phase::AwaitMerge => self.on_merge(ev),
            Phase::AwaitHeadStdenvs => self.on_head_stdenvs(ev),
            Phase::AwaitHeadOutPaths => self.on_head_outpaths(ev),
            Phase::AwaitCheck => self.on_check(ev),
            Phase::AwaitMeta => self.on_meta(ev),
            Phase::AwaitMaintainers => self.on_maintainers(ev),
            Phase::Done => {
                let r = Step { effects: Vec::new(), request: Request::Finish(self.outcome) };
                assert(self.history@ + r.effects@ =~= self.history@);
                r
            },
        }
    }
}

/// A finished job whose overall status was opened and whose target branch
/// evaluated has written exactly one final state to the overall status, and
/// the last write there is one of the final ones.
pub proof fn lemma_single_final_overall_status(d: Driver)
    requires
        d.wf(),
        d.phase == Phase::Done,
        d.opened@,
        !d.base_failed@,
    ensures
        overall_final_writes(d.history@) == 1,
        is_final_overall(last_overall(d.history@)),
{
}

/// In a finished job, each check's status got a final state exactly when
/// it was set pending, that is, when the check ran; and at most once.
pub proof fn lemma_checks_final_iff_run(d: Driver, i: int)
    requires
        d.wf(),
        d.phase == Phase::Done,
    ensures
        check_writes(d.history@, i, true) == check_writes(d.history@, i, false),
        check_writes(d.history@, i, false) <= 1,
{
}

/// A finished job wrote success to its overall status only where no
/// evaluation check failed; where it ends in success, every check ran and
/// the meta check passed; where it does not, no build job went out.
pub proof fn lemma_success_needs_passing_checks(d: Driver)
    requires
        d.wf(),
        d.phase == Phase::Done,
    ensures
        overall_successes(d.history@) > 0 ==> check_failures(d.history@) == 0,
        d.opened@ && succeeded(d.history@) ==> check_failures(d.history@) == 0 && ran_all_checks(
            d.history@,
            d.checks@.len() as int,
        ) && (d.strategy is Nixpkgs ==> meta_successes(d.history@) >= 1),
        d.opened@ && !succeeded(d.history@) ==> scheduled(d.history@).len() == 0,
        d.opened@ && succeeded(d.history@) ==> scheduled(d.history@).len() == d.jobs@.len()
            && schedules_go_to(d.history@, views(d.architectures@)),
{
}

/// A job whose issue is closed, or could not be fetched, ends at its first
/// step having handed out one event and nothing else: no status, label or
/// build job.
pub proof fn lemma_closed_issue_no_effects(d: Driver)
    requires
        d.wf(),
        d.phase == Phase::Done,
        !d.opened@,
    ensures
        d.history@.len() == 1,
        d.history@[0] is Notify,
        overall_final_writes(d.history@) == 0,
        scheduled(d.history@).len() == 0,
{
    let h = d.history@;
    assert(h.drop_last() =~= Seq::<Effect>::empty());
    assert(h =~= Seq::<Effect>::empty().push(h[0]));
}


} // verus!
