//! The two evaluation strategies: a generic one that does nothing beyond
//! the driver's own steps, and the package collection's, which compares
//! the tree before and after the merge and labels the pull request.
use vstd::prelude::*;
use crate::checks::{nixpkgs_check_list, nixpkgs_checks, checker_is, EvalChecker};
use crate::commits::{commit_packages, parse_commit_messages};
use crate::issue::{darwin_label, labels_from_title, lower_of, mentions_darwin};
use crate::job::{schedule_builds_now, touched_packages, BuildJob, EvaluationJob, MAX_AUTO_BUILD_ATTRS};
use crate::outpaths::{OutPath, OutPathDiff};
use crate::stdenvs::Stdenvs;
use crate::taggers::{path_tags, path_tags_where, LabelPlan, TagPaths};
use crate::text::views;

verus! {

/// Why a strategy step stopped the job.
#[derive(Debug)]
pub enum Error {
    /// A step could not complete; the message says which.
    Fail(String),
    /// As `Fail`, with a log to paste: message, paste title, paste content.
    FailWithGist(String, String, String),
}

/// The label of a pull request that does not merge cleanly.
pub open spec fn merge_conflict_label() -> Seq<char> {
    "2.status: merge conflict"@
}

/// The hooks that the driver calls on a strategy, in this order.
pub trait EvaluationStrategy {
    /// Labels to set before anything is cloned.
    fn pre_clone(&self, title: &str) -> LabelPlan;

    /// Records the output paths of the target branch, or fails where they
    /// could not be listed.
    fn on_target_branch(&mut self, out_paths: Result<Vec<OutPath>, String>) -> Result<(), Error>;

    /// Records what the pull request's commits say and touch, and gives the
    /// labels for it.
    fn after_fetch(&mut self, messages: Option<Vec<String>>, files: Option<Vec<String>>) -> LabelPlan;

    /// Labels to set when the pull request does not merge.
    fn merge_conflict(&self) -> LabelPlan;

    /// Labels to set once the pull request has merged.
    fn after_merge(&self) -> LabelPlan;

    /// The checks to run on the merged tree, in reporting order.
    fn evaluation_checks(&self) -> Vec<EvalChecker>;

    /// Once every check passed: the build jobs to schedule, given what the
    /// package meta check gave, or a failure.
    fn all_evaluations_passed(&self, job: &EvaluationJob, meta: Result<Vec<String>, String>) -> Result<
        Vec<BuildJob>,
        Error,
    >;
}

/// The strategy for any repository but the package collection.
pub struct GenericStrategy {}

impl GenericStrategy {
    pub fn new() -> (r: GenericStrategy) {
        GenericStrategy {}
    }
}

fn no_labels() -> (r: LabelPlan)
    ensures
        r.add@.len() == 0,
        r.remove@.len() == 0,
{
    LabelPlan { add: Vec::new(), remove: Vec::new() }
}

impl EvaluationStrategy for GenericStrategy {
    fn pre_clone(&self, title: &str) -> (r: LabelPlan)
        ensures
            r.add@.len() == 0,
            r.remove@.len() == 0,
    {
        no_labels()
    }

    fn on_target_branch(&mut self, out_paths: Result<Vec<OutPath>, String>) -> (r: Result<(), Error>)
        ensures
            r is Ok,
    {
        Ok(())
    }

    fn after_fetch(&mut self, messages: Option<Vec<String>>, files: Option<Vec<String>>) -> (r:
        LabelPlan)
        ensures
            r.add@.len() == 0,
            r.remove@.len() == 0,
    {
        no_labels()
    }

    fn merge_conflict(&self) -> (r: LabelPlan)
        ensures
            r.add@.len() == 0,
            r.remove@.len() == 0,
    {
        no_labels()
    }

    fn after_merge(&self) -> (r: LabelPlan)
        ensures
            r.add@.len() == 0,
            r.remove@.len() == 0,
    {
        no_labels()
    }

    fn evaluation_checks(&self) -> (r: Vec<EvalChecker>)
        ensures
            r@.len() == 0,
    {
        Vec::new()
    }

    fn all_evaluations_passed(&self, job: &EvaluationJob, meta: Result<Vec<String>, String>) -> (r:
        Result<Vec<BuildJob>, Error>)
        ensures
            r matches Ok(jobs) && jobs@.len() == 0,
    {
        Ok(Vec::new())
    }
}

/// The package collection's strategy, with what it has learned so far.
pub struct NixpkgsStrategy {
    pub tag_paths: Vec<TagPaths>,
    pub stdenvs: Option<Stdenvs>,
    pub outpathdiff: Option<OutPathDiff>,
    pub possibly_touched_packages: Option<Vec<String>>,
    pub changed_paths: Option<Vec<String>>,
}

impl NixpkgsStrategy {
    /// A strategy that has learned nothing yet, labelling paths by
    /// `tag_paths`.
    pub fn new(tag_paths: Vec<TagPaths>) -> (r: NixpkgsStrategy)
        ensures
            r.tag_paths == tag_paths,
            r.stdenvs is None,
            r.outpathdiff is None,
            r.possibly_touched_packages is None,
            r.changed_paths is None,
    {
        NixpkgsStrategy {
            tag_paths,
            stdenvs: None,
            outpathdiff: None,
            possibly_touched_packages: None,
            changed_paths: None,
        }
    }

    /// Records the output paths after the merge into `branch`; where they
    /// could not be listed, the job fails with the evaluator's log to paste.
    pub fn after_merge_outpaths(&mut self, res: Result<Vec<OutPath>, String>, branch: &str) -> (r:
        Result<(), Error>)
        ensures
            final(self).tag_paths == old(self).tag_paths,
            final(self).stdenvs == old(self).stdenvs,
            final(self).possibly_touched_packages == old(self).possibly_touched_packages,
            final(self).changed_paths == old(self).changed_paths,
            r is Ok <==> res is Ok,
            res is Ok && old(self).outpathdiff is Some ==> final(self).outpathdiff == Some(
                OutPathDiff { after: Some(res->Ok_0), ..old(self).outpathdiff->Some_0 },
            ),
            res is Ok && old(self).outpathdiff is None ==> final(self).outpathdiff is None,
            res is Err ==> final(self).outpathdiff == old(self).outpathdiff,
            res is Err ==> r is Err && r->Err_0 is FailWithGist,
            r matches Err(Error::FailWithGist(message, title, log)) ==> message@
                == "Failed to enumerate outputs after merging to "@ + branch@ && title@
                == "Output path comparison"@ && log == res->Err_0,
    {
        match res {
            Ok(entries) => {
                match &mut self.outpathdiff {
                    Some(d) => d.set_after(entries),
                    None => {},
                }
                Ok(())
            },
            Err(log) => {
                let mut message = "Failed to enumerate outputs after merging to ".to_owned();
                message.append(branch);
                Err(Error::FailWithGist(message, "Output path comparison".to_owned(), log))
            },
        }
    }

}

impl EvaluationStrategy for NixpkgsStrategy {
    /// Records the target branch's output paths; where they could not be
    /// listed, the pull request targets a branch that does not evaluate.
    fn on_target_branch(&mut self, out_paths: Result<Vec<OutPath>, String>) -> (r: Result<(), Error>)
        ensures
            r is Ok <==> out_paths is Ok,
            out_paths is Ok ==> final(self).outpathdiff == Some(
                OutPathDiff { before: Some(out_paths->Ok_0), after: None },
            ),
            out_paths is Err ==> final(self).outpathdiff is None,
            r matches Err(Error::Fail(message)) ==> message@
                == "Pull request targets a branch which does not evaluate!"@,
            r is Err ==> r->Err_0 is Fail,
            final(self).tag_paths == old(self).tag_paths,
            final(self).stdenvs == old(self).stdenvs,
            final(self).possibly_touched_packages == old(self).possibly_touched_packages,
            final(self).changed_paths == old(self).changed_paths,
    {
        match out_paths {
            Ok(entries) => {
                let mut d = OutPathDiff::new();
                d.set_before(entries);
                self.outpathdiff = Some(d);
                Ok(())
            },
            Err(_) => {
                self.outpathdiff = None;
                Err(
                    Error::Fail(
                        "Pull request targets a branch which does not evaluate!".to_owned(),
                    ),
                )
            },
        }
    }

    /// Records what the commits of the pull request say and touch, and
    /// gives the path labels. Where the commit subjects could not be read
    /// no package counts as touched; where the changed files could not be
    /// listed, none counts as changed.
    fn after_fetch(&mut self, messages: Option<Vec<String>>, files: Option<Vec<String>>) -> (r:
        LabelPlan)
        ensures
            final(self).tag_paths == old(self).tag_paths,
            final(self).stdenvs == old(self).stdenvs,
            final(self).outpathdiff == old(self).outpathdiff,
            final(self).possibly_touched_packages is Some,
            views(final(self).possibly_touched_packages->Some_0@) == (match messages {
                Some(m) => commit_packages(views(m@)),
                None => seq![],
            }),
            final(self).changed_paths is Some,
            views(final(self).changed_paths->Some_0@) == (match files {
                Some(f) => views(f@),
                None => seq![],
            }),
            views(r.add@) == path_tags_where(
                old(self).tag_paths@,
                views(final(self).changed_paths->Some_0@),
                true,
            ),
            views(r.remove@) == crate::labels::keep_where(
                path_tags_where(old(self).tag_paths@, views(final(self).changed_paths->Some_0@), false),
                path_tags_where(old(self).tag_paths@, views(final(self).changed_paths->Some_0@), true),
                false,
            ),
            views(r.add@).to_set().disjoint(views(r.remove@).to_set()),
    {
        let touched = match messages {
            Some(m) => parse_commit_messages(m.as_slice()),
            None => {
                assert(views(Seq::<String>::empty()) =~= Seq::<Seq<char>>::empty());
                Vec::new()
            },
        };
        let changed = match files {
            Some(f) => f,
            None => Vec::new(),
        };
        assert(views(Seq::<String>::empty()) =~= Seq::<Seq<char>>::empty());
        let plan = path_tags(&self.tag_paths, &changed);
        self.possibly_touched_packages = Some(touched);
        self.changed_paths = Some(changed);
        plan
    }

    /// What the package meta check's result means for the job: the build
    /// jobs to schedule where it listed the emitted packages, or a failure.
    fn all_evaluations_passed(&self, job: &EvaluationJob, meta: Result<Vec<String>, String>) -> (r: Result<
        Vec<BuildJob>,
        Error,
    >)
        ensures
            r is Ok <==> meta is Ok,
            r matches Err(Error::Fail(message)) ==> message@
                == "Failed to run verify package meta fields."@,
            r is Err ==> r->Err_0 is Fail,
            r is Ok ==> ({
                let jobs = r->Ok_0;
                let emitted = crate::text::views(meta->Ok_0@);
                &&& jobs@.len() <= 1
                &&& jobs@.len() == 1 <==> (self.possibly_touched_packages is Some && 1
                    <= touched_packages(
                    emitted,
                    crate::text::views(self.possibly_touched_packages->Some_0@),
                ).len() <= MAX_AUTO_BUILD_ATTRS)
                &&& jobs@.len() == 1 ==> jobs@[0].repo == job.repo && jobs@[0].pr == job.pr
                    && crate::order::strictly_sorted(crate::text::views(jobs@[0].attrs@))
                    && 1 <= jobs@[0].attrs@.len() <= MAX_AUTO_BUILD_ATTRS
                    && crate::job::v4_text(jobs@[0].request_id@)
                    && jobs@[0].subset == Some(crate::job::Subset::Nixpkgs)
                    && crate::text::views(jobs@[0].attrs@).to_set() == touched_packages(
                    emitted,
                    crate::text::views(self.possibly_touched_packages->Some_0@),
                )
            }),
    {
        match meta {
            Ok(emitted) => Ok(schedule_builds_now(job, &emitted, &self.possibly_touched_packages)),
            Err(_) => Err(Error::Fail("Failed to run verify package meta fields.".to_owned())),
        }
    }

    /// The Darwin topic label, where the title mentions Darwin or macOS.
    fn pre_clone(&self, title: &str) -> (r: LabelPlan)
        ensures
            views(r.add@) == (if mentions_darwin(lower_of(title@)) {
                seq![darwin_label()]
            } else {
                seq![]
            }),
            r.remove@.len() == 0,
    {
        LabelPlan { add: labels_from_title(title), remove: Vec::new() }
    }

    /// The merge-conflict label goes on.
    fn merge_conflict(&self) -> (r: LabelPlan)
        ensures
            views(r.add@) == seq![merge_conflict_label()],
            r.remove@.len() == 0,
    {
        let add = vec!["2.status: merge conflict".to_owned()];
        assert(views(add@) =~= seq![merge_conflict_label()]);
        LabelPlan { add, remove: Vec::new() }
    }

    /// The merge-conflict label comes off.
    fn after_merge(&self) -> (r: LabelPlan)
        ensures
            r.add@.len() == 0,
            views(r.remove@) == seq![merge_conflict_label()],
    {
        let remove = vec!["2.status: merge conflict".to_owned()];
        assert(views(remove@) =~= seq![merge_conflict_label()]);
        LabelPlan { add: Vec::new(), remove }
    }

    /// The package collection's checks.
    fn evaluation_checks(&self) -> (r: Vec<EvalChecker>)
        ensures
            r@.len() == nixpkgs_check_list().len(),
            forall|i: int|
                0 <= i < r@.len() ==> checker_is(#[trigger] r@[i], nixpkgs_check_list()[i]),
    {
        nixpkgs_checks()
    }
}

/// The strategy of one job.
pub enum Strategy {
    Generic(GenericStrategy),
    Nixpkgs(NixpkgsStrategy),
}

} // verus!
