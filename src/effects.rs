//! What the driver hands out for the runner to do: status writes, label
//! changes, review requests and build jobs, and how many final and pending
//! writes a list of them makes to each status.
use vstd::prelude::*;
use crate::job::BuildJob;
use crate::taggers::LabelPlan;
use crate::text::views;

verus! {

/// The state of a commit status.
#[derive(Clone, Copy, Debug, PartialEq, Eq, Structural)]
pub enum StatusState {
    Pending,
    Success,
    Failure,
    Error,
}

/// Which commit status a write goes to.
#[derive(Clone, Copy, Debug, PartialEq, Eq, Structural)]
pub enum Context {
    /// The job's own status, `grahamcofborg-eval`.
    Overall,
    /// The status of the evaluation check at this position in the list.
    Check(usize),
    /// The package meta check's status.
    Meta,
    /// The status that lists the maintainers of what changed.
    Maintainers,
}

/// A paste to create: its file name, description and content.
pub struct Gist {
    pub name: String,
    pub description: String,
    pub content: String,
}

/// What a status write does to the status's link.
pub enum Link {
    Unchanged,
    Clear,
    /// Link the paste, once created.
    Paste(Gist),
}

/// One write of a commit status.
pub struct StatusWrite {
    pub context: Context,
    pub description: String,
    pub state: StatusState,
    pub link: Link,
}

/// Something for the runner to carry out, in order, before the next
/// request.
pub enum Effect {
    Status(StatusWrite),
    /// Link the paste from the overall status from its next write on.
    OverallLink(Gist),
    /// Reconcile the issue's labels with this plan.
    Labels(LabelPlan),
    /// Ask each of these users for a review, ignoring failures.
    RequestReviews(Vec<String>),
    /// Publish the build job to each architecture's queue, and record it
    /// with the architectures on the results exchange.
    Schedule { job: BuildJob, architectures: Vec<String> },
    /// Report an event of the job to the metrics sink.
    Notify(JobEvent),
}

/// Events of a job worth counting.
#[derive(Clone, Copy, Debug, PartialEq, Eq, Structural)]
pub enum JobEvent {
    JobReceived,
    JobDecodeSuccess,
    JobDecodeFailure,
    IssueAlreadyClosed,
    IssueFetchFailed,
    TaskEvaluationCheckComplete,
}

/// 1 where `e` writes a final state (not pending) to the overall status.
pub open spec fn overall_final_in(e: Effect) -> nat {
    match e {
        Effect::Status(w) => if w.context == Context::Overall && w.state != StatusState::Pending {
            1
        } else {
            0
        },
        _ => 0,
    }
}

/// 1 where `e` writes to the status of check `i` a final state
/// (`terminal`) or the pending state (`!terminal`).
pub open spec fn check_write_in(e: Effect, i: int, terminal: bool) -> nat {
    match e {
        Effect::Status(w) => match w.context {
            Context::Check(k) => if k as int == i && (w.state != StatusState::Pending)
                == terminal {
                1
            } else {
                0
            },
            _ => 0,
        },
        _ => 0,
    }
}

/// How many final states `h` writes to the overall status.
pub open spec fn overall_final_writes(h: Seq<Effect>) -> nat
    decreases h.len(),
{
    if h.len() == 0 {
        0
    } else {
        overall_final_writes(h.drop_last()) + overall_final_in(h.last())
    }
}

/// How many final (`terminal`) or pending states `h` writes to the status
/// of check `i`.
pub open spec fn check_writes(h: Seq<Effect>, i: int, terminal: bool) -> nat
    decreases h.len(),
{
    if h.len() == 0 {
        0
    } else {
        check_writes(h.drop_last(), i, terminal) + check_write_in(h.last(), i, terminal)
    }
}

pub broadcast proof fn lemma_overall_push(h: Seq<Effect>, e: Effect)
    ensures
        #[trigger] overall_final_writes(h.push(e)) == overall_final_writes(h) + overall_final_in(e),
{
    assert(h.push(e).drop_last() =~= h);
}

pub broadcast proof fn lemma_check_push(h: Seq<Effect>, e: Effect, i: int, terminal: bool)
    ensures
        #[trigger] check_writes(h.push(e), i, terminal) == check_writes(h, i, terminal)
            + check_write_in(e, i, terminal),
{
    assert(h.push(e).drop_last() =~= h);
}

pub proof fn lemma_counts_concat(a: Seq<Effect>, b: Seq<Effect>)
    ensures
        overall_final_writes(a + b) == overall_final_writes(a) + overall_final_writes(b),
        forall|i: int, t: bool|
            #[trigger] check_writes(a + b, i, t) == check_writes(a, i, t) + check_writes(b, i, t),
    decreases b.len(),
{
    if b.len() == 0 {
        assert(a + b =~= a);
    } else {
        lemma_counts_concat(a, b.drop_last());
        assert((a + b).drop_last() =~= a + b.drop_last());
        assert((a + b).last() == b.last());
        assert forall|i: int, t: bool|
            #[trigger] check_writes(a + b, i, t) == check_writes(a, i, t) + check_writes(
                b,
                i,
                t,
            ) by {
            assert(check_writes(a + b, i, t) == check_writes((a + b).drop_last(), i, t)
                + check_write_in((a + b).last(), i, t));
            assert(check_writes(a + b.drop_last(), i, t) == check_writes(a, i, t) + check_writes(
                b.drop_last(),
                i,
                t,
            ));
        }
    }
}

pub proof fn lemma_counts_empty()
    ensures
        overall_final_writes(Seq::<Effect>::empty()) == 0,
        forall|i: int, t: bool| #[trigger] check_writes(Seq::<Effect>::empty(), i, t) == 0,
{
}

/// 1 where `e` writes success to the overall status.
pub open spec fn overall_success_in(e: Effect) -> nat {
    match e {
        Effect::Status(w) => if w.context == Context::Overall && w.state == StatusState::Success {
            1
        } else {
            0
        },
        _ => 0,
    }
}

/// 1 where `e` writes a failed final state to some check's status.
pub open spec fn check_failure_in(e: Effect) -> nat {
    match e {
        Effect::Status(w) => match w.context {
            Context::Check(_) => if w.state != StatusState::Pending && w.state
                != StatusState::Success {
                1
            } else {
                0
            },
            _ => 0,
        },
        _ => 0,
    }
}

/// How many times `h` writes success to the overall status.
pub open spec fn overall_successes(h: Seq<Effect>) -> nat
    decreases h.len(),
{
    if h.len() == 0 {
        0
    } else {
        overall_successes(h.drop_last()) + overall_success_in(h.last())
    }
}

/// How many failed final states `h` writes to checks' statuses.
pub open spec fn check_failures(h: Seq<Effect>) -> nat
    decreases h.len(),
{
    if h.len() == 0 {
        0
    } else {
        check_failures(h.drop_last()) + check_failure_in(h.last())
    }
}

pub broadcast proof fn lemma_success_push(h: Seq<Effect>, e: Effect)
    ensures
        #[trigger] overall_successes(h.push(e)) == overall_successes(h) + overall_success_in(e),
{
    assert(h.push(e).drop_last() =~= h);
}

pub broadcast proof fn lemma_failure_push(h: Seq<Effect>, e: Effect)
    ensures
        #[trigger] check_failures(h.push(e)) == check_failures(h) + check_failure_in(e),
{
    assert(h.push(e).drop_last() =~= h);
}

pub proof fn lemma_success_concat(a: Seq<Effect>, b: Seq<Effect>)
    ensures
        overall_successes(a + b) == overall_successes(a) + overall_successes(b),
        check_failures(a + b) == check_failures(a) + check_failures(b),
    decreases b.len(),
{
    if b.len() == 0 {
        assert(a + b =~= a);
    } else {
        lemma_success_concat(a, b.drop_last());
        assert((a + b).drop_last() =~= a + b.drop_last());
        assert((a + b).last() == b.last());
    }
}

/// `e` writes `state` with description `desc` to the status `ctx`.
pub open spec fn is_status(e: Effect, ctx: Context, desc: Seq<char>, state: StatusState) -> bool {
    match e {
        Effect::Status(w) => w.context == ctx && w.description@ == desc && w.state == state,
        _ => false,
    }
}

/// The last write to the overall status in `h`: its description and state.
pub open spec fn last_overall(h: Seq<Effect>) -> Option<(Seq<char>, StatusState)>
    decreases h.len(),
{
    if h.len() == 0 {
        None
    } else {
        match h.last() {
            Effect::Status(w) => if w.context == Context::Overall {
                Some((w.description@, w.state))
            } else {
                last_overall(h.drop_last())
            },
            _ => last_overall(h.drop_last()),
        }
    }
}

/// The build jobs that `h` schedules, in order.
pub open spec fn scheduled(h: Seq<Effect>) -> Seq<BuildJob>
    decreases h.len(),
{
    if h.len() == 0 {
        seq![]
    } else {
        match h.last() {
            Effect::Schedule { job, .. } => scheduled(h.drop_last()).push(job),
            _ => scheduled(h.drop_last()),
        }
    }
}

/// Every build job in `h` goes to exactly the architectures `archs`.
pub open spec fn schedules_go_to(h: Seq<Effect>, archs: Seq<Seq<char>>) -> bool {
    forall|k: int|
        0 <= k < h.len() ==> match #[trigger] h[k] {
            Effect::Schedule { architectures, .. } => views(architectures@) == archs,
            _ => true,
        }
}

/// How many times `h` writes success to the meta check's status.
pub open spec fn meta_successes(h: Seq<Effect>) -> nat
    decreases h.len(),
{
    if h.len() == 0 {
        0
    } else {
        meta_successes(h.drop_last()) + if is_status(
            h.last(),
            Context::Meta,
            h.last()->Status_0.description@,
            StatusState::Success,
        ) {
            1nat
        } else {
            0nat
        }
    }
}

pub broadcast proof fn lemma_last_overall_push(h: Seq<Effect>, e: Effect)
    ensures
        #[trigger] last_overall(h.push(e)) == (match e {
            Effect::Status(w) => if w.context == Context::Overall {
                Some((w.description@, w.state))
            } else {
                last_overall(h)
            },
            _ => last_overall(h),
        }),
{
    assert(h.push(e).drop_last() =~= h);
}

pub broadcast proof fn lemma_scheduled_push(h: Seq<Effect>, e: Effect)
    ensures
        #[trigger] scheduled(h.push(e)) == (match e {
            Effect::Schedule { job, .. } => scheduled(h).push(job),
            _ => scheduled(h),
        }),
{
    assert(h.push(e).drop_last() =~= h);
}

pub broadcast proof fn lemma_meta_push(h: Seq<Effect>, e: Effect)
    ensures
        #[trigger] meta_successes(h.push(e)) == meta_successes(h) + if is_status(
            e,
            Context::Meta,
            e->Status_0.description@,
            StatusState::Success,
        ) {
            1nat
        } else {
            0nat
        },
{
    assert(h.push(e).drop_last() =~= h);
}

pub proof fn lemma_tail_concat(a: Seq<Effect>, b: Seq<Effect>)
    ensures
        last_overall(a + b) == (if last_overall(b) is Some {
            last_overall(b)
        } else {
            last_overall(a)
        }),
        scheduled(a + b) == scheduled(a) + scheduled(b),
        meta_successes(a + b) == meta_successes(a) + meta_successes(b),
    decreases b.len(),
{
    if b.len() == 0 {
        assert(a + b =~= a);
        assert(scheduled(a) + scheduled(b) =~= scheduled(a));
    } else {
        lemma_tail_concat(a, b.drop_last());
        assert((a + b).drop_last() =~= a + b.drop_last());
        assert((a + b).last() == b.last());
        match b.last() {
            Effect::Schedule { job, .. } => {
                assert(scheduled(a) + scheduled(b.drop_last()).push(job) =~= (scheduled(a)
                    + scheduled(b.drop_last())).push(job));
            },
            _ => {},
        }
    }
}

/// A list without build jobs holds no `Schedule` effect.
pub proof fn lemma_no_schedules(h: Seq<Effect>)
    requires
        scheduled(h).len() == 0,
    ensures
        forall|k: int| 0 <= k < h.len() ==> !(#[trigger] h[k] is Schedule),
    decreases h.len(),
{
    if h.len() > 0 {
        lemma_no_schedules(h.drop_last());
        assert forall|k: int| 0 <= k < h.len() implies !(#[trigger] h[k] is Schedule) by {
            if k < h.len() - 1 {
                assert(h[k] == h.drop_last()[k]);
            } else {
                if h.last() is Schedule {
                    assert(scheduled(h).len() == scheduled(h.drop_last()).len() + 1);
                }
            }
        }
    }
}

pub proof fn lemma_schedules_go_to_concat(a: Seq<Effect>, b: Seq<Effect>, archs: Seq<Seq<char>>)
    requires
        scheduled(a).len() == 0,
        schedules_go_to(b, archs),
    ensures
        schedules_go_to(a + b, archs),
{
    lemma_no_schedules(a);
    assert forall|k: int| 0 <= k < (a + b).len() implies match #[trigger] (a + b)[k] {
        Effect::Schedule { architectures, .. } => views(architectures@) == archs,
        _ => true,
    } by {
        if k < a.len() {
            assert((a + b)[k] == a[k]);
        } else {
            assert((a + b)[k] == b[k - a.len()]);
        }
    }
}

/// A prefix of a prefix is a prefix.
pub proof fn lemma_prefix(a: Seq<Effect>, b: Seq<Effect>, c: Seq<Effect>)
    requires
        b.len() >= a.len(),
        b.subrange(0, a.len() as int) == a,
        c.len() >= b.len(),
        c.subrange(0, b.len() as int) == b,
    ensures
        c.subrange(0, a.len() as int) == a,
        forall|k: int| 0 <= k < a.len() ==> c[k] == #[trigger] a[k],
{
    assert forall|k: int| 0 <= k < a.len() implies c[k] == #[trigger] a[k] by {
        assert(c.subrange(0, b.len() as int)[k] == c[k]);
        assert(b.subrange(0, a.len() as int)[k] == b[k]);
    }
    assert(c.subrange(0, a.len() as int) =~= a);
}

/// 1 where `e` writes a final state (not pending) to the meta check's
/// status.
pub open spec fn meta_final_in(e: Effect) -> nat {
    match e {
        Effect::Status(w) => if w.context == Context::Meta && w.state != StatusState::Pending {
            1
        } else {
            0
        },
        _ => 0,
    }
}

/// How many final states `h` writes to the meta check's status.
pub open spec fn meta_final_writes(h: Seq<Effect>) -> nat
    decreases h.len(),
{
    if h.len() == 0 {
        0
    } else {
        meta_final_writes(h.drop_last()) + meta_final_in(h.last())
    }
}

pub broadcast proof fn lemma_meta_final_push(h: Seq<Effect>, e: Effect)
    ensures
        #[trigger] meta_final_writes(h.push(e)) == meta_final_writes(h) + meta_final_in(e),
{
    assert(h.push(e).drop_last() =~= h);
}

} // verus!
