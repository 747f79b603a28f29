//! What the worker reads off the pull request's issue: whether it is closed,
//! whether it is marked as work in progress, and topic labels from its title.
use vstd::prelude::*;
use crate::text::{contains, same_text, starts_with, str_contains, str_starts_with, views};

verus! {

/// The lowercase form of a text, as `str::to_lowercase` gives it.
pub uninterp spec fn lower_of(s: Seq<char>) -> Seq<char>;

/// Relies on `str::to_lowercase`: its result depends on the characters of
/// its argument alone.
#[verifier::external_body]
fn lowercase(s: &str) -> (r: String)
    ensures
        r@ == lower_of(s@),
{
    s.to_lowercase()
}

/// The issue of a pull request as the code host reports it.
pub struct IssueSnapshot {
    pub title: String,
    pub state: String,
    pub author: String,
    pub labels: Vec<String>,
}

/// The label that marks a pull request touching Darwin.
pub open spec fn darwin_label() -> Seq<char> {
    "6.topic: darwin"@
}

/// A lowercase text that says "work in progress", spaced or hyphenated.
pub open spec fn says_wip(lower: Seq<char>) -> bool {
    contains(lower, "work in progress"@) || contains(lower, "work-in-progress"@)
}

/// Whether an issue is marked as work in progress, by its title or labels.
pub open spec fn is_wip(title: Seq<char>, labels: Seq<Seq<char>>) -> bool {
    contains(title, "[WIP]"@) || starts_with(title, "WIP:"@) || exists|i: int|
        0 <= i < labels.len() && says_wip(lower_of(#[trigger] labels[i]))
}

/// A lowercase title that mentions Darwin or macOS.
pub open spec fn mentions_darwin(lower: Seq<char>) -> bool {
    contains(lower, "darwin"@) || contains(lower, "macos"@)
}

/// Whether an already lowercased text says "work in progress".
pub fn says_work_in_progress(lower: &str) -> (r: bool)
    ensures
        r == says_wip(lower@),
{
    str_contains(lower, "work in progress") || str_contains(lower, "work-in-progress")
}

/// Whether a label (any case) says "work in progress".
pub fn indicates_wip(text: &str) -> (r: bool)
    ensures
        r == says_wip(lower_of(text@)),
{
    let lower = lowercase(text);
    says_work_in_progress(lower.as_str())
}

/// Whether the issue is marked as work in progress: its title holds
/// `[WIP]` or starts with `WIP:`, or one of its labels says so.
pub fn issue_is_wip(issue: &IssueSnapshot) -> (r: bool)
    ensures
        r == is_wip(issue.title@, views(issue.labels@)),
{
    if str_contains(issue.title.as_str(), "[WIP]") {
        return true;
    }
    if str_starts_with(issue.title.as_str(), "WIP:") {
        return true;
    }
    let mut i: usize = 0;
    while i < issue.labels.len()
        invariant
            i <= issue.labels@.len(),
            !contains(issue.title@, "[WIP]"@),
            !starts_with(issue.title@, "WIP:"@),
            forall|j: int| 0 <= j < i ==> !says_wip(lower_of(#[trigger] views(issue.labels@)[j])),
        decreases issue.labels@.len() - i,
    {
        if indicates_wip(issue.labels[i].as_str()) {
            assert(says_wip(lower_of(views(issue.labels@)[i as int])));
            return true;
        }
        i = i + 1;
    }
    false
}

/// Whether the issue has been closed.
pub fn issue_is_closed(issue: &IssueSnapshot) -> (r: bool)
    ensures
        r == (issue.state@ == "closed"@),
{
    same_text(issue.state.as_str(), "closed")
}

/// Whether an already lowercased title mentions Darwin or macOS.
pub fn title_mentions_darwin(lower: &str) -> (r: bool)
    ensures
        r == mentions_darwin(lower@),
{
    str_contains(lower, "darwin") || str_contains(lower, "macos")
}

/// The topic labels that a title calls for: the Darwin topic where the
/// title, in any case, mentions Darwin or macOS.
pub fn labels_from_title(title: &str) -> (r: Vec<String>)
    ensures
        views(r@) == (if mentions_darwin(lower_of(title@)) {
            seq![darwin_label()]
        } else {
            seq![]
        }),
{
    let lower = lowercase(title);
    let mut r: Vec<String> = Vec::new();
    if title_mentions_darwin(lower.as_str()) {
        r.push("6.topic: darwin".to_owned());
        assert(views(r@) =~= seq![darwin_label()]);
    } else {
        assert(views(r@) =~= Seq::<Seq<char>>::empty());
    }
    r
}

} // verus!
