//! Label reconciliation: which of the wanted additions and removals an
//! issue actually needs, given the labels it has.
use vstd::prelude::*;
use crate::text::{has_string, views};

verus! {

/// The labels to send to the code host: additions first, in one batch,
/// then one removal per label.
pub struct LabelChanges {
    pub to_add: Vec<String>,
    pub to_remove: Vec<String>,
}

/// The entries of `ls`, in order, that are (`present`) or are not
/// (`!present`) among `existing`.
pub open spec fn keep_where(ls: Seq<Seq<char>>, existing: Seq<Seq<char>>, present: bool) -> Seq<
    Seq<char>,
>
    decreases ls.len(),
{
    if ls.len() == 0 {
        seq![]
    } else {
        let rest = keep_where(ls.drop_last(), existing, present);
        if existing.contains(ls.last()) == present {
            rest.push(ls.last())
        } else {
            rest
        }
    }
}

/// The labels an issue holds after reconciliation: the wanted additions
/// that it lacked join it, then the wanted removals that it had leave it.
pub open spec fn reconciled(current: Set<Seq<char>>, add: Set<Seq<char>>, remove: Set<Seq<char>>) -> Set<
    Seq<char>,
> {
    current.union(add.difference(current)).difference(remove.intersect(current))
}

pub proof fn lemma_keep_where_members(ls: Seq<Seq<char>>, existing: Seq<Seq<char>>, present: bool)
    ensures
        forall|s: Seq<char>|
            keep_where(ls, existing, present).contains(s) <==> (ls.contains(s) && existing.contains(
                s,
            ) == present),
    decreases ls.len(),
{
    if ls.len() > 0 {
        lemma_keep_where_members(ls.drop_last(), existing, present);
        let rest = keep_where(ls.drop_last(), existing, present);
        assert forall|s: Seq<char>|
            keep_where(ls, existing, present).contains(s) <==> (ls.contains(s) && existing.contains(
                s,
            ) == present) by {
            if ls.contains(s) {
                let i = choose|i: int| 0 <= i < ls.len() && ls[i] == s;
                if i < ls.len() - 1 {
                    assert(ls.drop_last()[i] == s);
                }
            }
            if ls.drop_last().contains(s) {
                let i = choose|i: int| 0 <= i < ls.drop_last().len() && ls.drop_last()[i] == s;
                assert(ls[i] == s);
            }
            if existing.contains(ls.last()) == present {
                assert(rest.push(ls.last()).last() == ls.last());
                if rest.push(ls.last()).contains(s) {
                    let i = choose|i: int|
                        0 <= i < rest.push(ls.last()).len() && rest.push(ls.last())[i] == s;
                    if i < rest.len() {
                        assert(rest[i] == s);
                    }
                }
                if rest.contains(s) {
                    let i = choose|i: int| 0 <= i < rest.len() && rest[i] == s;
                    assert(rest.push(ls.last())[i] == s);
                }
            }
        }
    }
}

/// The entries of `ls`, in order, that are (`present`) or are not among
/// `existing`.
pub fn select_labels(ls: &[String], existing: &Vec<String>, present: bool) -> (r: Vec<String>)
    ensures
        views(r@) == keep_where(views(ls@), views(existing@), present),
{
    let mut r: Vec<String> = Vec::new();
    let mut i: usize = 0;
    while i < ls.len()
        invariant
            i <= ls@.len(),
            views(r@) == keep_where(views(ls@.subrange(0, i as int)), views(existing@), present),
        decreases ls@.len() - i,
    {
        let ghost prev = r@;
        proof {
            assert(views(ls@.subrange(0, i + 1)).drop_last() =~= views(ls@.subrange(0, i as int)));
            assert(views(ls@.subrange(0, i + 1)).last() == ls@[i as int]@);
        }
        if has_string(existing, &ls[i]) == present {
            r.push(ls[i].clone());
            assert(views(r@) =~= views(prev).push(ls@[i as int]@));
        }
        i = i + 1;
    }
    assert(ls@.subrange(0, i as int) =~= ls@);
    r
}

/// What to send so that `add` is on the issue and `remove` is off it, given
/// the labels `existing` that it has: the additions it lacks, and the
/// removals it has, each in the order asked.
pub fn label_changes(existing: &Vec<String>, add: &[String], remove: &[String]) -> (r:
    LabelChanges)
    ensures
        views(r.to_add@) == keep_where(views(add@), views(existing@), false),
        views(r.to_remove@) == keep_where(views(remove@), views(existing@), true),
{
    LabelChanges {
        to_add: select_labels(add, existing, false),
        to_remove: select_labels(remove, existing, true),
    }
}

/// Sending the changes that `label_changes` computes leaves the issue with
/// the labels that `reconciled` describes.
pub proof fn lemma_changes_reconcile(
    existing: Seq<Seq<char>>,
    add: Seq<Seq<char>>,
    remove: Seq<Seq<char>>,
)
    ensures
        existing.to_set().union(keep_where(add, existing, false).to_set()).difference(
            keep_where(remove, existing, true).to_set(),
        ) == reconciled(existing.to_set(), add.to_set(), remove.to_set()),
{
    lemma_keep_where_members(add, existing, false);
    lemma_keep_where_members(remove, existing, true);
    assert(existing.to_set().union(keep_where(add, existing, false).to_set()).difference(
        keep_where(remove, existing, true).to_set(),
    ) =~= reconciled(existing.to_set(), add.to_set(), remove.to_set()));
}

/// The labels that one reconciliation adds and those it removes are
/// disjoint: the first are missing from the issue, the second on it.
pub proof fn lemma_changes_disjoint(
    existing: Seq<Seq<char>>,
    add: Seq<Seq<char>>,
    remove: Seq<Seq<char>>,
)
    ensures
        keep_where(add, existing, false).to_set().disjoint(
            keep_where(remove, existing, true).to_set(),
        ),
{
    let a = keep_where(add, existing, false);
    let r = keep_where(remove, existing, true);
    lemma_keep_where_members(add, existing, false);
    lemma_keep_where_members(remove, existing, true);
    assert forall|s: Seq<char>| !(a.to_set().contains(s) && r.to_set().contains(s)) by {
        if a.to_set().contains(s) {
            assert(a.contains(s));
            assert(!existing.contains(s));
        }
        if r.to_set().contains(s) {
            assert(r.contains(s));
        }
    }
}

/// Reconciling twice with the same disjoint additions and removals gives
/// what reconciling once gives.
pub proof fn lemma_reconcile_idempotent(
    current: Set<Seq<char>>,
    add: Set<Seq<char>>,
    remove: Set<Seq<char>>,
)
    requires
        add.disjoint(remove),
    ensures
        reconciled(reconciled(current, add, remove), add, remove) == reconciled(
            current,
            add,
            remove,
        ),
{
    let once = reconciled(current, add, remove);
    assert(reconciled(once, add, remove) =~= once);
}

} // verus!
