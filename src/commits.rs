//! Package names guessed from commit subjects of the form `pkg: change`.
use vstd::prelude::*;
use crate::text::{before_first, chars_of, lemma_split_nonempty, lemma_trim_idempotent, split, trim, trim_slice, views};

verus! {

/// The names that one commit subject mentions: the part before its first
/// `:`, cut at each `,` and trimmed. A subject without `:` mentions none.
pub open spec fn line_packages(line: Seq<char>) -> Seq<Seq<char>> {
    match before_first(line, ':') {
        Some(head) => split(head, ',').map_values(|p: Seq<char>| trim(p)),
        None => seq![],
    }
}

/// The names that a list of commit subjects mentions, line after line, in
/// order and with repetitions.
pub open spec fn commit_packages(lines: Seq<Seq<char>>) -> Seq<Seq<char>>
    decreases lines.len(),
{
    if lines.len() == 0 {
        seq![]
    } else {
        commit_packages(lines.drop_last()) + line_packages(lines.last())
    }
}

/// Appends to `out` the names that the subject `line` mentions.
fn push_line_packages(line: &String, out: &mut Vec<String>)
    ensures
        views(final(out)@) == views(old(out)@) + line_packages(line@),
{
    let s = line.as_str();
    let cs = chars_of(s);
    let ghost old_views = views(out@);
    let mut i: usize = 0;
    while i < cs.len() && cs[i] != ':'
        invariant
            cs@ == line@,
            i <= cs@.len(),
            forall|j: int| 0 <= j < i ==> cs@[j] != ':',
        decreases cs@.len() - i,
    {
        i = i + 1;
    }
    if i == cs.len() {
        proof {
            assert(!exists|k: int| crate::text::is_first_index(line@, ':', k));
            assert(views(out@) =~= old_views + line_packages(line@));
        }
        return;
    }
    proof {
        assert(crate::text::is_first_index(line@, ':', i as int));
        let k = choose|k: int| crate::text::is_first_index(line@, ':', k);
        assert(k == i as int);
    }
    let ghost head = cs@.subrange(0, i as int);
    let mut start: usize = 0;
    let mut k: usize = 0;
    proof {
        assert(cs@.subrange(0, 0) =~= Seq::<char>::empty());
        assert(views(out@) =~= old_views + split(Seq::<char>::empty(), ',').drop_last().map_values(
            |p: Seq<char>| trim(p),
        ));
    }
    while k < i
        invariant
            cs@ == line@,
            s@ == line@,
            i < cs@.len(),
            start <= k <= i,
            head == cs@.subrange(0, i as int),
            split(cs@.subrange(0, k as int), ',').len() >= 1,
            split(cs@.subrange(0, k as int), ',').last() == cs@.subrange(start as int, k as int),
            views(out@) == old_views + split(cs@.subrange(0, k as int), ',').drop_last().map_values(
                |p: Seq<char>| trim(p),
            ),
        decreases i - k,
    {
        let ghost p = split(cs@.subrange(0, k as int), ',');
        let ghost sub = cs@.subrange(0, k + 1);
        proof {
            assert(sub.drop_last() =~= cs@.subrange(0, k as int));
            assert(sub.last() == cs@[k as int]);
            lemma_split_nonempty(sub, ',');
        }
        if cs[k] == ',' {
            let piece = trim_slice(s, &cs, start, k);
            let ghost before = out@;
            out.push(piece);
            proof {
                assert(views(out@) =~= views(before).push(piece@));
                assert(p.map_values(|q: Seq<char>| trim(q)) =~= p.drop_last().map_values(
                    |q: Seq<char>| trim(q),
                ).push(trim(p.last())));
                assert(split(sub, ',') == p.push(Seq::<char>::empty()));
                assert(split(sub, ',').drop_last() =~= p);
                assert(p.drop_last().push(p.last()) =~= p);
                assert(views(out@) =~= old_views + p.map_values(|q: Seq<char>| trim(q)));
                assert(cs@.subrange(k + 1, k + 1) =~= Seq::<char>::empty());
            }
            start = k + 1;
        } else {
            proof {
                assert(split(sub, ',') == p.update(p.len() - 1, p.last().push(cs@[k as int])));
                assert(split(sub, ',').drop_last() =~= p.drop_last());
                assert(cs@.subrange(start as int, k + 1) =~= p.last().push(cs@[k as int]));
            }
        }
        k = k + 1;
    }
    let piece = trim_slice(s, &cs, start, i);
    let ghost before = out@;
    out.push(piece);
    proof {
        let p = split(head, ',');
        assert(views(out@) =~= views(before).push(piece@));
        assert(cs@.subrange(0, k as int) =~= head);
        assert(p.map_values(|q: Seq<char>| trim(q)) =~= p.drop_last().map_values(
            |q: Seq<char>| trim(q),
        ).push(trim(p.last())));
        assert(cs@.subrange(0, k as int) =~= head);
        assert(p.drop_last().push(p.last()) =~= p);
        assert(views(out@) =~= old_views + p.map_values(|q: Seq<char>| trim(q)));
    }
}

/// The package names that commit subjects mention: for each subject, the
/// part before its first `:`, cut at each `,`, each piece trimmed. Subjects
/// without `:` are skipped; order and repetitions are kept.
pub fn parse_commit_messages(messages: &[String]) -> (r: Vec<String>)
    ensures
        views(r@) == commit_packages(views(messages@)),
{
    let mut r: Vec<String> = Vec::new();
    let mut i: usize = 0;
    while i < messages.len()
        invariant
            i <= messages@.len(),
            views(r@) == commit_packages(views(messages@.subrange(0, i as int))),
        decreases messages@.len() - i,
    {
        push_line_packages(&messages[i], &mut r);
        proof {
            let lines = views(messages@.subrange(0, i + 1));
            assert(lines.drop_last() =~= views(messages@.subrange(0, i as int)));
            assert(lines.last() == messages@[i as int]@);
        }
        i = i + 1;
    }
    assert(messages@.subrange(0, i as int) =~= messages@);
    r
}

/// No subjects mention no names.
pub proof fn lemma_commit_packages_empty()
    ensures
        commit_packages(Seq::empty()) == Seq::<Seq<char>>::empty(),
{
}

/// The names of two runs of subjects, one after the other, are the names of
/// the first run followed by those of the second: input order is kept.
pub proof fn lemma_commit_packages_concat(a: Seq<Seq<char>>, b: Seq<Seq<char>>)
    ensures
        commit_packages(a + b) == commit_packages(a) + commit_packages(b),
    decreases b.len(),
{
    if b.len() == 0 {
        assert(a + b =~= a);
        assert(commit_packages(a) + commit_packages(b) =~= commit_packages(a));
    } else {
        lemma_commit_packages_concat(a, b.drop_last());
        assert((a + b).drop_last() =~= a + b.drop_last());
        assert((a + b).last() == b.last());
        assert(commit_packages(a) + commit_packages(b.drop_last()) + line_packages(b.last())
            =~= commit_packages(a) + (commit_packages(b.drop_last()) + line_packages(b.last())));
    }
}

/// Every name found is already trimmed.
pub proof fn lemma_commit_packages_trimmed(lines: Seq<Seq<char>>)
    ensures
        forall|k: int|
            0 <= k < commit_packages(lines).len() ==> trim(#[trigger] commit_packages(lines)[k])
                == commit_packages(lines)[k],
    decreases lines.len(),
{
    if lines.len() > 0 {
        lemma_commit_packages_trimmed(lines.drop_last());
        let prev = commit_packages(lines.drop_last());
        let cur = line_packages(lines.last());
        assert forall|k: int| 0 <= k < cur.len() implies trim(#[trigger] cur[k]) == cur[k] by {
            let head = before_first(lines.last(), ':')->Some_0;
            lemma_trim_idempotent(split(head, ',')[k]);
        }
        assert forall|k: int| 0 <= k < commit_packages(lines).len() implies trim(
            #[trigger] commit_packages(lines)[k],
        ) == commit_packages(lines)[k] by {
            if k >= prev.len() {
                assert(commit_packages(lines)[k] == cur[k - prev.len()]);
            } else {
                assert(commit_packages(lines)[k] == prev[k]);
            }
        }
    }
}

} // verus!
