//! Comparison of two parsed solver results: the symmetric difference and
//! intersection of their solution sets, and the nine-way classification of a
//! pair of run outcomes.
use crate::solutions::{SolutionSet, SolverOutput};
use crate::CheckStatus;
use vstd::prelude::*;

verus! {

broadcast use vstd::set::group_set_axioms;

/// The solutions present only on the right side.
pub open spec fn added_spec(l: Set<Seq<char>>, r: Set<Seq<char>>) -> Set<Seq<char>> {
    r.difference(l)
}

/// The solutions present only on the left side.
pub open spec fn removed_spec(l: Set<Seq<char>>, r: Set<Seq<char>>) -> Set<Seq<char>> {
    l.difference(r)
}

/// How many solutions the two sides share.
pub open spec fn shared_spec(l: Set<Seq<char>>, r: Set<Seq<char>>) -> nat {
    l.intersect(r).len()
}

/// Swapping the sides swaps `added` and `removed` and keeps the shared count:
/// the diff is symmetric up to relabelling.
pub proof fn lemma_diff_symmetry(l: Set<Seq<char>>, r: Set<Seq<char>>)
    ensures
        added_spec(r, l) == removed_spec(l, r),
        removed_spec(r, l) == added_spec(l, r),
        shared_spec(r, l) == shared_spec(l, r),
{
    assert(added_spec(r, l) =~= removed_spec(l, r));
    assert(removed_spec(r, l) =~= added_spec(l, r));
    assert(r.intersect(l) =~= l.intersect(r));
}

/// What one side's run came to, as far as classification cares: the process
/// failed, the solver timed out, or it completed with a set of solutions.
pub ghost enum OutcomeView {
    Crashed,
    TimedOut,
    Solutions(Set<Seq<char>>),
}

/// The view of a parsed output.
pub open spec fn output_view(o: SolverOutput) -> OutcomeView {
    match o {
        SolverOutput::Complete(s, _) => OutcomeView::Solutions(s@),
        SolverOutput::Timeout => OutcomeView::TimedOut,
    }
}

/// The view of one side's whole run: a run-level error counts as a crash.
pub open spec fn run_view(o: Result<SolverOutput, String>) -> OutcomeView {
    match o {
        Ok(out) => output_view(out),
        Err(_) => OutcomeView::Crashed,
    }
}

/// The classification of a pair of outcomes, in priority order: crashes
/// first, then timeouts, then the comparison of the two solution sets, which
/// succeeds exactly when the sets are equal.
pub open spec fn classify_spec(l: OutcomeView, r: OutcomeView) -> CheckStatus {
    match (l, r) {
        (OutcomeView::Crashed, OutcomeView::Crashed) => CheckStatus::CrashBoth,
        (OutcomeView::Crashed, _) => CheckStatus::CrashLeft,
        (_, OutcomeView::Crashed) => CheckStatus::CrashRight,
        (OutcomeView::TimedOut, OutcomeView::TimedOut) => CheckStatus::TimeoutBoth,
        (OutcomeView::TimedOut, OutcomeView::Solutions(_)) => CheckStatus::TimeoutLeft,
        (OutcomeView::Solutions(_), OutcomeView::TimedOut) => CheckStatus::TimeoutRight,
        (OutcomeView::Solutions(a), OutcomeView::Solutions(b)) => if a == b {
            CheckStatus::Success
        } else {
            CheckStatus::Diff
        },
    }
}

/// A crash on either side outranks everything the other side did: whatever
/// the other outcome — a timeout included — the classification is a crash
/// status naming the crashed side.
pub proof fn lemma_crash_outranks_timeout(l: OutcomeView, r: OutcomeView)
    ensures
        l is Crashed ==> (classify_spec(l, r) == CheckStatus::CrashLeft || classify_spec(l, r)
            == CheckStatus::CrashBoth),
        r is Crashed ==> (classify_spec(l, r) == CheckStatus::CrashRight || classify_spec(l, r)
            == CheckStatus::CrashBoth),
{
}

/// The elements of `xs` that are not in `s`, in order.
pub open spec fn seq_minus(xs: Seq<Seq<char>>, s: Set<Seq<char>>) -> Seq<Seq<char>>
    decreases xs.len(),
{
    if xs.len() == 0 {
        Seq::empty()
    } else if s.contains(xs[0]) {
        seq_minus(xs.drop_first(), s)
    } else {
        seq![xs[0]] + seq_minus(xs.drop_first(), s)
    }
}

/// The elements of `xs` that are in `s`, in order.
pub open spec fn seq_keep(xs: Seq<Seq<char>>, s: Set<Seq<char>>) -> Seq<Seq<char>>
    decreases xs.len(),
{
    if xs.len() == 0 {
        Seq::empty()
    } else if s.contains(xs[0]) {
        seq![xs[0]] + seq_keep(xs.drop_first(), s)
    } else {
        seq_keep(xs.drop_first(), s)
    }
}

proof fn lemma_seq_split_props(xs: Seq<Seq<char>>, s: Set<Seq<char>>)
    ensures
        forall|x: Seq<char>| #[trigger]
            seq_minus(xs, s).contains(x) <==> (xs.contains(x) && !s.contains(x)),
        forall|x: Seq<char>| #[trigger]
            seq_keep(xs, s).contains(x) <==> (xs.contains(x) && s.contains(x)),
        seq_minus(xs, s).len() + seq_keep(xs, s).len() == xs.len(),
        xs.no_duplicates() ==> seq_minus(xs, s).no_duplicates(),
        xs.no_duplicates() ==> seq_keep(xs, s).no_duplicates(),
    decreases xs.len(),
{
    if xs.len() != 0 {
        let rest = xs.drop_first();
        lemma_seq_split_props(rest, s);
        assert forall|x: Seq<char>| #[trigger] xs.contains(x) implies (x == xs[0]
            || rest.contains(x)) by {
            let i = choose|i: int| 0 <= i < xs.len() && xs[i] == x;
            if i > 0 {
                assert(rest[i - 1] == x);
            }
        }
        assert forall|x: Seq<char>| rest.contains(x) implies #[trigger] xs.contains(x) by {
            let i = choose|i: int| 0 <= i < rest.len() && rest[i] == x;
            assert(xs[i + 1] == x);
        }
        assert(xs.contains(xs[0]));
        if s.contains(xs[0]) {
            let k = seq![xs[0]] + seq_keep(rest, s);
            assert forall|x: Seq<char>| #[trigger] k.contains(x) implies (xs.contains(x)
                && s.contains(x)) by {
                let i = choose|i: int| 0 <= i < k.len() && k[i] == x;
                if i > 0 {
                    assert(seq_keep(rest, s)[i - 1] == x);
                    assert(seq_keep(rest, s).contains(x));
                }
            }
            assert forall|x: Seq<char>| xs.contains(x) && s.contains(x) implies #[trigger] k
                .contains(x) by {
                if x == xs[0] {
                    assert(k[0] == x);
                } else {
                    assert(rest.contains(x));
                    assert(seq_keep(rest, s).contains(x));
                    let i = choose|i: int|
                        0 <= i < seq_keep(rest, s).len() && seq_keep(rest, s)[i] == x;
                    assert(k[i + 1] == x);
                    assert(k.contains(x));
                }
            }
            if xs.no_duplicates() {
                assert(rest.no_duplicates());
                assert forall|i: int, j: int| 0 <= i < j < k.len() implies k[i] != k[j] by {
                    if i == 0 {
                        assert(k[j] == seq_keep(rest, s)[j - 1]);
                        assert(seq_keep(rest, s).contains(k[j]));
                        assert(rest.contains(k[j]));
                        assert(!rest.contains(xs[0]));
                    }
                }
            }
        } else {
            let m = seq![xs[0]] + seq_minus(rest, s);
            assert forall|x: Seq<char>| #[trigger] m.contains(x) implies (xs.contains(x)
                && !s.contains(x)) by {
                let i = choose|i: int| 0 <= i < m.len() && m[i] == x;
                if i > 0 {
                    assert(seq_minus(rest, s)[i - 1] == x);
                    assert(seq_minus(rest, s).contains(x));
                }
            }
            assert forall|x: Seq<char>| xs.contains(x) && !s.contains(x) implies #[trigger] m
                .contains(x) by {
                if x == xs[0] {
                    assert(m[0] == x);
                } else {
                    assert(rest.contains(x));
                    assert(seq_minus(rest, s).contains(x));
                    let i = choose|i: int|
                        0 <= i < seq_minus(rest, s).len() && seq_minus(rest, s)[i] == x;
                    assert(m[i + 1] == x);
                    assert(m.contains(x));
                }
            }
            if xs.no_duplicates() {
                assert(rest.no_duplicates());
                assert forall|i: int, j: int| 0 <= i < j < m.len() implies m[i] != m[j] by {
                    if i == 0 {
                        assert(m[j] == seq_minus(rest, s)[j - 1]);
                        assert(seq_minus(rest, s).contains(m[j]));
                        assert(rest.contains(m[j]));
                        assert(!rest.contains(xs[0]));
                    }
                }
            }
        }
    }
}

/// The two sides of a comparison of two solution sets: what only the right
/// side has, what only the left side has, and how many solutions both have.
pub struct DiffResult {
    pub added: Vec<String>,
    pub removed: Vec<String>,
    pub shared: usize,
}

fn minus_items(xs: &SolutionSet, s: &SolutionSet) -> (r: Vec<String>)
    ensures
        r@.map_values(|t: String| t@) == seq_minus(xs.items_seq(), s@),
{
    let n = xs.len();
    let mut out: Vec<String> = Vec::new();
    let mut i: usize = 0;
    proof {
        assert(xs.items_seq().skip(0) =~= xs.items_seq());
        assert(out@.map_values(|t: String| t@) =~= Seq::<Seq<char>>::empty());
    }
    while i < n
        invariant
            0 <= i <= n,
            n == xs.items_seq().len(),
            seq_minus(xs.items_seq(), s@) == out@.map_values(|t: String| t@) + seq_minus(
                xs.items_seq().skip(i as int),
                s@,
            ),
        decreases n - i,
    {
        let ghost tail = xs.items_seq().skip(i as int);
        proof {
            assert(tail[0] == xs.items_seq()[i as int]);
            assert(tail.drop_first() =~= xs.items_seq().skip(i as int + 1));
        }
        let item = xs.get(i);
        if !s.contains_str(item.as_str()) {
            let ghost pre = out@.map_values(|t: String| t@);
            out.push(item.clone());
            proof {
                assert(out@.map_values(|t: String| t@) =~= pre.push(xs.items_seq()[i as int]));
                assert(pre + seq_minus(tail, s@) =~= (pre.push(xs.items_seq()[i as int]))
                    + seq_minus(tail.drop_first(), s@));
            }
        }
        i += 1;
    }
    proof {
        assert(xs.items_seq().skip(n as int) =~= Seq::<Seq<char>>::empty());
        assert(out@.map_values(|t: String| t@) + Seq::<Seq<char>>::empty() =~= out@.map_values(
            |t: String| t@,
        ));
    }
    out
}

/// Compare two solution sets: `added` holds the right side's solutions the
/// left side lacks and `removed` the left side's the right side lacks, each
/// in its side's first-insertion order and without duplicates; `shared`
/// counts the solutions in both sets.
pub fn diff_solutions(left: &SolutionSet, right: &SolutionSet) -> (r: DiffResult)
    requires
        left.wf(),
        right.wf(),
    ensures
        r.added@.map_values(|t: String| t@) == seq_minus(right.items_seq(), left@),
        r.removed@.map_values(|t: String| t@) == seq_minus(left.items_seq(), right@),
        r.added@.map_values(|t: String| t@).to_set() == added_spec(left@, right@),
        r.removed@.map_values(|t: String| t@).to_set() == removed_spec(left@, right@),
        r.shared == shared_spec(left@, right@),
        r.added@.len() == 0 <==> right@.subset_of(left@),
        r.removed@.len() == 0 <==> left@.subset_of(right@),
        (r.added@.len() == 0 && r.removed@.len() == 0) <==> left@ == right@,
    {
    let added = minus_items(right, left);
    let removed = minus_items(left, right);
    proof {
        lemma_seq_split_props(right.items_seq(), left@);
        lemma_seq_split_props(left.items_seq(), right@);
        assert(seq_minus(right.items_seq(), left@).to_set() =~= added_spec(left@, right@));
        assert(seq_minus(left.items_seq(), right@).to_set() =~= removed_spec(left@, right@));
        assert(left.items_seq().no_duplicates());
        assert(right.items_seq().no_duplicates());
        let kept = seq_keep(left.items_seq(), right@);
        kept.unique_seq_to_set();
        assert(kept.to_set() =~= left@.intersect(right@));
        assert(added.len() == 0 ==> right@.subset_of(left@)) by {
            if added@.map_values(|t: String| t@).len() == 0 {
                assert forall|x: Seq<char>| right@.contains(x) implies left@.contains(x) by {
                    assert(right.items_seq().contains(x));
                    assert(!seq_minus(right.items_seq(), left@).contains(x));
                }
            }
        }
        assert(right@.subset_of(left@) ==> added.len() == 0) by {
            if right@.subset_of(left@) {
                let ms = seq_minus(right.items_seq(), left@);
                if ms.len() > 0 {
                    assert(ms.contains(ms[0]));
                    assert(right.items_seq().contains(ms[0]));
                    assert(right@.contains(ms[0]));
                }
                assert(added@.map_values(|t: String| t@).len() == ms.len());
            }
        }
        assert(removed.len() == 0 ==> left@.subset_of(right@)) by {
            if removed@.map_values(|t: String| t@).len() == 0 {
                assert forall|x: Seq<char>| left@.contains(x) implies right@.contains(x) by {
                    assert(left.items_seq().contains(x));
                    assert(!seq_minus(left.items_seq(), right@).contains(x));
                }
            }
        }
        assert(left@.subset_of(right@) ==> removed.len() == 0) by {
            if left@.subset_of(right@) {
                let ms = seq_minus(left.items_seq(), right@);
                if ms.len() > 0 {
                    assert(ms.contains(ms[0]));
                    assert(left.items_seq().contains(ms[0]));
                    assert(left@.contains(ms[0]));
                }
                assert(removed@.map_values(|t: String| t@).len() == ms.len());
            }
        }
        if right@.subset_of(left@) && left@.subset_of(right@) {
            assert(left@ =~= right@);
        }
    }
    let shared = left.len() - removed.len();
    proof {
        assert(removed@.map_values(|t: String| t@).len() == seq_minus(
            left.items_seq(),
            right@,
        ).len());
        assert(shared == seq_keep(left.items_seq(), right@).len());
    }
    DiffResult { added, removed, shared }
}

} // verus!
