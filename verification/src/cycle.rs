//! The poll cycle's data decisions: dropping excluded projects, sorting the
//! remainder for deterministic grid placement, truncating to the grid's
//! capacity, and falling back to the last good snapshot when a fetch fails.

use vstd::prelude::*;
use vstd::multiset::Multiset;
use vstd::relations::sorted_by;
use vstd::seq_lib::lemma_multiset_commutative;
use vstd::seq_lib::lemma_sorted_unique;

use crate::project::{CoverageMonError, ProjectDiff};
use crate::text::{lex_leq, lex_leq_fn, str_le};
use crate::text::lemma_lex_total_ordering;

verus! {

/// Holds of the names that survive filtering against the exclusion set `ex`.
pub open spec fn kept_pred(ex: Seq<Seq<char>>) -> spec_fn(Seq<char>) -> bool {
    |s: Seq<char>| !ex.contains(s)
}

/// The names of `all` that are not in the exclusion set `ex`, in their
/// original order.
pub open spec fn spec_filtered(all: Seq<Seq<char>>, ex: Seq<Seq<char>>) -> Seq<Seq<char>> {
    all.filter(kept_pred(ex))
}

/// The names of `all` that are not excluded, sorted lexicographically and
/// truncated to the first 16: the projects one cycle shows on the grid.
pub open spec fn spec_prepared(all: Seq<Seq<char>>, ex: Seq<Seq<char>>) -> Seq<Seq<char>> {
    let sorted = spec_filtered(all, ex).sort_by(lex_leq_fn());
    if sorted.len() <= 16 {
        sorted
    } else {
        sorted.take(16)
    }
}

/// Whether the string `s` occurs in `names`.
pub fn contains_name(names: &Vec<String>, s: &String) -> (r: bool)
    ensures
        r == names.deep_view().contains(s@),
{
    let mut k: usize = 0;
    while k < names.len()
        invariant
            k <= names@.len(),
            forall|j: int| 0 <= j < k ==> names.deep_view()[j] != s@,
        decreases names@.len() - k,
    {
        proof {
            assert(names.deep_view()[k as int] == names@[k as int]@);
        }
        if names[k].eq(s) {
            proof {
                assert(names.deep_view()[k as int] == s@);
            }
            return true;
        }
        k = k + 1;
    }
    proof {
        assert(forall|j: int| 0 <= j < names.deep_view().len()
            ==> names.deep_view()[j] != s@);
    }
    false
}

/// The names of `all` that are not in `excludes`, in their original order.
pub fn filter_excluded(all: &Vec<String>, excludes: &Vec<String>) -> (r: Vec<String>)
    ensures
        r.deep_view() == spec_filtered(all.deep_view(), excludes.deep_view()),
{
    let ghost pred = kept_pred(excludes.deep_view());
    let mut out: Vec<String> = Vec::new();
    let mut i: usize = 0;
    while i < all.len()
        invariant
            i <= all@.len(),
            out.deep_view() == all.deep_view().take(i as int).filter(pred),
            pred == kept_pred(excludes.deep_view()),
        decreases all@.len() - i,
    {
        let ghost prev = out.deep_view();
        let ghost taken = all.deep_view().take(i as int);
        let ghost taken_next = all.deep_view().take(i as int + 1);
        proof {
            reveal(Seq::filter);
            assert(taken_next.drop_last() =~= taken);
            assert(taken_next.last() == all.deep_view()[i as int]);
        }
        if !contains_name(excludes, &all[i]) {
            out.push(all[i].clone());
            proof {
                reveal(Seq::filter);
                assert(all@[i as int]@ == all.deep_view()[i as int]);
                assert(pred(taken_next.last()));
                assert(out.deep_view() =~= prev.push(all.deep_view()[i as int]));
                assert(out.deep_view() == taken_next.filter(pred));
            }
        } else {
            proof {
                reveal(Seq::filter);
                assert(!pred(taken_next.last()));
                assert(out.deep_view() == taken_next.filter(pred));
            }
        }
        i = i + 1;
    }
    proof {
        assert(all.deep_view().take(all@.len() as int) =~= all.deep_view());
    }
    out
}

/// An element of a filtered sequence is an element of the sequence that
/// was filtered.
proof fn lemma_filter_subset<A>(s: Seq<A>, pred: spec_fn(A) -> bool, x: A)
    requires
        s.filter(pred).contains(x),
    ensures
        s.contains(x),
    decreases s.len(),
{
    reveal(Seq::filter);
    if s.len() > 0 {
        if pred(s.last()) && x == s.last() {
            assert(s[s.len() - 1] == x);
        } else {
            let f = s.filter(pred);
            let fd = s.drop_last().filter(pred);
            let j = choose|j: int| 0 <= j < f.len() && f[j] == x;
            if pred(s.last()) {
                assert(f == fd.push(s.last()));
                assert(j < fd.len());
                assert(fd[j] == x);
            }
            lemma_filter_subset(s.drop_last(), pred, x);
            let k = choose|k: int| 0 <= k < s.drop_last().len() && s.drop_last()[k] == x;
            assert(s[k] == x);
        }
    }
}

/// Inserting an element anywhere in a sequence adds exactly that element
/// to the sequence's multiset.
proof fn lemma_insert_to_multiset<A>(s: Seq<A>, i: int, x: A)
    requires
        0 <= i <= s.len(),
    ensures
        s.insert(i, x).to_multiset() == s.to_multiset().insert(x),
{
    broadcast use vstd::multiset::group_multiset_axioms;

    let a = s.take(i);
    let b = s.skip(i);
    assert(s =~= a + b);
    assert(s.insert(i, x) =~= a + (seq![x] + b));
    lemma_multiset_commutative(a, b);
    lemma_multiset_commutative(a, seq![x] + b);
    lemma_multiset_commutative(seq![x], b);
    assert(seq![x] =~= Seq::<A>::empty().push(x));
    broadcast use vstd::seq_lib::group_to_multiset_ensures;

    assert(seq![x].to_multiset() =~= Seq::<A>::empty().to_multiset().insert(x));
    assert(Seq::<A>::empty().to_multiset() =~= Multiset::<A>::empty());
    assert(s.insert(i, x).to_multiset() =~= s.to_multiset().insert(x));
}

/// Sorts the names lexicographically, in place, by insertion sort.
pub fn sort_names(v: &mut Vec<String>)
    ensures
        final(v).deep_view() == old(v).deep_view().sort_by(lex_leq_fn()),
        sorted_by(final(v).deep_view(), lex_leq_fn()),
{
    proof {
        lemma_lex_total_ordering();
    }
    let ghost orig = v.deep_view();
    let n = v.len();
    let mut i: usize = 1;
    while 1 < n && i < n
        invariant
            1 <= i,
            n == orig.len(),
            1 < n ==> i <= n,
            i <= n || i == 1,
            sorted_by(v.deep_view().take(if i <= n { i as int } else { 0 }), lex_leq_fn()),
            v.deep_view().to_multiset() == orig.to_multiset(),
            v@.len() == orig.len(),
        decreases v@.len() - i,
    {
        let ghost before = v.deep_view();
        let x = v.remove(i);
        let ghost removed = v.deep_view();
        proof {
            lemma_lex_total_ordering();
            assert(removed =~= before.remove(i as int));
            broadcast use vstd::seq_lib::group_to_multiset_ensures;

            assert(removed.to_multiset() =~= before.to_multiset().remove(x@));
            assert(forall|k: int| 0 <= k < i ==> removed[k] == before[k]);
        }
        let mut j: usize = i;
        while j > 0 && !str_le(v[j - 1].as_str(), x.as_str())
            invariant
                j <= i,
                i < removed.len() + 1,
                v.deep_view() == removed,
                v@.len() == removed.len(),
                sorted_by(removed.take(i as int), lex_leq_fn()),
                forall|k: int| j <= k < i ==> !lex_leq(#[trigger] removed[k], x@),
            decreases j,
        {
            j = j - 1;
        }
        proof {
            lemma_lex_total_ordering();
        }
        let ghost jj = j as int;
        v.insert(j, x);
        proof {
            let dv = v.deep_view();
            assert(dv =~= removed.insert(jj, x@));
            lemma_insert_to_multiset(removed, jj, x@);
            assert(dv.to_multiset() == orig.to_multiset());
            let leq = lex_leq_fn();
            // Everything before the insertion point is at most `x`, and
            // everything from it up to `i` is above `x`.
            assert(jj > 0 ==> leq(removed[jj - 1], x@));
            assert forall|k: int| 0 <= k < jj implies leq(#[trigger] removed[k], x@) by {
                if k < jj - 1 {
                    assert(leq(removed[k], removed[jj - 1]));
                }
            }
            assert forall|k: int| jj <= k < i implies leq(x@, #[trigger] removed[k]) by {
                assert(!leq(removed[k], x@));
            }
            assert forall|k1: int, k2: int| 0 <= k1 < k2 < i + 1 implies #[trigger] leq(
                dv.take(i as int + 1)[k1],
                dv.take(i as int + 1)[k2],
            ) by {
                let t = dv.take(i as int + 1);
                if k1 < jj && k2 < jj {
                    assert(t[k1] == removed[k1] && t[k2] == removed[k2]);
                } else if k1 < jj && k2 == jj {
                    assert(t[k1] == removed[k1] && t[k2] == x@);
                } else if k1 < jj && k2 > jj {
                    assert(t[k1] == removed[k1] && t[k2] == removed[k2 - 1]);
                    if k2 - 1 < jj {
                    } else {
                        assert(leq(removed[k1], x@));
                        assert(leq(x@, removed[k2 - 1]));
                    }
                } else if k1 == jj {
                    assert(t[k1] == x@ && t[k2] == removed[k2 - 1]);
                    assert(leq(x@, removed[k2 - 1]));
                } else {
                    assert(t[k1] == removed[k1 - 1] && t[k2] == removed[k2 - 1]);
                }
            }
            assert(sorted_by(dv.take(i as int + 1), lex_leq_fn()));
        }
        i = i + 1;
    }
    proof {
        lemma_lex_total_ordering();
        let dv = v.deep_view();
        assert(dv.take(dv.len() as int) =~= dv);
        if orig.len() <= 1 {
            assert(sorted_by(dv, lex_leq_fn()));
        }
        orig.lemma_sort_by_ensures(lex_leq_fn());
        assert(orig.sort_by(lex_leq_fn()).to_multiset() == dv.to_multiset());
        lemma_sorted_unique(dv, orig.sort_by(lex_leq_fn()), lex_leq_fn());
        assert(dv == orig.sort_by(lex_leq_fn()));
    }
}

/// Filters, sorts and truncates the fetched project list for the grid.
/// Returns the list to show and whether truncation dropped any name, so
/// that the caller can make the drop observable.
pub fn prepare_projects(all: &Vec<String>, excludes: &Vec<String>) -> (r: (Vec<String>, bool))
    ensures
        r.0.deep_view() == spec_prepared(all.deep_view(), excludes.deep_view()),
        r.1 == (spec_filtered(all.deep_view(), excludes.deep_view()).len() > 16),
{
    let mut filtered = filter_excluded(all, excludes);
    sort_names(&mut filtered);
    let truncated = filtered.len() > 16;
    proof {
        lemma_lex_total_ordering();
        let f = spec_filtered(all.deep_view(), excludes.deep_view());
        f.lemma_sort_by_ensures(lex_leq_fn());
        broadcast use vstd::seq_lib::group_to_multiset_ensures;

        let sorted = f.sort_by(lex_leq_fn());
        assert(f.to_multiset().len() == f.len());
        assert(sorted.to_multiset().len() == sorted.len());
        assert(sorted.len() == f.len());
    }
    if truncated {
        filtered.truncate(16);
        proof {
            let sorted = spec_filtered(all.deep_view(), excludes.deep_view()).sort_by(lex_leq_fn());
            assert(filtered.deep_view() =~= sorted.take(16));
        }
    }
    (filtered, truncated)
}

/// The snapshot the cycle goes on with: the freshly fetched list when the
/// fetch succeeded, the previous cycle's snapshot when it failed.
pub fn next_snapshot(last: Vec<ProjectDiff>, fetched: Result<Vec<ProjectDiff>, CoverageMonError>) -> (r: Vec<ProjectDiff>)
    ensures
        fetched is Ok ==> r == fetched->Ok_0,
        fetched is Err ==> r == last,
{
    match fetched {
        Ok(fresh) => fresh,
        Err(_) => last,
    }
}

/// What `prepare_projects` promises of every cycle's grid list: no excluded
/// name survives, every shown name comes from the fetched list, the order is
/// lexicographic, and at most 16 names remain.
pub proof fn lemma_prepared_properties(all: Seq<Seq<char>>, ex: Seq<Seq<char>>)
    ensures
        spec_prepared(all, ex).len() <= 16,
        sorted_by(spec_prepared(all, ex), lex_leq_fn()),
        forall|k: int| 0 <= k < spec_prepared(all, ex).len()
            ==> !ex.contains(#[trigger] spec_prepared(all, ex)[k])
                && all.contains(spec_prepared(all, ex)[k]),
{
    lemma_lex_total_ordering();
    let filtered = spec_filtered(all, ex);
    let sorted = filtered.sort_by(lex_leq_fn());
    let prepared = spec_prepared(all, ex);
    filtered.lemma_sort_by_ensures(lex_leq_fn());
    broadcast use vstd::seq_lib::group_to_multiset_ensures;

    assert forall|k: int| 0 <= k < prepared.len() implies !ex.contains(
        #[trigger] prepared[k],
    ) && all.contains(prepared[k]) by {
        assert(prepared[k] == sorted[k]);
        assert(sorted.contains(sorted[k]));
        assert(sorted.to_multiset().count(sorted[k]) > 0);
        assert(filtered.to_multiset().count(sorted[k]) > 0);
        assert(filtered.contains(sorted[k]));
        let j = choose|j: int| 0 <= j < filtered.len() && filtered[j] == sorted[k];
        all.lemma_filter_pred(kept_pred(ex), j);
        lemma_filter_subset(all, kept_pred(ex), sorted[k]);
    }
    assert forall|k1: int, k2: int| 0 <= k1 < k2 < prepared.len() implies #[trigger] lex_leq_fn()(
        prepared[k1],
        prepared[k2],
    ) by {
        assert(prepared[k1] == sorted[k1] && prepared[k2] == sorted[k2]);
    }
}

} // verus!
