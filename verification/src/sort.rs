//! Stable sorting: `(name, count)` entries by count descending, and
//! strings by lowercase form ascending.
//!
//! Tag buckets are ordered by popularity; entries with equal keys keep
//! their original relative order. Each executable sort is pinned to a
//! recursive specification, and public lemmas state the order, stability
//! and permutation laws of the view-level specification that the
//! normalization contracts use, of its element-level counterpart, and of
//! the alphabetical sort.

use vstd::prelude::*;
use vstd::seq_lib::*;
use crate::casing::{lower_of, to_lowercase};
use crate::text::{lex_le, str_lex_le, views_of};

verus! {

/// Counts never increase along the sequence.
pub open spec fn sorted_by_count_desc(s: Seq<(String, i32)>) -> bool {
    forall|i: int, j: int| 0 <= i < j < s.len() ==> s[i].1 >= s[j].1
}

/// Insert `e` behind every entry whose count is at least `e`'s.
pub open spec fn spec_insert_desc(sorted: Seq<(String, i32)>, e: (String, i32)) -> Seq<
    (String, i32),
>
    decreases sorted.len(),
{
    if sorted.len() == 0 {
        seq![e]
    } else if sorted[0].1 >= e.1 {
        seq![sorted[0]] + spec_insert_desc(sorted.drop_first(), e)
    } else {
        seq![e] + sorted
    }
}

/// Stable insertion sort by count, descending.
pub open spec fn spec_sort_by_count_desc(s: Seq<(String, i32)>) -> Seq<(String, i32)>
    decreases s.len(),
{
    if s.len() == 0 {
        Seq::empty()
    } else {
        spec_insert_desc(spec_sort_by_count_desc(s.drop_last()), s.last())
    }
}

/// The view of one entry: the name's characters and the count's value.
pub open spec fn entry_views(s: Seq<(String, i32)>) -> Seq<(Seq<char>, int)> {
    s.map_values(|e: (String, i32)| (e.0@, e.1 as int))
}

/// [`spec_insert_desc`] stated over entry views.
pub open spec fn spec_insert_desc_v(sorted: Seq<(Seq<char>, int)>, e: (Seq<char>, int)) -> Seq<
    (Seq<char>, int),
>
    decreases sorted.len(),
{
    if sorted.len() == 0 {
        seq![e]
    } else if sorted[0].1 >= e.1 {
        seq![sorted[0]] + spec_insert_desc_v(sorted.drop_first(), e)
    } else {
        seq![e] + sorted
    }
}

/// [`spec_sort_by_count_desc`] stated over entry views.
pub open spec fn spec_sort_by_count_desc_v(s: Seq<(Seq<char>, int)>) -> Seq<(Seq<char>, int)>
    decreases s.len(),
{
    if s.len() == 0 {
        Seq::empty()
    } else {
        spec_insert_desc_v(spec_sort_by_count_desc_v(s.drop_last()), s.last())
    }
}

/// Counts never increase along a sequence of entry views.
pub open spec fn sorted_by_count_desc_v(s: Seq<(Seq<char>, int)>) -> bool {
    forall|i: int, j: int| 0 <= i < j < s.len() ==> s[i].1 >= s[j].1
}

/// The view entries whose count is exactly `c`.
pub open spec fn count_is_v(c: int) -> spec_fn((Seq<char>, int)) -> bool {
    |x: (Seq<char>, int)| x.1 == c
}

proof fn lemma_insert_desc_v_props(s: Seq<(Seq<char>, int)>, e: (Seq<char>, int))
    requires
        sorted_by_count_desc_v(s),
    ensures
        spec_insert_desc_v(s, e).len() == s.len() + 1,
        sorted_by_count_desc_v(spec_insert_desc_v(s, e)),
        spec_insert_desc_v(s, e).to_multiset() == s.to_multiset().insert(e),
        forall|i: int|
            0 <= i < spec_insert_desc_v(s, e).len() ==> (#[trigger] spec_insert_desc_v(s, e)[i]
                == e || s.contains(spec_insert_desc_v(s, e)[i])),
    decreases s.len(),
{
    broadcast use vstd::seq_lib::group_to_multiset_ensures;

    let r = spec_insert_desc_v(s, e);
    if s.len() == 0 {
        assert(seq![e] =~= Seq::empty().push(e));
        assert(r.to_multiset() =~= s.to_multiset().insert(e));
    } else if s[0].1 >= e.1 {
        let t = s.drop_first();
        assert(sorted_by_count_desc_v(t)) by {
            assert(forall|k: int| 0 <= k < t.len() ==> t[k] == s[k + 1]);
        }
        lemma_insert_desc_v_props(t, e);
        let r2 = spec_insert_desc_v(t, e);
        assert(r == seq![s[0]] + r2);
        assert forall|i: int, j: int| 0 <= i < j < r.len() implies r[i].1 >= r[j].1 by {
            if i == 0 {
                let y = r[j];
                assert(r2[j - 1] == y);
                if y == e {
                } else {
                    assert(t.contains(y));
                    let k = choose|k: int| 0 <= k < t.len() && t[k] == y;
                    assert(s[k + 1] == y);
                }
            } else {
                assert(r2[i - 1] == r[i]);
                assert(r2[j - 1] == r[j]);
            }
        }
        assert(r.to_multiset() == s.to_multiset().insert(e)) by {
            lemma_multiset_commutative(seq![s[0]], r2);
            lemma_multiset_commutative(seq![s[0]], t);
            assert(seq![s[0]] + t =~= s);
            assert(seq![s[0]].to_multiset().add(t.to_multiset().insert(e)) =~= (seq![
                s[0],
            ].to_multiset().add(t.to_multiset())).insert(e));
        }
        assert forall|i: int| 0 <= i < r.len() implies (r[i] == e || s.contains(r[i])) by {
            if i == 0 {
                assert(s.contains(r[0])) by {
                    assert(s[0] == r[0]);
                }
            } else {
                assert(r2[i - 1] == r[i]);
                if r2[i - 1] == e {
                } else {
                    let k = choose|k: int| 0 <= k < t.len() && t[k] == r2[i - 1];
                    assert(s[k + 1] == r[i]);
                }
            }
        }
    } else {
        assert(r == seq![e] + s);
        assert forall|i: int, j: int| 0 <= i < j < r.len() implies r[i].1 >= r[j].1 by {
            if i == 0 {
                assert(r[j] == s[j - 1]);
                if j - 1 > 0 {
                    assert(s[0].1 >= s[j - 1].1);
                }
            } else {
                assert(r[i] == s[i - 1]);
                assert(r[j] == s[j - 1]);
            }
        }
        assert(r.to_multiset() == s.to_multiset().insert(e)) by {
            lemma_multiset_commutative(seq![e], s);
            assert(seq![e].to_multiset().add(s.to_multiset()) =~= s.to_multiset().insert(e));
        }
        assert forall|i: int| 0 <= i < r.len() implies (r[i] == e || s.contains(r[i])) by {
            if i > 0 {
                assert(s[i - 1] == r[i]);
            }
        }
    }
}

proof fn lemma_filter_all_false<A>(s: Seq<A>, pred: spec_fn(A) -> bool)
    requires
        forall|i: int| 0 <= i < s.len() ==> !pred(#[trigger] s[i]),
    ensures
        s.filter(pred) == Seq::<A>::empty(),
    decreases s.len(),
{
    reveal(Seq::filter);
    if s.len() > 0 {
        let t = s.drop_last();
        assert(forall|i: int| 0 <= i < t.len() ==> t[i] == s[i]);
        lemma_filter_all_false(t, pred);
    }
}

proof fn lemma_filter_singleton<A>(e: A, pred: spec_fn(A) -> bool)
    ensures
        seq![e].filter(pred) == if pred(e) {
            seq![e]
        } else {
            Seq::<A>::empty()
        },
{
    reveal_with_fuel(Seq::filter, 2);
    assert(seq![e].drop_last() =~= Seq::<A>::empty());
    assert(seq![e].last() == e);
    if pred(e) {
        assert(Seq::<A>::empty().push(e) =~= seq![e]);
    }
}

proof fn lemma_insert_desc_v_filter(s: Seq<(Seq<char>, int)>, e: (Seq<char>, int), c: int)
    requires
        sorted_by_count_desc_v(s),
    ensures
        spec_insert_desc_v(s, e).filter(count_is_v(c)) == if e.1 == c {
            s.filter(count_is_v(c)).push(e)
        } else {
            s.filter(count_is_v(c))
        },
    decreases s.len(),
{
    reveal(Seq::filter);
    let pc = count_is_v(c);
    let r = spec_insert_desc_v(s, e);
    if s.len() == 0 {
        lemma_filter_singleton(e, pc);
        assert(s.filter(pc) == Seq::<(Seq<char>, int)>::empty());
        if e.1 == c {
            assert(Seq::<(Seq<char>, int)>::empty().push(e) =~= seq![e]);
        }
    } else if s[0].1 >= e.1 {
        let t = s.drop_first();
        assert(sorted_by_count_desc_v(t)) by {
            assert(forall|k: int| 0 <= k < t.len() ==> t[k] == s[k + 1]);
        }
        lemma_insert_desc_v_filter(t, e, c);
        let r2 = spec_insert_desc_v(t, e);
        Seq::filter_distributes_over_add(seq![s[0]], r2, pc);
        assert(seq![s[0]] + t =~= s);
        Seq::filter_distributes_over_add(seq![s[0]], t, pc);
        if e.1 == c {
            assert(seq![s[0]].filter(pc) + t.filter(pc).push(e) =~= (seq![s[0]].filter(pc)
                + t.filter(pc)).push(e));
        }
    } else {
        assert(r == seq![e] + s);
        Seq::filter_distributes_over_add(seq![e], s, pc);
        lemma_filter_singleton(e, pc);
        if e.1 == c {
            assert(forall|i: int| 0 <= i < s.len() ==> !pc(#[trigger] s[i])) by {
                assert(forall|i: int| 0 < i < s.len() ==> s[0].1 >= #[trigger] s[i].1);
            }
            lemma_filter_all_false(s, pc);
            assert(r.filter(pc) =~= s.filter(pc).push(e));
        } else {
            assert(r.filter(pc) =~= s.filter(pc));
        }
    }
}

/// Order law at the view level: the sort that the normalization
/// contracts use leaves counts non-increasing.
pub proof fn lemma_sort_by_count_desc_v_sorted(s: Seq<(Seq<char>, int)>)
    ensures
        sorted_by_count_desc_v(spec_sort_by_count_desc_v(s)),
        spec_sort_by_count_desc_v(s).len() == s.len(),
    decreases s.len(),
{
    if s.len() > 0 {
        lemma_sort_by_count_desc_v_sorted(s.drop_last());
        lemma_insert_desc_v_props(spec_sort_by_count_desc_v(s.drop_last()), s.last());
    }
}

/// Stability law at the view level: for every count value, entries
/// carrying that count come out in the order they went in.
pub proof fn lemma_sort_by_count_desc_v_stable(s: Seq<(Seq<char>, int)>, c: int)
    ensures
        spec_sort_by_count_desc_v(s).filter(count_is_v(c)) == s.filter(count_is_v(c)),
    decreases s.len(),
{
    reveal(Seq::filter);
    if s.len() > 0 {
        let t = s.drop_last();
        lemma_sort_by_count_desc_v_stable(t, c);
        lemma_sort_by_count_desc_v_sorted(t);
        lemma_insert_desc_v_filter(spec_sort_by_count_desc_v(t), s.last(), c);
    }
}

/// Permutation law at the view level: the sort returns the same entries
/// as a multiset.
pub proof fn lemma_sort_by_count_desc_v_permutes(s: Seq<(Seq<char>, int)>)
    ensures
        spec_sort_by_count_desc_v(s).to_multiset() == s.to_multiset(),
    decreases s.len(),
{
    broadcast use vstd::seq_lib::group_to_multiset_ensures;

    if s.len() > 0 {
        let t = s.drop_last();
        lemma_sort_by_count_desc_v_permutes(t);
        lemma_sort_by_count_desc_v_sorted(t);
        lemma_insert_desc_v_props(spec_sort_by_count_desc_v(t), s.last());
        assert(t.push(s.last()) =~= s);
    }
}

proof fn lemma_views_insert(s: Seq<(String, i32)>, e: (String, i32))
    ensures
        entry_views(spec_insert_desc(s, e)) == spec_insert_desc_v(entry_views(s), (e.0@, e.1 as int)),
    decreases s.len(),
{
    let ev = (e.0@, e.1 as int);
    if s.len() == 0 {
        assert(entry_views(seq![e]) =~= seq![ev]);
    } else if s[0].1 >= e.1 {
        lemma_views_insert(s.drop_first(), e);
        assert(entry_views(s.drop_first()) =~= entry_views(s).drop_first());
        assert(entry_views(seq![s[0]] + spec_insert_desc(s.drop_first(), e)) =~= seq![
            entry_views(s)[0],
        ] + entry_views(spec_insert_desc(s.drop_first(), e)));
    } else {
        assert(entry_views(seq![e] + s) =~= seq![ev] + entry_views(s));
    }
}

/// Sorting commutes with taking entry views.
pub proof fn lemma_views_sort(s: Seq<(String, i32)>)
    ensures
        entry_views(spec_sort_by_count_desc(s)) == spec_sort_by_count_desc_v(entry_views(s)),
    decreases s.len(),
{
    if s.len() > 0 {
        lemma_views_sort(s.drop_last());
        lemma_views_insert(spec_sort_by_count_desc(s.drop_last()), s.last());
        assert(entry_views(s.drop_last()) =~= entry_views(s).drop_last());
        assert(entry_views(s).last() == (s.last().0@, s.last().1 as int));
    }
}

proof fn lemma_insert_desc_at(s: Seq<(String, i32)>, e: (String, i32), j: int)
    requires
        0 <= j <= s.len(),
        forall|k: int| 0 <= k < j ==> s[k].1 >= e.1,
        j < s.len() ==> s[j].1 < e.1,
    ensures
        spec_insert_desc(s, e) == s.insert(j, e),
    decreases j,
{
    if j == 0 {
        if s.len() == 0 {
            assert(spec_insert_desc(s, e) =~= s.insert(0, e));
        } else {
            assert(s[0].1 < e.1);
            assert(seq![e] + s =~= s.insert(0, e));
        }
    } else {
        assert(s[0].1 >= e.1);
        let t = s.drop_first();
        assert(forall|k: int| 0 <= k < j - 1 ==> #[trigger] t[k].1 >= e.1) by {
            assert(forall|k: int| 0 <= k < t.len() ==> t[k] == s[k + 1]);
        }
        assert(j - 1 < t.len() ==> t[j - 1].1 < e.1);
        lemma_insert_desc_at(t, e, j - 1);
        assert(seq![s[0]] + t.insert(j - 1, e) =~= s.insert(j, e));
    }
}

/// Order law carried back from the views: the element-level sort leaves
/// counts non-increasing too.
pub proof fn lemma_sort_by_count_desc_sorted(s: Seq<(String, i32)>)
    ensures
        sorted_by_count_desc(spec_sort_by_count_desc(s)),
        spec_sort_by_count_desc(s).len() == s.len(),
{
    lemma_views_sort(s);
    lemma_sort_by_count_desc_v_sorted(entry_views(s));
    let r = spec_sort_by_count_desc(s);
    let rv = entry_views(r);
    assert forall|i: int, j: int| 0 <= i < j < r.len() implies r[i].1 >= r[j].1 by {
        assert(rv[i] == (r[i].0@, r[i].1 as int));
        assert(rv[j] == (r[j].0@, r[j].1 as int));
    }
}

/// Sort entries by count, descending; entries with equal counts keep
/// their original relative order.
pub fn sort_by_count_desc(entries: Vec<(String, i32)>) -> (r: Vec<(String, i32)>)
    ensures
        r@ == spec_sort_by_count_desc(entries@),
{
    let ghost orig = entries@;
    let mut v = entries;
    let mut out: Vec<(String, i32)> = Vec::new();
    while v.len() > 0
        invariant
            v@.len() <= orig.len(),
            v@ == orig.subrange(orig.len() - v@.len(), orig.len() as int),
            out@ == spec_sort_by_count_desc(orig.subrange(0, orig.len() - v@.len())),
        decreases v@.len(),
    {
        let ghost n = orig.len() - v@.len();
        let x = v.remove(0);
        proof {
            assert(x == orig[n as int]);
            assert(v@ =~= orig.subrange(orig.len() - v@.len(), orig.len() as int));
        }
        let mut j: usize = 0;
        while j < out.len() && out[j].1 >= x.1
            invariant
                j <= out@.len(),
                forall|k: int| 0 <= k < j ==> out@[k].1 >= x.1,
            decreases out@.len() - j,
        {
            j = j + 1;
        }
        proof {
            lemma_insert_desc_at(out@, x, j as int);
            let pre = orig.subrange(0, n as int);
            let post = orig.subrange(0, n + 1);
            assert(post.drop_last() =~= pre);
            assert(post.last() == orig[n as int]);
        }
        out.insert(j, x);
    }
    proof {
        assert(orig.subrange(0, orig.len() as int) =~= orig);
    }
    out
}

/// Insert `e` behind every string whose lowercase form does not exceed
/// `e`'s, in lexicographic order.
pub open spec fn spec_insert_ci(sorted: Seq<Seq<char>>, e: Seq<char>) -> Seq<Seq<char>>
    decreases sorted.len(),
{
    if sorted.len() == 0 {
        seq![e]
    } else if lex_le(lower_of(sorted[0]), lower_of(e)) {
        seq![sorted[0]] + spec_insert_ci(sorted.drop_first(), e)
    } else {
        seq![e] + sorted
    }
}

/// Stable insertion sort by lowercase form, ascending.
pub open spec fn spec_sort_ci(s: Seq<Seq<char>>) -> Seq<Seq<char>>
    decreases s.len(),
{
    if s.len() == 0 {
        Seq::empty()
    } else {
        spec_insert_ci(spec_sort_ci(s.drop_last()), s.last())
    }
}

/// Lowercase forms never decrease along the sequence, lexicographically.
pub open spec fn sorted_ci(s: Seq<Seq<char>>) -> bool {
    forall|i: int, j: int| 0 <= i < j < s.len() ==> lex_le(lower_of(s[i]), lower_of(s[j]))
}

/// The strings whose lowercase form is exactly `k`.
pub open spec fn key_is_ci(k: Seq<char>) -> spec_fn(Seq<char>) -> bool {
    |x: Seq<char>| lower_of(x) == k
}

proof fn lemma_lex_le_refl(a: Seq<char>)
    ensures
        lex_le(a, a),
    decreases a.len(),
{
    if a.len() > 0 {
        lemma_lex_le_refl(a.drop_first());
    }
}

proof fn lemma_lex_le_total(a: Seq<char>, b: Seq<char>)
    ensures
        lex_le(a, b) || lex_le(b, a),
    decreases a.len(),
{
    if a.len() > 0 && b.len() > 0 && (a[0] as int) == (b[0] as int) {
        lemma_lex_le_total(a.drop_first(), b.drop_first());
    }
}

proof fn lemma_lex_le_trans(a: Seq<char>, b: Seq<char>, c: Seq<char>)
    requires
        lex_le(a, b),
        lex_le(b, c),
    ensures
        lex_le(a, c),
    decreases a.len(),
{
    if a.len() > 0 {
        if (a[0] as int) == (b[0] as int) && (b[0] as int) == (c[0] as int) {
            lemma_lex_le_trans(a.drop_first(), b.drop_first(), c.drop_first());
        }
    }
}

proof fn lemma_insert_ci_props(s: Seq<Seq<char>>, e: Seq<char>)
    requires
        sorted_ci(s),
    ensures
        spec_insert_ci(s, e).len() == s.len() + 1,
        sorted_ci(spec_insert_ci(s, e)),
        spec_insert_ci(s, e).to_multiset() == s.to_multiset().insert(e),
        forall|i: int|
            0 <= i < spec_insert_ci(s, e).len() ==> (#[trigger] spec_insert_ci(s, e)[i] == e
                || s.contains(spec_insert_ci(s, e)[i])),
    decreases s.len(),
{
    broadcast use vstd::seq_lib::group_to_multiset_ensures;

    let r = spec_insert_ci(s, e);
    if s.len() == 0 {
        assert(seq![e] =~= Seq::empty().push(e));
        assert(r.to_multiset() =~= s.to_multiset().insert(e));
    } else if lex_le(lower_of(s[0]), lower_of(e)) {
        let t = s.drop_first();
        assert(sorted_ci(t)) by {
            assert(forall|k: int| 0 <= k < t.len() ==> t[k] == s[k + 1]);
        }
        lemma_insert_ci_props(t, e);
        let r2 = spec_insert_ci(t, e);
        assert(r == seq![s[0]] + r2);
        assert forall|i: int, j: int|
            0 <= i < j < r.len() implies lex_le(lower_of(r[i]), lower_of(r[j])) by {
            if i == 0 {
                let y = r[j];
                assert(r2[j - 1] == y);
                if y == e {
                } else {
                    assert(t.contains(y));
                    let k = choose|k: int| 0 <= k < t.len() && t[k] == y;
                    assert(s[k + 1] == y);
                }
            } else {
                assert(r2[i - 1] == r[i]);
                assert(r2[j - 1] == r[j]);
            }
        }
        assert(r.to_multiset() == s.to_multiset().insert(e)) by {
            lemma_multiset_commutative(seq![s[0]], r2);
            lemma_multiset_commutative(seq![s[0]], t);
            assert(seq![s[0]] + t =~= s);
            assert(seq![s[0]].to_multiset().add(t.to_multiset().insert(e)) =~= (seq![
                s[0],
            ].to_multiset().add(t.to_multiset())).insert(e));
        }
        assert forall|i: int| 0 <= i < r.len() implies (r[i] == e || s.contains(r[i])) by {
            if i == 0 {
                assert(s.contains(r[0])) by {
                    assert(s[0] == r[0]);
                }
            } else {
                assert(r2[i - 1] == r[i]);
                if r2[i - 1] == e {
                } else {
                    let k = choose|k: int| 0 <= k < t.len() && t[k] == r2[i - 1];
                    assert(s[k + 1] == r[i]);
                }
            }
        }
    } else {
        assert(r == seq![e] + s);
        lemma_lex_le_total(lower_of(s[0]), lower_of(e));
        assert forall|i: int, j: int|
            0 <= i < j < r.len() implies lex_le(lower_of(r[i]), lower_of(r[j])) by {
            if i == 0 {
                assert(r[j] == s[j - 1]);
                if j - 1 > 0 {
                    lemma_lex_le_trans(lower_of(e), lower_of(s[0]), lower_of(s[j - 1]));
                }
            } else {
                assert(r[i] == s[i - 1]);
                assert(r[j] == s[j - 1]);
            }
        }
        assert(r.to_multiset() == s.to_multiset().insert(e)) by {
            lemma_multiset_commutative(seq![e], s);
            assert(seq![e].to_multiset().add(s.to_multiset()) =~= s.to_multiset().insert(e));
        }
        assert forall|i: int| 0 <= i < r.len() implies (r[i] == e || s.contains(r[i])) by {
            if i > 0 {
                assert(s[i - 1] == r[i]);
            }
        }
    }
}

proof fn lemma_insert_ci_filter(s: Seq<Seq<char>>, e: Seq<char>, k: Seq<char>)
    requires
        sorted_ci(s),
    ensures
        spec_insert_ci(s, e).filter(key_is_ci(k)) == if lower_of(e) == k {
            s.filter(key_is_ci(k)).push(e)
        } else {
            s.filter(key_is_ci(k))
        },
    decreases s.len(),
{
    reveal(Seq::filter);
    let pk = key_is_ci(k);
    let r = spec_insert_ci(s, e);
    if s.len() == 0 {
        lemma_filter_singleton(e, pk);
        assert(s.filter(pk) == Seq::<Seq<char>>::empty());
        if lower_of(e) == k {
            assert(Seq::<Seq<char>>::empty().push(e) =~= seq![e]);
        }
    } else if lex_le(lower_of(s[0]), lower_of(e)) {
        let t = s.drop_first();
        assert(sorted_ci(t)) by {
            assert(forall|j: int| 0 <= j < t.len() ==> t[j] == s[j + 1]);
        }
        lemma_insert_ci_filter(t, e, k);
        let r2 = spec_insert_ci(t, e);
        Seq::filter_distributes_over_add(seq![s[0]], r2, pk);
        assert(seq![s[0]] + t =~= s);
        Seq::filter_distributes_over_add(seq![s[0]], t, pk);
        if lower_of(e) == k {
            assert(seq![s[0]].filter(pk) + t.filter(pk).push(e) =~= (seq![s[0]].filter(pk)
                + t.filter(pk)).push(e));
        }
    } else {
        assert(r == seq![e] + s);
        Seq::filter_distributes_over_add(seq![e], s, pk);
        lemma_filter_singleton(e, pk);
        if lower_of(e) == k {
            // every key in s exceeds e's key, so none equals it
            assert forall|i: int| 0 <= i < s.len() implies !pk(#[trigger] s[i]) by {
                if i == 0 {
                    lemma_lex_le_refl(lower_of(s[0]));
                } else {
                    assert(lex_le(lower_of(s[0]), lower_of(s[i])));
                }
            }
            lemma_filter_all_false(s, pk);
            assert(r.filter(pk) =~= s.filter(pk).push(e));
        } else {
            assert(r.filter(pk) =~= s.filter(pk));
        }
    }
}

/// Order law: the alphabetical sort leaves lowercase forms
/// non-decreasing.
pub proof fn lemma_sort_ci_sorted(s: Seq<Seq<char>>)
    ensures
        sorted_ci(spec_sort_ci(s)),
        spec_sort_ci(s).len() == s.len(),
    decreases s.len(),
{
    if s.len() > 0 {
        lemma_sort_ci_sorted(s.drop_last());
        lemma_insert_ci_props(spec_sort_ci(s.drop_last()), s.last());
    }
}

/// Stability law: strings sharing one lowercase form come out of the
/// alphabetical sort in the order they went in.
pub proof fn lemma_sort_ci_stable(s: Seq<Seq<char>>, k: Seq<char>)
    ensures
        spec_sort_ci(s).filter(key_is_ci(k)) == s.filter(key_is_ci(k)),
    decreases s.len(),
{
    reveal(Seq::filter);
    if s.len() > 0 {
        let t = s.drop_last();
        lemma_sort_ci_stable(t, k);
        lemma_sort_ci_sorted(t);
        lemma_insert_ci_filter(spec_sort_ci(t), s.last(), k);
    }
}

/// Permutation law: the alphabetical sort returns the same strings as a
/// multiset.
pub proof fn lemma_sort_ci_permutes(s: Seq<Seq<char>>)
    ensures
        spec_sort_ci(s).to_multiset() == s.to_multiset(),
    decreases s.len(),
{
    broadcast use vstd::seq_lib::group_to_multiset_ensures;

    if s.len() > 0 {
        let t = s.drop_last();
        lemma_sort_ci_permutes(t);
        lemma_sort_ci_sorted(t);
        lemma_insert_ci_props(spec_sort_ci(t), s.last());
        assert(t.push(s.last()) =~= s);
    }
}

proof fn lemma_insert_ci_at(s: Seq<Seq<char>>, e: Seq<char>, j: int)
    requires
        0 <= j <= s.len(),
        forall|k: int| 0 <= k < j ==> lex_le(lower_of(#[trigger] s[k]), lower_of(e)),
        j < s.len() ==> !lex_le(lower_of(s[j]), lower_of(e)),
    ensures
        spec_insert_ci(s, e) == s.insert(j, e),
    decreases j,
{
    if j == 0 {
        if s.len() == 0 {
            assert(spec_insert_ci(s, e) =~= s.insert(0, e));
        } else {
            assert(seq![e] + s =~= s.insert(0, e));
        }
    } else {
        assert(lex_le(lower_of(s[0]), lower_of(e)));
        let t = s.drop_first();
        assert(forall|k: int|
            0 <= k < j - 1 ==> lex_le(lower_of(#[trigger] t[k]), lower_of(e))) by {
            assert(forall|k: int| 0 <= k < t.len() ==> t[k] == s[k + 1]);
        }
        assert(j - 1 < t.len() ==> t[j - 1] == s[j as int]);
        lemma_insert_ci_at(t, e, j - 1);
        assert(seq![s[0]] + t.insert(j - 1, e) =~= s.insert(j, e));
    }
}

/// Sort strings by their lowercase form, ascending and stable.
pub fn sort_ci(strings: Vec<String>) -> (r: Vec<String>)
    ensures
        views_of(r@) == spec_sort_ci(views_of(strings@)),
{
    let ghost orig = views_of(strings@);
    let mut v = strings;
    let mut out: Vec<String> = Vec::new();
    while v.len() > 0
        invariant
            v@.len() <= orig.len(),
            views_of(v@) == orig.subrange(orig.len() - v@.len(), orig.len() as int),
            views_of(out@) == spec_sort_ci(orig.subrange(0, orig.len() - v@.len())),
        decreases v@.len(),
    {
        let ghost n = orig.len() - v@.len();
        let ghost old_vs = views_of(v@);
        let x = v.remove(0);
        proof {
            assert(views_of(v@) =~= old_vs.drop_first());
            assert(old_vs.drop_first() =~= orig.subrange(n + 1, orig.len() as int));
            assert(x@ == old_vs[0]);
        }
        let low_x = to_lowercase(x.as_str());
        let mut j: usize = 0;
        while j < out.len() && str_lex_le(to_lowercase(out[j].as_str()).as_str(), low_x.as_str())
            invariant
                j <= out@.len(),
                low_x@ == lower_of(x@),
                forall|k: int|
                    0 <= k < j ==> lex_le(lower_of((#[trigger] out@[k])@), lower_of(x@)),
            decreases out@.len() - j,
        {
            j = j + 1;
        }
        proof {
            let ov = views_of(out@);
            assert(forall|k: int| 0 <= k < j ==> lex_le(lower_of(#[trigger] ov[k]), lower_of(x@)));
            assert(j < ov.len() ==> ov[j as int] == out@[j as int]@);
            lemma_insert_ci_at(ov, x@, j as int);
            let pre = orig.subrange(0, n as int);
            let post = orig.subrange(0, n + 1);
            assert(post.drop_last() =~= pre);
            assert(post.last() == orig[n as int]);
        }
        out.insert(j, x);
        proof {
            assert(views_of(out@) =~= spec_insert_ci(
                spec_sort_ci(orig.subrange(0, n as int)),
                x@,
            ));
        }
    }
    proof {
        assert(orig.subrange(0, orig.len() as int) =~= orig);
    }
    out
}

} // verus!
