//! Ascending insertion sort of `u64` sequences, with its specification.
use vstd::prelude::*;

verus! {

/// `x` inserted into `s` before the first element that is not smaller than it.
pub open spec fn insert_sorted(x: u64, s: Seq<u64>) -> Seq<u64>
    decreases s.len(),
{
    if s.len() == 0 {
        seq![x]
    } else if x <= s[0] {
        seq![x] + s
    } else {
        seq![s[0]] + insert_sorted(x, s.drop_first())
    }
}

/// The ascending sort of a sequence, built by insertion from the front.
pub open spec fn sort_seq(s: Seq<u64>) -> Seq<u64>
    decreases s.len(),
{
    if s.len() == 0 {
        Seq::empty()
    } else {
        insert_sorted(s.last(), sort_seq(s.drop_last()))
    }
}

/// A sequence in non-decreasing order.
pub open spec fn is_sorted(s: Seq<u64>) -> bool {
    forall|i: int, j: int| 0 <= i <= j < s.len() ==> s[i] <= s[j]
}

/// Index of the first element of `s` that is not smaller than `x`
/// (the length of `s` when there is none).
pub open spec fn insert_pos(x: u64, s: Seq<u64>) -> nat
    decreases s.len(),
{
    if s.len() == 0 {
        0
    } else if x <= s[0] {
        0
    } else {
        1 + insert_pos(x, s.drop_first())
    }
}

proof fn lemma_insert_pos(x: u64, s: Seq<u64>)
    ensures
        insert_pos(x, s) <= s.len(),
        insert_sorted(x, s) == s.take(insert_pos(x, s) as int).push(x) + s.skip(insert_pos(x, s) as int),
        forall|k: int| 0 <= k < insert_pos(x, s) ==> s[k] < x,
        insert_pos(x, s) < s.len() ==> x <= s[insert_pos(x, s) as int],
    decreases s.len(),
{
    if s.len() == 0 {
        assert(insert_sorted(x, s) =~= s.take(0).push(x) + s.skip(0));
    } else if x <= s[0] {
        assert(insert_sorted(x, s) =~= s.take(0).push(x) + s.skip(0));
    } else {
        let t = s.drop_first();
        lemma_insert_pos(x, t);
        let p = insert_pos(x, t) as int;
        assert(s.take(p + 1).push(x) + s.skip(p + 1) =~= seq![s[0]] + (t.take(p).push(x) + t.skip(p)));
        assert forall|k: int| 0 <= k < insert_pos(x, s) implies s[k] < x by {
            if k > 0 {
                assert(s[k] == t[k - 1]);
            }
        }
        if insert_pos(x, s) < s.len() {
            assert(s[p + 1] == t[p]);
        }
    }
}

/// Inserting into a sorted sequence keeps it sorted and adds exactly the one element.
pub proof fn lemma_insert_sorted(x: u64, s: Seq<u64>)
    requires
        is_sorted(s),
    ensures
        is_sorted(insert_sorted(x, s)),
        insert_sorted(x, s).to_multiset() == s.to_multiset().insert(x),
        insert_sorted(x, s).len() == s.len() + 1,
    decreases s.len(),
{
    broadcast use vstd::multiset::group_multiset_axioms, vstd::seq_lib::group_to_multiset_ensures;
    if s.len() == 0 {
        assert(insert_sorted(x, s) =~= seq![x]);
        assert(seq![x] =~= Seq::<u64>::empty().push(x));
    } else if x <= s[0] {
        let r = seq![x] + s;
        assert forall|i: int, j: int| 0 <= i <= j < r.len() implies r[i] <= r[j] by {
            if i > 0 {
                assert(r[i] == s[i - 1]);
                assert(r[j] == s[j - 1]);
            } else {
                if j > 0 {
                    assert(r[j] == s[j - 1]);
                }
            }
        }
        vstd::seq_lib::lemma_multiset_commutative(seq![x], s);
        assert(seq![x] =~= Seq::<u64>::empty().push(x));
    } else {
        let t = s.drop_first();
        assert(is_sorted(t));
        lemma_insert_sorted(x, t);
        let it = insert_sorted(x, t);
        let r = seq![s[0]] + it;
        // every element of the tail insertion is at least s[0]
        assert forall|k: int| 0 <= k < it.len() implies s[0] <= #[trigger] it[k] by {
            lemma_insert_pos(x, t);
            let p = insert_pos(x, t) as int;
            assert(it =~= t.take(p).push(x) + t.skip(p));
            if k < p {
                assert(it[k] == t[k]);
                assert(t[k] == s[k + 1]);
            } else if k == p {
            } else {
                assert(it[k] == t[k - 1]);
                assert(t[k - 1] == s[k]);
            }
        }
        assert forall|i: int, j: int| 0 <= i <= j < r.len() implies r[i] <= r[j] by {
            if i > 0 {
                assert(r[i] == it[i - 1]);
                assert(r[j] == it[j - 1]);
            } else if j > 0 {
                assert(r[j] == it[j - 1]);
            }
        }
        vstd::seq_lib::lemma_multiset_commutative(seq![s[0]], it);
        vstd::seq_lib::lemma_multiset_commutative(seq![s[0]], t);
        assert(s =~= seq![s[0]] + t);
    }
}

/// The sort is sorted, has the same elements and the same length.
pub proof fn lemma_sort_seq(s: Seq<u64>)
    ensures
        is_sorted(sort_seq(s)),
        sort_seq(s).to_multiset() == s.to_multiset(),
        sort_seq(s).len() == s.len(),
    decreases s.len(),
{
    broadcast use vstd::multiset::group_multiset_axioms, vstd::seq_lib::group_to_multiset_ensures;
    if s.len() == 0 {
    } else {
        lemma_sort_seq(s.drop_last());
        lemma_insert_sorted(s.last(), sort_seq(s.drop_last()));
        assert(s =~= s.drop_last().push(s.last()));
    }
}

/// Sorts `v` in place in ascending order.
pub fn sort_ids(v: &mut Vec<u64>)
    ensures
        final(v)@ == sort_seq(old(v)@),
{
    let ghost orig = v@;
    let mut out: Vec<u64> = Vec::new();
    let n = v.len();
    let mut i: usize = 0;
    while i < n
        invariant
            n == v@.len(),
            v@ == orig,
            i <= n,
            out@ == sort_seq(orig.take(i as int)),
        decreases n - i,
    {
        let x = v[i];
        let ghost s = out@;
        proof {
            lemma_insert_pos(x, s);
            assert(orig.take(i + 1).drop_last() =~= orig.take(i as int));
            assert(orig.take(i + 1).last() == x);
        }
        // find the insertion position
        let mut p: usize = 0;
        while p < out.len() && out[p] < x
            invariant
                out@ == s,
                p <= s.len(),
                forall|k: int| 0 <= k < p ==> s[k] < x,
                insert_pos(x, s) >= p,
            decreases s.len() - p,
        {
            proof { lemma_insert_pos_ge(x, s, p as nat); }
            p = p + 1;
        }
        proof {
            if p < s.len() {
                lemma_insert_pos_eq(x, s, p as nat);
            } else {
                lemma_insert_pos(x, s);
            }
        }
        out.insert(p, x);
        proof {
            assert(out@ =~= s.take(p as int).push(x) + s.skip(p as int));
        }
        i = i + 1;
    }
    proof { assert(orig.take(n as int) =~= orig); }
    *v = out;
}

proof fn lemma_insert_pos_ge(x: u64, s: Seq<u64>, p: nat)
    requires
        p < s.len(),
        forall|k: int| 0 <= k <= p ==> s[k] < x,
    ensures
        insert_pos(x, s) >= p + 1,
    decreases p,
{
    if p > 0 {
        let t = s.drop_first();
        assert forall|k: int| 0 <= k <= p - 1 implies t[k] < x by {
            assert(t[k] == s[k + 1]);
        }
        lemma_insert_pos_ge(x, t, (p - 1) as nat);
    }
}

proof fn lemma_insert_pos_eq(x: u64, s: Seq<u64>, p: nat)
    requires
        p < s.len(),
        forall|k: int| 0 <= k < p ==> s[k] < x,
        x <= s[p as int],
    ensures
        insert_pos(x, s) == p,
    decreases p,
{
    if p > 0 {
        let t = s.drop_first();
        assert forall|k: int| 0 <= k < p - 1 implies t[k] < x by {
            assert(t[k] == s[k + 1]);
        }
        assert(t[p - 1] == s[p as int]);
        lemma_insert_pos_eq(x, t, (p - 1) as nat);
    }
}

} // verus!
