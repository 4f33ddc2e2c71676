//! Properties of the accessibility tree and of focus movement that span
//! several operations.
use vstd::prelude::*;
use crate::a11y::node::A11yNode;
use crate::a11y::tree::{A11yTreeModel, added_child, with_child, focus_order, with_focus_flag, dense_keys,
    focus_ids_upto, takes_focus};
use crate::a11y::focus::{find_index, next_focus, prev_focus, moved_focus, unfocused};
use crate::sorting::{sort_seq, insert_sorted, is_sorted, lemma_sort_seq};

verus! {

/// Every node is stored under its own ID.
pub open spec fn ids_match(m: Map<u64, A11yNode>) -> bool {
    forall|k: u64| #[trigger] m.contains_key(k) ==> m[k].id == k
}

/// The focus order is ascending and holds exactly the IDs of the nodes that
/// take focus (focusable and not disabled), each as often as it occurs.
pub proof fn law_focus_order_sorted(t: A11yTreeModel)
    ensures
        is_sorted(focus_order(t)),
        focus_order(t).to_multiset() == focus_ids_upto(t.nodes, t.next_id as nat).to_multiset(),
{
    lemma_sort_seq(focus_ids_upto(t.nodes, t.next_id as nat));
}

proof fn lemma_flag_keeps_ids_upto(m: Map<u64, A11yNode>, id: u64, b: bool, k: nat)
    ensures
        focus_ids_upto(with_focus_flag(m, id, b), k) == focus_ids_upto(m, k),
    decreases k,
{
    if k > 1 {
        lemma_flag_keeps_ids_upto(m, id, b, (k - 1) as nat);
        let key = (k - 1) as u64;
        let m2 = with_focus_flag(m, id, b);
        assert(takes_focus(m2[key]) == takes_focus(m[key]));
        assert(m2[key].id == m[key].id);
    }
}

/// Moving focus only changes focus flags: the tree stays well formed, keeps
/// its focus order, and keeps every node stored under its own ID.
pub proof fn law_focus_move_keeps_structure(t: A11yTreeModel, cur: Option<u64>, id: u64)
    requires
        dense_keys(t.nodes, t.next_id),
    ensures
        dense_keys(moved_focus(t, cur, id).nodes, t.next_id),
        focus_order(moved_focus(t, cur, id)) == focus_order(t),
        ids_match(t.nodes) ==> ids_match(moved_focus(t, cur, id).nodes),
{
    let m1 = unfocused(t.nodes, cur);
    match cur {
        Some(c) => { lemma_flag_keeps_ids_upto(t.nodes, c, false, t.next_id as nat); },
        None => {},
    }
    lemma_flag_keeps_ids_upto(m1, id, true, t.next_id as nat);
    assert(m1.dom() =~= t.nodes.dom());
    assert(moved_focus(t, cur, id).nodes.dom() =~= t.nodes.dom());
}

proof fn lemma_ids_upto_increasing(m: Map<u64, A11yNode>, n: u64, k: nat)
    requires
        dense_keys(m, n),
        ids_match(m),
        k <= n,
    ensures
        forall|i: int, j: int| 0 <= i < j < focus_ids_upto(m, k).len()
            ==> focus_ids_upto(m, k)[i] < focus_ids_upto(m, k)[j],
        forall|i: int| 0 <= i < focus_ids_upto(m, k).len() ==> focus_ids_upto(m, k)[i] < k,
    decreases k,
{
    if k > 1 {
        lemma_ids_upto_increasing(m, n, (k - 1) as nat);
        let key = (k - 1) as u64;
        assert(key as nat == k - 1);
        assert(m.contains_key(key));
        let prev = focus_ids_upto(m, (k - 1) as nat);
        let s = focus_ids_upto(m, k);
        if takes_focus(m[key]) {
            assert(s == prev.push(key));
        } else {
            assert(s == prev);
        }
    }
}

proof fn lemma_insert_sorted_greatest(x: u64, s: Seq<u64>)
    requires
        forall|i: int| 0 <= i < s.len() ==> s[i] < x,
    ensures
        insert_sorted(x, s) == s.push(x),
    decreases s.len(),
{
    if s.len() > 0 {
        let t = s.drop_first();
        assert forall|i: int| 0 <= i < t.len() implies t[i] < x by {
            assert(t[i] == s[i + 1]);
        }
        lemma_insert_sorted_greatest(x, t);
        assert(seq![s[0]] + t.push(x) =~= s.push(x));
    }
}

proof fn lemma_sort_increasing(s: Seq<u64>)
    requires
        forall|i: int, j: int| 0 <= i < j < s.len() ==> s[i] < s[j],
    ensures
        sort_seq(s) == s,
    decreases s.len(),
{
    if s.len() > 0 {
        let d = s.drop_last();
        lemma_sort_increasing(d);
        assert forall|i: int| 0 <= i < d.len() implies d[i] < s.last() by {}
        lemma_insert_sorted_greatest(s.last(), d);
        assert(d.push(s.last()) =~= s);
    }
}

/// In a tree that stores every node under its own ID, the focus order is
/// strictly ascending (so free of repeats) and lists only IDs of stored nodes.
pub proof fn law_matching_ids_focus_order(t: A11yTreeModel)
    requires
        dense_keys(t.nodes, t.next_id),
        ids_match(t.nodes),
    ensures
        forall|i: int, j: int| 0 <= i < j < focus_order(t).len() ==> focus_order(t)[i] < focus_order(t)[j],
        focus_order(t).no_duplicates(),
        forall|i: int| 0 <= i < focus_order(t).len() ==> t.nodes.contains_key(#[trigger] focus_order(t)[i]),
{
    let s = focus_ids_upto(t.nodes, t.next_id as nat);
    lemma_ids_upto_increasing(t.nodes, t.next_id, t.next_id as nat);
    lemma_sort_increasing(s);
    lemma_ids_upto_positive(t.nodes, t.next_id, t.next_id as nat);
    assert forall|i: int| 0 <= i < s.len() implies t.nodes.contains_key(#[trigger] s[i]) by {}
}

proof fn lemma_ids_upto_positive(m: Map<u64, A11yNode>, n: u64, k: nat)
    requires
        ids_match(m),
        dense_keys(m, n),
        k <= n,
    ensures
        forall|i: int| 0 <= i < focus_ids_upto(m, k).len() ==> focus_ids_upto(m, k)[i] >= 1,
    decreases k,
{
    if k > 1 {
        lemma_ids_upto_positive(m, n, (k - 1) as nat);
        let key = (k - 1) as u64;
        assert(key as nat == k - 1);
        assert(m.contains_key(key));
        let prev = focus_ids_upto(m, (k - 1) as nat);
        if takes_focus(m[key]) {
            assert(focus_ids_upto(m, k) == prev.push(key));
        }
    }
}

proof fn lemma_find_index_found(s: Seq<u64>, c: u64)
    ensures
        find_index(s, c) matches Some(i) ==> i < s.len() && s[i as int] == c,
        find_index(s, c) is None ==> !s.contains(c),
    decreases s.len(),
{
    if s.len() > 0 {
        lemma_find_index_found(s.drop_first(), c);
        if s[0] != c {
            if s.contains(c) {
                let k = choose|k: int| 0 <= k < s.len() && s[k] == c;
                assert(s.drop_first()[k - 1] == c);
            }
        }
    }
}

proof fn lemma_find_index_unique(s: Seq<u64>, c: u64, j: nat)
    requires
        s.no_duplicates(),
        j < s.len(),
        s[j as int] == c,
    ensures
        find_index(s, c) == Some(j),
    decreases s.len(),
{
    if j > 0 {
        let t = s.drop_first();
        assert(t[j - 1] == c);
        assert(s[0] != c);
        lemma_find_index_unique(t, c, (j - 1) as nat);
    }
}

/// In a focus order without repeats, moving back from the ID that follows
/// `cur` gives `cur` again, and moving forward from the ID before `cur` gives
/// `cur` again.
pub proof fn law_prev_next_inverse(ids: Seq<u64>, cur: u64)
    requires
        ids.no_duplicates(),
        ids.contains(cur),
    ensures
        prev_focus(ids, Some(next_focus(ids, Some(cur)))) == cur,
        next_focus(ids, Some(prev_focus(ids, Some(cur)))) == cur,
{
    lemma_find_index_found(ids, cur);
    let i = find_index(ids, cur).unwrap();
    let n = ids.len();
    let j = ((i + 1) % n) as nat;
    lemma_find_index_unique(ids, ids[j as int], j);
    let p: nat = if i == 0 { (n - 1) as nat } else { (i - 1) as nat };
    lemma_find_index_unique(ids, ids[p as int], p);
    assert(i + 1 == n ==> (i + 1) % n == 0) by (nonlinear_arith)
        requires n > 0;
    assert(i + 1 < n ==> (i + 1) % n == i + 1) by (nonlinear_arith)
        requires n > 0;
    assert(p + 1 == n ==> (p + 1) % n == 0) by (nonlinear_arith)
        requires n > 0;
    assert(p + 1 < n ==> (p + 1) % n == p + 1) by (nonlinear_arith)
        requires n > 0;
}

/// Moving focus forward and then back returns focus to the node that had it,
/// in a tree that stores every node under its own ID; the second move sees
/// the same focus order as the first.
pub proof fn law_focus_back_after_forward(t: A11yTreeModel, cur: u64)
    requires
        dense_keys(t.nodes, t.next_id),
        ids_match(t.nodes),
        focus_order(t).contains(cur),
    ensures
        ({
            let nf = next_focus(focus_order(t), Some(cur));
            let t1 = moved_focus(t, Some(cur), nf);
            &&& focus_order(t1) == focus_order(t)
            &&& prev_focus(focus_order(t1), Some(nf)) == cur
        }),
{
    law_matching_ids_focus_order(t);
    let nf = next_focus(focus_order(t), Some(cur));
    law_focus_move_keeps_structure(t, Some(cur), nf);
    law_prev_next_inverse(focus_order(t), cur);
}

/// Adding a node, top-level or as a child, keeps every node stored under
/// its own ID.
pub proof fn law_add_keeps_ids_match(
    m: Map<u64, A11yNode>,
    new_m: Map<u64, A11yNode>,
    parent: u64,
    id: u64,
    node: A11yNode,
)
    requires
        ids_match(m),
    ensures
        ids_match(m.insert(id, A11yNode { id: id, ..node })),
        added_child(m, new_m, parent, id, node) ==> ids_match(new_m),
{
    let m1 = m.insert(id, A11yNode { id: id, ..node });
    assert forall|k: u64| #[trigger] m1.contains_key(k) implies m1[k].id == k by {}
    if added_child(m, new_m, parent, id, node) && m1.contains_key(parent) {
        assert forall|k: u64| #[trigger] new_m.contains_key(k) implies new_m[k].id == k by {
            if k == parent {
                assert(with_child(m1[parent], new_m[parent], id));
            }
        }
    }
}

/// When every node is stored under its own ID, moving focus forward (or
/// backward) through a non-empty focus order flags the newly focused node.
pub proof fn law_moved_focus_flags_node(t: A11yTreeModel, cur: Option<u64>)
    requires
        dense_keys(t.nodes, t.next_id),
        ids_match(t.nodes),
        focus_order(t).len() > 0,
    ensures
        ({
            let nf = next_focus(focus_order(t), cur);
            let t1 = moved_focus(t, cur, nf);
            t1.nodes.contains_key(nf) && t1.nodes[nf].focused
        }),
        ({
            let pf = prev_focus(focus_order(t), cur);
            let t1 = moved_focus(t, cur, pf);
            t1.nodes.contains_key(pf) && t1.nodes[pf].focused
        }),
{
    law_matching_ids_focus_order(t);
    let ids = focus_order(t);
    match cur {
        Some(c) => { lemma_find_index_found(ids, c); },
        None => {},
    }
    let nf = next_focus(ids, cur);
    let pf = prev_focus(ids, cur);
    assert(unfocused(t.nodes, cur).dom() =~= t.nodes.dom());
    match cur {
        Some(c) => {
            match find_index(ids, c) {
                Some(i) => {
                    assert((i + 1) % ids.len() < ids.len()) by (nonlinear_arith)
                        requires ids.len() > 0;
                    assert(t.nodes.contains_key(ids[((i + 1) % ids.len()) as int]));
                    if i > 0 {
                        assert(t.nodes.contains_key(ids[i - 1]));
                    }
                },
                None => {},
            }
        },
        None => {},
    }
    assert(t.nodes.contains_key(ids[0]));
    assert(t.nodes.contains_key(ids.last()));
}


/// The focus flags agree with the focused ID: exactly the node stored under
/// it is flagged.
pub open spec fn flags_match(m: Map<u64, A11yNode>, cur: Option<u64>) -> bool {
    forall|k: u64| #[trigger] m.contains_key(k) ==> (m[k].focused <==> cur == Some(k))
}

/// Moving focus to a stored node keeps the focus flags in agreement with the
/// focused ID.
pub proof fn law_moved_focus_keeps_flags(t: A11yTreeModel, cur: Option<u64>, id: u64)
    requires
        flags_match(t.nodes, cur),
        t.nodes.contains_key(id),
    ensures
        flags_match(moved_focus(t, cur, id).nodes, Some(id)),
{
    let m1 = unfocused(t.nodes, cur);
    let m2 = moved_focus(t, cur, id).nodes;
    assert forall|k: u64| #[trigger] m2.contains_key(k) implies (m2[k].focused <==> Some(id) == Some(k)) by {
        assert(m1.contains_key(k));
        if k != id {
            assert(m2[k] == m1[k]);
        }
    }
}

/// Moving focus forward and then back, and back and then forward, restores
/// every node, focus flags included, when the flags agree with the focus and
/// every node is stored under its own ID.
pub proof fn law_focus_flags_restored(t: A11yTreeModel, cur: u64)
    requires
        dense_keys(t.nodes, t.next_id),
        ids_match(t.nodes),
        focus_order(t).contains(cur),
        flags_match(t.nodes, Some(cur)),
    ensures
        ({
            let nf = next_focus(focus_order(t), Some(cur));
            let t1 = moved_focus(t, Some(cur), nf);
            moved_focus(t1, Some(nf), prev_focus(focus_order(t1), Some(nf))) == t
        }),
        ({
            let pf = prev_focus(focus_order(t), Some(cur));
            let t1 = moved_focus(t, Some(cur), pf);
            moved_focus(t1, Some(pf), next_focus(focus_order(t1), Some(pf))) == t
        }),
{
    let ids = focus_order(t);
    law_matching_ids_focus_order(t);
    law_prev_next_inverse(ids, cur);
    lemma_find_index_found(ids, cur);
    let i = find_index(ids, cur).unwrap();
    assert(ids.contains(ids[((i + 1) % ids.len()) as int])) by {
        assert(0 <= (i + 1) % ids.len() < ids.len()) by (nonlinear_arith)
            requires ids.len() > 0;
    }
    assert(ids.contains(ids.last()));
    let nf = next_focus(ids, Some(cur));
    let pf = prev_focus(ids, Some(cur));
    if i > 0 {
        assert(ids.contains(ids[i - 1]));
    }
    assert(ids.contains(nf) && ids.contains(pf));
    assert(t.nodes.contains_key(cur) && t.nodes.contains_key(nf) && t.nodes.contains_key(pf));
    lemma_move_and_back(t, cur, nf);
    lemma_move_and_back(t, cur, pf);
}

/// Moving focus from `cur` to a stored node `id` and straight back restores
/// the tree when the flags agree with the focus on `cur`.
proof fn lemma_move_and_back(t: A11yTreeModel, cur: u64, id: u64)
    requires
        dense_keys(t.nodes, t.next_id),
        flags_match(t.nodes, Some(cur)),
        t.nodes.contains_key(cur),
        t.nodes.contains_key(id),
    ensures
        focus_order(moved_focus(t, Some(cur), id)) == focus_order(t),
        moved_focus(moved_focus(t, Some(cur), id), Some(id), cur) == t,
{
    law_focus_move_keeps_structure(t, Some(cur), id);
    let t1 = moved_focus(t, Some(cur), id);
    let t2 = moved_focus(t1, Some(id), cur);
    assert forall|k: u64| #[trigger] t2.nodes.contains_key(k) <==> t.nodes.contains_key(k) by {}
    assert forall|k: u64| #[trigger] t.nodes.contains_key(k) implies t2.nodes[k] == t.nodes[k] by {
        if k == cur {
            assert(t.nodes[k].focused);
        } else if k == id {
            assert(!t.nodes[k].focused);
        }
    }
    assert(t2.nodes =~= t.nodes);
}
/// An ID among the nodes under keys `1 .. k` taking focus, in a tree that
/// stores every node under its own ID, is the key of a node marked focusable
/// and not disabled.
proof fn lemma_focus_ids_upto_members(m: Map<u64, A11yNode>, next_id: u64, k: nat, id: u64)
    requires
        dense_keys(m, next_id),
        ids_match(m),
        k <= next_id,
    ensures
        focus_ids_upto(m, k).contains(id) <==> (1 <= id < k && m[id].focusable && !m[id].disabled),
    decreases k,
{
    if k > 1 {
        let key = (k - 1) as u64;
        lemma_focus_ids_upto_members(m, next_id, (k - 1) as nat, id);
        assert(m.contains_key(key));
        let prev = focus_ids_upto(m, (k - 1) as nat);
        if m[key].focusable && !m[key].disabled {
            assert(focus_ids_upto(m, k) == prev.push(key));
            assert(prev.push(key).contains(id) <==> (prev.contains(id) || id == key)) by {
                if prev.push(key).contains(id) && id != key {
                    let j = choose|j: int| 0 <= j < prev.push(key).len() && prev.push(key)[j] == id;
                    assert(prev[j] == id);
                }
                if prev.contains(id) {
                    let j = choose|j: int| 0 <= j < prev.len() && prev[j] == id;
                    assert(prev.push(key)[j] == id);
                }
                if id == key {
                    assert(prev.push(key)[prev.len() as int] == id);
                }
            }
        } else {
            assert(focus_ids_upto(m, k) == prev);
        }
    }
}

/// Only nodes marked focusable and not disabled take part in keyboard focus:
/// in a tree that stores every node under its own ID, an ID is in the focus
/// order exactly when a node is stored under it with `focusable` set and
/// `disabled` clear.
pub proof fn law_focus_order_members(t: A11yTreeModel, id: u64)
    requires
        dense_keys(t.nodes, t.next_id),
        ids_match(t.nodes),
    ensures
        focus_order(t).contains(id) <==> (t.nodes.contains_key(id) && t.nodes[id].focusable
            && !t.nodes[id].disabled),
{
    broadcast use vstd::multiset::group_multiset_axioms, vstd::seq_lib::group_to_multiset_ensures;
    let ids = focus_ids_upto(t.nodes, t.next_id as nat);
    lemma_sort_seq(ids);
    lemma_focus_ids_upto_members(t.nodes, t.next_id, t.next_id as nat, id);
    assert(focus_order(t).contains(id) <==> focus_order(t).to_multiset().count(id) > 0);
    assert(ids.contains(id) <==> ids.to_multiset().count(id) > 0);
}

} // verus!
