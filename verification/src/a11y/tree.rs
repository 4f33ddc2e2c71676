use vstd::prelude::*;
use vstd::string::*;
use std::collections::HashMap;
use crate::a11y::node::{A11yNode, node_json};
use crate::sorting::{sort_seq, sort_ids, lemma_sort_seq, is_sorted};

verus! {

broadcast use vstd::std_specs::hash::group_hash_axioms;

/// A flat registry of accessibility nodes, built alongside the widget tree
/// each frame. Nodes are keyed by the IDs the tree hands out: 1, 2, 3, ...
pub struct A11yTree {
    nodes: HashMap<u64, A11yNode>,
    next_id: u64,
    /// Root node IDs (top-level nodes with no parent).
    roots: Vec<u64>,
}

/// The abstract state of an [`A11yTree`]: its nodes by ID, the ID the next
/// added node receives, and the top-level node IDs in insertion order.
#[verifier::ext_equal]
pub struct A11yTreeModel {
    pub nodes: Map<u64, A11yNode>,
    pub next_id: u64,
    pub roots: Seq<u64>,
}

impl View for A11yTree {
    type V = A11yTreeModel;

    closed spec fn view(&self) -> A11yTreeModel {
        A11yTreeModel { nodes: self.nodes@, next_id: self.next_id, roots: self.roots@ }
    }
}

/// The keys of `m` are exactly the IDs `1 .. next_id`.
pub open spec fn dense_keys(m: Map<u64, A11yNode>, next_id: u64) -> bool {
    &&& next_id >= 1
    &&& forall|k: u64| #[trigger] m.contains_key(k) <==> 1 <= k < next_id
}

/// A node can take keyboard focus: it is focusable and not disabled.
pub open spec fn takes_focus(n: A11yNode) -> bool {
    n.focusable && !n.disabled
}

/// The IDs (as held by the nodes themselves) of the nodes under keys
/// `1 .. k` that take focus, in key order.
pub open spec fn focus_ids_upto(m: Map<u64, A11yNode>, k: nat) -> Seq<u64>
    decreases k,
{
    if k <= 1 {
        Seq::empty()
    } else {
        let prev = focus_ids_upto(m, (k - 1) as nat);
        let key = (k - 1) as u64;
        if takes_focus(m[key]) {
            prev.push(m[key].id)
        } else {
            prev
        }
    }
}

/// The focus order of a tree: the IDs of all nodes that take focus, ascending.
pub open spec fn focus_order(t: A11yTreeModel) -> Seq<u64> {
    sort_seq(focus_ids_upto(t.nodes, t.next_id as nat))
}

/// The JSON objects of the nodes under keys `1 .. k`, joined by commas.
pub open spec fn items_json(m: Map<u64, A11yNode>, k: nat) -> Seq<char>
    decreases k,
{
    if k <= 1 {
        Seq::empty()
    } else if k == 2 {
        node_json(m[1])
    } else {
        items_json(m, (k - 1) as nat) + ","@ + node_json(m[(k - 1) as u64])
    }
}

/// The tree as a JSON array of its node objects in ID order.
pub open spec fn tree_json(t: A11yTreeModel) -> Seq<char> {
    "["@ + items_json(t.nodes, t.next_id as nat) + "]"@
}

/// `m` with the node under `id` (if any) given the focus flag `b`.
pub open spec fn with_focus_flag(m: Map<u64, A11yNode>, id: u64, b: bool) -> Map<u64, A11yNode> {
    if m.contains_key(id) {
        m.insert(id, A11yNode { focused: b, ..m[id] })
    } else {
        m
    }
}

/// `b` is `a` with `id` appended to its children and nothing else changed.
pub open spec fn with_child(a: A11yNode, b: A11yNode, id: u64) -> bool {
    &&& b.children@ == a.children@.push(id)
    &&& b == (A11yNode { children: b.children, ..a })
}

/// `new_m` is `m` after adding `node` under `id` as a child of `parent`: the
/// node is stored with its ID set, and the parent (if present, the new node
/// included) lists the new ID last among its children.
pub open spec fn added_child(m: Map<u64, A11yNode>, new_m: Map<u64, A11yNode>, parent: u64, id: u64, node: A11yNode) -> bool {
    let m1 = m.insert(id, A11yNode { id: id, ..node });
    if m1.contains_key(parent) {
        &&& new_m.dom() == m1.dom()
        &&& forall|k: u64| #[trigger] new_m.contains_key(k) && k != parent ==> new_m[k] == m1[k]
        &&& with_child(m1[parent], new_m[parent], id)
    } else {
        new_m == m1
    }
}

/// `m.get_mut(k)` on a node map.
#[verifier::external_body]
fn node_get_mut<'a>(m: &'a mut HashMap<u64, A11yNode>, k: u64) -> (r: Option<&'a mut A11yNode>)
    ensures
        match r {
            Some(v) => old(m)@.contains_key(k) && *v == old(m)@[k] && final(m)@ == old(m)@.insert(k, *final(v)),
            None => !old(m)@.contains_key(k) && final(m)@ == old(m)@,
        },
    no_unwind
{
    m.get_mut(&k)
}

impl A11yTree {
    /// The tree's structural invariant, which every tree keeps: its keys are
    /// exactly `1 .. next_id`.
    #[verifier::type_invariant]
    pub open spec fn wf(&self) -> bool {
        dense_keys(self@.nodes, self@.next_id)
    }


    /// An empty tree whose first node will receive ID 1.
    pub fn new() -> (t: A11yTree)
        ensures
            t.wf(),
            t@.nodes == Map::<u64, A11yNode>::empty(),
            t@.next_id == 1,
            t@.roots == Seq::<u64>::empty(),
    {
        A11yTree { nodes: HashMap::new(), next_id: 1, roots: Vec::new() }
    }

    /// Adds a top-level node and returns its assigned ID.
    pub fn add(&mut self, node: A11yNode) -> (id: u64)
        requires
            old(self)@.next_id < u64::MAX,
        ensures
            final(self).wf(),
            id == old(self)@.next_id,
            final(self)@.next_id == id + 1,
            final(self)@.nodes == old(self)@.nodes.insert(id, A11yNode { id: id, ..node }),
            final(self)@.roots == old(self)@.roots.push(id),
    {
        let mut t = A11yTree::new();
        std::mem::swap(&mut t, self);
        proof {
            use_type_invariant(&t);
        }
        let A11yTree { mut nodes, next_id: id, mut roots } = t;
        let mut node = node;
        node.id = id;
        roots.push(id);
        nodes.insert(id, node);
        proof {
            assert forall|k: u64| #[trigger] nodes@.contains_key(k) <==> 1 <= k < id + 1 by {}
        }
        *self = A11yTree { nodes, next_id: id + 1, roots };
        id
    }

    /// Adds a node as a child of `parent_id` and returns its assigned ID.
    /// The parent, when it exists, records the new ID as its last child.
    pub fn add_child(&mut self, parent_id: u64, node: A11yNode) -> (id: u64)
        requires
            old(self)@.next_id < u64::MAX,
        ensures
            final(self).wf(),
            id == old(self)@.next_id,
            final(self)@.next_id == id + 1,
            added_child(old(self)@.nodes, final(self)@.nodes, parent_id, id, node),
            final(self)@.roots == old(self)@.roots,
    {
        let mut t = A11yTree::new();
        std::mem::swap(&mut t, self);
        proof {
            use_type_invariant(&t);
        }
        let A11yTree { mut nodes, next_id: id, roots } = t;
        let mut node = node;
        node.id = id;
        nodes.insert(id, node);
        let ghost m1 = nodes@;
        match node_get_mut(&mut nodes, parent_id) {
            Some(parent) => {
                parent.children.push(id);
            },
            None => {},
        }
        proof {
            if m1.contains_key(parent_id) {
                assert(nodes@.dom() =~= m1.dom());
                assert(with_child(m1[parent_id], nodes@[parent_id], id));
            }
            assert forall|k: u64| #[trigger] nodes@.contains_key(k) <==> 1 <= k < id + 1 by {}
        }
        *self = A11yTree { nodes, next_id: id + 1, roots };
        id
    }

    /// The node with the given ID, if any.
    pub fn get(&self, id: u64) -> (r: Option<&A11yNode>)
        ensures
            r == (if self@.nodes.contains_key(id) { Some(&self@.nodes[id]) } else { None }),
    {
        self.nodes.get(&id)
    }

    /// Mutable access to the node with the given ID, if any.
    pub fn get_mut(&mut self, id: u64) -> (r: Option<&mut A11yNode>)
        ensures
            final(self)@.next_id == old(self)@.next_id,
            final(self)@.roots == old(self)@.roots,
            match r {
                Some(v) => old(self)@.nodes.contains_key(id) && *v == old(self)@.nodes[id]
                    && final(self)@.nodes == old(self)@.nodes.insert(id, *final(v)),
                None => !old(self)@.nodes.contains_key(id) && final(self)@.nodes == old(self)@.nodes,
            },
    {
        proof {
            use_type_invariant(&*self);
        }
        node_get_mut(&mut self.nodes, id)
    }

    /// The IDs of all nodes that can take focus (focusable and not
    /// disabled), in ascending order.
    pub fn focusable_ids(&self) -> (ids: Vec<u64>)
        ensures
            ids@ == focus_order(self@),
    {
        proof {
            use_type_invariant(self);
        }
        let mut ids: Vec<u64> = Vec::new();
        let mut k: u64 = 1;
        while k < self.next_id
            invariant
                self.wf(),
                1 <= k <= self.next_id,
                ids@ == focus_ids_upto(self@.nodes, k as nat),
            decreases self.next_id - k,
        {
            assert(self.nodes@.contains_key(k));
            let n = self.nodes.get(&k).unwrap();
            if n.focusable && !n.disabled {
                ids.push(n.id);
            }
            k = k + 1;
        }
        sort_ids(&mut ids);
        ids
    }

    /// Total node count.
    pub fn len(&self) -> (n: usize)
        ensures
            n == self@.nodes.len(),
    {
        self.nodes.len()
    }

    /// Whether the tree holds no node.
    pub fn is_empty(&self) -> (b: bool)
        ensures
            b == (self@.nodes.len() == 0),
    {
        self.nodes.is_empty()
    }

    /// Removes every node; the next added node receives ID 1 again.
    pub fn clear(&mut self)
        ensures
            final(self).wf(),
            final(self)@.nodes == Map::<u64, A11yNode>::empty(),
            final(self)@.next_id == 1,
            final(self)@.roots == Seq::<u64>::empty(),
    {
        *self = A11yTree::new();
    }

    /// The whole tree as a JSON array of node objects in ID order.
    pub fn to_aria_json(&self) -> (s: String)
        ensures
            s@ == tree_json(self@),
    {
        proof {
            use_type_invariant(self);
        }
        let mut out = String::new();
        out.append("[");
        let mut k: u64 = 1;
        while k < self.next_id
            invariant
                self.wf(),
                1 <= k <= self.next_id,
                out@ == "["@ + items_json(self@.nodes, k as nat),
            decreases self.next_id - k,
        {
            assert(self.nodes@.contains_key(k));
            let n = self.nodes.get(&k).unwrap();
            if k > 1 {
                out.append(",");
            }
            let js = n.to_json();
            out.append(js.as_str());
            proof {
                if k == 1 {
                    assert(items_json(self@.nodes, 2) == node_json(self@.nodes[1]));
                }
            }
            k = k + 1;
        }
        out.append("]");
        out
    }
}

impl Default for A11yTree {
    fn default() -> (t: A11yTree)
        ensures
            t.wf(),
            t@.nodes == Map::<u64, A11yNode>::empty(),
            t@.next_id == 1,
            t@.roots == Seq::<u64>::empty(),
    {
        A11yTree::new()
    }
}

} // verus!
