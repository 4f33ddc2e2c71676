use vstd::prelude::*;
use crate::a11y::node::A11yNode;
use crate::a11y::tree::{A11yTree, A11yTreeModel, focus_order, with_focus_flag, dense_keys,
    focus_ids_upto, takes_focus};
use crate::sorting::sort_seq;

verus! {

/// Manages keyboard focus across an [`A11yTree`].
pub struct FocusManager {
    focused_id: Option<u64>,
}

impl View for FocusManager {
    type V = Option<u64>;

    closed spec fn view(&self) -> Option<u64> {
        self.focused_id
    }
}

/// Position of the first occurrence of `c` in `s`, if any.
pub open spec fn find_index(s: Seq<u64>, c: u64) -> Option<nat>
    decreases s.len(),
{
    if s.len() == 0 {
        None
    } else if s[0] == c {
        Some(0)
    } else {
        match find_index(s.drop_first(), c) {
            Some(i) => Some(i + 1),
            None => None,
        }
    }
}

/// The ID that takes focus when moving forward through `ids` (non-empty)
/// from `cur`: the first ID when nothing is focused or `cur` is not in the
/// order, otherwise the ID after `cur`, wrapping around to the first.
pub open spec fn next_focus(ids: Seq<u64>, cur: Option<u64>) -> u64 {
    match cur {
        None => ids[0],
        Some(c) => match find_index(ids, c) {
            Some(i) => ids[((i + 1) % ids.len()) as int],
            None => ids[0],
        },
    }
}

/// The ID that takes focus when moving backward through `ids` (non-empty)
/// from `cur`: the last ID when nothing is focused, the first when `cur` is
/// not in the order, otherwise the ID before `cur`, wrapping around to the last.
pub open spec fn prev_focus(ids: Seq<u64>, cur: Option<u64>) -> u64 {
    match cur {
        None => ids.last(),
        Some(c) => match find_index(ids, c) {
            Some(i) => if i == 0 { ids.last() } else { ids[i - 1] },
            None => ids[0],
        },
    }
}

/// The node map once the currently focused node (if any) has lost its focus flag.
pub open spec fn unfocused(m: Map<u64, A11yNode>, cur: Option<u64>) -> Map<u64, A11yNode> {
    match cur {
        Some(id) => with_focus_flag(m, id, false),
        None => m,
    }
}

/// The tree once focus moves from `cur` to `id`: the old node loses its
/// focus flag, then the node under `id` (if any) gets it.
pub open spec fn moved_focus(t: A11yTreeModel, cur: Option<u64>, id: u64) -> A11yTreeModel {
    A11yTreeModel { nodes: with_focus_flag(unfocused(t.nodes, cur), id, true), ..t }
}

impl FocusManager {
    /// A focus manager with nothing focused.
    pub fn new() -> (f: FocusManager)
        ensures
            f@ is None,
    {
        FocusManager { focused_id: None }
    }

    /// Currently focused node ID.
    pub fn focused_id(&self) -> (r: Option<u64>)
        ensures
            r == self@,
    {
        self.focused_id
    }

    fn clear_focus(&self, tree: &mut A11yTree)
        ensures
            final(tree).wf(),
            final(tree)@ == (A11yTreeModel { nodes: unfocused(old(tree)@.nodes, self@), ..old(tree)@ }),
    {
        proof {
            use_type_invariant(&*tree);
        }
        if let Some(id) = self.focused_id {
            if let Some(node) = tree.get_mut(id) {
                node.focused = false;
            }
        }
        proof {
            assert(tree@.nodes.dom() =~= old(tree)@.nodes.dom());
        }
    }

    fn set_focus(&mut self, tree: &mut A11yTree, id: u64)
        ensures
            final(tree).wf(),
            final(self)@ == Some(id),
            final(tree)@ == moved_focus(old(tree)@, old(self)@, id),
    {
        proof {
            use_type_invariant(&*tree);
        }
        self.clear_focus(tree);
        self.focused_id = Some(id);
        if let Some(node) = tree.get_mut(id) {
            node.focused = true;
        }
        proof {
            assert(tree@.nodes.dom() =~= old(tree)@.nodes.dom());
        }
    }

    /// Moves focus to the next node of the focus order, wrapping around;
    /// does nothing when no node can take focus.
    pub fn focus_next(&mut self, tree: &mut A11yTree)
        ensures
            final(tree).wf(),
            focus_order(old(tree)@).len() == 0 ==> final(self)@ == old(self)@ && final(tree)@ == old(tree)@,
            focus_order(old(tree)@).len() > 0 ==> {
                let id = next_focus(focus_order(old(tree)@), old(self)@);
                &&& final(self)@ == Some(id)
                &&& final(tree)@ == moved_focus(old(tree)@, old(self)@, id)
            },
    {
        proof {
            use_type_invariant(&*tree);
        }
        let ids = tree.focusable_ids();
        if ids.len() == 0 {
            return;
        }
        let next = match self.focused_id {
            None => ids[0],
            Some(cur) => match position(&ids, cur) {
                Some(i) => ids[(i + 1) % ids.len()],
                None => ids[0],
            },
        };
        self.set_focus(tree, next);
    }

    /// Moves focus to the previous node of the focus order, wrapping around;
    /// does nothing when no node can take focus.
    pub fn focus_prev(&mut self, tree: &mut A11yTree)
        ensures
            final(tree).wf(),
            focus_order(old(tree)@).len() == 0 ==> final(self)@ == old(self)@ && final(tree)@ == old(tree)@,
            focus_order(old(tree)@).len() > 0 ==> {
                let id = prev_focus(focus_order(old(tree)@), old(self)@);
                &&& final(self)@ == Some(id)
                &&& final(tree)@ == moved_focus(old(tree)@, old(self)@, id)
            },
    {
        proof {
            use_type_invariant(&*tree);
        }
        let ids = tree.focusable_ids();
        if ids.len() == 0 {
            return;
        }
        let prev = match self.focused_id {
            None => ids[ids.len() - 1],
            Some(cur) => match position(&ids, cur) {
                Some(i) => if i == 0 { ids[ids.len() - 1] } else { ids[i - 1] },
                None => ids[0],
            },
        };
        self.set_focus(tree, prev);
    }

    /// Focuses a specific node by ID (the ID is recorded even when no such
    /// node exists).
    pub fn focus(&mut self, tree: &mut A11yTree, id: u64)
        ensures
            final(tree).wf(),
            final(self)@ == Some(id),
            final(tree)@ == moved_focus(old(tree)@, old(self)@, id),
    {
        proof {
            use_type_invariant(&*tree);
        }
        self.set_focus(tree, id);
    }

    /// Removes focus: the focused node loses its flag and nothing is focused.
    pub fn blur(&mut self, tree: &mut A11yTree)
        ensures
            final(tree).wf(),
            final(self)@ is None,
            final(tree)@ == (A11yTreeModel { nodes: unfocused(old(tree)@.nodes, old(self)@), ..old(tree)@ }),
    {
        proof {
            use_type_invariant(&*tree);
        }
        self.clear_focus(tree);
        self.focused_id = None;
    }
}

/// Index of the first occurrence of `c` in `ids`.
fn position(ids: &Vec<u64>, c: u64) -> (r: Option<usize>)
    ensures
        r matches Some(i) ==> find_index(ids@, c) == Some(i as nat),
        r is None ==> find_index(ids@, c) is None,
        r matches Some(i) ==> i < ids@.len() && ids@[i as int] == c,
{
    let mut i: usize = 0;
    while i < ids.len()
        invariant
            i <= ids@.len(),
            forall|k: int| 0 <= k < i ==> ids@[k] != c,
        decreases ids@.len() - i,
    {
        if ids[i] == c {
            proof { lemma_find_index_first(ids@, c, i as nat); }
            return Some(i);
        }
        i = i + 1;
    }
    proof { lemma_find_index_none(ids@, c); }
    None
}

proof fn lemma_find_index_first(s: Seq<u64>, c: u64, i: nat)
    requires
        i < s.len(),
        s[i as int] == c,
        forall|k: int| 0 <= k < i ==> s[k] != c,
    ensures
        find_index(s, c) == Some(i),
    decreases i,
{
    if i > 0 {
        let t = s.drop_first();
        assert forall|k: int| 0 <= k < i - 1 implies t[k] != c by {
            assert(t[k] == s[k + 1]);
        }
        assert(t[i - 1] == s[i as int]);
        lemma_find_index_first(t, c, (i - 1) as nat);
    }
}

proof fn lemma_find_index_none(s: Seq<u64>, c: u64)
    requires
        forall|k: int| 0 <= k < s.len() ==> s[k] != c,
    ensures
        find_index(s, c) is None,
    decreases s.len(),
{
    if s.len() > 0 {
        let t = s.drop_first();
        assert forall|k: int| 0 <= k < t.len() implies t[k] != c by {
            assert(t[k] == s[k + 1]);
        }
        lemma_find_index_none(t, c);
    }
}

impl Default for FocusManager {
    fn default() -> (f: FocusManager)
        ensures
            f@ is None,
    {
        FocusManager::new()
    }
}

} // verus!
