use vstd::prelude::*;
use vstd::string::*;
use std::collections::HashMap;
use vstd::std_specs::iter::IteratorSpec;
use vstd::std_specs::hash::spec_keys_iter;
use crate::textfmt::{dec_digits, pad_left, decimal, push_char};
use crate::sorting::{sort_ids, sort_seq, lemma_sort_seq, is_sorted};

verus! {

broadcast use vstd::std_specs::hash::group_hash_axioms, vstd::string::group_string_axioms;

/// A single atom entry in a snapshot.
#[derive(Debug, Clone)]
pub struct AtomEntry {
    pub atom_id: u64,
    pub type_label: &'static str,
    pub display: String,
}

/// Builds the entry of one atom from its ID, the name of its value's type
/// and the debug text of its value.
pub fn atom_entry(id: u64, type_label: &'static str, display: String) -> (e: AtomEntry)
    ensures
        e.atom_id == id,
        e.type_label == type_label,
        e.display == display,
{
    AtomEntry { atom_id: id, type_label, display }
}

/// A snapshot of atom values at a point in time, keyed by atom ID.
#[derive(Debug)]
pub struct AtomSnapshot {
    pub entries: HashMap<u64, AtomEntry>,
}

impl Default for AtomSnapshot {
    fn default() -> (s: AtomSnapshot)
        ensures
            s.entries@ == Map::<u64, AtomEntry>::empty(),
    {
        AtomSnapshot { entries: HashMap::new() }
    }
}

/// Records atom state snapshots, keeping at most a given number of the most
/// recent ones.
pub struct AtomInspector {
    history: Vec<AtomSnapshot>,
    max_snapshots: usize,
}

/// The abstract state of an [`AtomInspector`]: the recorded snapshots, oldest
/// first, and the number of snapshots it keeps.
pub struct AtomInspectorModel {
    pub history: Seq<AtomSnapshot>,
    pub max_snapshots: usize,
}

impl View for AtomInspector {
    type V = AtomInspectorModel;

    closed spec fn view(&self) -> AtomInspectorModel {
        AtomInspectorModel { history: self.history@, max_snapshots: self.max_snapshots }
    }
}

/// The history after recording `snap`: when it already holds `max` or more
/// snapshots the oldest is dropped first.
pub open spec fn recorded(history: Seq<AtomSnapshot>, max: usize, snap: AtomSnapshot) -> Seq<AtomSnapshot> {
    if history.len() >= max {
        history.drop_first().push(snap)
    } else {
        history.push(snap)
    }
}

/// A strictly ascending sequence.
pub open spec fn strictly_ascending(s: Seq<u64>) -> bool {
    forall|i: int, j: int| 0 <= i < j < s.len() ==> s[i] < s[j]
}

/// The keys of a map in ascending order.
pub open spec fn sorted_keys(m: Map<u64, AtomEntry>) -> Seq<u64> {
    choose|s: Seq<u64>| strictly_ascending(s) && s.to_set() == m.dom()
}

/// One line of the atom table: the atom ID right-aligned in six columns,
/// then the type name and the displayed value.
pub open spec fn entry_line(e: AtomEntry) -> Seq<char> {
    "│  ["@ + pad_left(dec_digits(e.atom_id as nat), 6) + "] "@ + e.type_label@ + " = "@ + e.display@ + "\n"@
}

/// The table lines for the entries under `keys`, in that order.
pub open spec fn entry_lines(m: Map<u64, AtomEntry>, keys: Seq<u64>) -> Seq<char>
    decreases keys.len(),
{
    if keys.len() == 0 {
        Seq::empty()
    } else {
        entry_lines(m, keys.drop_last()) + entry_line(m[keys.last()])
    }
}

/// The ASCII table of a snapshot: a header, one line per atom in ascending
/// atom-ID order, and a footer.
pub open spec fn snapshot_table(s: AtomSnapshot) -> Seq<char> {
    "┌─ ATOMS ─────────────────────────────────────────\n"@
        + entry_lines(s.entries@, sorted_keys(s.entries@))
        + "└─────────────────────────────────────────────────\n"@
}

impl AtomInspector {
    /// An inspector with no snapshots that keeps the 60 most recent.
    pub fn new() -> (i: AtomInspector)
        ensures
            i@.history == Seq::<AtomSnapshot>::empty(),
            i@.max_snapshots == 60,
    {
        AtomInspector { history: Vec::new(), max_snapshots: 60 }
    }

    /// Sets how many snapshots are kept.
    pub fn max_snapshots(self, n: usize) -> (i: AtomInspector)
        ensures
            i@.history == self@.history,
            i@.max_snapshots == n,
    {
        AtomInspector { max_snapshots: n, ..self }
    }

    /// Records a new snapshot, dropping the oldest when the history is full.
    pub fn record(&mut self, snapshot: AtomSnapshot)
        requires
            old(self)@.max_snapshots > 0 || old(self)@.history.len() > 0,
        ensures
            final(self)@.max_snapshots == old(self)@.max_snapshots,
            final(self)@.history == recorded(old(self)@.history, old(self)@.max_snapshots, snapshot),
    {
        if self.history.len() >= self.max_snapshots {
            self.history.remove(0);
        }
        self.history.push(snapshot);
        proof {
            let h = old(self)@.history;
            if h.len() >= old(self)@.max_snapshots {
                assert(self.history@ =~= h.drop_first().push(snapshot));
            }
        }
    }

    /// How many snapshots are stored.
    pub fn snapshot_count(&self) -> (n: usize)
        ensures
            n == self@.history.len(),
    {
        self.history.len()
    }

    /// The most recent snapshot.
    pub fn latest(&self) -> (r: Option<&AtomSnapshot>)
        ensures
            r == (if self@.history.len() > 0 { Some(&self@.history.last()) } else { None }),
    {
        let n = self.history.len();
        if n > 0 {
            Some(&self.history[n - 1])
        } else {
            None
        }
    }

    /// The snapshot `offset_from_latest` frames back (0 = latest).
    pub fn at_frame(&self, offset_from_latest: usize) -> (r: Option<&AtomSnapshot>)
        ensures
            r == (if offset_from_latest < self@.history.len() {
                Some(&self@.history[self@.history.len() - 1 - offset_from_latest])
            } else {
                None
            }),
    {
        let n = self.history.len();
        if offset_from_latest < n {
            Some(&self.history[n - 1 - offset_from_latest])
        } else {
            None
        }
    }

    /// Clears all history.
    pub fn clear(&mut self)
        ensures
            final(self)@.history == Seq::<AtomSnapshot>::empty(),
            final(self)@.max_snapshots == old(self)@.max_snapshots,
    {
        self.history.clear();
    }

    /// The latest snapshot as an ASCII table, or a notice when there is none.
    pub fn render_latest(&self) -> (s: String)
        ensures
            s@ == (if self@.history.len() > 0 {
                snapshot_table(self@.history.last())
            } else {
                "[AtomInspector] No snapshots yet.\n"@
            }),
    {
        match self.latest() {
            None => String::from_str("[AtomInspector] No snapshots yet.\n"),
            Some(snap) => render_table(snap),
        }
    }
}

fn render_table(snap: &AtomSnapshot) -> (s: String)
    ensures
        s@ == snapshot_table(*snap),
{
    let mut out = String::from_str("┌─ ATOMS ─────────────────────────────────────────\n");
    let ghost head = out@;
    let ids = ascending_keys(&snap.entries);
    let mut i: usize = 0;
    while i < ids.len()
        invariant
            i <= ids@.len(),
            ids@ == sorted_keys(snap.entries@),
            ids@.to_set() == snap.entries@.dom(),
            out@ == head + entry_lines(snap.entries@, ids@.take(i as int)),
        decreases ids@.len() - i,
    {
        let id = ids[i];
        assert(ids@.contains(id));
        assert(ids@.to_set().contains(id));
        let e = snap.entries.get(&id).unwrap();
        write_entry_line(&mut out, e);
        proof {
            assert(ids@.take(i + 1).drop_last() =~= ids@.take(i as int));
        }
        i = i + 1;
    }
    proof { assert(ids@.take(ids@.len() as int) =~= ids@); }
    out.append("└─────────────────────────────────────────────────\n");
    out
}

fn write_entry_line(out: &mut String, e: &AtomEntry)
    ensures
        final(out)@ == old(out)@ + entry_line(*e),
{
    let ghost start = out@;
    out.append("│  [");
    let digits = decimal(e.atom_id);
    let len = digits.unicode_len();
    let mut pad: usize = len;
    while pad < 6
        invariant
            len == dec_digits(e.atom_id as nat).len(),
            len <= pad <= 6 || (pad == len && len > 6),
            out@ == start + "│  ["@ + Seq::new((pad - len) as nat, |i: int| ' '),
        decreases 6 - pad,
    {
        push_char(out, ' ');
        proof {
            assert(Seq::new((pad + 1 - len) as nat, |i: int| ' ') =~= Seq::new((pad - len) as nat, |i: int| ' ').push(' '));
        }
        pad = pad + 1;
    }
    out.append(digits.as_str());
    out.append("] ");
    out.append(e.type_label);
    out.append(" = ");
    out.append(e.display.as_str());
    out.append("\n");
    proof {
        let d = dec_digits(e.atom_id as nat);
        if d.len() >= 6 {
            assert(Seq::new((pad - len) as nat, |i: int| ' ') =~= Seq::<char>::empty());
        }
        assert(out@ =~= start + entry_line(*e));
    }
}

/// The keys of `m` in ascending order.
fn ascending_keys(m: &HashMap<u64, AtomEntry>) -> (ks: Vec<u64>)
    ensures
        ks@ == sorted_keys(m@),
        ks@.to_set() == m@.dom(),
{
    let mut ks: Vec<u64> = Vec::new();
    let ghost all = spec_keys_iter(m).remaining().unref();
    assert(all.to_set() == m@.dom());
    for k in it: m.keys()
        invariant
            it.seq().unref() == all,
            ks@ == all.take(it.index() as int),
    {
        proof {
            assert(all.take(it.index() + 1) =~= all.take(it.index() as int).push(all[it.index() as int]));
        }
        ks.push(*k);
    }
    assert(ks@ =~= all);
    let ghost unsorted = ks@;
    sort_ids(&mut ks);
    proof {
        lemma_sort_seq(unsorted);
        lemma_sorted_distinct_ascending(ks@, unsorted);
        lemma_ascending_unique(ks@, m@);
    }
    ks
}

proof fn lemma_sorted_distinct_ascending(s: Seq<u64>, orig: Seq<u64>)
    requires
        is_sorted(s),
        s.to_multiset() == orig.to_multiset(),
        orig.no_duplicates(),
    ensures
        strictly_ascending(s),
        s.to_set() == orig.to_set(),
{
    broadcast use vstd::multiset::group_multiset_axioms, vstd::seq_lib::group_to_multiset_ensures;
    assert forall|x: u64| s.to_set().contains(x) <==> orig.to_set().contains(x) by {
        assert(s.contains(x) <==> s.to_multiset().count(x) > 0);
        assert(orig.contains(x) <==> orig.to_multiset().count(x) > 0);
    }
    assert(s.to_set() =~= orig.to_set());
    orig.lemma_multiset_has_no_duplicates();
    s.lemma_multiset_has_no_duplicates_conv();
    assert forall|i: int, j: int| 0 <= i < j < s.len() implies s[i] < s[j] by {
        assert(s[i] <= s[j]);
        assert(s[i] != s[j]);
    }
}

proof fn lemma_ascending_unique(a: Seq<u64>, m: Map<u64, AtomEntry>)
    requires
        strictly_ascending(a),
        a.to_set() == m.dom(),
    ensures
        a == sorted_keys(m),
{
    assert(strictly_ascending(a) && a.to_set() == m.dom());
    let b = sorted_keys(m);
    assert(strictly_ascending(b) && b.to_set() == m.dom());
    lemma_ascending_eq(a, b);
}

proof fn lemma_ascending_eq(a: Seq<u64>, b: Seq<u64>)
    requires
        strictly_ascending(a),
        strictly_ascending(b),
        a.to_set() == b.to_set(),
    ensures
        a == b,
    decreases a.len(),
{
    if a.len() == 0 {
        if b.len() > 0 {
            assert(b.to_set().contains(b[0]));
        }
    } else if b.len() == 0 {
        assert(a.to_set().contains(a[0]));
    } else {
        // the first elements are both the least element of the set
        assert(a.to_set().contains(a[0]));
        assert(b.to_set().contains(b[0]));
        assert(b.contains(a[0]));
        assert(a.contains(b[0]));
        let ka = choose|k: int| 0 <= k < a.len() && a[k] == b[0];
        let kb = choose|k: int| 0 <= k < b.len() && b[k] == a[0];
        assert(a[0] <= a[ka]);
        assert(b[0] <= b[kb]);
        assert(a[0] == b[0]);
        let a1 = a.drop_first();
        let b1 = b.drop_first();
        assert forall|x: u64| a1.to_set().contains(x) <==> b1.to_set().contains(x) by {
            if a1.contains(x) {
                let k = choose|k: int| 0 <= k < a1.len() && a1[k] == x;
                assert(a[k + 1] == x);
                assert(a.contains(x));
                assert(b.to_set().contains(x));
                let m = choose|m: int| 0 <= m < b.len() && b[m] == x;
                assert(x != a[0]);
                assert(m != 0);
                assert(b1[m - 1] == x);
            }
            if b1.contains(x) {
                let k = choose|k: int| 0 <= k < b1.len() && b1[k] == x;
                assert(b[k + 1] == x);
                assert(b.contains(x));
                assert(a.to_set().contains(x));
                let m = choose|m: int| 0 <= m < a.len() && a[m] == x;
                assert(x != b[0]);
                assert(m != 0);
                assert(a1[m - 1] == x);
            }
        }
        assert(a1.to_set() =~= b1.to_set());
        lemma_ascending_eq(a1, b1);
        assert(a =~= seq![a[0]] + a1);
        assert(b =~= seq![b[0]] + b1);
    }
}

impl Default for AtomInspector {
    fn default() -> (i: AtomInspector)
        ensures
            i@.history == Seq::<AtomSnapshot>::empty(),
            i@.max_snapshots == 60,
    {
        AtomInspector::new()
    }
}

/// Recording a snapshot makes it the latest one and shifts every earlier
/// snapshot one frame further back. The history grows by one while below
/// the configured bound; once at (or past) it, its length stays the same, so
/// exactly the oldest snapshot drops out.
pub proof fn law_record_latest(history: Seq<AtomSnapshot>, max: usize, snap: AtomSnapshot)
    requires
        max > 0 || history.len() > 0,
    ensures
        recorded(history, max, snap).last() == snap,
        history.len() <= max ==> recorded(history, max, snap).len() <= max,
        history.len() < max ==> recorded(history, max, snap).len() == history.len() + 1,
        history.len() >= max ==> recorded(history, max, snap).len() == history.len(),
        forall|k: int| 1 <= k < recorded(history, max, snap).len() ==>
            #[trigger] recorded(history, max, snap)[recorded(history, max, snap).len() - 1 - k]
                == history[history.len() - k],
{
    let r = recorded(history, max, snap);
    assert forall|k: int| 1 <= k < r.len() implies #[trigger] r[r.len() - 1 - k] == history[history.len() - k] by {
        if history.len() >= max {
            assert(r =~= history.drop_first().push(snap));
        } else {
            assert(r =~= history.push(snap));
        }
    }
}

} // verus!
