use tezzera::devtools::atom_inspector::{atom_entry, AtomInspector, AtomSnapshot};

#[test]
fn atom_inspector_new_empty() {
    let inspector = AtomInspector::new();
    assert_eq!(inspector.snapshot_count(), 0);
    assert!(inspector.latest().is_none());
}

#[test]
fn atom_entry_helper_sets_fields() {
    let entry = atom_entry(42, "u32", format!("{:?}", &100u32));
    assert_eq!(entry.atom_id, 42);
    assert_eq!(entry.type_label, "u32");
    assert_eq!(entry.display, "100");
}

#[test]
fn atom_snapshot_insert_and_retrieve() {
    let mut snap = AtomSnapshot::default();
    snap.entries.insert(1, atom_entry(1, "&str", format!("{:?}", &"hello")));
    assert!(snap.entries.contains_key(&1));
    assert_eq!(snap.entries[&1].display, "\"hello\"");
}

#[test]
fn atom_inspector_record_snapshot() {
    let mut inspector = AtomInspector::new();
    let mut snap = AtomSnapshot::default();
    snap.entries.insert(7, atom_entry(7, "i32", format!("{:?}", &42i32)));
    inspector.record(snap);
    assert_eq!(inspector.snapshot_count(), 1);
}

#[test]
fn atom_inspector_at_frame_latest() {
    let mut inspector = AtomInspector::new();
    let mut snap = AtomSnapshot::default();
    snap.entries.insert(1, atom_entry(1, "bool", format!("{:?}", &true)));
    inspector.record(snap);
    assert!(inspector.at_frame(0).is_some());
    assert_eq!(inspector.at_frame(0).unwrap().entries[&1].display, "true");
}

#[test]
fn atom_inspector_at_frame_offset() {
    let mut inspector = AtomInspector::new();

    let mut snap1 = AtomSnapshot::default();
    snap1.entries.insert(1, atom_entry(1, "u32", format!("{:?}", &10u32)));
    inspector.record(snap1);

    let mut snap2 = AtomSnapshot::default();
    snap2.entries.insert(1, atom_entry(1, "u32", format!("{:?}", &20u32)));
    inspector.record(snap2);

    assert_eq!(inspector.at_frame(0).unwrap().entries[&1].display, "20");
    assert_eq!(inspector.at_frame(1).unwrap().entries[&1].display, "10");
    assert!(inspector.at_frame(2).is_none());
}

#[test]
fn atom_inspector_max_snapshots_evicts_old() {
    let mut inspector = AtomInspector::new().max_snapshots(2);
    for i in 0..4u64 {
        let mut snap = AtomSnapshot::default();
        snap.entries.insert(0, atom_entry(0, "u64", format!("{:?}", &i)));
        inspector.record(snap);
    }
    assert_eq!(inspector.snapshot_count(), 2);
    assert_eq!(inspector.latest().unwrap().entries[&0].display, "3");
}

#[test]
fn atom_inspector_render_without_snapshots() {
    let inspector = AtomInspector::new();
    assert_eq!(inspector.render_latest(), "[AtomInspector] No snapshots yet.\n");
}

#[test]
fn atom_inspector_render_sorted_table() {
    let mut inspector = AtomInspector::new();
    let mut snap = AtomSnapshot::default();
    snap.entries.insert(1234567, atom_entry(1234567, "i32", "-5".to_string()));
    snap.entries.insert(42, atom_entry(42, "u32", "100".to_string()));
    snap.entries.insert(7, atom_entry(7, "bool", "true".to_string()));
    inspector.record(snap);
    let expected = String::from("┌─ ATOMS ─────────────────────────────────────────\n")
        + "│  [     7] bool = true\n"
        + "│  [    42] u32 = 100\n"
        + "│  [1234567] i32 = -5\n"
        + "└─────────────────────────────────────────────────\n";
    assert_eq!(inspector.render_latest(), expected);
}

#[test]
fn atom_inspector_clear_empties_history() {
    let mut inspector = AtomInspector::default();
    inspector.record(AtomSnapshot::default());
    inspector.record(AtomSnapshot::default());
    inspector.clear();
    assert_eq!(inspector.snapshot_count(), 0);
    assert!(inspector.at_frame(0).is_none());
}

#[test]
fn atom_inspector_zero_capacity_keeps_one() {
    let mut inspector = AtomInspector::new();
    inspector.record(AtomSnapshot::default());
    let mut inspector = inspector.max_snapshots(0);
    inspector.record(AtomSnapshot::default());
    assert_eq!(inspector.snapshot_count(), 1);
}
