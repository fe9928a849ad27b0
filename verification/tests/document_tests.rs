use sonate::document::Document;
use sonate::id::Id;

#[test]
fn new_document_has_root_only() {
    let doc = Document::new();
    assert_eq!(doc.root_id(), Id(0));
    assert_eq!(doc.slot_count(), 1);
    let root = doc.root_node();
    assert_eq!(root.id, Id(0));
    assert!(root.children.is_empty());
    assert!(root.parent.is_none());
    assert_eq!(doc.next_autoid(), 1);
}

#[test]
fn create_node_and_lookup() {
    let mut doc = Document::new();
    let id = doc.create_node(Id(7), Some("hello".to_string()));
    assert_eq!(id, Id(7));
    let node = doc.get_node(Id(7)).expect("node 7");
    assert_eq!(node.id, Id(7));
    assert_eq!(node.text.as_deref(), Some("hello"));
    assert!(node.is_text_node());
    assert!(doc.get_node(Id(8)).is_none());
}

#[test]
fn create_node_autoid_counts_up() {
    let mut doc = Document::new();
    let a = doc.create_node_autoid(None);
    let b = doc.create_node_autoid(None);
    assert_eq!(a, Id(1));
    assert_eq!(b, Id(2));
    assert_eq!(doc.next_autoid(), 3);
}

#[test]
fn set_parent_errors() {
    let mut doc = Document::new();
    doc.create_node(Id(1), None);
    assert_eq!(doc.set_parent(Id(1), Id(1)), Err("Parent and child cannot be the same"));
    assert_eq!(doc.set_parent(Id(0), Id(5)), Err("Child node not found"));
    assert_eq!(doc.set_parent(Id(9), Id(1)), Err("Parent node not found"));
    // Nothing changed.
    assert!(doc.get_node(Id(1)).unwrap().parent.is_none());
    assert!(doc.root_node().children.is_empty());
}

#[test]
fn set_parent_links_and_moves() {
    let mut doc = Document::new();
    doc.create_node(Id(1), None);
    doc.create_node(Id(2), None);
    doc.create_node(Id(3), None);
    assert_eq!(doc.set_parent(Id(0), Id(1)), Ok(()));
    assert_eq!(doc.set_parent(Id(0), Id(2)), Ok(()));
    assert_eq!(doc.set_parent(Id(1), Id(3)), Ok(()));
    let s1 = doc.slot_of(Id(1)).unwrap();
    let s2 = doc.slot_of(Id(2)).unwrap();
    let s3 = doc.slot_of(Id(3)).unwrap();
    assert_eq!(doc.root_node().children, vec![s1, s2]);
    assert_eq!(doc.get_node(Id(1)).unwrap().children, vec![s3]);
    assert_eq!(doc.get_node(Id(3)).unwrap().parent, Some(Id(1)));

    // Move 3 under 2: it leaves 1.
    assert_eq!(doc.set_parent(Id(2), Id(3)), Ok(()));
    assert!(doc.get_node(Id(1)).unwrap().children.is_empty());
    assert_eq!(doc.get_node(Id(2)).unwrap().children, vec![s3]);
    assert_eq!(doc.get_node(Id(3)).unwrap().parent, Some(Id(2)));

    // Again with the same parent: nothing changes.
    assert_eq!(doc.set_parent(Id(2), Id(3)), Ok(()));
    assert_eq!(doc.get_node(Id(2)).unwrap().children, vec![s3]);
}

#[test]
fn recreated_id_names_new_node() {
    let mut doc = Document::new();
    doc.create_node(Id(1), Some("old".to_string()));
    doc.set_parent(Id(0), Id(1)).unwrap();
    let old_slot = doc.slot_of(Id(1)).unwrap();
    doc.create_node(Id(1), Some("new".to_string()));
    let new_slot = doc.slot_of(Id(1)).unwrap();
    assert_ne!(old_slot, new_slot);
    let node = doc.get_node(Id(1)).unwrap();
    assert_eq!(node.text.as_deref(), Some("new"));
    assert!(node.parent.is_none());
    // The root still holds the earlier node.
    assert_eq!(doc.root_node().children, vec![old_slot]);
    assert_eq!(doc.node_at(old_slot).text.as_deref(), Some("old"));
}

#[test]
fn attributes_read_back() {
    let mut doc = Document::new();
    doc.create_node(Id(4), None);
    doc.set_attribute(Id(4), "class".to_string(), "a b".to_string());
    doc.set_attribute(Id(4), "tag".to_string(), "div".to_string());
    assert_eq!(doc.get_attribute(Id(4), "class".to_string()), Some("a b".to_string()));
    doc.set_attribute(Id(4), "class".to_string(), "c".to_string());
    assert_eq!(doc.get_attribute(Id(4), "class".to_string()), Some("c".to_string()));
    assert_eq!(doc.get_attribute(Id(4), "tag".to_string()), Some("div".to_string()));
    assert_eq!(doc.get_attribute(Id(4), "id".to_string()), None);
    // Unknown node: no effect, nothing to read.
    doc.set_attribute(Id(99), "class".to_string(), "x".to_string());
    assert_eq!(doc.get_attribute(Id(99), "class".to_string()), None);
}

#[test]
fn id_conversions() {
    let id = Id::from_u64(42);
    assert_eq!(id.value(), 42);
    assert_eq!(id.as_u64(), 42);
    assert_eq!(Id::default(), Id(0));
}

#[test]
fn child_lists_agree_with_parents_after_moves() {
    let mut doc = Document::new();
    for k in 1..=4u64 {
        doc.create_node(Id(k), None);
    }
    assert_eq!(doc.set_parent(Id(0), Id(1)), Ok(()));
    assert_eq!(doc.set_parent(Id(1), Id(2)), Ok(()));
    assert_eq!(doc.set_parent(Id(1), Id(3)), Ok(()));
    assert_eq!(doc.set_parent(Id(4), Id(2)), Ok(()));
    assert_eq!(doc.set_parent(Id(0), Id(3)), Ok(()));
    assert_eq!(doc.set_parent(Id(0), Id(3)), Ok(()));
    let n = doc.slot_count();
    for q in 0..n {
        let holder = doc.node_at(q);
        for s in 0..n {
            let child = doc.node_at(s);
            let times = holder.children.iter().filter(|&&c| c == s).count();
            let linked = child.parent == Some(holder.id);
            assert_eq!(times, if linked { 1 } else { 0 });
        }
    }
    let s2 = doc.slot_of(Id(2)).unwrap();
    let s3 = doc.slot_of(Id(3)).unwrap();
    assert_eq!(doc.get_node(Id(4)).unwrap().children, vec![s2]);
    assert_eq!(doc.get_node(Id(1)).unwrap().children, Vec::<usize>::new());
    assert_eq!(doc.root_node().children, vec![doc.slot_of(Id(1)).unwrap(), s3]);
}
