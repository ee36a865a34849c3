use yamlquill::document::node::{YamlNode, YamlValue};
use yamlquill::document::tree::YamlTree;
use yamlquill::editor::undo::{EditorSnapshot, UndoNode, UndoTree};

#[test]
fn test_undo_node_creation() {
    let tree = YamlTree::new(YamlNode::new(YamlValue::Null));
    let snapshot = EditorSnapshot {
        tree,
        cursor_path: vec![],
    };

    let node = UndoNode::new(snapshot, None, 0);

    assert_eq!(node.seq, 0);
    assert_eq!(node.parent, None);
    assert_eq!(node.children.len(), 0);
}

#[test]
fn test_undo_tree_initialization() {
    let tree = YamlTree::new(YamlNode::new(YamlValue::Null));
    let snapshot = EditorSnapshot {
        tree,
        cursor_path: vec![],
    };

    let undo_tree = UndoTree::new(snapshot, 50);

    assert_eq!(undo_tree.current(), 0);
    assert_eq!(undo_tree.len(), 1);
    assert_eq!(undo_tree.limit(), 50);
}

#[test]
fn test_add_checkpoint() {
    let tree = YamlTree::new(YamlNode::new(YamlValue::Null));
    let snapshot1 = EditorSnapshot {
        tree: tree.duplicate(),
        cursor_path: vec![],
    };

    let mut undo_tree = UndoTree::new(snapshot1, 50);

    let tree2 = YamlTree::new(YamlNode::new(YamlValue::Boolean(true)));
    let snapshot2 = EditorSnapshot {
        tree: tree2,
        cursor_path: vec![0],
    };

    undo_tree.add_checkpoint(snapshot2);

    assert_eq!(undo_tree.current(), 1);
    assert_eq!(undo_tree.len(), 2);

    // Verify parent-child relationship
    assert_eq!(undo_tree.nodes[1].parent, Some(0));
    assert_eq!(undo_tree.nodes[0].children, vec![1]);
}

#[test]
fn test_undo_basic() {
    let tree = YamlTree::new(YamlNode::new(YamlValue::Null));
    let snapshot1 = EditorSnapshot {
        tree: tree.duplicate(),
        cursor_path: vec![],
    };

    let mut undo_tree = UndoTree::new(snapshot1, 50);

    let tree2 = YamlTree::new(YamlNode::new(YamlValue::Boolean(true)));
    let snapshot2 = EditorSnapshot {
        tree: tree2,
        cursor_path: vec![0],
    };
    undo_tree.add_checkpoint(snapshot2);

    let result = undo_tree.undo();
    assert!(result.is_some());
    assert_eq!(undo_tree.current(), 0);

    let snapshot = result.unwrap();
    assert_eq!(snapshot.cursor_path, Vec::<usize>::new());
}

#[test]
fn test_undo_at_root_returns_none() {
    let tree = YamlTree::new(YamlNode::new(YamlValue::Null));
    let snapshot = EditorSnapshot {
        tree,
        cursor_path: vec![],
    };

    let mut undo_tree = UndoTree::new(snapshot, 50);

    let result = undo_tree.undo();
    assert!(result.is_none());
    assert_eq!(undo_tree.current(), 0);
}

#[test]
fn test_redo_basic() {
    let tree = YamlTree::new(YamlNode::new(YamlValue::Null));
    let snapshot1 = EditorSnapshot {
        tree: tree.duplicate(),
        cursor_path: vec![],
    };

    let mut undo_tree = UndoTree::new(snapshot1, 50);

    let tree2 = YamlTree::new(YamlNode::new(YamlValue::Boolean(true)));
    let snapshot2 = EditorSnapshot {
        tree: tree2,
        cursor_path: vec![0],
    };
    undo_tree.add_checkpoint(snapshot2);
    undo_tree.undo();

    let result = undo_tree.redo();
    assert!(result.is_some());
    assert_eq!(undo_tree.current(), 1);

    let snapshot = result.unwrap();
    assert_eq!(snapshot.cursor_path, vec![0]);
}

#[test]
fn test_redo_with_no_children_returns_none() {
    let tree = YamlTree::new(YamlNode::new(YamlValue::Null));
    let snapshot = EditorSnapshot {
        tree,
        cursor_path: vec![],
    };

    let mut undo_tree = UndoTree::new(snapshot, 50);

    let result = undo_tree.redo();
    assert!(result.is_none());
}

#[test]
fn test_redo_chooses_newest_branch() {
    let tree = YamlTree::new(YamlNode::new(YamlValue::Null));
    let snapshot1 = EditorSnapshot {
        tree: tree.duplicate(),
        cursor_path: vec![],
    };

    let mut undo_tree = UndoTree::new(snapshot1, 50);

    let tree2 = YamlTree::new(YamlNode::new(YamlValue::Boolean(true)));
    let snapshot2 = EditorSnapshot {
        tree: tree2,
        cursor_path: vec![0],
    };
    undo_tree.add_checkpoint(snapshot2);

    undo_tree.undo();
    let tree3 = YamlTree::new(YamlNode::new(YamlValue::Boolean(false)));
    let snapshot3 = EditorSnapshot {
        tree: tree3,
        cursor_path: vec![1],
    };
    undo_tree.add_checkpoint(snapshot3);

    undo_tree.undo();

    let result = undo_tree.redo();
    assert!(result.is_some());
    assert_eq!(undo_tree.current(), 2);

    let snapshot = result.unwrap();
    assert_eq!(snapshot.cursor_path, vec![1]);
}

#[test]
fn test_undo_then_redo_returns_to_the_checkpoint() {
    let mut undo_tree = UndoTree::new(
        EditorSnapshot { tree: YamlTree::new(YamlNode::new(YamlValue::Null)), cursor_path: vec![] },
        10,
    );
    undo_tree.add_checkpoint(EditorSnapshot {
        tree: YamlTree::new(YamlNode::new(YamlValue::Boolean(true))),
        cursor_path: vec![3],
    });
    let before = undo_tree.current();
    undo_tree.undo().unwrap();
    let redone = undo_tree.redo().unwrap();
    assert_eq!(undo_tree.current(), before);
    assert_eq!(redone.cursor_path, vec![3]);
    assert_eq!(redone.tree.root().value, YamlValue::Boolean(true));
}

fn snap(v: YamlValue) -> EditorSnapshot {
    EditorSnapshot { tree: YamlTree::new(YamlNode::new(v)), cursor_path: vec![] }
}

#[test]
fn test_add_checkpoint_keeps_at_most_limit_nodes() {
    let mut t = UndoTree::new(snap(YamlValue::Null), 1);
    t.add_checkpoint(snap(YamlValue::Boolean(true)));
    assert!(t.len() <= t.limit());
    assert_eq!(t.current(), t.len() - 1);
    assert!(t.undo().is_none());
}

#[test]
fn test_pruned_history_keeps_newest_chain() {
    let mut t = UndoTree::new(snap(YamlValue::Null), 2);
    t.add_checkpoint(snap(YamlValue::Boolean(true)));
    t.add_checkpoint(snap(YamlValue::Boolean(false)));
    assert_eq!(t.len(), 2);
    assert_eq!(t.current(), 1);
    assert_eq!(t.nodes[1].parent, Some(0));
    assert_eq!(t.nodes[0].children, vec![1]);
    assert!(t.nodes[0].seq < t.nodes[1].seq);
    let back = t.undo().expect("one step back");
    assert!(matches!(back.tree.root().value(), YamlValue::Boolean(true)));
    let forward = t.redo().expect("one step forward");
    assert!(matches!(forward.tree.root().value(), YamlValue::Boolean(false)));
}
