use yamlquill::document::node::{YamlNode, YamlNumber, YamlValue};
use yamlquill::document::tree::YamlTree;
use yamlquill::editor::state::EditorState;
use yamlquill::ui::rows::{tree_view_rows, Marker};
use yamlquill::ui::status::status_line_parts;
use yamlquill::ui::tree_view::{TreeViewLine, ValueType};

fn line(i: usize, expandable: bool, expanded: bool) -> TreeViewLine {
    TreeViewLine {
        path: vec![i],
        depth: i % 3,
        key: None,
        value_type: ValueType::Number,
        value_preview: i.to_string(),
        expandable,
        expanded,
    }
}

fn lines(n: usize) -> Vec<TreeViewLine> {
    (0..n).map(|i| line(i, false, false)).collect()
}

#[test]
fn test_rows_absolute_numbers_from_scroll() {
    let ls = lines(12);
    let rows = tree_view_rows(&ls, &[5], true, false, 1, 3, &[]);
    assert_eq!(rows.len(), 3);
    assert_eq!(rows.iter().map(|r| r.line).collect::<Vec<_>>(), vec![1, 2, 3]);
    assert_eq!(rows.iter().map(|r| r.number).collect::<Vec<_>>(), vec![Some(2), Some(3), Some(4)]);
    assert!(rows.iter().all(|r| r.number_width == 2));
    assert_eq!(rows[1].depth, 2);
}

#[test]
fn test_rows_relative_numbers_count_from_cursor() {
    let ls = lines(6);
    let rows = tree_view_rows(&ls, &[2], true, true, 0, 10, &[]);
    assert_eq!(rows.len(), 6);
    let nums: Vec<Option<usize>> = rows.iter().map(|r| r.number).collect();
    assert_eq!(nums, vec![Some(2), Some(1), Some(3), Some(1), Some(2), Some(3)]);
    assert!(rows[2].is_cursor);
    assert_eq!(rows[2].marker, Marker::Cursor);
    assert_eq!(rows[0].marker, Marker::Blank);
}

#[test]
fn test_rows_markers_selection_and_hidden_numbers() {
    let ls = vec![line(0, true, true), line(1, true, false), line(2, false, false)];
    let rows = tree_view_rows(&ls, &[9], false, false, 0, 5, &[vec![1]]);
    assert_eq!(rows.len(), 3);
    assert_eq!(rows[0].marker, Marker::Expanded);
    assert_eq!(rows[1].marker, Marker::Collapsed);
    assert_eq!(rows[2].marker, Marker::Blank);
    assert!(rows.iter().all(|r| r.number.is_none() && r.number_width == 0));
    assert_eq!(rows.iter().map(|r| r.is_selected).collect::<Vec<_>>(), vec![false, true, false]);
}

#[test]
fn test_rows_past_the_end_are_none() {
    let ls = lines(3);
    assert!(tree_view_rows(&ls, &[0], true, false, 3, 5, &[]).is_empty());
    assert!(tree_view_rows(&ls, &[0], true, false, 0, 0, &[]).is_empty());
}

fn state() -> EditorState {
    let items = vec![1, 2].into_iter().map(|i| YamlNode::new(YamlValue::Number(YamlNumber::Integer(i)))).collect();
    EditorState::new_with_default_theme(YamlTree::new(YamlNode::new(YamlValue::Array(items))))
}

#[test]
fn test_status_parts_of_a_new_editor() {
    let mut s = state();
    let p = status_line_parts(&s, 80);
    assert_eq!(p.mode_and_file, "NORMAL | [No Name]");
    assert_eq!(p.dirty, "");
    assert_eq!(p.register, "");
    assert_eq!(p.search, "");
    assert_eq!(p.position, format!("1/{}", s.total_lines()));
    let left = p.mode_and_file.len() + p.path.len() + p.dirty.len() + p.register.len() + p.search.len();
    assert_eq!(p.padding, 80 - left - p.position.len());
    assert_eq!(status_line_parts(&s, 5).padding, 1);
    s.mark_dirty();
    s.set_filename("data.yaml".to_string());
    s.set_pending_register('a', true);
    let p = status_line_parts(&s, 80);
    assert_eq!(p.mode_and_file, "NORMAL | data.yaml");
    assert_eq!(p.dirty, " [+]");
    assert_eq!(p.register, " \"A");
}
