use ea_ledger::muscle_loader::calculate_required_pages;
use ea_ledger::office::calendar::days_in_month;
use ea_ledger::office::editor::EditorState;
use ea_ledger::office::events::CellRef;
use ea_ledger::office::grid::GridState;
use ea_ledger::office::tree::{format_size, TreeNode, TreeState};

#[test]
fn cell_ref_to_a1() {
    assert_eq!(CellRef::new(0, 0).to_a1(), "A1");
    assert_eq!(CellRef::new(1, 2).to_a1(), "B3");
    assert_eq!(CellRef::new(25, 0).to_a1(), "Z1");
    assert_eq!(CellRef::new(26, 0).to_a1(), "AA1");
    assert_eq!(CellRef::new(27, 0).to_a1(), "AB1");
    assert_eq!(CellRef::new(701, 99).to_a1(), "ZZ100");
}

#[test]
fn days_in_month_test() {
    assert_eq!(days_in_month(2024, 1), 31);
    assert_eq!(days_in_month(2024, 2), 29);
    assert_eq!(days_in_month(2023, 2), 28);
    assert_eq!(days_in_month(2024, 4), 30);
}

#[test]
fn editor_basic_operations() {
    let mut editor = EditorState::default();

    editor.insert_mode = true;
    for c in "Hello".chars() {
        editor.insert_char(c);
    }
    assert_eq!(editor.content(), "Hello");
    assert_eq!(editor.cursor_x, 5);

    editor.backspace();
    assert_eq!(editor.content(), "Hell");

    editor.move_left();
    editor.insert_char('p');
    assert_eq!(editor.content(), "Helpl");
}

#[test]
fn editor_multiline() {
    let mut editor = EditorState::with_content("Line 1\nLine 2\nLine 3");

    assert_eq!(editor.lines.len(), 3);

    editor.move_down();
    assert_eq!(editor.cursor_y, 1);
    assert_eq!(editor.current_line(), "Line 2");

    editor.move_to_line_end();
    assert_eq!(editor.cursor_x, 6);
}

#[test]
fn editor_newline() {
    let mut editor = EditorState::default();
    editor.insert_mode = true;

    for c in "Hello".chars() {
        editor.insert_char(c);
    }
    editor.newline();
    for c in "World".chars() {
        editor.insert_char(c);
    }

    assert_eq!(editor.lines.len(), 2);
    assert_eq!(editor.content(), "Hello\nWorld");
}

#[test]
fn grid_navigation() {
    let mut grid = GridState::new(10, 20);

    assert_eq!(grid.cursor_col, 0);
    assert_eq!(grid.cursor_row, 0);

    grid.move_right();
    assert_eq!(grid.cursor_col, 1);

    grid.move_down();
    assert_eq!(grid.cursor_row, 1);

    grid.move_left();
    assert_eq!(grid.cursor_col, 0);

    grid.move_up();
    assert_eq!(grid.cursor_row, 0);
}

#[test]
fn grid_edit_mode() {
    let mut grid = GridState::new(5, 5);

    grid.start_edit("Hello");
    assert!(grid.editing);
    assert_eq!(grid.edit_buffer, "Hello");

    let value = grid.finish_edit();
    assert!(!grid.editing);
    assert_eq!(value, "Hello");
}

#[test]
fn current_cell_reference() {
    let mut grid = GridState::new(30, 100);
    grid.cursor_col = 2;
    grid.cursor_row = 4;

    let cell = grid.current_cell();
    assert_eq!(cell.to_a1(), "C5");
}

#[test]
fn tree_navigation() {
    let mut tree = TreeState {
        nodes: vec![
            TreeNode::directory("/".to_string(), "/".to_string(), 0),
            TreeNode::directory("docs".to_string(), "/docs".to_string(), 1),
            TreeNode::file("readme.txt".to_string(), "/docs/readme.txt".to_string(), 2, 1024),
        ],
        cursor: 0,
        scroll_offset: 0,
    };

    tree.move_down();
    assert_eq!(tree.cursor, 1);

    tree.move_down();
    assert_eq!(tree.cursor, 2);

    tree.move_up();
    assert_eq!(tree.cursor, 1);
}

#[test]
fn format_size_test() {
    assert_eq!(format_size(500), "500B");
    assert_eq!(format_size(1024), "1.0K");
    assert_eq!(format_size(1536), "1.5K");
    assert_eq!(format_size(1048576), "1.0M");
    assert_eq!(format_size(1073741824), "1.0G");
}

#[test]
fn toggle_expand() {
    let mut tree = TreeState {
        nodes: vec![TreeNode::directory("/".to_string(), "/".to_string(), 0)],
        cursor: 0,
        scroll_offset: 0,
    };

    assert!(!tree.nodes[0].expanded);
    tree.toggle_expand();
    assert!(tree.nodes[0].expanded);
    tree.toggle_expand();
    assert!(!tree.nodes[0].expanded);
}

#[test]
fn test_page_calculation() {
    assert_eq!(calculate_required_pages(0), 0);
    assert_eq!(calculate_required_pages(1), 1);
    assert_eq!(calculate_required_pages(4096), 1);
    assert_eq!(calculate_required_pages(4097), 2);
}

#[test]
fn tree_update_preserves_expansion() {
    let mut tree = TreeState {
        nodes: vec![
            TreeNode::directory("/".to_string(), "/".to_string(), 0),
            TreeNode::directory("docs".to_string(), "/docs".to_string(), 1),
        ],
        cursor: 1,
        scroll_offset: 0,
    };
    tree.toggle_expand();
    assert!(tree.nodes[1].expanded);

    tree.update_nodes(vec![
        TreeNode::directory("docs".to_string(), "/docs".to_string(), 0),
        TreeNode::file("a.txt".to_string(), "/docs/a.txt".to_string(), 1, 3),
    ]);
    assert!(tree.nodes[0].expanded);
    assert!(!tree.nodes[1].expanded);
    assert_eq!(tree.cursor, 1);
}

#[test]
fn editor_delete_joins_lines() {
    let mut editor = EditorState::with_content("ab\ncd");
    editor.move_to_line_end();
    editor.delete();
    assert_eq!(editor.content(), "abcd");

    let mut editor2 = EditorState::with_content("xy");
    editor2.delete();
    assert_eq!(editor2.content(), "y");
}

#[test]
fn grid_scrolling_follows_cursor() {
    let mut grid = GridState::new(100, 100);
    grid.cursor_col = 50;
    grid.cursor_row = 7;
    grid.ensure_visible(10, 5);
    assert_eq!(grid.scroll_col, 41);
    assert_eq!(grid.scroll_row, 3);
    grid.cursor_col = 2;
    grid.ensure_visible(10, 5);
    assert_eq!(grid.scroll_col, 2);
}
