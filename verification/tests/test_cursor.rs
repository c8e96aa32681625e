use packrat::ui::state::SelectionState;
use packrat::ui::terminal::{TerminalSelection, TerminalState, UserAction};
use packrat::model::store::TaskStore;
use tempfile::TempDir;

#[test]
fn cursor_wraps_at_both_ends() {
    // Incrementing from index N-1 yields 0.
    let mut sel = SelectionState::new(3);
    sel.incr();
    sel.incr();
    assert_eq!(sel.idx, 2);
    sel.incr();
    assert_eq!(sel.idx, 0);

    // Decrementing from 0 yields N-1.
    sel.decr();
    assert_eq!(sel.idx, 2);
    sel.decr();
    assert_eq!(sel.idx, 1);
}

#[test]
fn cursor_with_no_items_never_panics() {
    let mut sel = SelectionState::new(0);
    sel.incr();
    sel.decr();
    sel.incr();
    assert_eq!(sel.max_idx, 0);
}

#[test]
fn cursor_expand_and_shrink_keep_the_index_in_range() {
    let mut sel = SelectionState::new(0);
    sel.expand();
    assert_eq!(sel.max_idx, 1);
    assert_eq!(sel.idx, 0);
    sel.expand();
    sel.incr();
    assert_eq!(sel.idx, 1);
    sel.shrink();
    assert_eq!(sel.max_idx, 1);
    assert!(sel.idx < sel.max_idx);
    sel.shrink();
    assert_eq!(sel.max_idx, 0);
}

#[test]
fn terminal_selection_with_no_choices_never_panics() {
    let mut sel = TerminalSelection::new();
    sel.incr();
    sel.decr();
    assert_eq!(sel.idx, 0);
    assert_eq!(sel.len, 0);
}

#[test]
fn terminal_selection_wraps() {
    let mut sel = TerminalSelection::new();
    sel.len = 3;
    sel.decr();
    assert_eq!(sel.idx, 1);
    sel.decr();
    assert_eq!(sel.idx, 2);
    sel.decr();
    assert_eq!(sel.idx, 0);
    sel.incr();
    assert_eq!(sel.idx, 2);
}

#[test]
fn terminal_actions_index_in_order() {
    let all = UserAction::all();
    assert_eq!(all.len(), 4);
    assert!(matches!(UserAction::from_index(0), UserAction::Select));
    assert!(matches!(UserAction::from_index(2), UserAction::Quit));

    let dir = TempDir::new().unwrap();
    let store = TaskStore::new(dir.path().join("t.db").to_str().unwrap()).unwrap();
    let term = TerminalState::new(store);
    assert_eq!(term.select.idx, 0);
    assert_eq!(term.select.len, 0);
}
