use drakonix::app::Tab;
use drakonix::tiling::{Side, SplitDir, Tile, TileLayout};

fn focus(l: &TileLayout) -> Vec<Side> {
    l.focus_path.0.clone()
}

#[test]
fn new_layout_is_single_pane() {
    let l = TileLayout::new(Tab::Calendar);
    assert!(l.is_single());
    assert!(l.has_valid_focus());
    assert_eq!(l.focused_tab(), Tab::Calendar);
    assert_eq!(l.visible_tabs(), vec![Tab::Calendar]);
    assert!(focus(&l).is_empty());
}

#[test]
fn split_duplicates_focused_pane_and_focuses_new_one() {
    let mut l = TileLayout::new(Tab::Rss);
    l.split(SplitDir::Horizontal);
    assert!(!l.is_single());
    assert_eq!(l.visible_tabs(), vec![Tab::Rss, Tab::Rss]);
    assert_eq!(focus(&l), vec![Side::Right]);
    assert_eq!(l.focused_tab(), Tab::Rss);
    match &l.root {
        Tile::Split { dir, ratio_bits, .. } => {
            assert_eq!(*dir, SplitDir::Horizontal);
            assert_eq!(f32::from_bits(*ratio_bits), 0.5);
        }
        Tile::Leaf(_) => panic!("expected a split"),
    }
}

#[test]
fn focus_cycles_through_panes() {
    let mut l = TileLayout::new(Tab::Weather);
    l.split(SplitDir::Vertical);
    l.set_focused_tab(Tab::Calendar);
    l.split(SplitDir::Horizontal);
    l.set_focused_tab(Tab::Rss);
    assert_eq!(l.visible_tabs(), vec![Tab::Weather, Tab::Calendar, Tab::Rss]);
    assert_eq!(focus(&l), vec![Side::Right, Side::Right]);
    l.focus_next();
    assert_eq!(focus(&l), vec![Side::Left]);
    assert_eq!(l.focused_tab(), Tab::Weather);
    l.focus_next();
    assert_eq!(l.focused_tab(), Tab::Calendar);
    l.focus_prev();
    assert_eq!(l.focused_tab(), Tab::Weather);
    l.focus_prev();
    assert_eq!(l.focused_tab(), Tab::Rss);
    l.focus_prev();
    assert_eq!(l.focused_tab(), Tab::Calendar);
}

#[test]
fn close_after_split_restores_layout() {
    let mut l = TileLayout::new(Tab::Weather);
    l.split(SplitDir::Vertical);
    l.set_focused_tab(Tab::Rss);
    l.focus_prev();
    l.split(SplitDir::Horizontal);
    l.close_focused();
    assert_eq!(l.visible_tabs(), vec![Tab::Weather, Tab::Rss]);
    assert_eq!(focus(&l), vec![Side::Left]);
    assert_eq!(l.focused_tab(), Tab::Weather);
}

#[test]
fn close_single_pane_does_nothing() {
    let mut l = TileLayout::new(Tab::Weather);
    l.close_focused();
    assert!(l.is_single());
    assert_eq!(l.focused_tab(), Tab::Weather);
}

#[test]
fn close_removes_focused_pane() {
    let mut l = TileLayout::new(Tab::Weather);
    l.split(SplitDir::Horizontal);
    l.set_focused_tab(Tab::Calendar);
    l.split(SplitDir::Vertical);
    l.set_focused_tab(Tab::Rss);
    // panes: Weather | (Calendar / Rss); focus on Rss
    l.focus_prev();
    assert_eq!(l.focused_tab(), Tab::Calendar);
    l.close_focused();
    assert_eq!(l.visible_tabs(), vec![Tab::Weather, Tab::Rss]);
    assert_eq!(focus(&l), vec![Side::Right]);
    assert_eq!(l.focused_tab(), Tab::Rss);
}

#[test]
fn closing_next_to_a_split_focuses_its_first_pane() {
    let mut l = TileLayout::new(Tab::Weather);
    l.split(SplitDir::Horizontal);
    l.split(SplitDir::Horizontal);
    l.set_focused_tab(Tab::Rss);
    l.focus_next();
    assert_eq!(focus(&l), vec![Side::Left]);
    l.close_focused();
    assert_eq!(l.visible_tabs(), vec![Tab::Weather, Tab::Rss]);
    // the surviving split takes the root's place; its first pane is focused
    assert_eq!(focus(&l), vec![Side::Left]);
    assert!(l.has_valid_focus());
    assert_eq!(l.focused_tab(), Tab::Weather);
}

#[test]
fn closing_after_two_splits_keeps_the_focus_on_a_pane() {
    let mut l = TileLayout::new(Tab::Weather);
    l.split(SplitDir::Horizontal);
    l.split(SplitDir::Horizontal);
    l.focus_next();
    l.close_focused();
    assert_eq!(l.visible_tabs(), vec![Tab::Weather, Tab::Weather]);
    assert!(l.has_valid_focus());
    assert_eq!(l.focused_tab(), Tab::Weather);
}

#[test]
fn closing_beside_a_nested_split_focuses_a_pane() {
    let mut l = TileLayout::new(Tab::Weather);
    l.split(SplitDir::Horizontal);
    l.set_focused_tab(Tab::Calendar);
    l.split(SplitDir::Horizontal);
    l.set_focused_tab(Tab::Rss);
    l.split(SplitDir::Vertical);
    // panes: Weather | (Calendar | (Rss / Rss)); move to Calendar
    l.focus_prev();
    l.focus_prev();
    assert_eq!(focus(&l), vec![Side::Right, Side::Left]);
    l.close_focused();
    assert_eq!(l.visible_tabs(), vec![Tab::Weather, Tab::Rss, Tab::Rss]);
    assert_eq!(focus(&l), vec![Side::Right, Side::Left]);
    assert_eq!(l.focused_tab(), Tab::Rss);
}

#[test]
fn set_focused_tab_changes_only_that_pane() {
    let mut l = TileLayout::new(Tab::Weather);
    l.split(SplitDir::Horizontal);
    l.set_focused_tab(Tab::Calendar);
    assert_eq!(l.visible_tabs(), vec![Tab::Weather, Tab::Calendar]);
    assert_eq!(l.focused_tab(), Tab::Calendar);
}
