use kenjutu::widgets::range_list::{layout_range_list, RangeListState};

#[test]
fn default_state() {
    let state = RangeListState::default();
    assert_eq!(state.selected(), None);
    assert_eq!(state.offset(), 0);
    assert!(!state.is_selection_active());
}

#[test]
fn select_and_reset() {
    let mut state = RangeListState::default();
    state.select(Some(2));
    assert_eq!(state.selected(), Some(2));
    assert_eq!(state.offset(), 0);

    state.select(None);
    assert_eq!(state.selected(), None);
    assert_eq!(state.offset(), 0);
}

#[test]
fn state_navigation() {
    let mut state = RangeListState::default();
    state.select_first();
    assert_eq!(state.selected(), Some(0));

    state.select_previous();
    assert_eq!(state.selected(), Some(0));

    state.select_next();
    assert_eq!(state.selected(), Some(1));

    state.select_previous();
    assert_eq!(state.selected(), Some(0));

    state.select_last();
    assert_eq!(state.selected(), Some(usize::MAX));

    state.select_next();
    assert_eq!(state.selected(), Some(usize::MAX));

    state.select_previous();
    assert_eq!(state.selected(), Some(usize::MAX - 1));
}

#[test]
fn scroll_by() {
    let mut state = RangeListState::default();
    state.select(Some(2));
    state.scroll_down_by(4);
    assert_eq!(state.selected(), Some(6));

    state.scroll_up_by(3);
    assert_eq!(state.selected(), Some(3));

    state.scroll_up_by(100);
    assert_eq!(state.selected(), Some(0));
}

#[test]
fn fluent_setters() {
    let state = RangeListState::default()
        .with_offset(5)
        .with_selected(Some(3));
    assert_eq!(state.offset(), 5);
    assert_eq!(state.selected(), Some(3));
}

#[test]
fn mutable_accessors() {
    let mut state = RangeListState::default();
    *state.offset_mut() = 10;
    *state.selected_mut() = Some(5);
    assert_eq!(state.offset(), 10);
    assert_eq!(state.selected(), Some(5));
}

#[test]
fn toggle_selection() {
    let mut state = RangeListState::default();
    state.select(Some(3));

    state.toggle_selection();
    assert!(state.is_selection_active());
    assert_eq!(state.selection_range(), Some((3, 3)));

    state.select_next();
    assert_eq!(state.selection_range(), Some((3, 4)));

    state.select_next();
    assert_eq!(state.selection_range(), Some((3, 5)));

    state.toggle_selection();
    assert!(!state.is_selection_active());
    assert_eq!(state.selection_range(), None);
}

#[test]
fn selection_range_backwards() {
    let mut state = RangeListState::default();
    state.select(Some(5));
    state.toggle_selection();
    state.select_previous();
    state.select_previous();
    assert_eq!(state.selection_range(), Some((3, 5)));
}

#[test]
fn cancel_selection() {
    let mut state = RangeListState::default();
    state.select(Some(3));
    state.toggle_selection();
    assert!(state.is_selection_active());
    state.cancel_selection();
    assert!(!state.is_selection_active());
}

#[test]
fn selection_range_with_nothing_selected() {
    let mut state = RangeListState::default();
    // Anchor at 3, then the cursor is cleared: the anchor stays, nothing is selected.
    state.select(Some(3));
    state.toggle_selection();
    state.select(None);
    assert!(state.is_selection_active());
    assert_eq!(state.selection_range(), None);
}

#[test]
fn empty_list() {
    let mut state = RangeListState::default();
    state.select_first();
    let window = layout_range_list(&mut state, &vec![], false, 3, 0);
    assert_eq!(window, None);
    assert_eq!(state.selected(), None);
}

#[test]
fn single_item() {
    let mut state = RangeListState::default();
    state.select_first();
    let window = layout_range_list(&mut state, &vec![1], false, 3, 0);
    assert_eq!(window, Some((0, 1)));
    assert_eq!(state.selected(), Some(0));
}

#[test]
fn clamp_selected_to_last() {
    let mut state = RangeListState::default();
    state.select_last();
    layout_range_list(&mut state, &vec![1, 1, 1], false, 3, 0);
    assert_eq!(state.selected(), Some(2));
}

#[test]
fn scroll_selected_into_view() {
    let mut state = RangeListState::default()
        .with_selected(Some(4))
        .with_offset(0);
    let window = layout_range_list(&mut state, &vec![1, 1, 1, 1, 1], false, 3, 0);
    assert_eq!(state.selected(), Some(4));
    assert_eq!(state.offset(), 2);
    assert_eq!(window, Some((2, 5)));
}

#[test]
fn multi_line_items() {
    // "Item 0\nLine 2", "Item 1", "Item 2" in a 10x5 area: every item is visible.
    let mut state = RangeListState::default();
    let window = layout_range_list(&mut state, &vec![2, 1, 1], false, 5, 0);
    assert_eq!(window, Some((0, 3)));
    assert_eq!(state.offset(), 0);
}

#[test]
fn offset_renders_shifted() {
    // Offset 2 in a list of 5 one-line items and 3 rows shows items 2..5.
    let mut state = RangeListState::default().with_offset(2);
    let window = layout_range_list(&mut state, &vec![1, 1, 1, 1, 1], false, 3, 0);
    assert_eq!(window, Some((2, 5)));
}

#[test]
fn scroll_padding() {
    let mut state = RangeListState::default()
        .with_selected(Some(2))
        .with_offset(2);
    let window = layout_range_list(&mut state, &vec![1, 1, 1, 1, 1, 1], false, 4, 1);
    assert_eq!(state.selected(), Some(2));
    assert!(state.offset() <= 1);
    // Rows show items 1, 2, 3 and 4.
    assert_eq!(window, Some((1, 5)));
}

#[test]
fn selection_anchor_clamped_at_render() {
    let mut state = RangeListState::default().with_selected(Some(100));
    state.toggle_selection();
    state.select(Some(1));
    layout_range_list(&mut state, &vec![1, 1, 1], false, 3, 0);
    // The anchor is clamped to 2, the last valid index.
    assert_eq!(state.selection_range(), Some((1, 2)));
}

#[test]
fn empty_area_leaves_state_untouched() {
    let mut state = RangeListState::default().with_selected(Some(7)).with_offset(4);
    assert_eq!(layout_range_list(&mut state, &vec![1, 1], true, 0, 0), None);
    assert_eq!(state.selected(), Some(7));
    assert_eq!(state.offset(), 4);
}

#[test]
fn tall_item_scrolls_up_from_large_offset() {
    // Cursor above the offset: the window scrolls back up to show it.
    let mut state = RangeListState::default().with_selected(Some(0)).with_offset(3);
    let window = layout_range_list(&mut state, &vec![2, 1, 1, 1], false, 3, 0);
    assert_eq!(window, Some((0, 2)));
    assert_eq!(state.offset(), 0);
}

#[test]
fn selected_item_stays_in_view_with_mixed_heights() {
    let heights = vec![2, 1, 3, 1, 2];
    let mut down = RangeListState::default().with_selected(Some(4)).with_offset(0);
    assert_eq!(layout_range_list(&mut down, &heights, false, 3, 0), Some((3, 5)));
    assert_eq!(down.offset(), 3);
    let mut up = RangeListState::default().with_selected(Some(0)).with_offset(4);
    assert_eq!(layout_range_list(&mut up, &heights, false, 3, 0), Some((0, 2)));
    assert_eq!(up.offset(), 0);
}

#[test]
fn oversized_padding_still_shows_selected() {
    // A padding of 10 around item 7 cannot fit in 3 rows; it shrinks to 1.
    let mut state = RangeListState::default().with_selected(Some(7));
    let window = layout_range_list(&mut state, &vec![1; 10], false, 3, 10);
    assert_eq!(window, Some((6, 9)));
    assert_eq!(state.offset(), 6);
    // With mixed heights no padding fits next to the tall item.
    let mut tall = RangeListState::default().with_selected(Some(2));
    assert_eq!(layout_range_list(&mut tall, &vec![2, 1, 3, 1, 2], false, 3, 5), Some((2, 3)));
}
