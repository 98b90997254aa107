use tui_widget_list::{List, ListError, Listable, SelectionState, ViewportEntry};

#[derive(Debug, Clone, PartialEq)]
struct Card {
    name: &'static str,
    height: usize,
    expanded: usize,
    lit: bool,
    cut_to: Option<usize>,
}

fn card(name: &'static str, height: usize, expanded: usize) -> Card {
    Card { name, height, expanded, lit: false, cut_to: None }
}

impl Listable for Card {
    fn height(&self) -> usize {
        if self.lit {
            self.expanded
        } else {
            self.height
        }
    }

    fn highlight(mut self) -> Self {
        self.lit = true;
        self
    }

    fn truncate_top(mut self, rows: usize) -> Self {
        self.cut_to = Some(rows);
        self
    }
}

#[derive(Debug, Clone, PartialEq)]
struct Plain(usize);

impl Listable for Plain {
    fn height(&self) -> usize {
        self.0
    }
}

fn entry(item_index: usize, top_offset: usize, visible_rows: usize) -> ViewportEntry {
    ViewportEntry { item_index, top_offset, visible_rows, clipped_top: false, clipped_bottom: false }
}

fn state(selected: Option<usize>, anchor_index: usize, anchor_skip: usize) -> SelectionState {
    SelectionState { selected, anchor_index, anchor_skip }
}

fn five_plain() -> Vec<Plain> {
    vec![Plain(2), Plain(2), Plain(2), Plain(2), Plain(2)]
}

fn three_cards() -> Vec<Card> {
    vec![card("a", 2, 5), card("b", 2, 5), card("c", 2, 5)]
}

#[test]
fn default_highlight_and_truncation_keep_the_item() {
    assert_eq!(Plain(3).highlight(), Plain(3));
    assert_eq!(Plain(3).truncate_top(1), Plain(3));
}

#[test]
fn new_list_selects_nothing() {
    let list = List::new(five_plain());
    assert_eq!(list.len(), 5);
    assert_eq!(list.state, SelectionState::new());
    assert_eq!(list.items, five_plain());
}

#[test]
fn list_with_first_item_selected_shows_first_two() {
    let mut list = List::new(five_plain());
    assert_eq!(list.select(0), Ok(()));
    let frame = list.render(4).unwrap();
    assert_eq!(frame.geometry, vec![entry(0, 0, 2), entry(1, 2, 2)]);
    assert_eq!(frame.state, state(Some(0), 0, 0));
    assert_eq!(frame.items, vec![Plain(2), Plain(2)]);
    assert_eq!(frame.heights, vec![2, 2, 2, 2, 2]);
}

#[test]
fn three_steps_forward_scroll_to_third_item() {
    let mut list = List::new(five_plain());
    assert_eq!(list.select(0), Ok(()));
    let first = list.render(4).unwrap();
    let mut list = List::with_state(five_plain(), first.state);
    list.next();
    list.next();
    list.next();
    assert_eq!(list.state.selected, Some(3));
    assert_eq!(list.state.anchor_index, 0);
    let frame = list.render(4).unwrap();
    assert_eq!(frame.state, state(Some(3), 2, 0));
    assert_eq!(frame.geometry, vec![entry(2, 0, 2), entry(3, 2, 2)]);
}

#[test]
fn single_tall_item_fills_the_viewport() {
    let mut list = List::new(vec![Plain(10)]);
    assert_eq!(list.select(0), Ok(()));
    let frame = list.render(4).unwrap();
    assert_eq!(
        frame.geometry,
        vec![ViewportEntry {
            item_index: 0,
            top_offset: 0,
            visible_rows: 4,
            clipped_top: false,
            clipped_bottom: true,
        }]
    );
    assert_eq!(frame.items, vec![Plain(10)]);
}

#[test]
fn empty_list_renders_nothing() {
    for viewport_height in [0, 1, 4, 50] {
        let list: List<Plain> = List::new(Vec::new());
        let frame = list.render(viewport_height).unwrap();
        assert!(frame.geometry.is_empty());
        assert!(frame.items.is_empty());
        assert!(frame.heights.is_empty());
        assert_eq!(frame.state, SelectionState::new());
    }
}

#[test]
fn empty_list_ignores_navigation() {
    let mut list: List<Plain> = List::new(Vec::new());
    list.next();
    list.previous();
    assert_eq!(list.state, SelectionState::new());
    assert_eq!(list.select(0), Err(ListError::OutOfRange));
    assert!(list.render(3).unwrap().geometry.is_empty());
}

#[test]
fn highlighted_item_is_measured_after_it_expands() {
    let mut list = List::new(three_cards());
    assert_eq!(list.select(1), Ok(()));
    let frame = list.render(4).unwrap();
    assert_eq!(frame.heights, vec![2, 5, 2]);
    assert_eq!(frame.state, state(Some(1), 1, 0));
    assert_eq!(
        frame.geometry,
        vec![ViewportEntry {
            item_index: 1,
            top_offset: 0,
            visible_rows: 4,
            clipped_top: false,
            clipped_bottom: true,
        }]
    );
    assert_eq!(
        frame.items,
        vec![Card { name: "b", height: 2, expanded: 5, lit: true, cut_to: None }]
    );
}

#[test]
fn highlighted_item_that_still_fits_keeps_the_anchor() {
    let mut list = List::new(three_cards());
    assert_eq!(list.select(1), Ok(()));
    let frame = list.render(7).unwrap();
    assert_eq!(frame.heights, vec![2, 5, 2]);
    assert_eq!(frame.state, state(Some(1), 0, 0));
    assert_eq!(frame.geometry, vec![entry(0, 0, 2), entry(1, 2, 5)]);
    assert_eq!(
        frame.items,
        vec![
            card("a", 2, 5),
            Card { name: "b", height: 2, expanded: 5, lit: true, cut_to: None },
        ]
    );
}

#[test]
fn only_the_selected_item_is_highlighted() {
    let mut list = List::new(three_cards());
    assert_eq!(list.select(2), Ok(()));
    let frame = list.render(20).unwrap();
    assert_eq!(frame.heights, vec![2, 2, 5]);
    let lit: Vec<bool> = frame.items.iter().map(|c| c.lit).collect();
    assert_eq!(lit, vec![false, false, true]);
    assert_eq!(frame.geometry, vec![entry(0, 0, 2), entry(1, 2, 2), entry(2, 4, 5)]);
}

#[test]
fn item_clipped_at_top_is_truncated_to_its_visible_rows() {
    let items = vec![card("a", 5, 5), card("b", 2, 2), card("c", 2, 2)];
    let list = List::with_state(items, state(None, 0, 3));
    let frame = list.render(4).unwrap();
    assert_eq!(
        frame.geometry,
        vec![
            ViewportEntry {
                item_index: 0,
                top_offset: 0,
                visible_rows: 2,
                clipped_top: true,
                clipped_bottom: false,
            },
            entry(1, 2, 2),
        ]
    );
    assert_eq!(
        frame.items,
        vec![
            Card { name: "a", height: 5, expanded: 5, lit: false, cut_to: Some(2) },
            card("b", 2, 2),
        ]
    );
    assert_eq!(frame.state, state(None, 0, 3));
}

#[test]
fn items_are_drawn_in_the_order_of_the_list() {
    let items = vec![card("a", 1, 1), card("b", 1, 1), card("c", 1, 1), card("d", 1, 1)];
    let list = List::with_state(items, state(None, 1, 0));
    let frame = list.render(2).unwrap();
    let names: Vec<&str> = frame.items.iter().map(|c| c.name).collect();
    assert_eq!(names, vec!["b", "c"]);
}

#[test]
fn rendering_twice_gives_the_same_frame() {
    let mut list = List::new(three_cards());
    assert_eq!(list.select(2), Ok(()));
    let first = list.render(6).unwrap();
    let second = List::with_state(three_cards(), first.state).render(6).unwrap();
    assert_eq!(first.geometry, second.geometry);
    assert_eq!(first.state, second.state);
    assert_eq!(first.items, second.items);
    assert_eq!(first.heights, second.heights);
}

#[test]
fn stale_state_is_refused() {
    let list = List::with_state(five_plain(), state(Some(1), 5, 0));
    assert_eq!(list.render(4).err(), Some(ListError::PreconditionViolation));
    let list = List::with_state(five_plain(), state(Some(5), 0, 0));
    assert_eq!(list.render(4).err(), Some(ListError::PreconditionViolation));
    let list = List::with_state(five_plain(), state(None, 0, 2));
    assert_eq!(list.render(4).err(), Some(ListError::PreconditionViolation));
}

#[test]
fn hidden_rows_are_held_against_the_highlighted_height() {
    let list = List::with_state(three_cards(), state(None, 0, 3));
    assert_eq!(list.render(4).err(), Some(ListError::PreconditionViolation));
    let list = List::with_state(three_cards(), state(Some(1), 1, 3));
    let frame = list.render(4).unwrap();
    assert_eq!(frame.state, state(Some(1), 1, 0));
}

#[test]
fn list_navigation_stops_at_both_ends() {
    let mut list = List::new(five_plain());
    list.previous();
    assert_eq!(list.state.selected, Some(0));
    list.previous();
    assert_eq!(list.state.selected, Some(0));
    for _ in 0..9 {
        list.next();
    }
    assert_eq!(list.state.selected, Some(4));
    list.previous();
    assert_eq!(list.state.selected, Some(3));
    assert_eq!(list.items, five_plain());
}

#[test]
fn list_select_refuses_an_index_behind_the_end() {
    let mut list = List::new(five_plain());
    assert_eq!(list.select(2), Ok(()));
    assert_eq!(list.select(5), Err(ListError::OutOfRange));
    assert_eq!(list.state, state(Some(2), 0, 0));
}

#[test]
fn replacing_items_keeps_the_state() {
    let mut list = List::new(five_plain());
    assert_eq!(list.select(4), Ok(()));
    list.replace_items(vec![Plain(1), Plain(1)]);
    assert_eq!(list.len(), 2);
    assert_eq!(list.state, state(Some(4), 0, 0));
    assert_eq!(list.render(4).err(), Some(ListError::PreconditionViolation));
}

#[test]
fn scrolling_back_up_reveals_the_selected_item() {
    let list = List::with_state(five_plain(), state(Some(4), 3, 0));
    let frame = list.render(4).unwrap();
    assert_eq!(frame.state, state(Some(4), 3, 0));
    let mut list = List::with_state(five_plain(), frame.state);
    list.previous();
    list.previous();
    let frame = list.render(4).unwrap();
    assert_eq!(frame.state, state(Some(2), 2, 0));
    assert_eq!(frame.geometry, vec![entry(2, 0, 2), entry(3, 2, 2)]);
}
