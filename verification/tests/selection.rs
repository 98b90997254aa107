use tui_widget_list::{ListError, SelectionState, Step};

fn at(selected: Option<usize>) -> SelectionState {
    SelectionState { selected, anchor_index: 0, anchor_skip: 0 }
}

#[test]
fn new_state_is_zeroed() {
    let state = SelectionState::new();
    assert_eq!(state.selected, None);
    assert_eq!(state.anchor_index, 0);
    assert_eq!(state.anchor_skip, 0);
    assert_eq!(SelectionState::default(), state);
}

#[test]
fn next_advances_by_one() {
    let mut state = at(Some(1));
    state.select_next(5);
    assert_eq!(state.selected, Some(2));
}

#[test]
fn next_stops_at_last_item() {
    let mut state = at(Some(4));
    state.select_next(5);
    assert_eq!(state.selected, Some(4));
    state.select_next(5);
    assert_eq!(state.selected, Some(4));
}

#[test]
fn next_with_nothing_selected_takes_first_item() {
    let mut state = at(None);
    state.select_next(3);
    assert_eq!(state.selected, Some(0));
}

#[test]
fn next_on_empty_list_changes_nothing() {
    let mut state = at(None);
    state.select_next(0);
    assert_eq!(state, at(None));
    let mut stale = at(Some(7));
    stale.select_next(0);
    assert_eq!(stale, at(Some(7)));
}

#[test]
fn next_survives_largest_index() {
    let mut state = at(Some(usize::MAX));
    state.select_next(3);
    assert_eq!(state.selected, Some(2));
}

#[test]
fn previous_goes_back_by_one() {
    let mut state = at(Some(3));
    state.select_previous(5);
    assert_eq!(state.selected, Some(2));
}

#[test]
fn previous_stops_at_first_item() {
    let mut state = at(Some(0));
    state.select_previous(5);
    assert_eq!(state.selected, Some(0));
}

#[test]
fn previous_with_nothing_selected_takes_first_item() {
    let mut state = at(None);
    state.select_previous(3);
    assert_eq!(state.selected, Some(0));
}

#[test]
fn previous_on_empty_list_changes_nothing() {
    let mut state = at(Some(2));
    state.select_previous(0);
    assert_eq!(state, at(Some(2)));
}

#[test]
fn previous_from_behind_the_end_comes_back_to_last_item() {
    let mut state = at(Some(9));
    state.select_previous(4);
    assert_eq!(state.selected, Some(3));
}

#[test]
fn navigation_leaves_anchor_alone() {
    let mut state = SelectionState { selected: Some(2), anchor_index: 1, anchor_skip: 3 };
    state.select_next(5);
    assert_eq!(state, SelectionState { selected: Some(3), anchor_index: 1, anchor_skip: 3 });
    state.select_previous(5);
    assert_eq!(state, SelectionState { selected: Some(2), anchor_index: 1, anchor_skip: 3 });
}

#[test]
fn step_follows_its_direction() {
    let mut state = at(Some(1));
    state.step(Step::Next, 3);
    assert_eq!(state.selected, Some(2));
    state.step(Step::Previous, 3);
    assert_eq!(state.selected, Some(1));
}

#[test]
fn any_walk_stays_inside_the_list() {
    let walk = [
        Step::Next,
        Step::Next,
        Step::Next,
        Step::Next,
        Step::Previous,
        Step::Next,
        Step::Previous,
        Step::Previous,
        Step::Previous,
        Step::Previous,
        Step::Previous,
        Step::Next,
    ];
    let count = 3;
    let mut state = at(Some(0));
    for step in walk {
        let before = state.selected.unwrap();
        state.step(step, count);
        let after = state.selected.unwrap();
        assert!(after < count);
        assert!(before.abs_diff(after) <= 1);
    }
    assert_eq!(state.selected, Some(1));
}

#[test]
fn select_takes_an_index_of_the_list() {
    let mut state = SelectionState { selected: Some(0), anchor_index: 2, anchor_skip: 1 };
    assert_eq!(state.select(4, 5), Ok(()));
    assert_eq!(state, SelectionState { selected: Some(4), anchor_index: 2, anchor_skip: 1 });
}

#[test]
fn select_refuses_an_index_behind_the_end() {
    let mut state = SelectionState { selected: Some(1), anchor_index: 2, anchor_skip: 1 };
    assert_eq!(state.select(5, 5), Err(ListError::OutOfRange));
    assert_eq!(state, SelectionState { selected: Some(1), anchor_index: 2, anchor_skip: 1 });
}

#[test]
fn select_refuses_everything_on_an_empty_list() {
    let mut state = at(None);
    assert_eq!(state.select(0, 0), Err(ListError::OutOfRange));
    assert_eq!(state, at(None));
}
