use vstd::prelude::*;
use crate::error::ListError;

verus! {

/// Which item is selected and where the viewport begins.
#[derive(Clone, Copy, Debug, PartialEq, Eq)]
pub struct SelectionState {
    /// The selected item, if any.
    pub selected: Option<usize>,
    /// The first item that is laid out.
    pub anchor_index: usize,
    /// The rows of the anchor item that are hidden above the viewport.
    pub anchor_skip: usize,
}

/// One step of the selection.
#[derive(Clone, Copy, Debug, PartialEq, Eq, Structural)]
pub enum Step {
    /// Towards the end of the list.
    Next,
    /// Towards the beginning of the list.
    Previous,
}

/// The selection after one step forward in a list of `item_count` items:
/// the next item, or the last one where there is no next. With nothing
/// selected the first item is taken. An empty list leaves the selection as
/// it is.
pub open spec fn next_selection(selected: Option<usize>, item_count: usize) -> Option<usize> {
    if item_count == 0 {
        selected
    } else {
        match selected {
            None => Some(0usize),
            Some(i) => if i + 1 < item_count {
                Some((i + 1) as usize)
            } else {
                Some((item_count - 1) as usize)
            },
        }
    }
}

/// The selection after one step backward in a list of `item_count` items:
/// the item before, or the first one where there is none before. With
/// nothing selected the first item is taken, and a selection behind the end
/// of the list comes back to the last item. An empty list leaves the
/// selection as it is.
pub open spec fn previous_selection(selected: Option<usize>, item_count: usize) -> Option<
    usize,
> {
    if item_count == 0 {
        selected
    } else {
        match selected {
            None => Some(0usize),
            Some(i) => if i == 0 {
                Some(0usize)
            } else if i - 1 < item_count {
                Some((i - 1) as usize)
            } else {
                Some((item_count - 1) as usize)
            },
        }
    }
}

/// The selection after one step in the given direction.
pub open spec fn stepped(selected: Option<usize>, item_count: usize, step: Step) -> Option<usize> {
    match step {
        Step::Next => next_selection(selected, item_count),
        Step::Previous => previous_selection(selected, item_count),
    }
}

/// The selection after the given steps, taken in order.
pub open spec fn walked(selected: Option<usize>, item_count: usize, steps: Seq<Step>) -> Option<
    usize,
>
    decreases steps.len(),
{
    if steps.len() == 0 {
        selected
    } else {
        stepped(walked(selected, item_count, steps.drop_last()), item_count, steps.last())
    }
}

/// The selection names an item of a list of `item_count` items, or nothing.
pub open spec fn selection_in_range(selected: Option<usize>, item_count: usize) -> bool {
    match selected {
        None => true,
        Some(i) => i < item_count,
    }
}

/// The distance between two selections, where both name an item.
pub open spec fn selection_distance(before: Option<usize>, after: Option<usize>) -> int {
    match (before, after) {
        (Some(i), Some(j)) => if i <= j {
            j - i
        } else {
            i - j
        },
        _ => 0,
    }
}

impl SelectionState {
    /// A state with nothing selected and the viewport at the first row of
    /// the first item.
    pub fn new() -> (state: Self)
        ensures
            state == (SelectionState { selected: None, anchor_index: 0, anchor_skip: 0 }),
    {
        SelectionState { selected: None, anchor_index: 0, anchor_skip: 0 }
    }

    /// Moves the selection one item towards the end of a list of
    /// `item_count` items and stops at the last item. The anchor stays: the
    /// next layout pass brings the selection into view.
    pub fn select_next(&mut self, item_count: usize)
        ensures
            final(self).selected == next_selection(old(self).selected, item_count),
            final(self).anchor_index == old(self).anchor_index,
            final(self).anchor_skip == old(self).anchor_skip,
    {
        if item_count > 0 {
            self.selected = match self.selected {
                None => Some(0),
                Some(i) => if i < item_count - 1 {
                    Some(i + 1)
                } else {
                    Some(item_count - 1)
                },
            };
        }
    }

    /// Moves the selection one item towards the beginning of a list of
    /// `item_count` items and stops at the first item. The anchor stays.
    pub fn select_previous(&mut self, item_count: usize)
        ensures
            final(self).selected == previous_selection(old(self).selected, item_count),
            final(self).anchor_index == old(self).anchor_index,
            final(self).anchor_skip == old(self).anchor_skip,
    {
        if item_count > 0 {
            self.selected = match self.selected {
                None => Some(0),
                Some(i) => if i == 0 {
                    Some(0)
                } else if i - 1 < item_count {
                    Some(i - 1)
                } else {
                    Some(item_count - 1)
                },
            };
        }
    }

    /// Takes one step in the given direction.
    pub fn step(&mut self, step: Step, item_count: usize)
        ensures
            final(self).selected == stepped(old(self).selected, item_count, step),
            final(self).anchor_index == old(self).anchor_index,
            final(self).anchor_skip == old(self).anchor_skip,
    {
        match step {
            Step::Next => self.select_next(item_count),
            Step::Previous => self.select_previous(item_count),
        }
    }

    /// Selects the item at `index` of a list of `item_count` items. An
    /// index that names no item is refused and the state stays as it was.
    pub fn select(&mut self, index: usize, item_count: usize) -> (r: Result<(), ListError>)
        ensures
            index < item_count ==> r == Ok::<(), ListError>(()) && *final(self) == (SelectionState {
                selected: Some(index),
                ..*old(self)
            }),
            index >= item_count ==> r == Err::<(), ListError>(ListError::OutOfRange) && *final(self)
                == *old(self),
    {
        if index < item_count {
            self.selected = Some(index);
            Ok(())
        } else {
            Err(ListError::OutOfRange)
        }
    }
}

impl Default for SelectionState {
    fn default() -> (state: Self)
        ensures
            state == (SelectionState { selected: None, anchor_index: 0, anchor_skip: 0 }),
    {
        SelectionState::new()
    }
}

/// A step in a list that is not empty selects an item of the list.
pub proof fn lemma_step_in_range(selected: Option<usize>, item_count: usize, step: Step)
    requires
        item_count > 0,
    ensures
        stepped(selected, item_count, step) is Some,
        selection_in_range(stepped(selected, item_count, step), item_count),
{
}

/// A step from an item of the list moves the selection by one item at most,
/// and never from one end of the list to the other: forward it arrives at
/// the same or the following item, backward at the same or the item before.
pub proof fn lemma_step_is_clamped(selected: usize, item_count: usize, step: Step)
    requires
        selected < item_count,
    ensures
        selection_distance(Some(selected), stepped(Some(selected), item_count, step)) <= 1,
        step == Step::Next ==> stepped(Some(selected), item_count, step) == Some(
            if selected + 1 < item_count {
                (selected + 1) as usize
            } else {
                selected
            },
        ),
        step == Step::Previous ==> stepped(Some(selected), item_count, step) == Some(
            if selected > 0 {
                (selected - 1) as usize
            } else {
                selected
            },
        ),
{
}

/// Whatever steps are taken in a list that is not empty, a selection that
/// names an item of the list, or nothing, never comes to name anything but
/// an item of the list.
pub proof fn lemma_walk_in_range(selected: Option<usize>, item_count: usize, steps: Seq<Step>)
    requires
        item_count > 0,
        selection_in_range(selected, item_count),
    ensures
        selection_in_range(walked(selected, item_count, steps), item_count),
        steps.len() > 0 ==> walked(selected, item_count, steps) is Some,
    decreases steps.len(),
{
    if steps.len() > 0 {
        lemma_walk_in_range(selected, item_count, steps.drop_last());
        lemma_step_in_range(
            walked(selected, item_count, steps.drop_last()),
            item_count,
            steps.last(),
        );
    }
}

} // verus!
