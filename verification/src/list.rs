use vstd::prelude::*;
use crate::error::ListError;
use crate::geometry::{geometry, repaired, well_formed, ViewportEntry};
use crate::guarantees::{
    lemma_geometry_is_contiguous, lemma_repair_keeps_well_formed, lemma_selected_is_in_view,
};
use crate::layout::layout;
use crate::state::{next_selection, previous_selection, SelectionState};
use crate::traits::{highlights_to, reports, truncates_to, Listable};

verus! {

/// A list of items together with its selection and scroll state.
pub struct List<T: Listable> {
    /// The items, in the order in which they are shown.
    pub items: Vec<T>,
    /// The selection and the anchor.
    pub state: SelectionState,
}

/// What one pass over a list gives to draw.
pub struct Frame<T> {
    /// The entries of the visible items, from the top of the viewport down.
    pub geometry: Vec<ViewportEntry>,
    /// The item to draw for each entry, in the order of the entries.
    pub items: Vec<T>,
    /// The heights that the items of the list reported, the selected one
    /// after it was highlighted.
    pub heights: Vec<usize>,
    /// The state to keep for the next pass.
    pub state: SelectionState,
}

/// `ready` are the items as they are measured: the selected one
/// highlighted, every other one as it was.
pub open spec fn made_ready<T: Listable>(items: Seq<T>, selected: Option<usize>, ready: Seq<T>) -> bool {
    &&& ready.len() == items.len()
    &&& forall|i: int|
        0 <= i < items.len() ==> if selected == Some(i as usize) {
            highlights_to(items[i], #[trigger] ready[i])
        } else {
            ready[i] == items[i]
        }
}

/// `heights` are heights that the items may report, each for itself.
pub open spec fn reported<T: Listable>(items: Seq<T>, heights: Seq<usize>) -> bool {
    &&& heights.len() == items.len()
    &&& forall|i: int| 0 <= i < items.len() ==> reports(items[i], #[trigger] heights[i])
}

/// `heights` are heights that a pass over the items may measure: for each
/// item but the selected one a height that it reports, and for the
/// selected one a height that it reports once it is highlighted.
pub open spec fn measured<T: Listable>(items: Seq<T>, selected: Option<usize>, heights: Seq<usize>) -> bool {
    exists|ready: Seq<T>| made_ready(items, selected, ready) && reported(ready, heights)
}

/// `drawn` is the item to draw for `entry`: the item of the list that the
/// entry names, highlighted where it is the selected one, truncated where
/// the entry is clipped at the top, and else as it was.
pub open spec fn drawn_for<T: Listable>(
    items: Seq<T>,
    selected: Option<usize>,
    entry: ViewportEntry,
    drawn: T,
) -> bool {
    let item = items[entry.item_index as int];
    if selected == Some(entry.item_index) {
        highlights_to(item, drawn)
    } else if entry.clipped_top {
        truncates_to(item, entry.visible_rows, drawn)
    } else {
        drawn == item
    }
}

/// The items in the opposite order.
fn reversed<T>(items: Vec<T>) -> (r: Vec<T>)
    ensures
        r@.len() == items@.len(),
        forall|i: int| 0 <= i < r@.len() ==> r@[i] == items@[items@.len() - 1 - i],
{
    let mut items = items;
    let ghost before = items@;
    let mut r: Vec<T> = Vec::new();
    while items.len() > 0
        invariant
            r@.len() + items@.len() == before.len(),
            forall|i: int| 0 <= i < items@.len() ==> items@[i] == before[i],
            forall|i: int| 0 <= i < r@.len() ==> r@[i] == before[before.len() - 1 - i],
        decreases items@.len(),
    {
        let item = items.pop().unwrap();
        r.push(item);
    }
    r
}

/// Highlights the selected item and asks every item for its height.
fn measure<T: Listable>(items: Vec<T>, selected: Option<usize>) -> (r: (Vec<T>, Vec<usize>))
    ensures
        made_ready(items@, selected, r.0@),
        reported(r.0@, r.1@),
        r.1@.len() <= usize::MAX,
{
    let ghost before = items@;
    let mut rest = reversed(items);
    let mut ready: Vec<T> = Vec::new();
    let mut heights: Vec<usize> = Vec::new();
    while rest.len() > 0
        invariant
            rest@.len() + ready@.len() == before.len(),
            heights@.len() == ready@.len(),
            forall|i: int| 0 <= i < rest@.len() ==> rest@[i] == before[before.len() - 1 - i],
            forall|i: int|
                0 <= i < ready@.len() ==> if selected == Some(i as usize) {
                    highlights_to(before[i], #[trigger] ready@[i])
                } else {
                    ready@[i] == before[i]
                },
            forall|i: int| 0 <= i < ready@.len() ==> reports(ready@[i], #[trigger] heights@[i]),
        decreases rest@.len(),
    {
        let at: usize = ready.len();
        let item = rest.pop().unwrap();
        let is_selected = match selected {
            Some(s) => s == at,
            None => false,
        };
        let item = if is_selected {
            item.highlight()
        } else {
            item
        };
        let h: usize = item.height();
        heights.push(h);
        ready.push(item);
    }
    assert(heights@.len() == heights.len());
    (ready, heights)
}

/// Picks the items that the entries name, in the order of the entries, and
/// truncates one whose entry is clipped at the top.
fn take_visible<T: Listable>(ready: Vec<T>, entries: &Vec<ViewportEntry>) -> (drawn: Vec<T>)
    requires
        entries@.len() > 0 ==> entries@[0].item_index + entries@.len() <= ready@.len(),
        forall|j: int|
            0 <= j < entries@.len() ==> (#[trigger] entries@[j]).item_index
                == entries@[0].item_index + j,
    ensures
        drawn@.len() == entries@.len(),
        forall|j: int|
            0 <= j < entries@.len() ==> if entries@[j].clipped_top {
                truncates_to(
                    ready@[entries@[j].item_index as int],
                    entries@[j].visible_rows,
                    #[trigger] drawn@[j],
                )
            } else {
                drawn@[j] == ready@[entries@[j].item_index as int]
            },
{
    let mut taken: Vec<T> = Vec::new();
    let count: usize = entries.len();
    if count == 0 {
        return taken;
    }
    let first: usize = entries[0].item_index;
    let mut ready = ready;
    let ghost before = ready@;
    let total: usize = ready.len();
    assert(first + count <= total);
    ready.truncate(first + count);
    while taken.len() < count
        invariant
            count == entries@.len(),
            first == entries@[0].item_index,
            first + count <= before.len(),
            forall|j: int|
                0 <= j < entries@.len() ==> (#[trigger] entries@[j]).item_index == first + j,
            taken@.len() <= count,
            ready@.len() == first + count - taken@.len(),
            forall|i: int| 0 <= i < ready@.len() ==> ready@[i] == before[i],
            forall|k: int|
                0 <= k < taken@.len() ==> if entries@[count - 1 - k].clipped_top {
                    truncates_to(
                        before[first + count - 1 - k],
                        entries@[count - 1 - k].visible_rows,
                        #[trigger] taken@[k],
                    )
                } else {
                    taken@[k] == before[first + count - 1 - k]
                },
        decreases count - taken@.len(),
    {
        let j: usize = count - 1 - taken.len();
        let item = ready.pop().unwrap();
        let item = if entries[j].clipped_top {
            item.truncate_top(entries[j].visible_rows)
        } else {
            item
        };
        taken.push(item);
    }
    let drawn = reversed(taken);
    assert forall|j: int| 0 <= j < entries@.len() implies if entries@[j].clipped_top {
        truncates_to(
            before[entries@[j].item_index as int],
            entries@[j].visible_rows,
            #[trigger] drawn@[j],
        )
    } else {
        drawn@[j] == before[entries@[j].item_index as int]
    } by {
        assert(drawn@[j] == taken@[count - 1 - j]);
    }
    drawn
}

impl<T: Listable> List<T> {
    /// A list of the given items with nothing selected and the viewport at
    /// the first row of the first item.
    pub fn new(items: Vec<T>) -> (list: Self)
        ensures
            list.items == items,
            list.state == (SelectionState { selected: None, anchor_index: 0, anchor_skip: 0 }),
    {
        List { items, state: SelectionState::new() }
    }

    /// A list of the given items that goes on from a state kept from an
    /// earlier pass.
    pub fn with_state(items: Vec<T>, state: SelectionState) -> (list: Self)
        ensures
            list.items == items,
            list.state == state,
    {
        List { items, state }
    }

    /// Replaces all items at once. The state stays as it is.
    pub fn replace_items(&mut self, items: Vec<T>)
        ensures
            final(self).items == items,
            final(self).state == old(self).state,
    {
        self.items = items;
    }

    /// The number of items.
    pub fn len(&self) -> (n: usize)
        ensures
            n == self.items@.len(),
    {
        self.items.len()
    }

    /// Moves the selection to the next item and stops at the last one. The
    /// anchor follows at the next pass.
    pub fn next(&mut self)
        ensures
            final(self).items == old(self).items,
            final(self).state.selected == next_selection(
                old(self).state.selected,
                old(self).items@.len() as usize,
            ),
            final(self).state.anchor_index == old(self).state.anchor_index,
            final(self).state.anchor_skip == old(self).state.anchor_skip,
    {
        let count: usize = self.items.len();
        self.state.select_next(count);
    }

    /// Moves the selection to the item before and stops at the first one.
    /// The anchor follows at the next pass.
    pub fn previous(&mut self)
        ensures
            final(self).items == old(self).items,
            final(self).state.selected == previous_selection(
                old(self).state.selected,
                old(self).items@.len() as usize,
            ),
            final(self).state.anchor_index == old(self).state.anchor_index,
            final(self).state.anchor_skip == old(self).state.anchor_skip,
    {
        let count: usize = self.items.len();
        self.state.select_previous(count);
    }

    /// Selects the item at `index`. An index that names no item is refused
    /// and the list stays as it was.
    pub fn select(&mut self, index: usize) -> (r: Result<(), ListError>)
        ensures
            final(self).items == old(self).items,
            index < old(self).items@.len() ==> r == Ok::<(), ListError>(()) && final(self).state == (
            SelectionState { selected: Some(index), ..old(self).state }),
            index >= old(self).items@.len() ==> r == Err::<(), ListError>(ListError::OutOfRange)
                && final(self).state == old(self).state,
    {
        let count: usize = self.items.len();
        self.state.select(index, count)
    }

    /// One pass over the list for a viewport of the given height.
    ///
    /// The selected item is highlighted, every item is asked for its
    /// height, and the heights are laid out as `layout` does: the frame
    /// holds those heights, the entries, the repaired state, and for each
    /// entry the item to draw. The pass is refused only where the heights
    /// that the items reported do not fit the state; an empty list, and a
    /// state that names items of the list and hides no rows, are never
    /// refused.
    pub fn render(self, viewport_height: usize) -> (r: Result<Frame<T>, ListError>)
        ensures
            self.items@.len() == 0 ==> r is Ok,
            self.state.anchor_index < self.items@.len() && self.state.anchor_skip == 0 && (
            match self.state.selected {
                Some(i) => i < self.items@.len(),
                None => true,
            }) ==> r is Ok,
            r matches Ok(frame) ==> {
                &&& measured(self.items@, self.state.selected, frame.heights@)
                &&& well_formed(frame.heights@, self.state)
                &&& frame.state == repaired(frame.heights@, self.state, viewport_height as int)
                &&& frame.geometry@ == geometry(
                    frame.heights@,
                    frame.state.anchor_index as int,
                    frame.state.anchor_skip as int,
                    viewport_height as int,
                )
                &&& frame.items@.len() == frame.geometry@.len()
                &&& forall|j: int|
                    0 <= j < frame.geometry@.len() ==> {
                        &&& drawn_for(
                            self.items@,
                            self.state.selected,
                            frame.geometry@[j],
                            #[trigger] frame.items@[j],
                        )
                        &&& self.state.selected == Some(frame.geometry@[j].item_index)
                            ==> reports(
                            frame.items@[j],
                            frame.heights@[frame.geometry@[j].item_index as int],
                        )
                    }
            },
            r matches Err(e) ==> {
                &&& e == ListError::PreconditionViolation
                &&& exists|heights: Seq<usize>|
                    measured(self.items@, self.state.selected, heights) && !well_formed(
                        heights,
                        self.state,
                    )
            },
    {
        let ghost before = self.items@;
        let state = self.state;
        let (ready, heights) = measure(self.items, state.selected);
        assert(measured(before, state.selected, heights@));
        match layout(&heights, state, viewport_height) {
            Err(e) => Err(e),
            Ok(l) => {
                proof {
                    lemma_repair_keeps_well_formed(heights@, state, viewport_height);
                    lemma_geometry_is_contiguous(
                        heights@,
                        l.state.anchor_index,
                        l.state.anchor_skip,
                        viewport_height,
                    );
                    if viewport_height >= 1 && heights@.len() > 0 {
                        if let Some(selected) = state.selected {
                            lemma_selected_is_in_view(heights@, state, viewport_height, selected);
                        }
                    }
                }
                let drawn = take_visible(ready, &l.geometry);
                Ok(Frame { geometry: l.geometry, items: drawn, heights, state: l.state })
            },
        }
    }
}

} // verus!
