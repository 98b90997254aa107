use vstd::prelude::*;
use crate::state::SelectionState;

verus! {

/// The place of one item in the viewport.
#[derive(Clone, Copy, Debug, PartialEq, Eq, Structural)]
pub struct ViewportEntry {
    /// The item's position in the list.
    pub item_index: usize,
    /// The row of the viewport on which the item's visible part begins.
    pub top_offset: usize,
    /// The number of rows of the item that are inside the viewport.
    pub visible_rows: usize,
    /// Rows of the item are hidden above the viewport.
    pub clipped_top: bool,
    /// Rows of the item are hidden below the viewport.
    pub clipped_bottom: bool,
}

/// The rows that the items from `lo` up to, not including, `hi` occupy
/// together.
pub open spec fn span(heights: Seq<usize>, lo: int, hi: int) -> int
    decreases hi - lo,
{
    if hi <= lo {
        0
    } else {
        span(heights, lo, hi - 1) + heights[hi - 1]
    }
}

/// The rows of item `i` that lie above the viewport: the anchor's hidden
/// rows for the anchor item, none for any other.
pub open spec fn rows_hidden_above(anchor_index: int, anchor_skip: int, i: int) -> int {
    if i == anchor_index {
        anchor_skip
    } else {
        0
    }
}

/// The row of the viewport on which the visible part of item `i` begins
/// when the items are laid out one below the other from the anchor on.
pub open spec fn start_row(heights: Seq<usize>, anchor_index: int, anchor_skip: int, i: int) -> int {
    if i == anchor_index {
        0
    } else {
        span(heights, anchor_index, i) - anchor_skip
    }
}

/// The anchor names an item, or the list is empty, and of an item that it
/// names it hides fewer rows than the item has, or none.
pub open spec fn anchor_ok(heights: Seq<usize>, anchor_index: int, anchor_skip: int) -> bool {
    heights.len() > 0 ==> {
        &&& 0 <= anchor_index < heights.len()
        &&& 0 <= anchor_skip
        &&& (anchor_skip == 0 || anchor_skip < heights[anchor_index])
    }
}

/// The state fits the items: the anchor is in order and the selection, if
/// there is one, names an item. Every state fits an empty list.
pub open spec fn well_formed(heights: Seq<usize>, state: SelectionState) -> bool {
    heights.len() > 0 ==> {
        &&& anchor_ok(heights, state.anchor_index as int, state.anchor_skip as int)
        &&& match state.selected {
            None => true,
            Some(i) => i < heights.len(),
        }
    }
}

/// Item `i` gets an entry: it exists, it is not before the anchor, and rows
/// of the viewport are left when its turn comes.
pub open spec fn is_shown(
    heights: Seq<usize>,
    anchor_index: int,
    anchor_skip: int,
    viewport_height: int,
    i: int,
) -> bool {
    &&& anchor_index <= i < heights.len()
    &&& start_row(heights, anchor_index, anchor_skip, i) < viewport_height
}

/// The first position from `i` on whose item gets no entry.
pub open spec fn shown_end(
    heights: Seq<usize>,
    anchor_index: int,
    anchor_skip: int,
    viewport_height: int,
    i: int,
) -> int
    decreases heights.len() - i,
{
    if is_shown(heights, anchor_index, anchor_skip, viewport_height, i) {
        shown_end(heights, anchor_index, anchor_skip, viewport_height, i + 1)
    } else {
        i
    }
}

/// The entry of item `i`: it begins where the items before it end, takes
/// the rows that are left of the viewport or the rows that are left of the
/// item, whichever are fewer, and is clipped where the item has more.
pub open spec fn entry_at(
    heights: Seq<usize>,
    anchor_index: int,
    anchor_skip: int,
    viewport_height: int,
    i: int,
) -> ViewportEntry {
    let hidden = rows_hidden_above(anchor_index, anchor_skip, i);
    let start = start_row(heights, anchor_index, anchor_skip, i);
    let remaining = viewport_height - start;
    let available = heights[i] - hidden;
    ViewportEntry {
        item_index: i as usize,
        top_offset: start as usize,
        visible_rows: (if available < remaining {
            available
        } else {
            remaining
        }) as usize,
        clipped_top: hidden > 0,
        clipped_bottom: available > remaining,
    }
}

/// What a viewport of the given height shows when it begins at the anchor:
/// one entry for each item from the anchor on, as long as rows are left.
pub open spec fn geometry(
    heights: Seq<usize>,
    anchor_index: int,
    anchor_skip: int,
    viewport_height: int,
) -> Seq<ViewportEntry> {
    Seq::new(
        (shown_end(heights, anchor_index, anchor_skip, viewport_height, anchor_index)
            - anchor_index) as nat,
        |j: int| entry_at(heights, anchor_index, anchor_skip, viewport_height, anchor_index + j),
    )
}

/// Item `i` is inside the viewport with all its rows, and has an entry.
pub open spec fn fully_shown(
    heights: Seq<usize>,
    anchor_index: int,
    anchor_skip: int,
    viewport_height: int,
    i: int,
) -> bool {
    &&& is_shown(heights, anchor_index, anchor_skip, viewport_height, i)
    &&& rows_hidden_above(anchor_index, anchor_skip, i) == 0
    &&& start_row(heights, anchor_index, anchor_skip, i) + heights[i] <= viewport_height
}

/// The first position from `lo` on, before `selected`, from which a
/// viewport that begins there with nothing hidden shows the selected item
/// in full; `selected` itself where there is none.
pub open spec fn first_fit(heights: Seq<usize>, lo: int, selected: int, viewport_height: int) -> int
    decreases selected - lo,
{
    if lo >= selected {
        selected
    } else if fully_shown(heights, lo, 0, viewport_height, selected) {
        lo
    } else {
        first_fit(heights, lo + 1, selected, viewport_height)
    }
}

/// The state with its anchor moved as little as brings the selected item
/// into view.
///
/// Nothing moves in an empty list, with nothing selected, or while the
/// selected item is inside the viewport in full. A selection before the
/// anchor becomes the anchor. Otherwise the anchor passes over whole items
/// until the selected item is inside the viewport in full, and stops at the
/// selected item at the latest: an item taller than the viewport begins at
/// the viewport's first row.
pub open spec fn repaired(heights: Seq<usize>, state: SelectionState, viewport_height: int) -> SelectionState {
    match state.selected {
        None => state,
        Some(selected) => {
            if heights.len() == 0 {
                state
            } else if selected < state.anchor_index {
                SelectionState { selected: state.selected, anchor_index: selected, anchor_skip: 0 }
            } else if fully_shown(
                heights,
                state.anchor_index as int,
                state.anchor_skip as int,
                viewport_height,
                selected as int,
            ) {
                state
            } else {
                SelectionState {
                    selected: state.selected,
                    anchor_index: first_fit(
                        heights,
                        state.anchor_index + 1,
                        selected as int,
                        viewport_height,
                    ) as usize,
                    anchor_skip: 0,
                }
            }
        },
    }
}

/// The rows that the entries occupy together.
pub open spec fn total_rows(entries: Seq<ViewportEntry>) -> int
    decreases entries.len(),
{
    if entries.len() == 0 {
        0
    } else {
        total_rows(entries.drop_last()) + entries.last().visible_rows
    }
}

/// A span is never negative, and it is the sum of its two parts.
pub proof fn lemma_span_split(heights: Seq<usize>, lo: int, mid: int, hi: int)
    requires
        lo <= mid <= hi,
    ensures
        span(heights, lo, hi) == span(heights, lo, mid) + span(heights, mid, hi),
        span(heights, mid, hi) >= 0,
    decreases hi - mid,
{
    if mid < hi {
        lemma_span_split(heights, lo, mid, hi - 1);
    }
}

/// From the anchor on no item begins above one before it, and none begins
/// above the viewport.
pub proof fn lemma_start_row_grows(
    heights: Seq<usize>,
    anchor_index: int,
    anchor_skip: int,
    i: int,
    j: int,
)
    requires
        anchor_ok(heights, anchor_index, anchor_skip),
        0 <= anchor_index <= i <= j < heights.len(),
    ensures
        0 <= start_row(heights, anchor_index, anchor_skip, i) <= start_row(
            heights,
            anchor_index,
            anchor_skip,
            j,
        ),
{
    lemma_first_row(heights, anchor_index);
    if anchor_index < i {
        lemma_span_split(heights, anchor_index, anchor_index + 1, i);
        lemma_span_split(heights, anchor_index, i, j);
    } else if anchor_index < j {
        lemma_span_split(heights, anchor_index, anchor_index + 1, j);
    }
}

/// The span of one item is its height.
pub proof fn lemma_first_row(heights: Seq<usize>, i: int)
    ensures
        span(heights, i, i + 1) == heights[i],
{
    assert(span(heights, i, i) == 0);
}

} // verus!
