use vstd::prelude::*;
use crate::error::ListError;
use crate::geometry::{
    anchor_ok, entry_at, first_fit, fully_shown, geometry, lemma_first_row, lemma_span_split,
    repaired, shown_end, span, start_row, well_formed, ViewportEntry,
};
use crate::state::SelectionState;

verus! {

/// What one layout pass gives: the entries to draw, and the state to keep
/// for the next pass.
#[derive(Debug, PartialEq, Eq)]
pub struct Layout {
    /// The entries of the visible items, from the top of the viewport down.
    pub geometry: Vec<ViewportEntry>,
    /// The state with its anchor repaired.
    pub state: SelectionState,
}

/// Tells whether the state fits items of the given heights.
pub fn is_well_formed(heights: &Vec<usize>, state: SelectionState) -> (ok: bool)
    ensures
        ok == well_formed(heights@, state),
{
    if heights.len() == 0 {
        return true;
    }
    if state.anchor_index >= heights.len() {
        return false;
    }
    if state.anchor_skip != 0 && state.anchor_skip >= heights[state.anchor_index] {
        return false;
    }
    match state.selected {
        None => true,
        Some(i) => i < heights.len(),
    }
}

/// Tells whether the item at `index` is inside the viewport with all its
/// rows when the viewport begins at the given anchor.
pub fn is_fully_shown(
    heights: &Vec<usize>,
    anchor_index: usize,
    anchor_skip: usize,
    viewport_height: usize,
    index: usize,
) -> (shown: bool)
    requires
        heights@.len() > 0,
        anchor_ok(heights@, anchor_index as int, anchor_skip as int),
    ensures
        shown == fully_shown(
            heights@,
            anchor_index as int,
            anchor_skip as int,
            viewport_height as int,
            index as int,
        ),
{
    if index < anchor_index || index >= heights.len() {
        return false;
    }
    if index == anchor_index {
        return anchor_skip == 0 && viewport_height > 0 && heights[index] <= viewport_height;
    }
    let first: usize = heights[anchor_index] - anchor_skip;
    let mut used: usize = if first < viewport_height {
        first
    } else {
        viewport_height
    };
    let mut i: usize = anchor_index + 1;
    proof {
        lemma_first_row(heights@, anchor_index as int);
    }
    while i < index
        invariant
            anchor_index < i <= index < heights@.len(),
            used <= viewport_height,
            used < viewport_height ==> used == span(heights@, anchor_index as int, i as int)
                - anchor_skip,
            used == viewport_height ==> span(heights@, anchor_index as int, i as int) - anchor_skip
                >= viewport_height,
        decreases index - i,
    {
        let room: usize = viewport_height - used;
        if heights[i] >= room {
            used = viewport_height;
        } else {
            used = used + heights[i];
        }
        i += 1;
    }
    used < viewport_height && heights[index] <= viewport_height - used
}

/// Where nothing from `lo` up to `found` shows the selected item in full
/// and `found` does, or is the selected item itself, the first fit from
/// `lo` is `found`.
proof fn lemma_first_fit_is(
    heights: Seq<usize>,
    lo: int,
    found: int,
    selected: int,
    viewport_height: int,
)
    requires
        lo <= found <= selected,
        forall|k: int| lo <= k < found ==> !fully_shown(heights, k, 0, viewport_height, selected),
        found == selected || fully_shown(heights, found, 0, viewport_height, selected),
    ensures
        first_fit(heights, lo, selected, viewport_height) == found,
    decreases found - lo,
{
    if lo < found {
        lemma_first_fit_is(heights, lo + 1, found, selected, viewport_height);
    }
}

/// A viewport that begins later shows the selected item in full where one
/// that begins earlier does: so where one position fails, all before it
/// fail.
proof fn lemma_fit_is_upward_closed(
    heights: Seq<usize>,
    k: int,
    c: int,
    selected: int,
    viewport_height: int,
)
    requires
        0 <= k <= c < selected < heights.len(),
        fully_shown(heights, k, 0, viewport_height, selected),
    ensures
        fully_shown(heights, c, 0, viewport_height, selected),
{
    lemma_span_split(heights, k, c, selected);
    lemma_span_split(heights, k, k, c);
}

/// Finds the first position from `lo` on, before `selected`, from which the
/// selected item is shown in full, by walking back from the selected item
/// for as long as the items still fit.
pub fn find_first_fit(heights: &Vec<usize>, lo: usize, selected: usize, viewport_height: usize) -> (found: usize)
    requires
        selected < heights@.len(),
    ensures
        found == first_fit(heights@, lo as int, selected as int, viewport_height as int),
        lo <= selected ==> lo <= found <= selected,
        lo > selected ==> found == selected,
{
    if lo >= selected {
        return selected;
    }
    if viewport_height == 0 || heights[selected] > viewport_height {
        proof {
            assert forall|k: int| lo <= k < selected implies !fully_shown(
                heights@,
                k,
                0,
                viewport_height as int,
                selected as int,
            ) by {
                lemma_span_split(heights@, k, k, selected as int);
            }
            lemma_first_fit_is(
                heights@,
                lo as int,
                selected as int,
                selected as int,
                viewport_height as int,
            );
        }
        return selected;
    }
    let budget: usize = viewport_height - heights[selected];
    let mut c: usize = selected;
    let mut above: usize = 0;
    let mut open: bool = true;
    while open && c > lo
        invariant
            lo <= c <= selected < heights@.len(),
            above == span(heights@, c as int, selected as int),
            above <= budget,
            above < viewport_height,
            budget == viewport_height - heights@[selected as int],
            forall|k: int|
                c <= k < selected ==> fully_shown(
                    heights@,
                    k,
                    0,
                    viewport_height as int,
                    selected as int,
                ),
            !open ==> c > lo && !fully_shown(
                heights@,
                c - 1,
                0,
                viewport_height as int,
                selected as int,
            ),
        decreases c - lo + (if open { 1int } else { 0int }),
    {
        let h: usize = heights[c - 1];
        proof {
            lemma_span_split(heights@, c - 1, c as int, selected as int);
            lemma_first_row(heights@, c - 1);
        }
        if h > budget - above || h >= viewport_height - above {
            open = false;
        } else {
            above = above + h;
            c = c - 1;
        }
    }
    proof {
        assert forall|k: int| lo <= k < c implies !fully_shown(
            heights@,
            k,
            0,
            viewport_height as int,
            selected as int,
        ) by {
            if fully_shown(heights@, k, 0, viewport_height as int, selected as int) {
                lemma_fit_is_upward_closed(
                    heights@,
                    k,
                    c - 1,
                    selected as int,
                    viewport_height as int,
                );
            }
        }
        lemma_first_fit_is(heights@, lo as int, c as int, selected as int, viewport_height as int);
    }
    c
}

/// Repairs the anchor: moves it as little as brings the selected item into
/// view.
pub fn repair_anchor(heights: &Vec<usize>, state: SelectionState, viewport_height: usize) -> (next: SelectionState)
    requires
        well_formed(heights@, state),
    ensures
        next == repaired(heights@, state, viewport_height as int),
        well_formed(heights@, next),
{
    if heights.len() == 0 {
        return state;
    }
    match state.selected {
        None => state,
        Some(selected) => {
            if selected < state.anchor_index {
                SelectionState { selected: state.selected, anchor_index: selected, anchor_skip: 0 }
            } else if is_fully_shown(
                heights,
                state.anchor_index,
                state.anchor_skip,
                viewport_height,
                selected,
            ) {
                state
            } else {
                let found = find_first_fit(
                    heights,
                    state.anchor_index + 1,
                    selected,
                    viewport_height,
                );
                SelectionState { selected: state.selected, anchor_index: found, anchor_skip: 0 }
            }
        },
    }
}

/// Packs the items into the viewport from the anchor on, one below the
/// other, until no row or no item is left.
pub fn pack_forward(
    heights: &Vec<usize>,
    anchor_index: usize,
    anchor_skip: usize,
    viewport_height: usize,
) -> (entries: Vec<ViewportEntry>)
    requires
        anchor_ok(heights@, anchor_index as int, anchor_skip as int),
    ensures
        entries@ == geometry(
            heights@,
            anchor_index as int,
            anchor_skip as int,
            viewport_height as int,
        ),
{
    let mut entries: Vec<ViewportEntry> = Vec::new();
    let mut i: usize = anchor_index;
    let mut used: usize = 0;
    while i < heights.len() && used < viewport_height
        invariant
            anchor_ok(heights@, anchor_index as int, anchor_skip as int),
            anchor_index <= i,
            i <= heights@.len() || i == anchor_index,
            used <= viewport_height,
            i < heights@.len() && used < viewport_height ==> used == start_row(
                heights@,
                anchor_index as int,
                anchor_skip as int,
                i as int,
            ),
            i < heights@.len() && used == viewport_height ==> start_row(
                heights@,
                anchor_index as int,
                anchor_skip as int,
                i as int,
            ) >= viewport_height,
            shown_end(
                heights@,
                anchor_index as int,
                anchor_skip as int,
                viewport_height as int,
                anchor_index as int,
            ) == shown_end(
                heights@,
                anchor_index as int,
                anchor_skip as int,
                viewport_height as int,
                i as int,
            ),
            entries@.len() == i - anchor_index,
            forall|j: int|
                0 <= j < entries@.len() ==> entries@[j] == entry_at(
                    heights@,
                    anchor_index as int,
                    anchor_skip as int,
                    viewport_height as int,
                    anchor_index + j,
                ),
        decreases heights@.len() - i,
    {
        let hidden: usize = if i == anchor_index {
            anchor_skip
        } else {
            0
        };
        let available: usize = heights[i] - hidden;
        let remaining: usize = viewport_height - used;
        let rows: usize = if available < remaining {
            available
        } else {
            remaining
        };
        proof {
            lemma_first_row(heights@, anchor_index as int);
            if anchor_index < i {
                lemma_span_split(heights@, anchor_index as int, anchor_index + 1, i as int);
            }
        }
        entries.push(
            ViewportEntry {
                item_index: i,
                top_offset: used,
                visible_rows: rows,
                clipped_top: hidden > 0,
                clipped_bottom: available > remaining,
            },
        );
        used = used + rows;
        i = i + 1;
    }
    assert(entries@ =~= geometry(
        heights@,
        anchor_index as int,
        anchor_skip as int,
        viewport_height as int,
    ));
    entries
}

/// One layout pass: repairs the anchor, then packs the items into the
/// viewport from the repaired anchor on. A state that does not fit the
/// items is refused.
pub fn layout(heights: &Vec<usize>, state: SelectionState, viewport_height: usize) -> (r: Result<Layout, ListError>)
    ensures
        r is Ok <==> well_formed(heights@, state),
        r matches Ok(l) ==> l.state == repaired(heights@, state, viewport_height as int)
            && l.geometry@ == geometry(
            heights@,
            l.state.anchor_index as int,
            l.state.anchor_skip as int,
            viewport_height as int,
        ),
        r matches Err(e) ==> e == ListError::PreconditionViolation,
{
    if !is_well_formed(heights, state) {
        return Err(ListError::PreconditionViolation);
    }
    let next = repair_anchor(heights, state, viewport_height);
    let entries = pack_forward(heights, next.anchor_index, next.anchor_skip, viewport_height);
    Ok(Layout { geometry: entries, state: next })
}

} // verus!
