use vstd::prelude::*;
use crate::geometry::{
    anchor_ok, entry_at, first_fit, fully_shown, geometry, is_shown, lemma_first_row,
    lemma_span_split, lemma_start_row_grows, repaired, shown_end, start_row, total_rows,
    well_formed,
};
use crate::state::SelectionState;

verus! {

/// The entries end where `shown_end` says: every item from `i` up to it is
/// shown, and the item at it is not.
pub proof fn lemma_shown_end_is_end(
    heights: Seq<usize>,
    anchor_index: int,
    anchor_skip: int,
    viewport_height: int,
    i: int,
)
    ensures
        i <= shown_end(heights, anchor_index, anchor_skip, viewport_height, i),
        forall|k: int|
            i <= k < shown_end(heights, anchor_index, anchor_skip, viewport_height, i)
                ==> is_shown(heights, anchor_index, anchor_skip, viewport_height, k),
        !is_shown(
            heights,
            anchor_index,
            anchor_skip,
            viewport_height,
            shown_end(heights, anchor_index, anchor_skip, viewport_height, i),
        ),
    decreases heights.len() - i,
{
    if is_shown(heights, anchor_index, anchor_skip, viewport_height, i) {
        lemma_shown_end_is_end(heights, anchor_index, anchor_skip, viewport_height, i + 1);
    }
}

/// An item that is shown has an entry: the entries do not end before it.
pub proof fn lemma_shown_item_has_entry(
    heights: Seq<usize>,
    anchor_index: int,
    anchor_skip: int,
    viewport_height: int,
    i: int,
    k: int,
)
    requires
        anchor_ok(heights, anchor_index, anchor_skip),
        0 <= anchor_index <= i <= k,
        is_shown(heights, anchor_index, anchor_skip, viewport_height, k),
    ensures
        k < shown_end(heights, anchor_index, anchor_skip, viewport_height, i),
    decreases k - i,
{
    lemma_start_row_grows(heights, anchor_index, anchor_skip, i, k);
    if i < k {
        lemma_shown_item_has_entry(heights, anchor_index, anchor_skip, viewport_height, i + 1, k);
    } else {
        lemma_shown_end_is_end(heights, anchor_index, anchor_skip, viewport_height, i + 1);
    }
}

/// The rows of the first `k` entries of a geometry end where the last of
/// them ends.
proof fn lemma_total_rows_of_prefix(
    heights: Seq<usize>,
    anchor_index: usize,
    anchor_skip: usize,
    viewport_height: usize,
    k: int,
)
    requires
        heights.len() <= usize::MAX,
        anchor_ok(heights, anchor_index as int, anchor_skip as int),
        0 <= k <= geometry(
            heights,
            anchor_index as int,
            anchor_skip as int,
            viewport_height as int,
        ).len(),
    ensures
        ({
            let g = geometry(
                heights,
                anchor_index as int,
                anchor_skip as int,
                viewport_height as int,
            );
            total_rows(g.take(k)) == if k == 0 {
                0
            } else {
                g[k - 1].top_offset + g[k - 1].visible_rows
            }
        }),
    decreases k,
{
    let g = geometry(heights, anchor_index as int, anchor_skip as int, viewport_height as int);
    if k > 0 {
        lemma_total_rows_of_prefix(heights, anchor_index, anchor_skip, viewport_height, k - 1);
        lemma_geometry_is_contiguous(heights, anchor_index, anchor_skip, viewport_height);
        assert(g.take(k).drop_last() =~= g.take(k - 1));
        assert(g.take(k).last() == g[k - 1]);
    }
}

/// The entries of a geometry are those of consecutive items from the anchor
/// on. The first begins on row 0 and each other one on the row after the
/// last row of the one before it; none reaches beyond the viewport, so
/// that all together take no more rows than the viewport has. Only the
/// first entry can be clipped at the top, and only the last at the bottom.
pub proof fn lemma_geometry_is_contiguous(
    heights: Seq<usize>,
    anchor_index: usize,
    anchor_skip: usize,
    viewport_height: usize,
)
    requires
        heights.len() <= usize::MAX,
        anchor_ok(heights, anchor_index as int, anchor_skip as int),
    ensures
        ({
            let g = geometry(
                heights,
                anchor_index as int,
                anchor_skip as int,
                viewport_height as int,
            );
            &&& g.len() > 0 ==> g[0].top_offset == 0
            &&& g.len() > 0 ==> anchor_index + g.len() <= heights.len()
            &&& forall|j: int| 0 <= j < g.len() ==> (#[trigger] g[j]).item_index == anchor_index + j
            &&& forall|j: int|
                0 <= j < g.len() ==> (#[trigger] g[j]).top_offset + g[j].visible_rows
                    <= viewport_height
            &&& forall|j: int|
                0 <= j < g.len() ==> (#[trigger] g[j]).top_offset < viewport_height
            &&& forall|j: int|
                0 < j < g.len() ==> (#[trigger] g[j]).top_offset == g[j - 1].top_offset + g[j
                    - 1].visible_rows
            &&& forall|j: int| 0 < j < g.len() ==> !(#[trigger] g[j]).clipped_top
            &&& forall|j: int| 0 <= j < g.len() - 1 ==> !(#[trigger] g[j]).clipped_bottom
            &&& g.len() > 0 ==> (g[0].clipped_top <==> anchor_skip > 0)
        }),
{
    let a = anchor_index as int;
    let s = anchor_skip as int;
    let v = viewport_height as int;
    let g = geometry(heights, a, s, v);
    lemma_shown_end_is_end(heights, a, s, v, a);
    assert forall|j: int| 0 <= j < g.len() implies {
        &&& is_shown(heights, a, s, v, a + j)
        &&& 0 <= start_row(heights, a, s, a + j) < v
        &&& (#[trigger] g[j]).item_index == a + j
        &&& g[j].top_offset == start_row(heights, a, s, a + j)
        &&& g[j].top_offset + g[j].visible_rows <= v
        &&& (j > 0 ==> !g[j].clipped_top)
        &&& (j > 0 ==> g[j].top_offset == g[j - 1].top_offset + g[j - 1].visible_rows
            && !g[j - 1].clipped_bottom)
    } by {
        assert(is_shown(heights, a, s, v, a + j));
        lemma_start_row_grows(heights, a, s, a + j, a + j);
        assert(g[j] == entry_at(heights, a, s, v, a + j));
        if j > 0 {
            assert(is_shown(heights, a, s, v, a + j - 1));
            lemma_start_row_grows(heights, a, s, a + j - 1, a + j);
            assert(g[j - 1] == entry_at(heights, a, s, v, a + j - 1));
            lemma_first_row(heights, a);
            if j > 1 {
                lemma_span_split(heights, a, a + 1, a + j - 1);
            }
        }
    }
    assert forall|j: int| 0 <= j < g.len() - 1 implies !(#[trigger] g[j]).clipped_bottom by {
        assert(g[j + 1].top_offset == g[j].top_offset + g[j].visible_rows);
    }
    if g.len() > 0 {
        assert(is_shown(heights, a, s, v, a + g.len() - 1));
    }
}

/// All entries of a geometry together take no more rows than the viewport
/// has.
pub proof fn lemma_geometry_fits_viewport(
    heights: Seq<usize>,
    anchor_index: usize,
    anchor_skip: usize,
    viewport_height: usize,
)
    requires
        heights.len() <= usize::MAX,
        anchor_ok(heights, anchor_index as int, anchor_skip as int),
    ensures
        0 <= total_rows(
            geometry(heights, anchor_index as int, anchor_skip as int, viewport_height as int),
        ) <= viewport_height,
{
    let g = geometry(heights, anchor_index as int, anchor_skip as int, viewport_height as int);
    lemma_total_rows_of_prefix(heights, anchor_index, anchor_skip, viewport_height, g.len() as int);
    lemma_geometry_is_contiguous(heights, anchor_index, anchor_skip, viewport_height);
    assert(g.take(g.len() as int) =~= g);
}

/// An empty list and a viewport without rows show nothing.
pub proof fn lemma_nothing_to_show(
    heights: Seq<usize>,
    anchor_index: usize,
    anchor_skip: usize,
    viewport_height: usize,
)
    requires
        heights.len() == 0 || viewport_height == 0,
    ensures
        geometry(heights, anchor_index as int, anchor_skip as int, viewport_height as int).len()
            == 0,
{
}

/// The first fit lies between `lo` and the selected item, shows the
/// selected item in full unless it is the selected item itself, and nothing
/// from `lo` up to it does.
pub proof fn lemma_first_fit_is_first(
    heights: Seq<usize>,
    lo: int,
    selected: int,
    viewport_height: int,
)
    ensures
        ({
            let found = first_fit(heights, lo, selected, viewport_height);
            &&& lo <= selected ==> lo <= found <= selected
            &&& lo > selected ==> found == selected
            &&& found < selected ==> fully_shown(heights, found, 0, viewport_height, selected)
            &&& forall|k: int|
                lo <= k < found ==> !fully_shown(heights, k, 0, viewport_height, selected)
        }),
    decreases selected - lo,
{
    if lo < selected && !fully_shown(heights, lo, 0, viewport_height, selected) {
        lemma_first_fit_is_first(heights, lo + 1, selected, viewport_height);
    }
}

/// Repair keeps a state that fits the items fitting, and keeps the
/// selection.
pub proof fn lemma_repair_keeps_well_formed(
    heights: Seq<usize>,
    state: SelectionState,
    viewport_height: usize,
)
    requires
        well_formed(heights, state),
    ensures
        well_formed(heights, repaired(heights, state, viewport_height as int)),
        repaired(heights, state, viewport_height as int).selected == state.selected,
{
    if let Some(selected) = state.selected {
        lemma_first_fit_is_first(
            heights,
            state.anchor_index + 1,
            selected as int,
            viewport_height as int,
        );
    }
}

/// After anchor repair the selected item is in view. In a viewport of at
/// least one row it has an entry. Where the item is no taller than the
/// viewport, the entry holds all its rows and is clipped on neither side.
/// Where it is taller, the anchor is the item itself with nothing hidden, so
/// that the entry begins on row 0, fills the viewport and is clipped at the
/// bottom only.
pub proof fn lemma_selected_is_in_view(
    heights: Seq<usize>,
    state: SelectionState,
    viewport_height: usize,
    selected: usize,
)
    requires
        heights.len() <= usize::MAX,
        well_formed(heights, state),
        state.selected == Some(selected),
        selected < heights.len(),
        viewport_height >= 1,
    ensures
        ({
            let next = repaired(heights, state, viewport_height as int);
            let g = geometry(
                heights,
                next.anchor_index as int,
                next.anchor_skip as int,
                viewport_height as int,
            );
            let j = selected - next.anchor_index;
            &&& 0 <= j < g.len()
            &&& g[j].item_index == selected
            &&& heights[selected as int] <= viewport_height ==> {
                &&& !g[j].clipped_top
                &&& !g[j].clipped_bottom
                &&& g[j].visible_rows == heights[selected as int]
            }
            &&& heights[selected as int] > viewport_height ==> {
                &&& next.anchor_index == selected
                &&& next.anchor_skip == 0
                &&& g[j].top_offset == 0
                &&& g[j].visible_rows == viewport_height
                &&& !g[j].clipped_top
                &&& g[j].clipped_bottom
            }
        }),
{
    let v = viewport_height as int;
    let sel = selected as int;
    let next = repaired(heights, state, v);
    let a = next.anchor_index as int;
    let s = next.anchor_skip as int;
    lemma_first_fit_is_first(heights, state.anchor_index + 1, sel, v);
    lemma_repair_keeps_well_formed(heights, state, viewport_height);
    assert(a <= sel);
    assert(fully_shown(heights, a, s, v, sel) || (a == sel && s == 0));
    assert(is_shown(heights, a, s, v, sel));
    lemma_shown_item_has_entry(heights, a, s, v, a, sel);
    lemma_start_row_grows(heights, a, s, sel, sel);
    let g = geometry(heights, a, s, v);
    assert(g[sel - a] == entry_at(heights, a, s, v, sel));
    if heights[sel] > v {
        assert(!fully_shown(heights, a, s, v, sel));
    }
}

/// Layout has no memory but the anchor: a second pass over the same items
/// with the state that the first pass gave leaves that state as it is, and
/// so gives the same entries.
pub proof fn lemma_repair_is_idempotent(
    heights: Seq<usize>,
    state: SelectionState,
    viewport_height: usize,
)
    requires
        well_formed(heights, state),
    ensures
        ({
            let first = repaired(heights, state, viewport_height as int);
            let second = repaired(heights, first, viewport_height as int);
            &&& second == first
            &&& geometry(
                heights,
                second.anchor_index as int,
                second.anchor_skip as int,
                viewport_height as int,
            ) == geometry(
                heights,
                first.anchor_index as int,
                first.anchor_skip as int,
                viewport_height as int,
            )
        }),
{
    let v = viewport_height as int;
    if let Some(selected) = state.selected {
        let sel = selected as int;
        lemma_first_fit_is_first(heights, state.anchor_index + 1, sel, v);
        let next = repaired(heights, state, v);
        if heights.len() > 0 && !fully_shown(
            heights,
            next.anchor_index as int,
            next.anchor_skip as int,
            v,
            sel,
        ) {
            assert(next.anchor_index == selected && next.anchor_skip == 0);
            assert(first_fit(heights, sel + 1, sel, v) == sel);
        }
    }
}

/// Repair scrolls no further than it must. While the selected item is in
/// full view the state stays as it is. A selection before the anchor
/// becomes the anchor. Otherwise the anchor moves forward, not beyond the
/// selected item, to the first position from which the selected item is in
/// full view: no position that it passes over would do.
pub proof fn lemma_repair_is_minimal(
    heights: Seq<usize>,
    state: SelectionState,
    viewport_height: usize,
    selected: usize,
)
    requires
        heights.len() > 0,
        well_formed(heights, state),
        state.selected == Some(selected),
    ensures
        ({
            let v = viewport_height as int;
            let next = repaired(heights, state, v);
            &&& fully_shown(
                heights,
                state.anchor_index as int,
                state.anchor_skip as int,
                v,
                selected as int,
            ) ==> next == state
            &&& selected < state.anchor_index ==> next.anchor_index == selected
                && next.anchor_skip == 0
            &&& selected >= state.anchor_index ==> state.anchor_index <= next.anchor_index
                <= selected
            &&& forall|k: int|
                state.anchor_index < k < next.anchor_index ==> !fully_shown(
                    heights,
                    k,
                    0,
                    v,
                    selected as int,
                )
        }),
{
    lemma_first_fit_is_first(
        heights,
        state.anchor_index + 1,
        selected as int,
        viewport_height as int,
    );
}

} // verus!
