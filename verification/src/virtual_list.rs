//! Which rows of a long list to render: the visible rows plus an overdraw
//! margin on each side. Pixel geometry (the division of scroll offsets by the
//! row height) is done by the caller; this module works on row counts.

use vstd::prelude::*;

verus! {

/// The rows to render and how many rows lie past them.
#[derive(Debug, Clone, Copy, PartialEq, Eq, Structural)]
pub struct VisibleSpan {
    /// First row to render.
    pub start_index: usize,
    /// One past the last row to render.
    pub end_index: usize,
    /// Rows after `end_index`, which the caller replaces with padding.
    pub rows_below: usize,
}

/// The span for a list of `total_items` rows whose first visible row is
/// `first_visible`, with `visible_count` rows on screen and `overdraw_count`
/// extra rows rendered on each side.
pub open spec fn spec_visible_span(
    total_items: nat,
    first_visible: nat,
    visible_count: nat,
    overdraw_count: nat,
) -> VisibleSpan {
    let start = if first_visible >= overdraw_count {
        first_visible - overdraw_count
    } else {
        0
    };
    let wanted_end = first_visible + visible_count + overdraw_count;
    let end = if wanted_end < total_items {
        wanted_end
    } else {
        total_items
    };
    VisibleSpan {
        start_index: start as usize,
        end_index: end as usize,
        rows_below: (total_items - end) as usize,
    }
}

/// Computes the rows to render. An empty list renders nothing.
pub fn visible_span(
    total_items: usize,
    first_visible: usize,
    visible_count: usize,
    overdraw_count: usize,
) -> (span: VisibleSpan)
    requires
        total_items > 0 ==> first_visible + visible_count + overdraw_count <= usize::MAX,
    ensures
        total_items == 0 ==> span == (VisibleSpan { start_index: 0, end_index: 0, rows_below: 0 }),
        total_items > 0 ==> span == spec_visible_span(
            total_items as nat,
            first_visible as nat,
            visible_count as nat,
            overdraw_count as nat,
        ),
{
    if total_items == 0 {
        return VisibleSpan { start_index: 0, end_index: 0, rows_below: 0 };
    }
    let start_index = first_visible.saturating_sub(overdraw_count);
    let wanted_end = first_visible + visible_count + overdraw_count;
    let end_index = if wanted_end < total_items {
        wanted_end
    } else {
        total_items
    };
    let rows_below = total_items.saturating_sub(end_index);
    VisibleSpan { start_index, end_index, rows_below }
}

/// Every row that is on screen is rendered, the span never reaches past the
/// list, and the rows below plus the rendered end make up the whole list.
pub proof fn lemma_span_covers_visible_rows(
    total_items: usize,
    first_visible: usize,
    visible_count: usize,
    overdraw_count: usize,
    row: nat,
)
    requires
        first_visible + visible_count + overdraw_count <= usize::MAX,
        first_visible <= row < first_visible + visible_count,
        row < total_items,
    ensures
        ({
            let span = spec_visible_span(
                total_items as nat,
                first_visible as nat,
                visible_count as nat,
                overdraw_count as nat,
            );
            &&& span.start_index <= row < span.end_index
            &&& span.end_index <= total_items
            &&& span.end_index + span.rows_below == total_items
        }),
{
}

} // verus!
