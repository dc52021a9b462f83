//! The table view's pure logic: the column layout policy, and the
//! virtualized rendering of a frame. All lengths are integer pixels.
//! Virtualization is the one performance-critical contract here: a
//! frame materializes only the rows intersecting the viewport, a
//! bounded, viewport-sized number of elements, never one element per
//! logical row.

use crate::table::{Table, MAX_ROWS};
use crate::text::{dec_str, long_text, long_text_spec, usize_to_string};
use vstd::arithmetic::div_mod::{
    lemma_div_is_ordered, lemma_fundamental_div_mod, lemma_mod_division_less_than_divisor,
};
use vstd::arithmetic::mul::{lemma_mul_inequality, lemma_mul_upper_bound};
use vstd::prelude::*;

verus! {

/// Largest row height the view accepts, in pixels.
pub const MAX_ROW_HEIGHT: u64 = 1_000_000;

/// Largest viewport height the view accepts, in pixels.
pub const MAX_VIEWPORT: u64 = 1_000_000_000;

/// Largest scroll offset the view accepts: the full body height at the
/// largest row count and row height.
pub const MAX_CONTENT: u64 = 100_000 * 1_000_000;

/// Row `i` overlaps the viewport `[offset, offset + viewport)` when
/// rows are `row_height` pixels tall.
pub open spec fn row_intersects(offset: int, viewport: int, row_height: int, i: int) -> bool {
    i * row_height < offset + viewport && (i + 1) * row_height > offset
}

/// Row `i` lies entirely inside the viewport `[offset, offset + viewport)`.
pub open spec fn row_fully_visible(offset: int, viewport: int, row_height: int, i: int) -> bool {
    i * row_height >= offset && (i + 1) * row_height <= offset + viewport
}

/// The window of row indices `[start, end)` that intersect the current
/// viewport: exactly these rows are materialized in a frame. The window
/// is sound (every row in it intersects the viewport), complete (every
/// row outside it lies fully above or fully below), and bounded by the
/// viewport size, independently of `num_rows`.
pub fn visible_range(offset: u64, viewport: u64, row_height: u64, num_rows: usize) -> (r: (
    usize,
    usize,
))
    requires
        1 <= row_height <= MAX_ROW_HEIGHT,
        viewport <= MAX_VIEWPORT,
        offset <= MAX_CONTENT,
        num_rows <= MAX_ROWS,
    ensures
        r.0 <= r.1 <= num_rows,
        forall|i: int|
            r.0 <= i < r.1 ==> row_intersects(
                offset as int,
                viewport as int,
                row_height as int,
                i,
            ),
        forall|i: int| 0 <= i < r.0 ==> #[trigger] ((i + 1) * (row_height as int)) <= offset,
        forall|i: int|
            r.1 <= i < num_rows ==> #[trigger] (i * (row_height as int)) >= offset + viewport,
        r.1 - r.0 <= viewport / row_height + 2,
{
    let first: u64 = offset / row_height;
    let past: u64 = (offset + viewport + row_height - 1) / row_height;
    proof {
        lemma_div_is_ordered(
            offset as int,
            (offset + viewport + row_height - 1) as int,
            row_height as int,
        );
        lemma_fundamental_div_mod(offset as int, row_height as int);
        lemma_mod_division_less_than_divisor(offset as int, row_height as int);
        lemma_fundamental_div_mod(
            (offset + viewport + row_height - 1) as int,
            row_height as int,
        );
        lemma_mod_division_less_than_divisor(
            (offset + viewport + row_height - 1) as int,
            row_height as int,
        );
        lemma_fundamental_div_mod(viewport as int, row_height as int);
        lemma_mod_division_less_than_divisor(viewport as int, row_height as int);
    }
    let start: usize = if first >= num_rows as u64 {
        num_rows
    } else {
        first as usize
    };
    let end: usize = if past >= num_rows as u64 {
        num_rows
    } else {
        past as usize
    };
    proof {
        let rh = row_height as int;
        let off = offset as int;
        let vp = viewport as int;
        let fi = first as int;
        let pa = past as int;
        // the window is sound: each row in it overlaps the viewport
        assert forall|i: int| start <= i < end implies row_intersects(off, vp, rh, i) by {
            assert(fi * rh <= off < fi * rh + rh);
            assert(pa * rh <= off + vp + rh - 1 < pa * rh + rh);
            lemma_mul_inequality(fi + 1, i + 1, rh);
            lemma_mul_inequality(i, pa - 1, rh);
            assert((pa - 1) * rh == pa * rh - rh) by (nonlinear_arith);
            assert((fi + 1) * rh == fi * rh + rh) by (nonlinear_arith);
        };
        // rows before the window lie fully above the viewport
        assert forall|i: int| 0 <= i < start implies #[trigger] ((i + 1) * rh) <= off by {
            assert(fi * rh <= off);
            lemma_mul_inequality(i + 1, fi, rh);
        };
        // rows past the window lie fully below the viewport
        assert forall|i: int| end <= i < num_rows implies #[trigger] (i * rh) >= off + vp by {
            assert(pa * rh > off + vp - 1);
            lemma_mul_inequality(pa, i, rh);
        };
        // the window never outgrows the viewport
        assert(end - start <= viewport / row_height + 2) by {
            let q = (viewport / row_height) as int;
            if start < end && pa > fi + q + 2 {
                lemma_mul_inequality(fi + q + 3, pa, rh);
                assert((fi + q + 3) * rh == fi * rh + q * rh + 3 * rh) by (nonlinear_arith);
                assert(false);
            }
        };
    }
    (start, end)
}

/// The scroll offset after honouring a scroll-to-row request: the
/// viewport moves just enough to bring the row into view, and does not
/// move at all if the row is already fully visible.
pub fn scroll_offset_for_row(offset: u64, viewport: u64, row_height: u64, row: usize) -> (r: u64)
    requires
        1 <= row_height <= MAX_ROW_HEIGHT,
        viewport <= MAX_VIEWPORT,
        offset <= MAX_CONTENT,
        row < MAX_ROWS,
    ensures
        r <= MAX_CONTENT,
        row_fully_visible(offset as int, viewport as int, row_height as int, row as int) ==> r
            == offset,
        (row as int) * (row_height as int) < offset ==> r == (row as int) * (row_height as int),
        (row as int) * (row_height as int) >= offset && (row as int + 1) * (row_height as int)
            > offset + viewport ==> r == (row as int + 1) * (row_height as int) - viewport,
        viewport >= 1 ==> row_intersects(r as int, viewport as int, row_height as int, row as int),
{
    proof {
        lemma_mul_upper_bound(
            row as int,
            MAX_ROWS as int - 1,
            row_height as int,
            MAX_ROW_HEIGHT as int,
        );
        lemma_mul_inequality(0, row as int, row_height as int);
        assert((row as int + 1) * (row_height as int) == (row as int) * (row_height as int) + (
        row_height as int)) by (nonlinear_arith);
    }
    let top: u64 = (row as u64) * row_height;
    let bottom: u64 = top + row_height;
    if top >= offset && bottom <= offset + viewport {
        offset
    } else if top < offset {
        top
    } else {
        bottom - viewport
    }
}

/// One materialized row of a frame: its index, its selection state, its
/// decimal index label and the long text of its clipped cell. The
/// checkbox cell is bound to the table's shared `checked` flag and the
/// trailing cell to `trailing_text`, so neither is stored per row.
pub struct RowElement {
    pub index: usize,
    pub selected: bool,
    pub index_label: String,
    pub clipped_text: String,
}

/// The drawable output of one render pass: the scroll offset to show
/// and the materialized rows, which start at index `first_row`.
pub struct Frame {
    pub scroll_offset: u64,
    pub first_row: usize,
    pub rows: Vec<RowElement>,
}

/// The constant text of the free-width trailing cell of every row.
pub fn trailing_text() -> (r: &'static str)
    ensures
        r@ == "Thousands of rows of even height"@,
{
    "Thousands of rows of even height"
}

/// A row with the thick demonstration height.
pub fn thick_row(row_index: usize) -> (r: bool)
    ensures
        r == (row_index % 6 == 0),
{
    row_index % 6 == 0
}

/// Sizing rule of one column of the grid.
pub enum ColumnSizing {
    /// Sized to its content.
    Auto,
    /// Starts at `initial` and may be resized by the user within
    /// `[min, max]` when resizable columns are enabled.
    Resizable { initial: u64, min: u64, max: u64 },
    /// Starts at `initial`, never narrower than `min`, and clips
    /// overflowing text instead of reflowing it.
    ClippedAtLeast { initial: u64, min: u64 },
    /// Consumes the remaining horizontal space.
    Remainder,
}

/// One column of the grid: its header label and its sizing rule.
pub struct ColumnSpec {
    pub header: &'static str,
    pub sizing: ColumnSizing,
}

/// The five-column layout policy of the table. The resizable-columns
/// flag only governs whether the user may drag the resizable column's
/// boundary; it never changes these sizing rules.
pub fn column_layout() -> (cols: Vec<ColumnSpec>)
    ensures
        cols@.len() == 5,
        cols@[0].header@ == "Row"@ && cols@[0].sizing == ColumnSizing::Auto,
        cols@[1].header@ == "Interaction"@ && cols@[1].sizing == ColumnSizing::Auto,
        cols@[2].header@ == "Expanding content"@ && cols@[2].sizing == (ColumnSizing::Resizable {
            initial: 100,
            min: 40,
            max: 300,
        }),
        cols@[3].header@ == "Clipped text"@ && cols@[3].sizing == (ColumnSizing::ClippedAtLeast {
            initial: 100,
            min: 40,
        }),
        cols@[4].header@ == "Content"@ && cols@[4].sizing == ColumnSizing::Remainder,
{
    let mut cols: Vec<ColumnSpec> = Vec::new();
    cols.push(ColumnSpec { header: "Row", sizing: ColumnSizing::Auto });
    cols.push(ColumnSpec { header: "Interaction", sizing: ColumnSizing::Auto });
    cols.push(
        ColumnSpec {
            header: "Expanding content",
            sizing: ColumnSizing::Resizable { initial: 100, min: 40, max: 300 },
        },
    );
    cols.push(
        ColumnSpec {
            header: "Clipped text",
            sizing: ColumnSizing::ClippedAtLeast { initial: 100, min: 40 },
        },
    );
    cols.push(ColumnSpec { header: "Content", sizing: ColumnSizing::Remainder });
    cols
}

/// The scroll target actually honoured: an out-of-range target is
/// clamped to the last row.
pub open spec fn clamp_row(target: usize, num_rows: usize) -> usize
    recommends
        num_rows > 0,
{
    if target < num_rows {
        target
    } else {
        (num_rows - 1) as usize
    }
}

impl Table {
    /// One render pass of the body: consume the pending scroll target,
    /// move the viewport to honour it, and materialize exactly the rows
    /// that intersect the viewport. The scroll target is cleared even
    /// when it is honoured, so it scrolls the view once and never again
    /// on later frames.
    pub fn build_frame(&mut self, offset: u64, viewport: u64, row_height: u64) -> (f: Frame)
        requires
            old(self).wf(),
            1 <= row_height <= MAX_ROW_HEIGHT,
            viewport <= MAX_VIEWPORT,
            offset <= MAX_CONTENT,
        ensures
            final(self).wf(),
            final(self).scroll_to_row is None,
            final(self).data == old(self).data,
            final(self).selection == old(self).selection,
            final(self).striped == old(self).striped,
            final(self).resizable == old(self).resizable,
            final(self).clickable == old(self).clickable,
            final(self).num_rows == old(self).num_rows,
            final(self).scroll_to_row_slider == old(self).scroll_to_row_slider,
            final(self).checked == old(self).checked,
            // where the viewport ends up
            f.scroll_offset <= MAX_CONTENT,
            old(self).scroll_to_row is None ==> f.scroll_offset == offset,
            old(self).num_rows == 0 ==> f.scroll_offset == offset,
            old(self).scroll_to_row matches Some(t) ==> (old(self).num_rows > 0 && viewport >= 1
                ==> row_intersects(
                f.scroll_offset as int,
                viewport as int,
                row_height as int,
                clamp_row(t, old(self).num_rows) as int,
            )),
            old(self).scroll_to_row matches Some(t) ==> (old(self).num_rows > 0
                && row_fully_visible(
                offset as int,
                viewport as int,
                row_height as int,
                clamp_row(t, old(self).num_rows) as int,
            ) ==> f.scroll_offset == offset),
            old(self).scroll_to_row matches Some(t) ==> (old(self).num_rows > 0 && (clamp_row(
                t,
                old(self).num_rows,
            ) as int) * (row_height as int) < offset ==> f.scroll_offset == (clamp_row(
                t,
                old(self).num_rows,
            ) as int) * (row_height as int)),
            old(self).scroll_to_row matches Some(t) ==> (old(self).num_rows > 0 && (clamp_row(
                t,
                old(self).num_rows,
            ) as int) * (row_height as int) >= offset && (clamp_row(t, old(self).num_rows) as int
                + 1) * (row_height as int) > offset + viewport ==> f.scroll_offset == (clamp_row(
                t,
                old(self).num_rows,
            ) as int + 1) * (row_height as int) - viewport),
            // only the rows intersecting the viewport are materialized
            f.first_row + f.rows@.len() <= old(self).num_rows,
            f.rows@.len() <= viewport / row_height + 2,
            forall|k: int|
                0 <= k < f.rows@.len() ==> #[trigger] f.rows@[k].index == f.first_row + k,
            forall|k: int|
                0 <= k < f.rows@.len() ==> #[trigger] f.rows@[k].selected == old(
                    self,
                ).sel_set().contains((f.first_row + k) as usize),
            forall|k: int|
                0 <= k < f.rows@.len() ==> #[trigger] f.rows@[k].index_label@ == dec_str(
                    (f.first_row + k) as nat,
                ),
            forall|k: int|
                0 <= k < f.rows@.len() ==> #[trigger] f.rows@[k].clipped_text@ == long_text_spec(
                    (f.first_row + k) as nat,
                ),
            forall|i: int|
                f.first_row <= i < f.first_row + f.rows@.len() ==> row_intersects(
                    f.scroll_offset as int,
                    viewport as int,
                    row_height as int,
                    i,
                ),
            forall|i: int|
                0 <= i < f.first_row ==> #[trigger] ((i + 1) * (row_height as int))
                    <= f.scroll_offset,
            forall|i: int|
                f.first_row + f.rows@.len() <= i < old(self).num_rows ==> #[trigger] (i * (
                row_height as int)) >= f.scroll_offset + viewport,
    {
        let target = self.consume_scroll_target();
        let new_offset: u64 = match target {
            Some(t) => {
                if self.num_rows == 0 {
                    offset
                } else {
                    let row = if t < self.num_rows {
                        t
                    } else {
                        self.num_rows - 1
                    };
                    scroll_offset_for_row(offset, viewport, row_height, row)
                }
            },
            None => offset,
        };
        let (start, end) = visible_range(new_offset, viewport, row_height, self.num_rows);
        let mut rows: Vec<RowElement> = Vec::new();
        let mut i: usize = start;
        while i < end
            invariant
                start <= i <= end,
                rows@.len() == i - start,
                forall|k: int| 0 <= k < rows@.len() ==> #[trigger] rows@[k].index == start + k,
                forall|k: int|
                    0 <= k < rows@.len() ==> #[trigger] rows@[k].selected == self.sel_set().contains(
                        (start + k) as usize,
                    ),
                forall|k: int|
                    0 <= k < rows@.len() ==> #[trigger] rows@[k].index_label@ == dec_str(
                        (start + k) as nat,
                    ),
                forall|k: int|
                    0 <= k < rows@.len() ==> #[trigger] rows@[k].clipped_text@ == long_text_spec(
                        (start + k) as nat,
                    ),
            decreases end - i,
        {
            let selected = self.selection_contains(i);
            let index_label = usize_to_string(i);
            let clipped_text = long_text(i);
            rows.push(RowElement { index: i, selected, index_label, clipped_text });
            i += 1;
        }
        Frame { scroll_offset: new_offset, first_row: start, rows }
    }
}

} // verus!
