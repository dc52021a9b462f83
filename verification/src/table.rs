//! The table model: dataset, display configuration and selection set,
//! with the mutation primitives of the interaction contract. All
//! operations are total; out-of-range inputs are clamped or ignored,
//! never signalled as errors.

use vstd::prelude::*;

verus! {

/// Upper bound of the visible-row-count input.
pub const MAX_ROWS: usize = 100_000;

/// The error of the remote data source adapter, carrying only a
/// human-readable diagnostic message.
pub struct FetchError {
    pub message: String,
}

/// The table model. The dataset is replaced wholesale and never
/// partially mutated; the selection set and the display configuration
/// are mutated only through the operations below.
///
/// All row checkboxes share the single `checked` flag. The sharing is
/// kept deliberately: the rows demonstrate a common interactive cell,
/// not per-row persistent state.
pub struct Table {
    pub striped: bool,
    pub resizable: bool,
    pub clickable: bool,
    pub num_rows: usize,
    pub scroll_to_row_slider: usize,
    pub scroll_to_row: Option<usize>,
    pub selection: Vec<usize>,
    pub checked: bool,
    pub data: Vec<Vec<String>>,
}

/// One selection toggle: membership of `i` flips, nothing else moves.
pub open spec fn toggle_spec(s: Set<usize>, i: usize) -> Set<usize> {
    if s.contains(i) {
        s.remove(i)
    } else {
        s.insert(i)
    }
}

/// `n` successive selection toggles of the same index.
pub open spec fn toggle_n(s: Set<usize>, i: usize, n: nat) -> Set<usize>
    decreases n,
{
    if n == 0 {
        s
    } else {
        toggle_spec(toggle_n(s, i, (n - 1) as nat), i)
    }
}

/// An even number of toggles of the same index leaves its membership in
/// the selection set unchanged; an odd number flips it.
pub proof fn lemma_toggle_parity(s: Set<usize>, i: usize, n: nat)
    ensures
        n % 2 == 0 ==> toggle_n(s, i, n).contains(i) == s.contains(i),
        n % 2 == 1 ==> toggle_n(s, i, n).contains(i) == !s.contains(i),
    decreases n,
{
    if n > 0 {
        lemma_toggle_parity(s, i, (n - 1) as nat);
    }
}

/// The selection set after a whole sequence of toggle calls, applied
/// in order.
pub open spec fn toggle_seq(s: Set<usize>, calls: Seq<usize>) -> Set<usize>
    decreases calls.len(),
{
    if calls.len() == 0 {
        s
    } else {
        toggle_seq(toggle_spec(s, calls[0]), calls.drop_first())
    }
}

/// How often a sequence of toggle calls names the index `i`.
pub open spec fn count_calls(calls: Seq<usize>, i: usize) -> nat
    decreases calls.len(),
{
    if calls.len() == 0 {
        0
    } else {
        (if calls[0] == i {
            1nat
        } else {
            0nat
        }) + count_calls(calls.drop_first(), i)
    }
}

/// Over any sequence of toggle calls, membership of `i` in the
/// selection set depends only on how often the sequence names `i`: an
/// even number of times leaves it unchanged, an odd number flips it.
pub proof fn lemma_toggle_sequence_parity(s: Set<usize>, calls: Seq<usize>, i: usize)
    ensures
        count_calls(calls, i) % 2 == 0 ==> toggle_seq(s, calls).contains(i) == s.contains(i),
        count_calls(calls, i) % 2 == 1 ==> toggle_seq(s, calls).contains(i) == !s.contains(i),
    decreases calls.len(),
{
    if calls.len() > 0 {
        lemma_toggle_sequence_parity(toggle_spec(s, calls[0]), calls.drop_first(), i);
    }
}

/// Requesting a scroll target overwrites any unconsumed one:
/// last write wins, no queueing.
pub open spec fn request_scroll_spec(target: Option<usize>, i: usize) -> Option<usize> {
    Some(i)
}

/// Consuming the scroll target returns it and clears it.
pub open spec fn consume_scroll_spec(target: Option<usize>) -> (Option<usize>, Option<usize>) {
    (target, None)
}

/// A requested scroll target is delivered exactly once: the consume
/// right after `request_scroll_spec(_, i)` yields `Some(i)`, and a
/// second consume with no new request yields `None`.
pub proof fn lemma_scroll_target_consumed_once(target: Option<usize>, i: usize)
    ensures
        consume_scroll_spec(request_scroll_spec(target, i)).0 == Some(i),
        consume_scroll_spec(consume_scroll_spec(request_scroll_spec(target, i)).1).0 == None::<
            usize,
        >,
{
}

impl Table {
    /// The selection set: the row indices currently marked.
    pub open spec fn sel_set(self) -> Set<usize> {
        Set::new(|i: usize| self.selection@.contains(i))
    }

    /// Well-formedness: the selection vector holds each index at most
    /// once, and the visible-row-count stays within its input range.
    pub open spec fn wf(self) -> bool {
        &&& forall|p: int, q: int|
            0 <= p < q < self.selection@.len() ==> self.selection@[p] != self.selection@[q]
        &&& self.num_rows <= MAX_ROWS
    }

    /// The display name of the table window.
    pub fn name(&self) -> (r: &'static str)
        ensures
            r@ == "Google Sheets Table"@,
    {
        "Google Sheets Table"
    }

    /// Wholesale replacement of the dataset. No constraint on the new
    /// rows: empty input yields an empty table, not a failure. The
    /// selection set deliberately persists across replacement, as the
    /// model's invariants state; its indices are positions in the
    /// displayed range, not keys into the dataset.
    pub fn update_data(&mut self, new_data: Vec<Vec<String>>)
        ensures
            final(self).data == new_data,
            final(self).selection == old(self).selection,
            final(self).striped == old(self).striped,
            final(self).resizable == old(self).resizable,
            final(self).clickable == old(self).clickable,
            final(self).num_rows == old(self).num_rows,
            final(self).scroll_to_row_slider == old(self).scroll_to_row_slider,
            final(self).scroll_to_row == old(self).scroll_to_row,
            final(self).checked == old(self).checked,
    {
        self.data = new_data;
    }

    /// Whether a row index is currently in the selection set.
    pub fn selection_contains(&self, row_index: usize) -> (r: bool)
        ensures
            r == self.sel_set().contains(row_index),
    {
        let mut k: usize = 0;
        let n = self.selection.len();
        while k < n
            invariant
                k <= n,
                n == self.selection@.len(),
                forall|j: int| 0 <= j < k ==> self.selection@[j] != row_index,
            decreases n - k,
        {
            if self.selection[k] == row_index {
                return true;
            }
            k += 1;
        }
        false
    }

    /// Toggle membership of `row_index` in the selection set: remove it
    /// if present, insert it otherwise. No bounds check against the
    /// dataset length — selection is a display-layer concept.
    pub fn toggle_row_selection(&mut self, row_index: usize)
        requires
            old(self).wf(),
        ensures
            final(self).wf(),
            final(self).sel_set() == toggle_spec(old(self).sel_set(), row_index),
            final(self).data == old(self).data,
            final(self).striped == old(self).striped,
            final(self).resizable == old(self).resizable,
            final(self).clickable == old(self).clickable,
            final(self).num_rows == old(self).num_rows,
            final(self).scroll_to_row_slider == old(self).scroll_to_row_slider,
            final(self).scroll_to_row == old(self).scroll_to_row,
            final(self).checked == old(self).checked,
    {
        let n = self.selection.len();
        let mut k: usize = 0;
        while k < n
            invariant
                k <= n,
                old(self).wf(),
                *self == *old(self),
                n == self.selection@.len(),
                forall|j: int| 0 <= j < k ==> self.selection@[j] != row_index,
            decreases n - k,
        {
            if self.selection[k] == row_index {
                self.selection.remove(k);
                proof {
                    let before = old(self).selection@;
                    let after = self.selection@;
                    assert(before[k as int] == row_index);
                    assert(before.contains(row_index));
                    assert(old(self).sel_set().contains(row_index));
                    before.remove_ensures(k as int);
                    assert forall|y: usize| #[trigger] after.contains(y) implies before.contains(y)
                        && y != row_index by {
                        let j = choose|j: int| 0 <= j < after.len() && after[j] == y;
                        if j < k {
                            assert(before[j] == y);
                        } else {
                            assert(before[j + 1] == y);
                            assert(j + 1 > k);
                            assert(before[k as int] != before[j + 1]);
                        }
                    };
                    assert forall|y: usize| before.contains(y) && y != row_index implies
                        #[trigger] after.contains(y) by {
                        let j = choose|j: int| 0 <= j < before.len() && before[j] == y;
                        if j < k {
                            assert(after[j] == y);
                        } else {
                            assert(j != k);
                            assert(after[j - 1] == y);
                        }
                    };
                    assert(self.sel_set() =~= toggle_spec(old(self).sel_set(), row_index));
                    assert forall|p: int, q: int| 0 <= p < q < after.len() implies after[p]
                        != after[q] by {
                        if q < k {
                            assert(before[p] == after[p] && before[q] == after[q]);
                        } else if p < k {
                            assert(before[p] == after[p] && before[q + 1] == after[q]);
                        } else {
                            assert(before[p + 1] == after[p] && before[q + 1] == after[q]);
                        }
                    };
                }
                return ;
            }
            k += 1;
        }
        self.selection.push(row_index);
        proof {
            let before = old(self).selection@;
            let after = self.selection@;
            assert(!before.contains(row_index));
            assert(!old(self).sel_set().contains(row_index));
            assert forall|y: usize| #[trigger] after.contains(y) implies before.contains(y) || y
                == row_index by {
                let j = choose|j: int| 0 <= j < after.len() && after[j] == y;
                if j < before.len() {
                    assert(before[j] == y);
                }
            };
            assert forall|y: usize| before.contains(y) implies #[trigger] after.contains(y) by {
                let j = choose|j: int| 0 <= j < before.len() && before[j] == y;
                assert(after[j] == y);
            };
            assert(after.contains(row_index)) by {
                assert(after[after.len() - 1] == row_index);
            };
            assert(self.sel_set() =~= toggle_spec(old(self).sel_set(), row_index));
            assert forall|p: int, q: int| 0 <= p < q < after.len() implies after[p] != after[q] by {
                if q == after.len() - 1 {
                    assert(before[p] == after[p]);
                    assert(before.contains(after[p]));
                }
            };
        }
    }

    /// Set the pending scroll target, overwriting any unconsumed one
    /// (last write wins; no queueing).
    pub fn request_scroll_to(&mut self, index: usize)
        ensures
            final(self).scroll_to_row == request_scroll_spec(old(self).scroll_to_row, index),
            final(self).scroll_to_row == Some(index),
            final(self).data == old(self).data,
            final(self).selection == old(self).selection,
            final(self).striped == old(self).striped,
            final(self).resizable == old(self).resizable,
            final(self).clickable == old(self).clickable,
            final(self).num_rows == old(self).num_rows,
            final(self).scroll_to_row_slider == old(self).scroll_to_row_slider,
            final(self).checked == old(self).checked,
    {
        self.scroll_to_row = Some(index);
    }

    /// Return and clear the pending scroll target. Called once per
    /// render pass, so a target scrolls the view exactly once.
    pub fn consume_scroll_target(&mut self) -> (target: Option<usize>)
        ensures
            (target, final(self).scroll_to_row) == consume_scroll_spec(old(self).scroll_to_row),
            target == old(self).scroll_to_row,
            final(self).scroll_to_row is None,
            final(self).data == old(self).data,
            final(self).selection == old(self).selection,
            final(self).striped == old(self).striped,
            final(self).resizable == old(self).resizable,
            final(self).clickable == old(self).clickable,
            final(self).num_rows == old(self).num_rows,
            final(self).scroll_to_row_slider == old(self).scroll_to_row_slider,
            final(self).checked == old(self).checked,
    {
        let target = self.scroll_to_row;
        self.scroll_to_row = None;
        target
    }

    /// Set the visible-row-count, clamped to its input range.
    pub fn set_num_rows(&mut self, requested: usize)
        ensures
            final(self).num_rows == (if requested <= MAX_ROWS {
                requested as int
            } else {
                MAX_ROWS as int
            }),
            final(self).data == old(self).data,
            final(self).selection == old(self).selection,
            final(self).striped == old(self).striped,
            final(self).resizable == old(self).resizable,
            final(self).clickable == old(self).clickable,
            final(self).scroll_to_row_slider == old(self).scroll_to_row_slider,
            final(self).scroll_to_row == old(self).scroll_to_row,
            final(self).checked == old(self).checked,
    {
        self.num_rows = if requested <= MAX_ROWS {
            requested
        } else {
            MAX_ROWS
        };
    }

    /// Move the scroll-to-row input. The input is bounded by the
    /// current visible-row-count; a change of its value requests a
    /// scroll to the new value, an unchanged value requests nothing.
    pub fn set_scroll_slider(&mut self, requested: usize)
        ensures
            final(self).scroll_to_row_slider == (if requested <= old(self).num_rows {
                requested as int
            } else {
                old(self).num_rows as int
            }),
            final(self).scroll_to_row_slider != old(self).scroll_to_row_slider ==> final(self).scroll_to_row
                == Some(final(self).scroll_to_row_slider),
            final(self).scroll_to_row_slider == old(self).scroll_to_row_slider ==> final(self).scroll_to_row
                == old(self).scroll_to_row,
            final(self).data == old(self).data,
            final(self).selection == old(self).selection,
            final(self).striped == old(self).striped,
            final(self).resizable == old(self).resizable,
            final(self).clickable == old(self).clickable,
            final(self).num_rows == old(self).num_rows,
            final(self).checked == old(self).checked,
    {
        let clamped = if requested <= self.num_rows {
            requested
        } else {
            self.num_rows
        };
        if clamped != self.scroll_to_row_slider {
            self.scroll_to_row_slider = clamped;
            self.scroll_to_row = Some(clamped);
        }
    }

    /// A click on a row body (outside its checkbox) toggles that row's
    /// selection, but only while clickable-rows is enabled.
    pub fn handle_row_click(&mut self, row_index: usize)
        requires
            old(self).wf(),
        ensures
            final(self).wf(),
            old(self).clickable ==> final(self).sel_set() == toggle_spec(
                old(self).sel_set(),
                row_index,
            ),
            !old(self).clickable ==> *final(self) == *old(self),
            final(self).data == old(self).data,
            final(self).striped == old(self).striped,
            final(self).resizable == old(self).resizable,
            final(self).clickable == old(self).clickable,
            final(self).num_rows == old(self).num_rows,
            final(self).scroll_to_row_slider == old(self).scroll_to_row_slider,
            final(self).scroll_to_row == old(self).scroll_to_row,
            final(self).checked == old(self).checked,
    {
        if self.clickable {
            self.toggle_row_selection(row_index);
        }
    }

    /// Startup population from the data source adapter's result. A
    /// successful fetch replaces the dataset; a failed fetch leaves the
    /// table untouched — it renders empty — and hands the error back
    /// for reporting, so startup completes either way.
    pub fn populate_from_fetch(&mut self, fetched: Result<Vec<Vec<String>>, FetchError>) -> (err:
        Option<FetchError>)
        ensures
            fetched matches Ok(rows) ==> final(self).data == rows && err is None,
            fetched matches Err(e) ==> *final(self) == *old(self) && err == Some(e),
            final(self).selection == old(self).selection,
            final(self).striped == old(self).striped,
            final(self).resizable == old(self).resizable,
            final(self).clickable == old(self).clickable,
            final(self).num_rows == old(self).num_rows,
            final(self).scroll_to_row_slider == old(self).scroll_to_row_slider,
            final(self).scroll_to_row == old(self).scroll_to_row,
            final(self).checked == old(self).checked,
    {
        match fetched {
            Ok(rows) => {
                self.update_data(rows);
                None
            },
            Err(e) => Some(e),
        }
    }
}

impl Default for Table {
    /// The startup configuration: striped, resizable and clickable rows
    /// on, a thousand visible rows, no pending scroll, nothing selected
    /// and an empty dataset.
    fn default() -> (t: Table)
        ensures
            t.wf(),
            t.striped == true,
            t.resizable == true,
            t.clickable == true,
            t.num_rows == 1000,
            t.scroll_to_row_slider == 0,
            t.scroll_to_row is None,
            t.selection@.len() == 0,
            t.checked == false,
            t.data@.len() == 0,
    {
        Table {
            striped: true,
            resizable: true,
            clickable: true,
            num_rows: 1000,
            scroll_to_row_slider: 0,
            scroll_to_row: None,
            selection: Vec::new(),
            checked: false,
            data: Vec::new(),
        }
    }
}

/// Concatenation of the row blocks of several fetched ranges, in order,
/// into the single dataset the table model holds.
pub fn flatten_ranges(ranges: Vec<Vec<Vec<String>>>) -> (rows: Vec<Vec<String>>)
    ensures
        rows.deep_view() == ranges.deep_view().flatten(),
{
    let mut rows: Vec<Vec<String>> = Vec::new();
    let mut i: usize = 0;
    proof {
        assert(ranges.deep_view().subrange(0, 0) =~= Seq::<Seq<Seq<Seq<char>>>>::empty());
        assert(rows.deep_view() =~= ranges.deep_view().subrange(0, 0).flatten());
    }
    while i < ranges.len()
        invariant
            i <= ranges@.len(),
            rows.deep_view() == ranges.deep_view().subrange(0, i as int).flatten(),
        decreases ranges@.len() - i,
    {
        let ghost rows_at_entry = rows.deep_view();
        let mut j: usize = 0;
        proof {
            assert(ranges.deep_view()[i as int].subrange(0, 0) =~= Seq::<
                Seq<Seq<char>>,
            >::empty());
            assert(rows.deep_view() =~= rows_at_entry + ranges.deep_view()[i as int].subrange(
                0,
                0,
            ));
        }
        while j < ranges[i].len()
            invariant
                i < ranges@.len(),
                j <= ranges@[i as int]@.len(),
                ranges.deep_view()[i as int].len() == ranges@[i as int]@.len(),
                rows.deep_view() == rows_at_entry + ranges.deep_view()[i as int].subrange(
                    0,
                    j as int,
                ),
            decreases ranges@[i as int]@.len() - j,
        {
            let ghost rows_before = rows.deep_view();
            let row = clone_row(&ranges[i][j]);
            rows.push(row);
            proof {
                assert(rows.deep_view() =~= rows_before.push(
                    ranges.deep_view()[i as int][j as int],
                ));
                assert(ranges.deep_view()[i as int].subrange(0, j + 1)
                    =~= ranges.deep_view()[i as int].subrange(0, j as int).push(
                    ranges.deep_view()[i as int][j as int],
                ));
                assert(rows.deep_view() =~= rows_at_entry + ranges.deep_view()[i as int].subrange(
                    0,
                    j + 1,
                ));
            }
            j += 1;
        }
        proof {
            assert(ranges.deep_view()[i as int].subrange(0, ranges@[i as int]@.len() as int)
                =~= ranges.deep_view()[i as int]);
            assert(ranges.deep_view().subrange(0, i + 1) =~= ranges.deep_view().subrange(
                0,
                i as int,
            ).push(ranges.deep_view()[i as int]));
            vstd::seq_lib::lemma_flatten_concat(
                ranges.deep_view().subrange(0, i as int),
                seq![ranges.deep_view()[i as int]],
            );
            assert(ranges.deep_view().subrange(0, i as int).push(ranges.deep_view()[i as int])
                =~= ranges.deep_view().subrange(0, i as int) + seq![
                ranges.deep_view()[i as int]
            ]);
            seq![ranges.deep_view()[i as int]].lemma_flatten_one_element();
            assert(seq![ranges.deep_view()[i as int]].flatten() =~= ranges.deep_view()[i as int]);
            assert(rows.deep_view() =~= ranges.deep_view().subrange(0, i + 1).flatten());
        }
        i += 1;
    }
    proof {
        assert(ranges.deep_view().subrange(0, ranges@.len() as int) =~= ranges.deep_view());
    }
    rows
}

/// An owned copy of one row of string cells.
fn clone_row(row: &Vec<String>) -> (r: Vec<String>)
    ensures
        r.deep_view() == row.deep_view(),
{
    let mut r: Vec<String> = Vec::new();
    let mut k: usize = 0;
    while k < row.len()
        invariant
            k <= row@.len(),
            r.deep_view() == row.deep_view().subrange(0, k as int),
        decreases row@.len() - k,
    {
        let ghost before = r.deep_view();
        r.push(row[k].clone());
        proof {
            assert(row@[k as int]@ == row.deep_view()[k as int]);
            assert(r.deep_view() =~= before.push(row.deep_view()[k as int]));
            assert(row.deep_view().subrange(0, k + 1) =~= row.deep_view().subrange(
                0,
                k as int,
            ).push(row.deep_view()[k as int]));
        }
        k += 1;
    }
    proof {
        assert(row.deep_view().subrange(0, row@.len() as int) =~= row.deep_view());
    }
    r
}

} // verus!
