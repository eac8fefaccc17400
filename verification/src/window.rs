//! The virtual window: from the filtered identifier list and the grid
//! shape it produces only the rows of a requested visible range, each
//! carrying its slice of the filtered list. A range reaching past the
//! last row is clipped, never an error, because the host scroll container
//! may ask for a stale range while a resize is in flight. The pass is
//! pure: identical arguments give identical rows, and no session state is
//! touched.

use vstd::prelude::*;
use crate::catalog::IconId;
use crate::layout::spec_row_count;

verus! {

/// One renderable row: its index and the identifiers it shows, in order.
pub struct RowDescriptor {
    pub row_index: usize,
    pub items: Vec<IconId>,
}

/// The slice of the filtered list row `r` shows.
pub open spec fn spec_row_items(filtered: Seq<IconId>, items_per_row: int, r: int) -> Seq<IconId> {
    filtered.subrange(
        r * items_per_row,
        if (r + 1) * items_per_row <= filtered.len() {
            (r + 1) * items_per_row
        } else {
            filtered.len() as int
        },
    )
}

/// The rows before row `r`, concatenated in order.
pub open spec fn concat_rows(filtered: Seq<IconId>, items_per_row: int, r: int) -> Seq<IconId>
    decreases r,
{
    if r <= 0 {
        Seq::empty()
    } else {
        concat_rows(filtered, items_per_row, r - 1) + spec_row_items(
            filtered,
            items_per_row,
            r - 1,
        )
    }
}

/// Produces the rows of the visible range `[range_start, range_end)`,
/// clipped to the rows that exist.
pub fn produce_rows(
    range_start: usize,
    range_end: usize,
    filtered: &Vec<IconId>,
    items_per_row: usize,
) -> (rows: Vec<RowDescriptor>)
    requires
        items_per_row >= 1,
    ensures
        ({
            let rc = spec_row_count(filtered@.len() as int, items_per_row as int);
            let lo = if range_start as int <= rc {
                range_start as int
            } else {
                rc
            };
            let hi = if range_end as int <= rc {
                range_end as int
            } else {
                rc
            };
            &&& rows@.len() == (if lo <= hi {
                hi - lo
            } else {
                0
            })
            &&& forall|k: int|
                0 <= k < rows@.len() ==> {
                    &&& (#[trigger] rows@[k]).row_index == lo + k
                    &&& rows@[k].items@ == spec_row_items(
                        filtered@,
                        items_per_row as int,
                        lo + k,
                    )
                }
        }),
{
    let n = filtered.len();
    let rc = crate::layout::compute_row_count(n, items_per_row);
    let lo = if range_start <= rc {
        range_start
    } else {
        rc
    };
    let hi = if range_end <= rc {
        range_end
    } else {
        rc
    };
    let mut rows: Vec<RowDescriptor> = Vec::new();
    if hi <= lo {
        return rows;
    }
    let mut r = lo;
    while r < hi
        invariant
            items_per_row >= 1,
            n == filtered@.len(),
            rc == spec_row_count(n as int, items_per_row as int),
            lo <= r <= hi <= rc,
            rows@.len() == r - lo,
            forall|k: int|
                0 <= k < rows@.len() ==> {
                    &&& (#[trigger] rows@[k]).row_index == lo + k
                    &&& rows@[k].items@ == spec_row_items(
                        filtered@,
                        items_per_row as int,
                        lo + k,
                    )
                },
        decreases hi - r,
    {
        proof {
            lemma_row_start_in_bounds(n as int, items_per_row as int, r as int);
        }
        let start_idx = r * items_per_row;
        let end_idx = if n - start_idx > items_per_row {
            start_idx + items_per_row
        } else {
            n
        };
        let mut items: Vec<IconId> = Vec::new();
        let mut idx = start_idx;
        while idx < end_idx
            invariant
                start_idx <= idx <= end_idx <= filtered@.len(),
                items@ == filtered@.subrange(start_idx as int, idx as int),
            decreases end_idx - idx,
        {
            items.push(filtered[idx]);
            idx += 1;
            assert(items@ =~= filtered@.subrange(start_idx as int, idx as int));
        }
        proof {
            assert((r as int + 1) * (items_per_row as int) == r as int * (items_per_row as int)
                + items_per_row as int) by (nonlinear_arith);
            assert(items@ =~= spec_row_items(filtered@, items_per_row as int, r as int));
        }
        rows.push(RowDescriptor { row_index: r, items });
        r += 1;
    }
    rows
}

/// A row index below the row count starts strictly inside the filtered
/// list, so its slice is non-empty and its start fits the list.
proof fn lemma_row_start_in_bounds(n: int, items_per_row: int, r: int)
    requires
        items_per_row >= 1,
        n >= 0,
        0 <= r < spec_row_count(n, items_per_row),
    ensures
        r * items_per_row < n,
        (r + 1) * items_per_row <= n + items_per_row - 1,
{
    let rc = spec_row_count(n, items_per_row);
    vstd::arithmetic::div_mod::lemma_fundamental_div_mod(n + items_per_row - 1, items_per_row);
    let rem = (n + items_per_row - 1) % items_per_row;
    assert(n + items_per_row - 1 == items_per_row * rc + rem);
    assert((rc - 1) * items_per_row == n - 1 - rem) by (nonlinear_arith)
        requires
            n + items_per_row - 1 == items_per_row * rc + rem,
    ;
    vstd::arithmetic::mul::lemma_mul_inequality(r, rc - 1, items_per_row);
    assert((r + 1) * items_per_row == r * items_per_row + items_per_row) by (nonlinear_arith);
}

/// The row count times the row width covers the whole filtered list.
proof fn lemma_rows_cover(n: int, items_per_row: int)
    requires
        items_per_row >= 1,
        n >= 0,
    ensures
        spec_row_count(n, items_per_row) * items_per_row >= n,
        spec_row_count(n, items_per_row) >= 0,
{
    let rc = spec_row_count(n, items_per_row);
    vstd::arithmetic::div_mod::lemma_fundamental_div_mod(n + items_per_row - 1, items_per_row);
    let rem = (n + items_per_row - 1) % items_per_row;
    assert(n + items_per_row - 1 == items_per_row * rc + rem);
    assert(rc * items_per_row == n + items_per_row - 1 - rem) by (nonlinear_arith)
        requires
            n + items_per_row - 1 == items_per_row * rc + rem,
    ;
    if rc < 0 {
        vstd::arithmetic::mul::lemma_mul_inequality(rc, -1, items_per_row);
        assert(rc * items_per_row <= (-1) * items_per_row);
        assert((-1) * items_per_row == -items_per_row) by (nonlinear_arith);
    }
}

/// Law: concatenating every row, in order, over the full row range
/// rebuilds the filtered list exactly. Windowing loses nothing and
/// duplicates nothing.
pub proof fn lemma_rows_reconstruct(filtered: Seq<IconId>, items_per_row: int)
    requires
        items_per_row >= 1,
    ensures
        concat_rows(
            filtered,
            items_per_row,
            spec_row_count(filtered.len() as int, items_per_row),
        ) == filtered,
{
    let n = filtered.len() as int;
    let rc = spec_row_count(n, items_per_row);
    lemma_rows_cover(n, items_per_row);
    lemma_concat_rows_prefix(filtered, items_per_row, rc);
    assert(concat_rows(filtered, items_per_row, rc) =~= filtered);
}

/// The first `r` rows concatenated are exactly the filtered list up to
/// `r * items_per_row`, clipped to its length.
proof fn lemma_concat_rows_prefix(filtered: Seq<IconId>, items_per_row: int, r: int)
    requires
        items_per_row >= 1,
        0 <= r <= spec_row_count(filtered.len() as int, items_per_row),
    ensures
        concat_rows(filtered, items_per_row, r) == filtered.subrange(
            0,
            if r * items_per_row <= filtered.len() {
                r * items_per_row
            } else {
                filtered.len() as int
            },
        ),
    decreases r,
{
    let n = filtered.len() as int;
    if r == 0 {
        assert(r * items_per_row == 0);
        assert(concat_rows(filtered, items_per_row, 0) =~= filtered.subrange(0, 0));
    } else {
        lemma_concat_rows_prefix(filtered, items_per_row, r - 1);
        assert((r - 1) * items_per_row == r * items_per_row - items_per_row) by (nonlinear_arith);
        assert(r * items_per_row >= items_per_row) by (nonlinear_arith)
            requires
                r >= 1,
                items_per_row >= 1,
        ;
        lemma_row_start_in_bounds(n, items_per_row, r - 1);
        let cut = if r * items_per_row <= n {
            r * items_per_row
        } else {
            n
        };
        assert(concat_rows(filtered, items_per_row, r) =~= filtered.subrange(0, cut));
    }
}

} // verus!
