//! The grid layout engine: given the available pixel width, a fixed card
//! size, a uniform gap and the horizontal padding, it derives how many
//! cards fit in one row and how many rows a given item count needs.
//! It holds no state between calls.

use vstd::prelude::*;

verus! {

/// The derived shape of the grid for one render pass.
pub struct GridLayout {
    pub items_per_row: usize,
    pub row_count: usize,
}

/// Cards per row: `max(1, floor((viewport_width - 2*padding + gap) / (card_size + gap)))`.
/// The clamp keeps a pathologically narrow viewport from producing zero
/// columns, which would make the row count undefined downstream.
pub open spec fn spec_items_per_row(
    viewport_width: int,
    card_size: int,
    gap: int,
    padding: int,
) -> int {
    let fit = (viewport_width - 2 * padding + gap) / (card_size + gap);
    if fit < 1 {
        1
    } else {
        fit
    }
}

/// Rows needed for `item_count` items at `items_per_row` per row:
/// `ceil(item_count / items_per_row)`.
pub open spec fn spec_row_count(item_count: int, items_per_row: int) -> int {
    (item_count + items_per_row - 1) / items_per_row
}

/// Computes how many fixed-size cards fit in one row of the viewport.
pub fn compute_items_per_row(
    viewport_width: usize,
    card_size: usize,
    gap: usize,
    padding: usize,
) -> (r: usize)
    requires
        card_size >= 1,
        card_size + gap <= usize::MAX,
        viewport_width + gap <= usize::MAX,
        2 * padding <= usize::MAX,
    ensures
        r == spec_items_per_row(viewport_width as int, card_size as int, gap as int, padding as int),
        r >= 1,
{
    let denom = card_size + gap;
    let pad2 = 2 * padding;
    if viewport_width + gap <= pad2 {
        proof {
            let avail = viewport_width - 2 * padding + gap;
            if avail == 0 {
                vstd::arithmetic::div_mod::lemma_basic_div(0, denom as int);
            } else {
                vstd::arithmetic::div_mod::lemma_div_is_ordered(avail, 0, denom as int);
                vstd::arithmetic::div_mod::lemma_basic_div(0, denom as int);
            }
        }
        1
    } else {
        let avail = viewport_width + gap - pad2;
        let fit = avail / denom;
        if fit < 1 {
            1
        } else {
            fit
        }
    }
}

/// Computes `ceil(item_count / items_per_row)` without overflowing.
pub fn compute_row_count(item_count: usize, items_per_row: usize) -> (r: usize)
    requires
        items_per_row >= 1,
    ensures
        r == spec_row_count(item_count as int, items_per_row as int),
{
    if item_count == 0 {
        proof {
            vstd::arithmetic::div_mod::lemma_basic_div(
                (items_per_row - 1) as int,
                items_per_row as int,
            );
        }
        0
    } else {
        let r = (item_count - 1) / items_per_row + 1;
        proof {
            let c = item_count as int;
            let p = items_per_row as int;
            vstd::arithmetic::div_mod::lemma_div_plus_one(c - 1, p);
            assert(c + p - 1 == (c - 1) + p);
        }
        r
    }
}

/// Computes the whole grid shape for one render pass.
pub fn compute_layout(
    viewport_width: usize,
    card_size: usize,
    gap: usize,
    padding: usize,
    item_count: usize,
) -> (r: GridLayout)
    requires
        card_size >= 1,
        card_size + gap <= usize::MAX,
        viewport_width + gap <= usize::MAX,
        2 * padding <= usize::MAX,
    ensures
        r.items_per_row == spec_items_per_row(
            viewport_width as int,
            card_size as int,
            gap as int,
            padding as int,
        ),
        r.items_per_row >= 1,
        r.row_count == spec_row_count(item_count as int, r.items_per_row as int),
{
    let items_per_row = compute_items_per_row(viewport_width, card_size, gap, padding);
    let row_count = compute_row_count(item_count, items_per_row);
    GridLayout { items_per_row, row_count }
}

/// Width left for the grid beside the fixed sidebar, never below the
/// minimum the grid needs.
pub fn grid_width(viewport_width: usize, sidebar_width: usize, min_width: usize) -> (r: usize)
    ensures
        r == if viewport_width >= sidebar_width + min_width {
            viewport_width - sidebar_width
        } else {
            min_width as int
        },
{
    if viewport_width >= sidebar_width && viewport_width - sidebar_width >= min_width {
        viewport_width - sidebar_width
    } else {
        min_width
    }
}

} // verus!
