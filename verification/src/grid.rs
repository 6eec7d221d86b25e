//! Row-major grid arithmetic and the facts about permutations that the board relies on.

use vstd::prelude::*;
use vstd::arithmetic::div_mod::lemma_fundamental_div_mod;
use vstd::arithmetic::div_mod::lemma_fundamental_div_mod_converse;
use vstd::set_lib::lemma_int_range;
use vstd::set_lib::lemma_len_subset;
use vstd::set_lib::lemma_subset_equality;
use vstd::set_lib::set_int_range;

verus! {

/// Every label of `cells` is below its length and no label occurs twice:
/// `cells` is an arrangement of the labels `0..cells.len()`.
pub open spec fn is_permutation(cells: Seq<usize>) -> bool {
    &&& forall|i: int| 0 <= i < cells.len() ==> (#[trigger] cells[i]) < cells.len()
    &&& forall|i: int, j: int| 0 <= i < j < cells.len() ==> cells[i] != cells[j]
}

/// The row-major index of column `x`, row `y` in a grid `width` cells wide.
pub open spec fn cell_index(width: int, x: int, y: int) -> int {
    y * width + x
}

/// The column of row-major index `i`.
pub open spec fn column_of(width: int, i: int) -> int {
    i % width
}

/// The row of row-major index `i`.
pub open spec fn row_of(width: int, i: int) -> int {
    i / width
}

/// An index inside a `width * height` grid has its column below `width`, its row below
/// `height`, and is the index of that column and row.
pub proof fn lemma_coordinates(width: int, height: int, i: int)
    requires
        0 < width,
        0 <= i < width * height,
    ensures
        0 <= column_of(width, i) < width,
        0 <= row_of(width, i) < height,
        cell_index(width, column_of(width, i), row_of(width, i)) == i,
{
    lemma_fundamental_div_mod(i, width);
    let q = i / width;
    let r = i % width;
    assert(width * q == q * width) by (nonlinear_arith);
    assert(0 <= r < width);
    if q < 0 {
        assert(q * width <= -width) by (nonlinear_arith)
            requires
                q <= -1,
                width > 0,
        ;
    }
    if q >= height {
        assert(q * width >= height * width) by (nonlinear_arith)
            requires
                q >= height,
                width > 0,
        ;
        assert(height * width == width * height) by (nonlinear_arith);
    }
}

/// The index of a column and row inside the grid lies inside the grid, and its column and
/// row are the ones it was made from.
pub proof fn lemma_index(width: int, height: int, x: int, y: int)
    requires
        0 <= x < width,
        0 <= y < height,
    ensures
        0 <= cell_index(width, x, y) < width * height,
        column_of(width, cell_index(width, x, y)) == x,
        row_of(width, cell_index(width, x, y)) == y,
{
    lemma_fundamental_div_mod_converse(y * width + x, width, y, x);
    assert(0 <= y * width) by (nonlinear_arith)
        requires
            0 <= y,
            0 < width,
    ;
    assert(y * width + width <= width * height) by (nonlinear_arith)
        requires
            0 <= y < height,
            0 < width,
    ;
}

/// Stepping one row down or up moves the index by `width`.
pub proof fn lemma_row_step(width: int, x: int, y: int)
    ensures
        cell_index(width, x, y + 1) == cell_index(width, x, y) + width,
        cell_index(width, x, y - 1) == cell_index(width, x, y) - width,
{
    assert((y + 1) * width == y * width + width) by (nonlinear_arith);
    assert((y - 1) * width == y * width - width) by (nonlinear_arith);
}

/// In a permutation every label below the length occurs somewhere.
pub proof fn lemma_permutation_onto(cells: Seq<usize>, label: usize)
    requires
        is_permutation(cells),
        label < cells.len(),
    ensures
        exists|i: int| 0 <= i < cells.len() && cells[i] == label,
{
    let n = cells.len() as int;
    let labels = cells.map_values(|v: usize| v as int);
    assert(labels.no_duplicates());
    labels.unique_seq_to_set();
    lemma_int_range(0, n);
    let seen = labels.to_set();
    let all = set_int_range(0, n);
    assert forall|v: int| seen.contains(v) implies all.contains(v) by {
        let i = choose|i: int| 0 <= i < labels.len() && labels[i] == v;
        assert(cells[i] < cells.len());
    }
    lemma_len_subset(seen, all);
    lemma_subset_equality(seen, all);
    assert(all.contains(label as int));
    assert(seen.contains(label as int));
    let i = choose|i: int| 0 <= i < labels.len() && labels[i] == label as int;
    assert(cells[i] == label);
}

/// In a permutation a label occurs at one index only.
pub proof fn lemma_permutation_unique(cells: Seq<usize>, i: int, j: int)
    requires
        is_permutation(cells),
        0 <= i < cells.len(),
        0 <= j < cells.len(),
        cells[i] == cells[j],
    ensures
        i == j,
{
    if i < j {
        assert(cells[i] != cells[j]);
    } else if j < i {
        assert(cells[j] != cells[i]);
    }
}

} // verus!
