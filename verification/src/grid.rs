//! Row-major grids of index cells, the shape every procedural mesh here is built from.
use vstd::prelude::*;

verus! {

/// The cells of one row, `row`, for the columns `0..cols`, concatenated in order.
pub open spec fn grid_row(row: nat, cols: nat, cell: spec_fn(nat, nat) -> Seq<u32>) -> Seq<u32>
    decreases cols,
{
    if cols == 0 {
        Seq::empty()
    } else {
        grid_row(row, (cols - 1) as nat, cell) + cell(row, (cols - 1) as nat)
    }
}

/// The rows `0..rows` of a grid with `cols` columns, concatenated in row-major order.
pub open spec fn grid(rows: nat, cols: nat, cell: spec_fn(nat, nat) -> Seq<u32>) -> Seq<u32>
    decreases rows,
{
    if rows == 0 {
        Seq::empty()
    } else {
        grid((rows - 1) as nat, cols, cell) + grid_row((rows - 1) as nat, cols, cell)
    }
}

/// Every entry of `s` is smaller than `bound`.
pub open spec fn all_below(s: Seq<u32>, bound: nat) -> bool {
    forall|k: int| 0 <= k < s.len() ==> (#[trigger] s[k]) < bound
}

pub proof fn lemma_all_below_concat(a: Seq<u32>, b: Seq<u32>, bound: nat)
    requires
        all_below(a, bound),
        all_below(b, bound),
    ensures
        all_below(a + b, bound),
{
    assert forall|k: int| 0 <= k < (a + b).len() implies (#[trigger] (a + b)[k]) < bound by {
        if k < a.len() {
            assert((a + b)[k] == a[k]);
        } else {
            assert((a + b)[k] == b[k - a.len()]);
        }
    }
}

pub proof fn lemma_all_below_monotone(s: Seq<u32>, lower: nat, upper: nat)
    requires
        all_below(s, lower),
        lower <= upper,
    ensures
        all_below(s, upper),
{
}

/// A row whose cells all stay below `bound` stays below `bound`.
pub proof fn lemma_grid_row_below(row: nat, cols: nat, cell: spec_fn(nat, nat) -> Seq<u32>, bound: nat)
    requires
        forall|j: nat| j < cols ==> all_below(#[trigger] cell(row, j), bound),
    ensures
        all_below(grid_row(row, cols, cell), bound),
    decreases cols,
{
    if cols > 0 {
        lemma_grid_row_below(row, (cols - 1) as nat, cell, bound);
        assert(all_below(cell(row, (cols - 1) as nat), bound));
        lemma_all_below_concat(grid_row(row, (cols - 1) as nat, cell), cell(row, (cols - 1) as nat), bound);
    }
}

/// A grid whose cells all stay below `bound` stays below `bound`.
pub proof fn lemma_grid_below(rows: nat, cols: nat, cell: spec_fn(nat, nat) -> Seq<u32>, bound: nat)
    requires
        forall|i: nat, j: nat| i < rows && j < cols ==> all_below(#[trigger] cell(i, j), bound),
    ensures
        all_below(grid(rows, cols, cell), bound),
    decreases rows,
{
    if rows > 0 {
        let r = (rows - 1) as nat;
        lemma_grid_below(r, cols, cell, bound);
        assert forall|j: nat| j < cols implies all_below(#[trigger] cell(r, j), bound) by {}
        lemma_grid_row_below(r, cols, cell, bound);
        lemma_all_below_concat(grid(r, cols, cell), grid_row(r, cols, cell), bound);
    }
}

/// A row of cells that all hold `k` entries holds `cols * k` entries.
pub proof fn lemma_grid_row_len(row: nat, cols: nat, cell: spec_fn(nat, nat) -> Seq<u32>, k: nat)
    requires
        forall|j: nat| j < cols ==> (#[trigger] cell(row, j)).len() == k,
    ensures
        grid_row(row, cols, cell).len() == cols * k,
    decreases cols,
{
    if cols > 0 {
        let c = (cols - 1) as nat;
        lemma_grid_row_len(row, c, cell, k);
        assert(cell(row, c).len() == k);
        assert(c * k + k == cols * k) by (nonlinear_arith)
            requires c + 1 == cols;
        assert(grid_row(row, cols, cell).len() == grid_row(row, c, cell).len() + cell(row, c).len());
    } else {
        assert(cols * k == 0) by (nonlinear_arith)
            requires cols == 0;
    }
}

/// A grid of cells that all hold `k` entries holds `rows * cols * k` entries.
pub proof fn lemma_grid_len(rows: nat, cols: nat, cell: spec_fn(nat, nat) -> Seq<u32>, k: nat)
    requires
        forall|i: nat, j: nat| i < rows && j < cols ==> (#[trigger] cell(i, j)).len() == k,
    ensures
        grid(rows, cols, cell).len() == rows * cols * k,
    decreases rows,
{
    if rows > 0 {
        let r = (rows - 1) as nat;
        lemma_grid_len(r, cols, cell, k);
        assert forall|j: nat| j < cols implies (#[trigger] cell(r, j)).len() == k by {}
        lemma_grid_row_len(r, cols, cell, k);
        assert(r * cols * k + cols * k == rows * cols * k) by (nonlinear_arith)
            requires r + 1 == rows;
        assert(grid(rows, cols, cell).len() == grid(r, cols, cell).len() + grid_row(r, cols, cell).len());
    } else {
        assert(rows * cols * k == 0) by (nonlinear_arith)
            requires rows == 0;
    }
}

} // verus!
