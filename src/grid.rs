//! Dense two-dimensional grids of integers and the facts contracts use about them.
use vstd::prelude::*;

verus! {

/// The label value for positions that do not contribute to the loss.
pub const IGNORE_LABEL: i32 = -100;

/// Largest token id that a label slot can hold.
pub const MAX_LABEL_ID: u32 = 0x7fff_ffff;

/// Every row of `g` has `cols` entries and there are `rows` rows.
pub open spec fn has_shape<T>(g: Seq<Vec<T>>, rows: nat, cols: nat) -> bool {
    &&& g.len() == rows
    &&& forall|i: int| 0 <= i < rows ==> (#[trigger] g[i])@.len() == cols
}

/// The rows of a grid as mathematical sequences.
pub open spec fn rows_view<T>(g: Seq<Vec<T>>) -> Seq<Seq<T>> {
    g.map_values(|v: Vec<T>| v@)
}

/// A token id read as a label value.
pub open spec fn label_of(id: u32) -> i32 {
    id as i32
}

/// Every id of `ids` fits in a label slot.
pub open spec fn ids_fit_labels(ids: Seq<u32>) -> bool {
    forall|i: int| 0 <= i < ids.len() ==> #[trigger] ids[i] <= MAX_LABEL_ID
}

/// A row of `n` copies of `v`.
pub fn filled_row<T: Copy>(n: usize, v: T) -> (r: Vec<T>)
    ensures
        r@ == Seq::new(n as nat, |_i: int| v),
{
    let mut r: Vec<T> = Vec::with_capacity(n);
    let mut i: usize = 0;
    while i < n
        invariant
            i <= n,
            r@ == Seq::new(i as nat, |_i: int| v),
        decreases n - i,
    {
        r.push(v);
        i = i + 1;
        assert(r@ =~= Seq::new(i as nat, |_i: int| v));
    }
    r
}

/// A `rows` by `cols` grid holding `v` everywhere.
pub fn filled_grid<T: Copy>(rows: usize, cols: usize, v: T) -> (g: Vec<Vec<T>>)
    ensures
        has_shape(g@, rows as nat, cols as nat),
        forall|i: int| 0 <= i < rows ==> (#[trigger] g@[i])@ == Seq::new(cols as nat, |_j: int| v),
{
    let mut g: Vec<Vec<T>> = Vec::with_capacity(rows);
    let mut i: usize = 0;
    while i < rows
        invariant
            i <= rows,
            g@.len() == i,
            forall|k: int| 0 <= k < i ==> (#[trigger] g@[k])@ == Seq::new(cols as nat, |_j: int| v),
        decreases rows - i,
    {
        let row = filled_row(cols, v);
        g.push(row);
        i = i + 1;
    }
    g
}

} // verus!
