use vstd::prelude::*;

verus! {

/// Board positions of the cells of row `index` (1 to 9), left to right.
pub open spec fn row_positions(index: int) -> Seq<int> {
    Seq::new(9, |k: int| (index - 1) * 9 + k)
}

/// Board positions of the cells of column `index` (1 to 9), top to bottom.
pub open spec fn column_positions(index: int) -> Seq<int> {
    Seq::new(9, |k: int| (index - 1) + 9 * k)
}

/// Board positions of the cells of subgrid `index` (1 to 9, the subgrids
/// counted row-major), row-major inside the subgrid.
pub open spec fn subgrid_positions(index: int) -> Seq<int> {
    Seq::new(9, |k: int| ((index - 1) / 3 * 3 + k / 3) * 9 + (index - 1) % 3 * 3 + k % 3)
}

/// The cells of `board` at `positions`, in the order of `positions`.
pub open spec fn select<T>(board: Seq<T>, positions: Seq<int>) -> Seq<T> {
    Seq::new(positions.len(), |k: int| board[positions[k]])
}

/// `out` holds a clone of `board[positions[k]]` at each index `k`.
pub open spec fn is_selection<T: Clone>(out: Seq<T>, board: Seq<T>, positions: Seq<int>) -> bool {
    &&& out.len() == positions.len()
    &&& forall|k: int| 0 <= k < positions.len() ==> cloned(board[positions[k]], #[trigger] out[k])
}

/// The cells of row `index` of an 81-cell board.
pub fn get_row<T: Clone>(index: usize, board: &[T]) -> (out: Vec<T>)
    requires
        board@.len() == 81,
        1 <= index <= 9,
    ensures
        is_selection(out@, board@, row_positions(index as int)),
{
    let start: usize = (index - 1) * 9;
    let mut out: Vec<T> = Vec::new();
    let mut k: usize = 0;
    while k < 9
        invariant
            board@.len() == 81,
            1 <= index <= 9,
            start == (index - 1) * 9,
            k <= 9,
            out@.len() == k,
            forall|j: int| 0 <= j < k ==> cloned(board@[start + j], #[trigger] out@[j]),
        decreases 9 - k,
    {
        out.push(board[start + k].clone());
        k += 1;
    }
    out
}

/// The cells of column `index` of an 81-cell board.
pub fn get_column<T: Clone>(index: usize, board: &[T]) -> (out: Vec<T>)
    requires
        board@.len() == 81,
        1 <= index <= 9,
    ensures
        is_selection(out@, board@, column_positions(index as int)),
{
    let mut out: Vec<T> = Vec::new();
    let mut i: usize = index - 1;
    while i < board.len()
        invariant
            board@.len() == 81,
            1 <= index <= 9,
            out@.len() <= 9,
            i == (index - 1) + 9 * out@.len(),
            forall|j: int| 0 <= j < out@.len() ==> cloned(board@[(index - 1) + 9 * j], #[trigger] out@[j]),
        decreases 90 - i,
    {
        out.push(board[i].clone());
        i += 9;
    }
    out
}

/// The cells of subgrid `index` of an 81-cell board.
pub fn get_subgrid<T: Clone>(index: usize, board: &[T]) -> (out: Vec<T>)
    requires
        board@.len() == 81,
        1 <= index <= 9,
    ensures
        is_selection(out@, board@, subgrid_positions(index as int)),
{
    let row: usize = (index - 1) / 3 * 3;
    let col: usize = (index - 1) % 3 * 3;
    let mut out: Vec<T> = Vec::new();
    let mut i: usize = row;
    while i < row + 3
        invariant
            board@.len() == 81,
            row == (index - 1) / 3 * 3,
            col == (index - 1) % 3 * 3,
            row <= 6,
            col <= 6,
            row <= i <= row + 3,
            out@.len() == 3 * (i - row),
            forall|k: int| 0 <= k < out@.len() ==> cloned(
                board@[(row + k / 3) * 9 + col + k % 3],
                #[trigger] out@[k],
            ),
        decreases row + 3 - i,
    {
        let mut j: usize = col;
        while j < col + 3
            invariant
                board@.len() == 81,
                row <= 6,
                col <= 6,
                row <= i < row + 3,
                col <= j <= col + 3,
                out@.len() == 3 * (i - row) + (j - col),
                forall|k: int| 0 <= k < out@.len() ==> cloned(
                    board@[(row + k / 3) * 9 + col + k % 3],
                    #[trigger] out@[k],
                ),
            decreases col + 3 - j,
        {
            out.push(board[i * 9 + j].clone());
            j += 1;
        }
        i += 1;
    }
    out
}

} // verus!
