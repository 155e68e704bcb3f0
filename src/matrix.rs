//! Looking a value up in a matrix sorted along its rows and its columns.
use vstd::prelude::*;

verus! {

/// Every row has as many entries as the first.
pub open spec fn rectangular(m: Seq<Vec<i32>>) -> bool {
    m.len() > 0 && forall|i: int| 0 <= i < m.len() ==> (#[trigger] m[i]@).len() == m[0]@.len()
}

/// Each row ascends from left to right and each column from top to bottom.
pub open spec fn sorted_both_ways(m: Seq<Vec<i32>>) -> bool {
    &&& forall|i: int, j1: int, j2: int|
        0 <= i < m.len() && 0 <= j1 <= j2 < m[i]@.len() ==> m[i]@[j1] <= m[i]@[j2]
    &&& forall|i1: int, i2: int, j: int|
        0 <= i1 <= i2 < m.len() && 0 <= j < m[i1]@.len() && j < m[i2]@.len() ==> m[i1]@[j]
            <= m[i2]@[j]
}

/// `target` stands somewhere in `m`.
pub open spec fn holds(m: Seq<Vec<i32>>, target: i32) -> bool {
    exists|i: int, j: int| 0 <= i < m.len() && 0 <= j < m[i]@.len() && #[trigger] m[i]@[j] == target
}

/// Whether `target` stands in `matrix`. The search starts at the bottom-left
/// corner and moves right past smaller entries and up past larger ones, so
/// it is exact on a matrix sorted along its rows and columns; on any other
/// matrix a `true` is still never wrong.
pub fn search_matrix(matrix: Vec<Vec<i32>>, target: i32) -> (r: bool)
    requires
        rectangular(matrix@),
        matrix@.len() <= isize::MAX,
    ensures
        r ==> holds(matrix@, target),
        sorted_both_ways(matrix@) ==> (r <==> holds(matrix@, target)),
{
    let width = matrix[0].len();
    let mut col: usize = 0;
    let mut row: isize = (matrix.len() - 1) as isize;
    while row >= 0 && col < width
        invariant
            rectangular(matrix@),
            width == matrix@[0]@.len(),
            -1 <= row < matrix@.len(),
            col <= width,
            sorted_both_ways(matrix@) ==> forall|i: int, j: int|
                0 <= i < matrix@.len() && 0 <= j < width && (i > row || j < col) ==> #[trigger] matrix@[i]@[j]
                    != target,
        decreases row + 1 + width - col,
    {
        let ru = row as usize;
        assert(matrix@[ru as int]@.len() == width);
        let here = matrix[ru][col];
        if target > here {
            col = col + 1;
        } else if target < here {
            row = row - 1;
        } else {
            return true;
        }
    }
    proof {
        if sorted_both_ways(matrix@) && holds(matrix@, target) {
            let (i, j) = choose|i: int, j: int|
                0 <= i < matrix@.len() && 0 <= j < matrix@[i]@.len() && #[trigger] matrix@[i]@[j] == target;
            assert(matrix@[i]@.len() == width);
        }
    }
    false
}

} // verus!
