use vstd::prelude::*;

verus! {

/// Row (or column) `i` of a submatrix taken without row (or column) `skipped`
/// comes from this row (or column) of the full matrix.
pub open spec fn source_index(i: int, skipped: int) -> int {
    if i < skipped {
        i
    } else {
        i + 1
    }
}

fn source(i: usize, skipped: usize) -> (r: usize)
    requires
        i < 3,
    ensures
        r == source_index(i as int, skipped as int),
{
    if i < skipped {
        i
    } else {
        i + 1
    }
}

/// The 3×3 matrix left when row `row` and column `column` are taken out of a
/// 4×4 matrix.
pub fn submatrix4<T: Copy>(data: &[[T; 4]; 4], row: usize, column: usize) -> (r: [[T; 3]; 3])
    requires
        row < 4,
        column < 4,
    ensures
        forall|i: int, j: int|
            0 <= i < 3 && 0 <= j < 3 ==> #[trigger] r@[i]@[j] == data@[source_index(
                i,
                row as int,
            )]@[source_index(j, column as int)],
{
    let r0 = source(0, row);
    let r1 = source(1, row);
    let r2 = source(2, row);
    let c0 = source(0, column);
    let c1 = source(1, column);
    let c2 = source(2, column);
    let out = [
        [data[r0][c0], data[r0][c1], data[r0][c2]],
        [data[r1][c0], data[r1][c1], data[r1][c2]],
        [data[r2][c0], data[r2][c1], data[r2][c2]],
    ];
    out
}

/// The 2×2 matrix left when row `row` and column `column` are taken out of a
/// 3×3 matrix.
pub fn submatrix3<T: Copy>(data: &[[T; 3]; 3], row: usize, column: usize) -> (r: [[T; 2]; 2])
    requires
        row < 3,
        column < 3,
    ensures
        forall|i: int, j: int|
            0 <= i < 2 && 0 <= j < 2 ==> #[trigger] r@[i]@[j] == data@[source_index(
                i,
                row as int,
            )]@[source_index(j, column as int)],
{
    let r0 = source(0, row);
    let r1 = source(1, row);
    let c0 = source(0, column);
    let c1 = source(1, column);
    let out = [[data[r0][c0], data[r0][c1]], [data[r1][c0], data[r1][c1]]];
    out
}

/// The transpose of a 4×4 matrix: rows become columns.
pub fn transpose4<T: Copy>(data: &[[T; 4]; 4]) -> (r: [[T; 4]; 4])
    ensures
        forall|i: int, j: int| 0 <= i < 4 && 0 <= j < 4 ==> #[trigger] r@[i]@[j] == data@[j]@[i],
{
    let out = [
        [data[0][0], data[1][0], data[2][0], data[3][0]],
        [data[0][1], data[1][1], data[2][1], data[3][1]],
        [data[0][2], data[1][2], data[2][2], data[3][2]],
        [data[0][3], data[1][3], data[2][3], data[3][3]],
    ];
    out
}

} // verus!
