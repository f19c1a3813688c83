//! Grids as sequences of rows, and the vectors of vectors that hold them.

use vstd::prelude::*;

verus! {

/// Whether `rows` has `height` rows of `width` cells each.
pub open spec fn rectangular<T>(rows: Seq<Seq<T>>, width: nat, height: nat) -> bool {
    &&& rows.len() == height
    &&& forall|y: int| 0 <= y < rows.len() ==> (#[trigger] rows[y]).len() == width
}

/// A grid of `height` rows of `width` cells, each holding `value`.
pub open spec fn uniform_rows<T>(width: nat, height: nat, value: T) -> Seq<Seq<T>> {
    Seq::new(height, |y: int| Seq::new(width, |x: int| value))
}

/// `rows` with the cell in column `x` of row `y` replaced by `tile`.
pub open spec fn with_cell<T>(rows: Seq<Seq<T>>, x: int, y: int, tile: T) -> Seq<Seq<T>> {
    rows.update(y, rows[y].update(x, tile))
}

/// The rows that a vector of row vectors holds.
pub open spec fn rows_of<T>(grid: Vec<Vec<T>>) -> Seq<Seq<T>> {
    Seq::new(grid@.len(), |y: int| grid@[y]@)
}

/// Build a vector of `height` rows of `width` cells, each holding `value`.
pub fn filled_rows<T: Copy>(width: usize, height: usize, value: T) -> (grid: Vec<Vec<T>>)
    ensures
        rows_of(grid) == uniform_rows(width as nat, height as nat, value),
        grid@.len() == height,
        forall|y: int| 0 <= y < height ==> (#[trigger] grid@[y])@.len() == width,
{
    let mut grid: Vec<Vec<T>> = Vec::new();
    let mut i: usize = 0;
    while i < height
        invariant
            i <= height,
            grid@.len() == i,
            forall|y: int| 0 <= y < i ==> (#[trigger] grid@[y])@ == Seq::new(width as nat, |x: int| value),
        decreases height - i,
    {
        let mut row: Vec<T> = Vec::new();
        let mut j: usize = 0;
        while j < width
            invariant
                j <= width,
                row@.len() == j,
                forall|x: int| 0 <= x < j ==> #[trigger] row@[x] == value,
            decreases width - j,
        {
            row.push(value);
            j += 1;
        }
        assert(row@ =~= Seq::new(width as nat, |x: int| value));
        grid.push(row);
        i += 1;
    }
    assert(rows_of(grid) =~= uniform_rows(width as nat, height as nat, value));
    grid
}

/// Overwrite one cell of a vector of rows.
pub fn put_cell<T>(grid: &mut Vec<Vec<T>>, x: usize, y: usize, value: T)
    requires
        y < old(grid)@.len(),
        x < old(grid)@[y as int]@.len(),
    ensures
        rows_of(*final(grid)) == with_cell(rows_of(*old(grid)), x as int, y as int, value),
        final(grid)@.len() == old(grid)@.len(),
        forall|r: int|
            0 <= r < old(grid)@.len() ==> (#[trigger] final(grid)@[r])@.len() == old(grid)@[r]@.len(),
    no_unwind
{
    grid[y][x] = value;
    assert(rows_of(*grid) =~= with_cell(rows_of(*old(grid)), x as int, y as int, value));
}

} // verus!
