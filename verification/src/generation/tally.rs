//! Counting the cells of a grid that hold a given value. The generators use
//! these counts to show that carving comes to an end.

use vstd::prelude::*;
use crate::generation::grid::with_cell;

verus! {

/// How many entries of `row` equal `value`.
pub open spec fn count_in_row<T>(row: Seq<T>, value: T) -> nat
    decreases row.len(),
{
    if row.len() == 0 {
        0
    } else {
        count_in_row(row.drop_last(), value) + if row.last() == value {
            1nat
        } else {
            0nat
        }
    }
}

/// How many cells of `rows` equal `value`.
pub open spec fn count_in_rows<T>(rows: Seq<Seq<T>>, value: T) -> nat
    decreases rows.len(),
{
    if rows.len() == 0 {
        0
    } else {
        count_in_rows(rows.drop_last(), value) + count_in_row(rows.last(), value)
    }
}

/// Replacing one entry of a row moves the count by at most one, according to
/// whether the old and the new entry equal `value`.
pub proof fn lemma_count_in_row_update<T>(row: Seq<T>, i: int, entry: T, value: T)
    requires
        0 <= i < row.len(),
    ensures
        count_in_row(row.update(i, entry), value) + (if row[i] == value {
            1nat
        } else {
            0nat
        }) == count_in_row(row, value) + (if entry == value {
            1nat
        } else {
            0nat
        }),
    decreases row.len(),
{
    let after = row.update(i, entry);
    if i == row.len() - 1 {
        assert(after.drop_last() =~= row.drop_last());
    } else {
        lemma_count_in_row_update(row.drop_last(), i, entry, value);
        assert(after.drop_last() =~= row.drop_last().update(i, entry));
    }
}

/// The count over two rows laid end to end is the sum of their counts.
pub proof fn lemma_count_in_row_concat<T>(front: Seq<T>, back: Seq<T>, value: T)
    ensures
        count_in_row(front + back, value) == count_in_row(front, value) + count_in_row(back, value),
    decreases back.len(),
{
    if back.len() == 0 {
        assert(front + back =~= front);
    } else {
        lemma_count_in_row_concat(front, back.drop_last(), value);
        assert((front + back).drop_last() =~= front + back.drop_last());
    }
}

/// A row in which no entry equals `value` counts zero.
pub proof fn lemma_count_in_row_none<T>(row: Seq<T>, value: T)
    requires
        forall|i: int| 0 <= i < row.len() ==> row[i] != value,
    ensures
        count_in_row(row, value) == 0,
    decreases row.len(),
{
    if row.len() > 0 {
        lemma_count_in_row_none(row.drop_last(), value);
    }
}

/// Replacing one cell of a grid moves the count by at most one, according to
/// whether the old and the new cell equal `value`.
pub proof fn lemma_count_in_rows_update<T>(rows: Seq<Seq<T>>, x: int, y: int, entry: T, value: T)
    requires
        0 <= y < rows.len(),
        0 <= x < rows[y].len(),
    ensures
        count_in_rows(with_cell(rows, x, y, entry), value) + (if rows[y][x] == value {
            1nat
        } else {
            0nat
        }) == count_in_rows(rows, value) + (if entry == value {
            1nat
        } else {
            0nat
        }),
    decreases rows.len(),
{
    let after = with_cell(rows, x, y, entry);
    if y == rows.len() - 1 {
        assert(after.drop_last() =~= rows.drop_last());
        lemma_count_in_row_update(rows[y], x, entry, value);
    } else {
        lemma_count_in_rows_update(rows.drop_last(), x, y, entry, value);
        assert(after.drop_last() =~= with_cell(rows.drop_last(), x, y, entry));
    }
}

} // verus!
