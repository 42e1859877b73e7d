//! Rows of cells and the width of each column.
//!
//! A table has as many columns as its first row has cells. The width of a
//! column is the length, in characters, of the longest cell that any row has in
//! it. A row that is too short to reach a column has no cell there and adds
//! nothing to its width; the cells of a row beyond the last column belong to no
//! column.

use vstd::prelude::*;

verus! {

/// A row: its cells from left to right.
pub type Row = Seq<Seq<char>>;

/// The rows of a table from top to bottom.
pub type Rows = Seq<Row>;

/// The number of columns: the number of cells of the first row.
pub open spec fn column_count(rows: Rows) -> nat {
    if rows.len() == 0 {
        0
    } else {
        rows[0].len()
    }
}

/// The length of the cell that `row` has in column `j`, or 0 where it has none.
pub open spec fn cell_len(row: Row, j: int) -> nat {
    if 0 <= j < row.len() {
        row[j].len()
    } else {
        0
    }
}

/// The greatest length of a cell in column `j`.
pub open spec fn column_width(rows: Rows, j: int) -> nat
    decreases rows.len(),
{
    if rows.len() == 0 {
        0
    } else {
        let above = column_width(rows.drop_last(), j);
        let here = cell_len(rows.last(), j);
        if here > above {
            here
        } else {
            above
        }
    }
}

/// The width of every column, from left to right.
pub open spec fn column_widths(rows: Rows) -> Seq<nat> {
    Seq::new(column_count(rows), |j: int| column_width(rows, j))
}

/// Machine integers read as natural numbers.
pub open spec fn as_nats(v: Seq<usize>) -> Seq<nat> {
    v.map_values(|w: usize| w as nat)
}

/// The width of a column is an upper bound of the cells in it, and some row reaches it.
pub proof fn lemma_column_width_is_greatest(rows: Rows, j: int)
    ensures
        forall|i: int|
            0 <= i < rows.len() ==> cell_len(#[trigger] rows[i], j) <= column_width(rows, j),
        rows.len() > 0 ==> exists|i: int|
            0 <= i < rows.len() && cell_len(#[trigger] rows[i], j) == column_width(rows, j),
    decreases rows.len(),
{
    if rows.len() > 0 {
        let above = rows.drop_last();
        lemma_column_width_is_greatest(above, j);
        assert forall|i: int| 0 <= i < rows.len() implies cell_len(#[trigger] rows[i], j)
            <= column_width(rows, j) by {
            if i < above.len() {
                assert(rows[i] == above[i]);
            }
        }
        if cell_len(rows.last(), j) >= column_width(above, j) {
            assert(cell_len(rows[rows.len() - 1], j) == column_width(rows, j));
        } else {
            let i = choose|i: int|
                0 <= i < above.len() && cell_len(#[trigger] above[i], j) == column_width(above, j);
            assert(rows[i] == above[i]);
        }
    }
}

/// In a column of the table, the width is the length of one of the cells that
/// stand in it, and no cell in it is longer.
pub proof fn lemma_column_width_is_tight(rows: Rows, j: int)
    requires
        0 <= j < column_count(rows),
    ensures
        forall|i: int|
            0 <= i < rows.len() && j < (#[trigger] rows[i]).len() ==> rows[i][j].len()
                <= column_width(rows, j),
        exists|i: int|
            0 <= i < rows.len() && j < (#[trigger] rows[i]).len() && rows[i][j].len()
                == column_width(rows, j),
{
    lemma_column_width_is_greatest(rows, j);
    assert forall|i: int|
        0 <= i < rows.len() && j < (#[trigger] rows[i]).len() implies rows[i][j].len()
        <= column_width(rows, j) by {
        assert(cell_len(rows[i], j) == rows[i][j].len());
    }
    let i = choose|i: int|
        0 <= i < rows.len() && cell_len(#[trigger] rows[i], j) == column_width(rows, j);
    if j < rows[i].len() {
        assert(rows[i][j].len() == column_width(rows, j));
    } else {
        assert(cell_len(rows[0], j) <= column_width(rows, j));
        assert(rows[0][j].len() == column_width(rows, j));
    }
}

/// Computes the width of every column of `records`: one width for each cell of
/// the first row, each the length of a longest cell in its column.
pub fn calculate_widths(records: &Vec<Vec<String>>) -> (widths: Vec<usize>)
    ensures
        widths.len() == column_count(records.deep_view()),
        forall|j: int| 0 <= j < widths.len() ==> widths[j] == column_width(records.deep_view(), j),
        as_nats(widths@) == column_widths(records.deep_view()),
        forall|i: int, j: int|
            0 <= i < records.len() && 0 <= j < widths.len() && j < (#[trigger] records[i]).len()
                ==> (#[trigger] records[i][j])@.len() <= widths[j],
        forall|j: int|
            0 <= j < widths.len() ==> exists|i: int|
                0 <= i < records.len() && j < (#[trigger] records[i]).len() && records[i][j]@.len()
                    == #[trigger] widths[j],
{
    let ghost rows = records.deep_view();
    let mut widths: Vec<usize> = Vec::new();
    if records.len() == 0 {
        assert(as_nats(widths@) =~= column_widths(rows));
        return widths;
    }
    let columns = records[0].len();
    while widths.len() < columns
        invariant
            widths.len() <= columns,
            forall|j: int| 0 <= j < widths.len() ==> widths[j] == 0,
        decreases columns - widths.len(),
    {
        widths.push(0);
    }
    let mut i: usize = 0;
    while i < records.len()
        invariant
            i <= records.len(),
            rows == records.deep_view(),
            widths.len() == columns,
            forall|j: int| 0 <= j < columns ==> widths[j] == column_width(rows.take(i as int), j),
        decreases records.len() - i,
    {
        let row = &records[i];
        let ghost above = rows.take(i as int);
        let ghost upto = rows.take(i + 1);
        assert(upto.drop_last() =~= above);
        assert(upto.last() == rows[i as int]);
        assert(rows[i as int].len() == row.len());
        let cells = if row.len() < columns {
            row.len()
        } else {
            columns
        };
        let mut j: usize = 0;
        while j < cells
            invariant
                j <= cells,
                cells <= columns,
                cells <= row.len(),
                widths.len() == columns,
                upto.len() > 0,
                upto.drop_last() == above,
                upto.last() == row.deep_view(),
                forall|k: int| 0 <= k < j ==> widths[k] == column_width(upto, k),
                forall|k: int| j <= k < columns ==> widths[k] == column_width(above, k),
            decreases cells - j,
        {
            let len = row[j].as_str().unicode_len();
            assert(cell_len(upto.last(), j as int) == len);
            assert(widths[j as int] == column_width(above, j as int));
            if len > widths[j] {
                widths.set(j, len);
            }
            j = j + 1;
        }
        assert forall|k: int| 0 <= k < columns implies widths[k] == column_width(upto, k) by {
            if k >= cells {
                assert(cell_len(upto.last(), k) == 0);
                assert(column_width(upto, k) == column_width(above, k));
            }
        }
        i = i + 1;
    }
    assert(rows.take(i as int) =~= rows);
    assert(as_nats(widths@) =~= column_widths(rows));
    proof {
        assert forall|i: int, j: int|
            0 <= i < records.len() && 0 <= j < widths.len() && j < (#[trigger] records[i]).len()
            implies (#[trigger] records[i][j])@.len() <= widths[j] by {
            lemma_column_width_is_tight(rows, j);
            assert(rows[i][j] == records[i][j]@);
        }
        assert forall|j: int| 0 <= j < widths.len() implies exists|i: int|
            0 <= i < records.len() && j < (#[trigger] records[i]).len() && records[i][j]@.len()
                == #[trigger] widths[j] by {
            lemma_column_width_is_tight(rows, j);
            let i = choose|i: int|
                0 <= i < rows.len() && j < (#[trigger] rows[i]).len() && rows[i][j].len()
                    == column_width(rows, j);
            assert(rows[i][j] == records[i][j]@);
            assert(rows[i].len() == records[i].len());
        }
    }
    widths
}

} // verus!
