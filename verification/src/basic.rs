//! The basic style: columns lined up with spaces.
//!
//! Every row is one line. A cell is followed by spaces up to the width of its
//! column and by one space more, which keeps the columns apart. The white space
//! at the end of the line is cut off, so the last cell is not padded. Cells
//! beyond the last column are left out, and a row that is too short simply ends
//! early.

use vstd::prelude::*;
use crate::text::{
    is_trimmed,
    join_lines,
    lemma_join_lines_push,
    lemma_trim_end_ignores_trailing_whitespace,
    lemma_trim_end_keeps_parts,
    lemma_trim_end_of_trimmed,
    pad_right,
    part_between,
    push_repeated,
    push_trimmed,
    repeated,
    trim_end,
    Lines,
};
use crate::widths::{as_nats, column_count, column_widths, lemma_column_width_is_tight, Row, Rows};

verus! {

/// The number of cells of `row` that are written: those that stand in a column.
pub open spec fn written_cells(row: Row, widths: Seq<nat>) -> nat {
    if row.len() < widths.len() {
        row.len()
    } else {
        widths.len()
    }
}

/// The cell of `row` in column `j`, padded to one character more than the
/// width of the column.
pub open spec fn basic_cell(row: Row, widths: Seq<nat>, j: int) -> Seq<char> {
    pad_right(row[j], widths[j] + 1)
}

/// The first `n` padded cells of `row`.
pub open spec fn basic_cells(row: Row, widths: Seq<nat>, n: nat) -> Seq<Seq<char>> {
    Seq::new(n, |j: int| basic_cell(row, widths, j))
}

/// The line of `row` before its end is trimmed: all its padded cells.
pub open spec fn padded_line(row: Row, widths: Seq<nat>) -> Seq<char> {
    basic_cells(row, widths, written_cells(row, widths)).flatten()
}

/// The line of `row`, without its line feed.
pub open spec fn basic_line(row: Row, widths: Seq<nat>) -> Seq<char> {
    trim_end(padded_line(row, widths))
}

/// The lines of all rows from top to bottom.
pub open spec fn basic_lines(rows: Rows, widths: Seq<nat>) -> Lines {
    Seq::new(rows.len(), |i: int| basic_line(rows[i], widths))
}

/// The table as one text.
pub open spec fn basic_text(rows: Rows, widths: Seq<nat>) -> Seq<char> {
    join_lines(basic_lines(rows, widths))
}

/// Where column `j` starts in a line: behind the columns before it, each with
/// the one space that follows it.
pub open spec fn column_start(widths: Seq<nat>, j: nat) -> nat
    decreases j,
{
    if j == 0 {
        0
    } else {
        column_start(widths, (j - 1) as nat) + widths[j - 1] + 1
    }
}

/// The part of `line` that lies in column `j`. A line that ends before the
/// column does gives what it has of it.
pub open spec fn column_slice(line: Seq<char>, widths: Seq<nat>, j: nat) -> Seq<char> {
    part_between(line, column_start(widths, j) as int, column_start(widths, j + 1) as int)
}

/// Whether the first `n` cells of `row` fit into their columns.
pub open spec fn cells_fit(row: Row, widths: Seq<nat>, n: nat) -> bool {
    forall|k: int| 0 <= k < n ==> (#[trigger] row[k]).len() <= widths[k]
}

/// Where the cells fit, the padded cells fill their columns exactly: each one
/// lies in the line where its column starts and ends where the next column
/// starts.
pub proof fn lemma_padded_cells_fill_columns(row: Row, widths: Seq<nat>, n: nat, j: int)
    requires
        n <= written_cells(row, widths),
        cells_fit(row, widths, n),
        0 <= j < n,
    ensures
        basic_cells(row, widths, n).flatten().len() == column_start(widths, n),
        column_start(widths, (j + 1) as nat) <= column_start(widths, n),
        basic_cells(row, widths, n).flatten().subrange(
            column_start(widths, j as nat) as int,
            column_start(widths, (j + 1) as nat) as int,
        ) == basic_cell(row, widths, j),
    decreases n,
{
    let m = (n - 1) as nat;
    let before = basic_cells(row, widths, m);
    let last = basic_cell(row, widths, m as int);
    assert(basic_cells(row, widths, n) =~= before.push(last));
    before.lemma_flatten_push(last);
    assert(row[m as int].len() <= widths[m as int]);
    assert(last.len() == widths[m as int] + 1);
    if m == 0 {
        assert(before.flatten() =~= Seq::<char>::empty());
    } else {
        lemma_padded_cells_fill_columns(row, widths, m, if j < m {
            j
        } else {
            0
        });
    }
    let whole = before.flatten() + last;
    if j == m {
        assert(whole.subrange(column_start(widths, m) as int, column_start(widths, n) as int)
            =~= last);
    } else {
        assert(whole.subrange(
            column_start(widths, j as nat) as int,
            column_start(widths, (j + 1) as nat) as int,
        ) =~= before.flatten().subrange(
            column_start(widths, j as nat) as int,
            column_start(widths, (j + 1) as nat) as int,
        ));
    }
}

/// Cutting the line of a row at the starts of the columns gives the cells back:
/// what lies in a column is, up to white space at its end, the cell that the
/// row has there, and it is that cell itself where the cell neither starts nor
/// ends with white space.
pub proof fn lemma_basic_line_keeps_cells(row: Row, widths: Seq<nat>, j: nat)
    requires
        j < written_cells(row, widths),
        cells_fit(row, widths, written_cells(row, widths)),
    ensures
        trim_end(column_slice(basic_line(row, widths), widths, j)) == trim_end(row[j as int]),
        is_trimmed(row[j as int]) ==> trim_end(column_slice(basic_line(row, widths), widths, j))
            == row[j as int],
{
    let padded = padded_line(row, widths);
    let from = column_start(widths, j) as int;
    let to = column_start(widths, j + 1) as int;
    lemma_padded_cells_fill_columns(row, widths, written_cells(row, widths), j as int);
    lemma_trim_end_keeps_parts(padded, from, to);
    let cell = row[j as int];
    let padding = repeated(' ', (widths[j as int] + 1 - cell.len()) as nat);
    assert(basic_cell(row, widths, j as int) == cell + padding);
    lemma_trim_end_ignores_trailing_whitespace(cell, padding);
    if is_trimmed(cell) {
        lemma_trim_end_of_trimmed(cell);
    }
}

/// A table that is rendered in the widths of its own columns can be read back:
/// cutting the line of any row at the starts of the columns gives, up to white
/// space at their ends, the cells that the row has in them, and gives those
/// cells themselves where they neither start nor end with white space.
pub proof fn lemma_basic_lines_keep_cells(rows: Rows, i: int, j: nat)
    requires
        0 <= i < rows.len(),
        j < rows[i].len(),
        j < column_count(rows),
    ensures
        trim_end(column_slice(basic_lines(rows, column_widths(rows))[i], column_widths(rows), j))
            == trim_end(rows[i][j as int]),
        is_trimmed(rows[i][j as int]) ==> trim_end(
            column_slice(basic_lines(rows, column_widths(rows))[i], column_widths(rows), j),
        ) == rows[i][j as int],
{
    let widths = column_widths(rows);
    let row = rows[i];
    assert forall|k: int| 0 <= k < written_cells(row, widths) implies (#[trigger] row[k]).len()
        <= widths[k] by {
        lemma_column_width_is_tight(rows, k);
    }
    lemma_basic_line_keeps_cells(row, widths, j);
}

/// Appends the line of `row` in columns of the given widths to `out`, and a
/// line feed.
pub fn push_basic_line(out: &mut String, row: &Vec<String>, widths: &Vec<usize>)
    ensures
        final(out)@ == old(out)@ + basic_line(row.deep_view(), as_nats(widths@)) + seq!['\n'],
{
    let ghost ws = as_nats(widths@);
    let ghost cells = row.deep_view();
    proof {
        reveal_strlit(" ");
        reveal_strlit("\n");
    }
    let written = if row.len() < widths.len() {
        row.len()
    } else {
        widths.len()
    };
    let mut line = String::new();
    let mut j: usize = 0;
    while j < written
        invariant
            j <= written,
            written == written_cells(cells, ws),
            ws == as_nats(widths@),
            cells == row.deep_view(),
            " "@ == seq![' '],
            line@ == basic_cells(cells, ws, j as nat).flatten(),
        decreases written - j,
    {
        let ghost before = line@;
        let cell = row[j].as_str();
        let len = cell.unicode_len();
        line.append(cell);
        if len <= widths[j] {
            push_repeated(&mut line, " ", widths[j] - len);
            line.append(" ");
        }
        proof {
            let padded = basic_cell(cells, ws, j as int);
            let done = basic_cells(cells, ws, j as nat);
            assert(cells[j as int] == cell@);
            assert(line@ =~= before + padded);
            assert(basic_cells(cells, ws, (j + 1) as nat) =~= done.push(padded));
            done.lemma_flatten_push(padded);
        }
        j = j + 1;
    }
    push_trimmed(out, line.as_str());
    out.append("\n");
    assert(out@ =~= old(out)@ + basic_line(cells, ws) + seq!['\n']);
}

/// Renders `records` in the basic style, in columns of the given widths.
pub fn render_basic(records: &Vec<Vec<String>>, widths: &Vec<usize>) -> (out: String)
    ensures
        out@ == basic_text(records.deep_view(), as_nats(widths@)),
{
    let ghost rows = records.deep_view();
    let ghost ws = as_nats(widths@);
    let mut out = String::new();
    assert(join_lines(Seq::empty()) =~= Seq::<char>::empty());
    assert(basic_lines(rows, ws).take(0) =~= Seq::<Seq<char>>::empty());
    let mut i: usize = 0;
    while i < records.len()
        invariant
            i <= records.len(),
            rows == records.deep_view(),
            ws == as_nats(widths@),
            out@ == join_lines(basic_lines(rows, ws).take(i as int)),
        decreases records.len() - i,
    {
        push_basic_line(&mut out, &records[i], widths);
        proof {
            let lines = basic_lines(rows, ws);
            assert(lines.take(i + 1) =~= lines.take(i as int).push(basic_line(rows[i as int], ws)));
            lemma_join_lines_push(lines.take(i as int), basic_line(rows[i as int], ws));
        }
        i = i + 1;
    }
    assert(basic_lines(rows, ws).take(i as int) =~= basic_lines(rows, ws));
    out
}

} // verus!
