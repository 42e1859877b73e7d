//! The fancy style: a table drawn with box characters.
//!
//! The table opens with a top rule and closes with a bottom rule. Every row is
//! one data line with a cell for each column: `│`, a space, the cell padded to
//! the column's width and a space, and a last `│` at the end of the line. A row
//! that is too short gets empty cells; cells beyond the last column are left
//! out. A middle rule separates rows where the options ask for one. A table
//! without columns still has its rules and data lines, which then hold their
//! last character only.

use vstd::prelude::*;
use crate::text::{
    join_lines,
    lemma_join_lines_push,
    pad_right,
    push_padded,
    push_repeated,
    repeated,
    Lines,
};
use crate::widths::{as_nats, Row, Rows};

verus! {

/// The three horizontal rules of a table.
#[derive(Clone, Copy, Debug)]
pub enum Rule {
    Top,
    Middle,
    Bottom,
}

/// The character that a rule starts with.
pub open spec fn left_end(rule: Rule) -> char {
    match rule {
        Rule::Top => '┌',
        Rule::Middle => '├',
        Rule::Bottom => '└',
    }
}

/// The character that a rule has between two columns.
pub open spec fn junction(rule: Rule) -> char {
    match rule {
        Rule::Top => '┬',
        Rule::Middle => '┼',
        Rule::Bottom => '┴',
    }
}

/// The character that a rule ends with.
pub open spec fn right_end(rule: Rule) -> char {
    match rule {
        Rule::Top => '┐',
        Rule::Middle => '┤',
        Rule::Bottom => '┘',
    }
}

/// The part of a rule above or below column `j`: the left end or a junction,
/// then a line two characters wider than the column.
pub open spec fn rule_segment(rule: Rule, widths: Seq<nat>, j: int) -> Seq<char> {
    seq![if j == 0 { left_end(rule) } else { junction(rule) }] + repeated('─', widths[j] + 2)
}

/// The segments of a rule for the first `n` columns.
pub open spec fn rule_segments(rule: Rule, widths: Seq<nat>, n: nat) -> Seq<Seq<char>> {
    Seq::new(n, |j: int| rule_segment(rule, widths, j))
}

/// A whole rule, without its line feed.
pub open spec fn rule_line(rule: Rule, widths: Seq<nat>) -> Seq<char> {
    rule_segments(rule, widths, widths.len()).flatten() + seq![right_end(rule)]
}

/// The cell that `row` has in column `j`: empty where the row is too short.
pub open spec fn cell_text(row: Row, j: int) -> Seq<char> {
    if 0 <= j < row.len() {
        row[j]
    } else {
        Seq::empty()
    }
}

/// The part of a data line for column `j`.
pub open spec fn data_segment(row: Row, widths: Seq<nat>, j: int) -> Seq<char> {
    seq!['│', ' '] + pad_right(cell_text(row, j), widths[j]) + seq![' ']
}

/// The segments of a data line for the first `n` columns.
pub open spec fn data_segments(row: Row, widths: Seq<nat>, n: nat) -> Seq<Seq<char>> {
    Seq::new(n, |j: int| data_segment(row, widths, j))
}

/// The data line of `row`, without its line feed.
pub open spec fn data_line(row: Row, widths: Seq<nat>) -> Seq<char> {
    data_segments(row, widths, widths.len()).flatten() + seq!['│']
}

/// Whether a middle rule stands above the row with index `i`: above every row
/// but the first with `separators`, above the second row with `headers`.
pub open spec fn has_rule_above(i: int, headers: bool, separators: bool) -> bool {
    (separators && i > 0) || (headers && i == 1)
}

/// The lines that the row with index `i` adds to the table.
pub open spec fn row_lines(
    rows: Rows,
    widths: Seq<nat>,
    headers: bool,
    separators: bool,
    i: int,
) -> Lines {
    if has_rule_above(i, headers, separators) {
        seq![rule_line(Rule::Middle, widths), data_line(rows[i], widths)]
    } else {
        seq![data_line(rows[i], widths)]
    }
}

/// The lines of the first `n` rows.
pub open spec fn body_lines(
    rows: Rows,
    widths: Seq<nat>,
    headers: bool,
    separators: bool,
    n: nat,
) -> Lines {
    Seq::new(n, |i: int| row_lines(rows, widths, headers, separators, i)).flatten()
}

/// All lines of the table from top to bottom.
pub open spec fn fancy_lines(
    rows: Rows,
    widths: Seq<nat>,
    headers: bool,
    separators: bool,
) -> Lines {
    seq![rule_line(Rule::Top, widths)] + body_lines(rows, widths, headers, separators, rows.len())
        + seq![rule_line(Rule::Bottom, widths)]
}

/// The table as one text.
pub open spec fn fancy_text(
    rows: Rows,
    widths: Seq<nat>,
    headers: bool,
    separators: bool,
) -> Seq<char> {
    join_lines(fancy_lines(rows, widths, headers, separators))
}

/// The lines of one more row follow those of the rows before it.
pub proof fn lemma_body_lines_step(
    rows: Rows,
    widths: Seq<nat>,
    headers: bool,
    separators: bool,
    n: nat,
)
    ensures
        body_lines(rows, widths, headers, separators, n + 1)
            == body_lines(rows, widths, headers, separators, n)
            + row_lines(rows, widths, headers, separators, n as int),
{
    let added = row_lines(rows, widths, headers, separators, n as int);
    let before = Seq::new(n, |i: int| row_lines(rows, widths, headers, separators, i));
    let after = Seq::new(n + 1, |i: int| row_lines(rows, widths, headers, separators, i));
    assert(after =~= before.push(added));
    before.lemma_flatten_push(added);
}

/// Whether `line` reads as a rule: it ends with the right end of one.
pub open spec fn is_rule_line(line: Seq<char>) -> bool {
    line.len() > 0 && (line.last() == '┐' || line.last() == '┤' || line.last() == '┘')
}

/// Whether `line` reads as a data line: it starts and ends with `│`.
pub open spec fn is_data_line(line: Seq<char>) -> bool {
    line.len() > 0 && line.first() == '│' && line.last() == '│'
}

/// The number of rules among `lines`.
pub open spec fn count_rules(lines: Lines) -> nat
    decreases lines.len(),
{
    if lines.len() == 0 {
        0
    } else {
        let before = count_rules(lines.drop_last());
        if is_rule_line(lines.last()) {
            before + 1
        } else {
            before
        }
    }
}

/// The number of rows among the first `n` that have a middle rule above them.
pub open spec fn middle_rules(n: nat, headers: bool, separators: bool) -> nat
    decreases n,
{
    if n == 0 {
        0
    } else {
        let before = middle_rules((n - 1) as nat, headers, separators);
        if has_rule_above(n - 1, headers, separators) {
            before + 1
        } else {
            before
        }
    }
}

/// With `separators` every row but the first has a middle rule above it; with
/// `headers` alone the second row has one; without either no row has.
pub proof fn lemma_middle_rules(n: nat, headers: bool, separators: bool)
    ensures
        middle_rules(n, headers, separators) == if n >= 1 && separators {
            n - 1
        } else if n >= 2 && headers {
            1
        } else {
            0
        },
    decreases n,
{
    if n > 0 {
        lemma_middle_rules((n - 1) as nat, headers, separators);
    }
}

/// The rules of two runs of lines add up.
pub proof fn lemma_count_rules_concat(first: Lines, second: Lines)
    ensures
        count_rules(first + second) == count_rules(first) + count_rules(second),
    decreases second.len(),
{
    if second.len() == 0 {
        assert(first + second =~= first);
    } else {
        assert((first + second).drop_last() =~= first + second.drop_last());
        assert((first + second).last() == second.last());
        lemma_count_rules_concat(first, second.drop_last());
    }
}

/// A single line counts as one rule or as none.
pub proof fn lemma_count_rules_one(line: Seq<char>)
    ensures
        count_rules(seq![line]) == if is_rule_line(line) {
            1nat
        } else {
            0nat
        },
{
    assert(seq![line].drop_last() =~= Seq::<Seq<char>>::empty());
    assert(count_rules(Seq::<Seq<char>>::empty()) == 0);
}

/// A rule reads as a rule and not as a data line.
pub proof fn lemma_rule_line_shape(rule: Rule, widths: Seq<nat>)
    ensures
        is_rule_line(rule_line(rule, widths)),
        !is_data_line(rule_line(rule, widths)),
{
    assert(rule_line(rule, widths).last() == right_end(rule));
}

/// A data line reads as a data line and not as a rule.
pub proof fn lemma_data_line_shape(row: Row, widths: Seq<nat>)
    ensures
        is_data_line(data_line(row, widths)),
        !is_rule_line(data_line(row, widths)),
{
    let line = data_line(row, widths);
    let segments = data_segments(row, widths, widths.len());
    assert(line.last() == '│');
    if widths.len() == 0 {
        assert(segments.flatten() =~= Seq::<char>::empty());
        assert(line.first() == '│');
    } else {
        assert(segments.first() == data_segment(row, widths, 0));
        assert(segments.first()[0] == '│');
        assert(segments.flatten() == segments.first() + segments.drop_first().flatten());
        assert(line.first() == '│');
    }
}

/// Of the lines of the first `n` rows, one for each row is a data line and the
/// others are the middle rules.
pub proof fn lemma_body_lines_shape(
    rows: Rows,
    widths: Seq<nat>,
    headers: bool,
    separators: bool,
    n: nat,
)
    requires
        n <= rows.len(),
    ensures
        ({
            let lines = body_lines(rows, widths, headers, separators, n);
            &&& lines.len() == n + middle_rules(n, headers, separators)
            &&& count_rules(lines) == middle_rules(n, headers, separators)
            &&& forall|k: int|
                0 <= k < lines.len() ==> is_rule_line(#[trigger] lines[k]) != is_data_line(lines[k])
        }),
    decreases n,
{
    if n == 0 {
        assert(body_lines(rows, widths, headers, separators, 0) =~= Seq::<Seq<char>>::empty());
    } else {
        let m = (n - 1) as nat;
        let before = body_lines(rows, widths, headers, separators, m);
        let added = row_lines(rows, widths, headers, separators, m as int);
        let all = body_lines(rows, widths, headers, separators, n);
        lemma_body_lines_shape(rows, widths, headers, separators, m);
        lemma_body_lines_step(rows, widths, headers, separators, m);
        lemma_count_rules_concat(before, added);
        lemma_rule_line_shape(Rule::Middle, widths);
        lemma_data_line_shape(rows[m as int], widths);
        lemma_count_rules_one(rule_line(Rule::Middle, widths));
        lemma_count_rules_one(data_line(rows[m as int], widths));
        if has_rule_above(m as int, headers, separators) {
            assert(added =~= seq![rule_line(Rule::Middle, widths)] + seq![
                data_line(rows[m as int], widths),
            ]);
            lemma_count_rules_concat(
                seq![rule_line(Rule::Middle, widths)],
                seq![data_line(rows[m as int], widths)],
            );
        }
        assert forall|k: int| 0 <= k < all.len() implies is_rule_line(#[trigger] all[k])
            != is_data_line(all[k]) by {
            if k < before.len() {
                assert(all[k] == before[k]);
            } else {
                assert(all[k] == added[k - before.len()]);
            }
        }
    }
}

/// The lines of a table are its rows' data lines, which start and end with `│`,
/// and its rules: the top rule, the bottom rule and one middle rule for every
/// row that has a rule above it.
pub proof fn lemma_fancy_lines_shape(
    rows: Rows,
    widths: Seq<nat>,
    headers: bool,
    separators: bool,
)
    ensures
        ({
            let lines = fancy_lines(rows, widths, headers, separators);
            &&& count_rules(lines) == 2 + middle_rules(rows.len(), headers, separators)
            &&& lines.len() == rows.len() + count_rules(lines)
            &&& forall|k: int|
                0 <= k < lines.len() ==> is_rule_line(#[trigger] lines[k]) != is_data_line(lines[k])
        }),
{
    let top = seq![rule_line(Rule::Top, widths)];
    let body = body_lines(rows, widths, headers, separators, rows.len());
    let bottom = seq![rule_line(Rule::Bottom, widths)];
    let all = fancy_lines(rows, widths, headers, separators);
    lemma_body_lines_shape(rows, widths, headers, separators, rows.len());
    lemma_rule_line_shape(Rule::Top, widths);
    lemma_rule_line_shape(Rule::Bottom, widths);
    lemma_count_rules_concat(top, body);
    lemma_count_rules_concat(top + body, bottom);
    lemma_count_rules_one(rule_line(Rule::Top, widths));
    lemma_count_rules_one(rule_line(Rule::Bottom, widths));
    assert forall|k: int| 0 <= k < all.len() implies is_rule_line(#[trigger] all[k])
        != is_data_line(all[k]) by {
        if k == 0 {
            assert(all[k] == rule_line(Rule::Top, widths));
        } else if k <= body.len() {
            assert(all[k] == body[k - 1]);
        } else {
            assert(all[k] == rule_line(Rule::Bottom, widths));
        }
    }
}

impl Rule {
    /// The character that the rule starts with, as a text.
    fn left_text(self) -> (glyph: &'static str)
        ensures
            glyph@ == seq![left_end(self)],
    {
        proof {
            reveal_strlit("┌");
            reveal_strlit("├");
            reveal_strlit("└");
        }
        let glyph = match self {
            Rule::Top => "┌",
            Rule::Middle => "├",
            Rule::Bottom => "└",
        };
        assert(glyph@ =~= seq![left_end(self)]);
        glyph
    }

    /// The character that the rule has between two columns, as a text.
    fn junction_text(self) -> (glyph: &'static str)
        ensures
            glyph@ == seq![junction(self)],
    {
        proof {
            reveal_strlit("┬");
            reveal_strlit("┼");
            reveal_strlit("┴");
        }
        let glyph = match self {
            Rule::Top => "┬",
            Rule::Middle => "┼",
            Rule::Bottom => "┴",
        };
        assert(glyph@ =~= seq![junction(self)]);
        glyph
    }

    /// The character that the rule ends with, as a text.
    fn right_text(self) -> (glyph: &'static str)
        ensures
            glyph@ == seq![right_end(self)],
    {
        proof {
            reveal_strlit("┐");
            reveal_strlit("┤");
            reveal_strlit("┘");
        }
        let glyph = match self {
            Rule::Top => "┐",
            Rule::Middle => "┤",
            Rule::Bottom => "┘",
        };
        assert(glyph@ =~= seq![right_end(self)]);
        glyph
    }
}

/// Appends a rule over columns of the given widths to `out`, and a line feed.
pub fn push_rule(out: &mut String, rule: Rule, widths: &Vec<usize>)
    ensures
        final(out)@ == old(out)@ + rule_line(rule, as_nats(widths@)) + seq!['\n'],
{
    let ghost ws = as_nats(widths@);
    let mut j: usize = 0;
    while j < widths.len()
        invariant
            j <= widths.len(),
            ws == as_nats(widths@),
            out@ == old(out)@ + rule_segments(rule, ws, j as nat).flatten(),
        decreases widths.len() - j,
    {
        let ghost before = out@;
        if j == 0 {
            out.append(rule.left_text());
        } else {
            out.append(rule.junction_text());
        }
        proof {
            reveal_strlit("─");
            reveal_strlit("──");
        }
        push_repeated(out, "─", widths[j]);
        out.append("──");
        proof {
            let segment = rule_segment(rule, ws, j as int);
            assert(out@ =~= before + segment);
            let segments = rule_segments(rule, ws, j as nat);
            assert(rule_segments(rule, ws, (j + 1) as nat) =~= segments.push(segment));
            segments.lemma_flatten_push(segment);
        }
        j = j + 1;
    }
    out.append(rule.right_text());
    proof {
        reveal_strlit("\n");
    }
    out.append("\n");
    assert(out@ =~= old(out)@ + rule_line(rule, ws) + seq!['\n']);
}

/// Appends the data line of `row` for columns of the given widths to `out`, and
/// a line feed.
pub fn push_data_line(out: &mut String, row: &Vec<String>, widths: &Vec<usize>)
    ensures
        final(out)@ == old(out)@ + data_line(row.deep_view(), as_nats(widths@)) + seq!['\n'],
{
    let ghost ws = as_nats(widths@);
    let ghost cells = row.deep_view();
    proof {
        reveal_strlit("│ ");
        reveal_strlit(" ");
        reveal_strlit("");
        reveal_strlit("│");
        reveal_strlit("\n");
    }
    let mut j: usize = 0;
    while j < widths.len()
        invariant
            j <= widths.len(),
            ws == as_nats(widths@),
            cells == row.deep_view(),
            "│ "@ == seq!['│', ' '],
            " "@ == seq![' '],
            ""@ == Seq::<char>::empty(),
            out@ == old(out)@ + data_segments(cells, ws, j as nat).flatten(),
        decreases widths.len() - j,
    {
        let ghost before = out@;
        out.append("│ ");
        if j < row.len() {
            push_padded(out, row[j].as_str(), widths[j]);
        } else {
            push_padded(out, "", widths[j]);
        }
        out.append(" ");
        proof {
            let segment = data_segment(cells, ws, j as int);
            assert(out@ =~= before + segment);
            let segments = data_segments(cells, ws, j as nat);
            assert(data_segments(cells, ws, (j + 1) as nat) =~= segments.push(segment));
            segments.lemma_flatten_push(segment);
        }
        j = j + 1;
    }
    out.append("│");
    out.append("\n");
    assert(out@ =~= old(out)@ + data_line(cells, ws) + seq!['\n']);
}

/// Renders `records` in the fancy style, in columns of the given widths. With
/// `headers` a rule separates the first row from the second, with `separators`
/// a rule separates every two rows.
pub fn render_fancy(
    records: &Vec<Vec<String>>,
    widths: &Vec<usize>,
    headers: bool,
    separators: bool,
) -> (out: String)
    ensures
        out@ == fancy_text(records.deep_view(), as_nats(widths@), headers, separators),
{
    let ghost rows = records.deep_view();
    let ghost ws = as_nats(widths@);
    let ghost top = seq![rule_line(Rule::Top, ws)];
    let mut out = String::new();
    push_rule(&mut out, Rule::Top, widths);
    proof {
        lemma_join_lines_push(Seq::empty(), rule_line(Rule::Top, ws));
        assert(Seq::<Seq<char>>::empty().push(rule_line(Rule::Top, ws)) =~= top);
        assert(join_lines(Seq::empty()) =~= Seq::<char>::empty());
        assert(top + body_lines(rows, ws, headers, separators, 0) =~= top);
        assert(out@ =~= join_lines(top));
    }
    let mut i: usize = 0;
    while i < records.len()
        invariant
            i <= records.len(),
            rows == records.deep_view(),
            ws == as_nats(widths@),
            top == seq![rule_line(Rule::Top, ws)],
            out@ == join_lines(top + body_lines(rows, ws, headers, separators, i as nat)),
        decreases records.len() - i,
    {
        let ghost lines = top + body_lines(rows, ws, headers, separators, i as nat);
        let rule_above = (separators && i > 0) || (headers && i == 1);
        if rule_above {
            push_rule(&mut out, Rule::Middle, widths);
        }
        push_data_line(&mut out, &records[i], widths);
        proof {
            let middle = rule_line(Rule::Middle, ws);
            let data = data_line(rows[i as int], ws);
            let added = row_lines(rows, ws, headers, separators, i as int);
            lemma_body_lines_step(rows, ws, headers, separators, i as nat);
            assert(top + body_lines(rows, ws, headers, separators, (i + 1) as nat)
                =~= lines + added);
            if rule_above {
                assert(lines + added =~= lines.push(middle).push(data));
                lemma_join_lines_push(lines, middle);
                lemma_join_lines_push(lines.push(middle), data);
            } else {
                assert(lines + added =~= lines.push(data));
                lemma_join_lines_push(lines, data);
            }
        }
        i = i + 1;
    }
    push_rule(&mut out, Rule::Bottom, widths);
    proof {
        let lines = top + body_lines(rows, ws, headers, separators, rows.len());
        lemma_join_lines_push(lines, rule_line(Rule::Bottom, ws));
        assert(lines.push(rule_line(Rule::Bottom, ws))
            =~= fancy_lines(rows, ws, headers, separators));
    }
    out
}

} // verus!
