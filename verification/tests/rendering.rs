use rtab::basic::render_basic;
use rtab::fancy::{push_data_line, push_rule, render_fancy, Rule};
use rtab::widths::calculate_widths;
use rtab::{Options, Style, Table};

fn rows(cells: &[&[&str]]) -> Vec<Vec<String>> {
    cells.iter().map(|row| row.iter().map(|cell| cell.to_string()).collect()).collect()
}

fn example() -> Table {
    Table::new(rows(&[&["a", "bb"], &["ccc", "d"]]))
}

#[test]
fn widths_of_example() {
    assert_eq!(example().widths(), vec![3, 2]);
}

#[test]
fn basic_example() {
    assert_eq!(example().basic_format().unwrap(), "a   bb\nccc d\n");
}

#[test]
fn fancy_example_without_rules_between_rows() {
    let text = example().fancy_format(false, false).unwrap();
    assert_eq!(text, "┌─────┬────┐\n│ a   │ bb │\n│ ccc │ d  │\n└─────┴────┘\n");
}

#[test]
fn fancy_example_with_separators() {
    let text = example().fancy_format(false, true).unwrap();
    assert_eq!(
        text,
        "┌─────┬────┐\n│ a   │ bb │\n├─────┼────┤\n│ ccc │ d  │\n└─────┴────┘\n"
    );
}

#[test]
fn fancy_example_with_headers() {
    let text = example().fancy_format(true, false).unwrap();
    assert_eq!(
        text,
        "┌─────┬────┐\n│ a   │ bb │\n├─────┼────┤\n│ ccc │ d  │\n└─────┴────┘\n"
    );
}

#[test]
fn headers_and_separators_give_one_rule_above_the_second_row() {
    let text = example().fancy_format(true, true).unwrap();
    assert_eq!(text, example().fancy_format(false, true).unwrap());
}

#[test]
fn headers_rule_stands_above_the_second_row_only() {
    let table = Table::new(rows(&[&["h"], &["1"], &["2"]]));
    assert_eq!(
        table.fancy_format(true, false).unwrap(),
        "┌───┐\n│ h │\n├───┤\n│ 1 │\n│ 2 │\n└───┘\n"
    );
}

#[test]
fn separators_stand_above_every_row_but_the_first() {
    let table = Table::new(rows(&[&["h"], &["1"], &["2"]]));
    assert_eq!(
        table.fancy_format(false, true).unwrap(),
        "┌───┐\n│ h │\n├───┤\n│ 1 │\n├───┤\n│ 2 │\n└───┘\n"
    );
}

#[test]
fn a_single_row_has_no_rule_between_rows() {
    let table = Table::new(rows(&[&["only"]]));
    assert_eq!(table.fancy_format(true, true).unwrap(), "┌──────┐\n│ only │\n└──────┘\n");
}

#[test]
fn empty_table_in_basic_style_is_empty() {
    let table = Table::new(Vec::new());
    assert_eq!(table.widths(), Vec::<usize>::new());
    assert_eq!(table.basic_format().unwrap(), "");
}

#[test]
fn empty_table_in_fancy_style_has_the_ends_of_its_rules() {
    let table = Table::new(Vec::new());
    assert_eq!(table.fancy_format(false, false).unwrap(), "┐\n┘\n");
    assert_eq!(table.fancy_format(true, true).unwrap(), "┐\n┘\n");
}

#[test]
fn rows_without_cells() {
    let table = Table::new(vec![Vec::new(), Vec::new()]);
    assert_eq!(table.widths(), Vec::<usize>::new());
    assert_eq!(table.basic_format().unwrap(), "\n\n");
    assert_eq!(table.fancy_format(false, true).unwrap(), "┐\n│\n┤\n│\n┘\n");
}

#[test]
fn short_row_in_fancy_style_gets_empty_cells() {
    let table = Table::new(rows(&[&["a", "bb", "c"], &["dd"]]));
    assert_eq!(table.widths(), vec![2, 2, 1]);
    assert_eq!(
        table.fancy_format(false, false).unwrap(),
        "┌────┬────┬───┐\n│ a  │ bb │ c │\n│ dd │    │   │\n└────┴────┴───┘\n"
    );
}

#[test]
fn short_row_in_basic_style_ends_early() {
    let table = Table::new(rows(&[&["a", "bb", "c"], &["dd"]]));
    assert_eq!(table.basic_format().unwrap(), "a  bb c\ndd\n");
}

#[test]
fn cells_beyond_the_last_column_are_left_out() {
    let table = Table::new(rows(&[&["a"], &["bbb", "extra"]]));
    assert_eq!(table.widths(), vec![3]);
    assert_eq!(table.basic_format().unwrap(), "a\nbbb\n");
    assert_eq!(table.fancy_format(false, false).unwrap(), "┌─────┐\n│ a   │\n│ bbb │\n└─────┘\n");
}

#[test]
fn a_short_row_adds_nothing_to_the_widths() {
    let widths = calculate_widths(&rows(&[&["a", "b"], &[], &["cc"]]));
    assert_eq!(widths, vec![2, 1]);
}

#[test]
fn widths_have_one_entry_for_each_cell_of_the_first_row() {
    let records = rows(&[&["1", "22", "333"], &["4444"], &["5", "6", "7", "8"]]);
    assert_eq!(calculate_widths(&records).len(), records[0].len());
    assert_eq!(calculate_widths(&Vec::new()).len(), 0);
}

#[test]
fn every_width_is_reached_and_not_exceeded() {
    let records = rows(&[&["x", "long cell", ""], &["yy", "z", "w"], &["", "mid"]]);
    let widths = calculate_widths(&records);
    assert_eq!(widths, vec![2, 9, 1]);
    for (j, width) in widths.iter().enumerate() {
        let lengths: Vec<usize> =
            records.iter().filter(|row| j < row.len()).map(|row| row[j].chars().count()).collect();
        assert!(lengths.iter().all(|len| len <= width));
        assert!(lengths.iter().any(|len| len == width));
    }
}

#[test]
fn widths_count_characters() {
    let table = Table::new(rows(&[&["é", "x"], &["日本語", "y"]]));
    assert_eq!(table.widths(), vec![3, 1]);
    assert_eq!(table.basic_format().unwrap(), "é   x\n日本語 y\n");
    assert_eq!(
        table.fancy_format(false, false).unwrap(),
        "┌─────┬───┐\n│ é   │ x │\n│ 日本語 │ y │\n└─────┴───┘\n"
    );
}

#[test]
fn a_row_of_empty_cells_is_an_empty_line() {
    let table = Table::new(rows(&[&["a", "b"], &["", ""], &["c", "d"]]));
    assert_eq!(table.basic_format().unwrap(), "a b\n\nc d\n");
}

#[test]
fn white_space_at_the_end_of_a_line_is_cut_off() {
    let table = Table::new(rows(&[&["a", "b \t\u{3000}"], &["cc", ""]]));
    assert_eq!(table.basic_format().unwrap(), "a  b\ncc\n");
}

#[test]
fn white_space_inside_a_line_stays() {
    let table = Table::new(rows(&[&["a b", " c"]]));
    assert_eq!(table.basic_format().unwrap(), "a b  c\n");
}

#[test]
fn basic_style_with_narrow_columns_does_not_cut_cells() {
    let records = rows(&[&["wide", "x"], &["y", "z"]]);
    assert_eq!(render_basic(&records, &vec![2, 1]), "widex\ny  z\n");
    assert_eq!(render_basic(&records, &vec![3, 1]), "widex\ny   z\n");
    assert_eq!(render_basic(&records, &vec![4, 1]), "wide x\ny    z\n");
}

#[test]
fn fancy_style_with_narrow_columns_does_not_cut_cells() {
    let records = rows(&[&["wide"]]);
    assert_eq!(render_fancy(&records, &vec![1], false, false), "┌───┐\n│ wide │\n└───┘\n");
}

#[test]
fn rules_by_kind() {
    let widths = vec![0, 1];
    let mut text = String::new();
    push_rule(&mut text, Rule::Top, &widths);
    push_rule(&mut text, Rule::Middle, &widths);
    push_rule(&mut text, Rule::Bottom, &widths);
    assert_eq!(text, "┌──┬───┐\n├──┼───┤\n└──┴───┘\n");
}

#[test]
fn data_line_is_added_to_what_is_there() {
    let mut text = String::from("above\n");
    push_data_line(&mut text, &vec!["a".to_string()], &vec![2, 1]);
    assert_eq!(text, "above\n│ a  │   │\n");
}

#[test]
fn cutting_a_basic_line_at_the_columns_gives_the_cells() {
    let records = rows(&[&["a", "bb", "c c"], &["ccc", "", "d"], &["e", "ffff"]]);
    let table = Table::new(records.clone());
    let widths = table.widths();
    assert_eq!(widths, vec![3, 4, 3]);
    let text = table.basic_format().unwrap();
    let lines: Vec<&str> = text.lines().collect();
    assert_eq!(lines, vec!["a   bb   c c", "ccc      d", "e   ffff"]);
    for (row, line) in records.iter().zip(lines) {
        let characters: Vec<char> = line.chars().collect();
        let mut start = 0;
        for (cell, width) in row.iter().zip(&widths) {
            let from = start.min(characters.len());
            let to = (start + width + 1).min(characters.len());
            let part: String = characters[from..to].iter().collect();
            assert_eq!(part.trim_end(), cell);
            start += width + 1;
        }
    }
}

#[test]
fn fancy_lines_are_rules_and_data_lines() {
    let table = Table::new(rows(&[&["a", "b"], &["c", "d"], &["e", "f"], &["g", "h"]]));
    for (headers, separators, middle) in
        [(false, false, 0), (true, false, 1), (false, true, 3), (true, true, 3)]
    {
        let text = table.fancy_format(headers, separators).unwrap();
        let lines: Vec<&str> = text.lines().collect();
        let rules = lines.iter().filter(|l| l.ends_with(['┐', '┤', '┘'])).count();
        assert_eq!(rules, 2 + middle);
        assert_eq!(lines.len(), 4 + rules);
        for line in lines.iter().filter(|l| !l.ends_with(['┐', '┤', '┘'])) {
            assert!(line.starts_with('│') && line.ends_with('│'));
        }
        assert!(lines[0].starts_with('┌') && lines[lines.len() - 1].starts_with('└'));
    }
}

#[test]
fn rendering_twice_gives_the_same_text() {
    let table = Table::new(rows(&[&["a", "bb"], &["ccc", "d"], &["e"]]));
    assert_eq!(table.basic_format().unwrap(), table.basic_format().unwrap());
    assert_eq!(table.fancy_format(true, false).unwrap(), table.fancy_format(true, false).unwrap());
    let again = Table::new(table.records().clone());
    assert_eq!(table.basic_format().unwrap(), again.basic_format().unwrap());
    assert_eq!(table.fancy_format(false, true).unwrap(), again.fancy_format(false, true).unwrap());
}

#[test]
fn rendering_leaves_the_table_as_it_was() {
    let records = rows(&[&["a", "bb"], &["ccc", "d"]]);
    let table = Table::new(records.clone());
    table.basic_format().unwrap();
    table.fancy_format(true, true).unwrap();
    assert_eq!(table.records(), &records);
    assert_eq!(table.widths(), vec![3, 2]);
}

#[test]
fn format_follows_the_style() {
    let table = example();
    let basic = Options { style: Style::Basic, headers: true, separators: true };
    let fancy = Options { style: Style::Fancy, headers: false, separators: true };
    assert_eq!(table.format(&basic).unwrap(), "a   bb\nccc d\n");
    assert_eq!(table.format(&fancy).unwrap(), table.fancy_format(false, true).unwrap());
}

#[test]
fn default_options_are_basic() {
    let options = Options::default();
    assert_eq!(options.style, Style::Basic);
    assert!(!options.headers);
    assert!(!options.separators);
}

#[test]
fn styles_by_name() {
    assert_eq!(Style::from_name("basic"), Some(Style::Basic));
    assert_eq!(Style::from_name("fancy"), Some(Style::Fancy));
    assert_eq!(Style::from_name("Basic"), None);
    assert_eq!(Style::from_name(""), None);
}
