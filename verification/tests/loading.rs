use rtab::{LoadError, Table};

fn rows(cells: &[&[&str]]) -> Vec<Vec<String>> {
    cells.iter().map(|row| row.iter().map(|cell| cell.to_string()).collect()).collect()
}

#[test]
fn first_record_is_a_row() {
    let table = Table::from_csv(b"a,bb\nccc,d\n").unwrap();
    assert_eq!(table.records(), &rows(&[&["a", "bb"], &["ccc", "d"]]));
    assert_eq!(table.widths(), vec![3, 2]);
    assert_eq!(table.basic_format().unwrap(), "a   bb\nccc d\n");
}

#[test]
fn fields_are_trimmed() {
    let table = Table::from_csv(b"  a , b b\t\n\" c\n\",\"\"\n").unwrap();
    assert_eq!(table.records(), &rows(&[&["a", "b b"], &["c", ""]]));
}

#[test]
fn fields_are_trimmed_of_unicode_white_space() {
    let table = Table::from_csv("\u{3000}a\u{a0},\u{2003}b\u{85}\n".as_bytes()).unwrap();
    assert_eq!(table.records(), &rows(&[&["a", "b"]]));
}

#[test]
fn quoted_fields_keep_commas_and_line_feeds() {
    let table = Table::from_csv(b"\"a,b\",\"c\nd\"\n").unwrap();
    assert_eq!(table.records(), &rows(&[&["a,b", "c\nd"]]));
    assert_eq!(table.widths(), vec![3, 3]);
}

#[test]
fn empty_text_is_an_empty_table() {
    let table = Table::from_csv(b"").unwrap();
    assert!(table.records().is_empty());
    assert_eq!(table.basic_format().unwrap(), "");
    assert_eq!(table.fancy_format(false, false).unwrap(), "┐\n┘\n");
}

#[test]
fn last_line_needs_no_line_feed() {
    let table = Table::from_csv(b"a,b\r\nc,d").unwrap();
    assert_eq!(table.records(), &rows(&[&["a", "b"], &["c", "d"]]));
}

#[test]
fn records_of_unequal_length_are_a_parse_error() {
    let error = Table::from_csv(b"a,b\nc\n").err().unwrap();
    assert!(matches!(error, LoadError::Parse(_)));
    assert!(error.message().contains("found record with 1 fields"));
}

#[test]
fn text_that_is_not_utf8_is_a_parse_error() {
    let error = Table::from_csv(b"a,\xff\n").err().unwrap();
    assert!(matches!(error, LoadError::Parse(_)));
    assert!(error.message().starts_with("CSV parse error"));
}

#[test]
fn load_reads_csv_text() {
    let table = Table::load(Ok(b"x, y\n".to_vec())).unwrap();
    assert_eq!(table.records(), &rows(&[&["x", "y"]]));
}

#[test]
fn load_reports_a_parse_error() {
    let error = Table::load(Ok(b"x,y\nz\n".to_vec())).err().unwrap();
    assert!(matches!(error, LoadError::Parse(_)));
}

#[test]
fn load_reports_what_could_not_be_read() {
    let error = Table::load(Err("No such file or directory (os error 2)".to_string())).err().unwrap();
    assert!(matches!(error, LoadError::Io(_)));
    assert_eq!(error.message(), "No such file or directory (os error 2)");
}

#[test]
fn message_of_a_parse_error() {
    assert_eq!(LoadError::Parse("bad".to_string()).message(), "bad");
}
