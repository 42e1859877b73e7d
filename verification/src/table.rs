//! The table: its rows, how they are loaded and how they are rendered.

use vstd::prelude::*;
use crate::basic::{basic_text, render_basic};
use crate::fancy::{fancy_text, render_fancy};
use crate::records::{
    cells_are_trimmed,
    csv_records,
    error_text,
    read_records,
    rows_are_equally_long,
};
use crate::widths::{
    as_nats,
    calculate_widths,
    column_count,
    column_width,
    column_widths,
    Rows,
};

verus! {

/// Why a table could not be loaded.
#[derive(Clone, Debug, PartialEq, Eq)]
pub enum LoadError {
    /// The data could not be read. Holds the reason.
    Io(String),
    /// The data is not a well-formed table. Holds what is wrong with it.
    Parse(String),
}

/// Why a table could not be rendered. Rendering into a text in memory cannot
/// go wrong, so no function of this library gives this error; it is there for
/// callers that hand the text on and report both kinds of failure alike.
#[derive(Clone, Debug, PartialEq, Eq)]
pub struct FormatError {
    /// What went wrong.
    pub detail: String,
}

/// The two ways to render a table.
#[derive(Clone, Copy, Debug, PartialEq, Eq, Structural)]
pub enum Style {
    /// Columns lined up with spaces.
    Basic,
    /// A table drawn with box characters.
    Fancy,
}

/// How to render a table.
#[derive(Clone, Copy, Debug)]
pub struct Options {
    /// The style.
    pub style: Style,
    /// In the fancy style, whether a rule separates the first row from the second.
    pub headers: bool,
    /// In the fancy style, whether a rule separates every two rows.
    pub separators: bool,
}

/// A table: rows of cells. The rows stay as they are once the table is made;
/// the widths of the columns are worked out from them whenever they are needed.
#[derive(Clone, Debug)]
pub struct Table {
    records: Vec<Vec<String>>,
}

/// The text of a table with the given rows under the given options.
pub open spec fn rendered(rows: Rows, options: Options) -> Seq<char> {
    match options.style {
        Style::Basic => basic_text(rows, column_widths(rows)),
        Style::Fancy => fancy_text(rows, column_widths(rows), options.headers, options.separators),
    }
}

/// What equal rows render to under equal options is equal: the text depends on
/// nothing else.
pub proof fn lemma_rendering_is_repeatable(first: Table, second: Table, options: Options)
    requires
        first@ == second@,
    ensures
        rendered(first@, options) == rendered(second@, options),
{
}

impl LoadError {
    /// The reason or the fault that the error holds.
    pub fn message(&self) -> (text: &str)
        ensures
            text@ == match *self {
                LoadError::Io(reason) => reason@,
                LoadError::Parse(fault) => fault@,
            },
    {
        match self {
            LoadError::Io(reason) => reason.as_str(),
            LoadError::Parse(fault) => fault.as_str(),
        }
    }
}

impl Style {
    /// The style called `name`: `basic` or `fancy`.
    pub fn from_name(name: &str) -> (style: Option<Style>)
        ensures
            style == if name@ == "basic"@ {
                Some(Style::Basic)
            } else if name@ == "fancy"@ {
                Some(Style::Fancy)
            } else {
                None
            },
    {
        let name = String::from_str(name);
        if name == String::from_str("basic") {
            Some(Style::Basic)
        } else if name == String::from_str("fancy") {
            Some(Style::Fancy)
        } else {
            None
        }
    }
}

impl Default for Options {
    /// The basic style.
    fn default() -> (options: Options)
        ensures
            options.style == Style::Basic,
            !options.headers,
            !options.separators,
    {
        Options { style: Style::Basic, headers: false, separators: false }
    }
}

impl View for Table {
    type V = Rows;

    /// The rows of the table.
    closed spec fn view(&self) -> Rows {
        self.records.deep_view()
    }
}

impl Table {
    /// A table of the given rows.
    pub fn new(records: Vec<Vec<String>>) -> (table: Table)
        ensures
            table@ == records.deep_view(),
    {
        Table { records }
    }

    /// Reads a table from CSV text. The text has no header: its first record is
    /// the first row. White space around a field is not part of the cell.
    pub fn from_csv(data: &[u8]) -> (result: Result<Table, LoadError>)
        ensures
            match result {
                Ok(table) => csv_records(data@) == Some(table@) && cells_are_trimmed(table@)
                    && rows_are_equally_long(table@),
                Err(error) => csv_records(data@) is None && error is Parse,
            },
    {
        match read_records(data) {
            Ok(records) => Ok(Table::new(records)),
            Err(error) => Err(LoadError::Parse(error_text(&error))),
        }
    }

    /// Makes a table of what reading a file gave: its bytes, taken as CSV text,
    /// or the reason why it could not be read.
    pub fn load(read: Result<Vec<u8>, String>) -> (result: Result<Table, LoadError>)
        ensures
            match read {
                Ok(data) => match result {
                    Ok(table) => csv_records(data@) == Some(table@) && cells_are_trimmed(table@)
                        && rows_are_equally_long(table@),
                    Err(error) => csv_records(data@) is None && error is Parse,
                },
                Err(reason) => result matches Err(LoadError::Io(text)) && text == reason,
            },
    {
        match read {
            Ok(data) => Table::from_csv(data.as_slice()),
            Err(reason) => Err(LoadError::Io(reason)),
        }
    }

    /// The rows of the table.
    pub fn records(&self) -> (records: &Vec<Vec<String>>)
        ensures
            records.deep_view() == self@,
    {
        &self.records
    }

    /// The width of every column.
    pub fn widths(&self) -> (widths: Vec<usize>)
        ensures
            widths.len() == column_count(self@),
            forall|j: int| 0 <= j < widths.len() ==> widths[j] == column_width(self@, j),
            as_nats(widths@) == column_widths(self@),
    {
        calculate_widths(&self.records)
    }

    /// Renders the table in the basic style. This never fails.
    pub fn basic_format(&self) -> (result: Result<String, FormatError>)
        ensures
            result matches Ok(text) && text@ == basic_text(self@, column_widths(self@)),
    {
        let widths = calculate_widths(&self.records);
        Ok(render_basic(&self.records, &widths))
    }

    /// Renders the table in the fancy style. This never fails.
    pub fn fancy_format(
        &self,
        headers: bool,
        separators: bool,
    ) -> (result: Result<String, FormatError>)
        ensures
            result matches Ok(text)
                && text@ == fancy_text(self@, column_widths(self@), headers, separators),
    {
        let widths = calculate_widths(&self.records);
        Ok(render_fancy(&self.records, &widths, headers, separators))
    }

    /// Renders the table in the style that `options` name. This never fails.
    pub fn format(&self, options: &Options) -> (result: Result<String, FormatError>)
        ensures
            result matches Ok(text) && text@ == rendered(self@, *options),
    {
        match options.style {
            Style::Basic => self.basic_format(),
            Style::Fancy => self.fancy_format(options.headers, options.separators),
        }
    }
}

} // verus!
