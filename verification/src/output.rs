//! The lines of a report table: what each line holds, cell by cell.

use crate::dependency::Dependency;
use crate::numeral::{decimal, decimal_text};
use crate::version::display_text;
use vstd::prelude::*;
use vstd::string::*;

verus! {

/// The colour in which a cell starts out.
pub const CYAN: &'static str = "\x1b[36m";

/// The colour of what is in order.
pub const GREEN: &'static str = "\x1b[32m";

/// The colour of what is not in order.
pub const RED: &'static str = "\x1b[31m";

/// The colour of what is missing or behind.
pub const YELLOW: &'static str = "\x1b[33m";

/// The background of an advisory count that is not zero.
pub const RED_BACKGROUND: &'static str = "\x1b[41m";

/// The widths of the four columns of the table.
pub const ADVISORY_WIDTH: usize = 11;

pub const NAME_WIDTH: usize = 50;

pub const VERSION_WIDTH: usize = 25;

/// The kind of a line, which decides how it is drawn.
#[derive(Clone, Copy, Debug, PartialEq, Eq, Structural)]
pub enum OutputDisplayType {
    Blank,
    Entry,
    Title,
    Header,
    Guide,
    End,
}

/// The layout of a report.
#[derive(Clone, Copy, Debug, PartialEq, Eq, Structural)]
pub enum OutputDisplayMode {
    Tree,
    Table,
}

/// One cell of a line.
#[derive(Clone, Debug)]
pub struct DisplayCell {
    pub text: String,
    pub width: usize,
    pub color: String,
}

/// One line of a report.
#[derive(Clone, Debug)]
pub struct DisplayLine {
    pub display_type: OutputDisplayType,
    pub cells: Vec<DisplayCell>,
}

/// The settings that a report is drawn with.
#[derive(Clone, Copy, Debug)]
pub struct OutputManager {
    pub display_mode: OutputDisplayMode,
    pub display_width: usize,
}

/// The mathematical value of a [`DisplayCell`].
pub struct CellValue {
    pub text: Seq<char>,
    pub width: usize,
    pub color: Seq<char>,
}

/// The mathematical value of a [`DisplayLine`].
pub struct LineValue {
    pub display_type: OutputDisplayType,
    pub cells: Seq<CellValue>,
}

impl View for DisplayCell {
    type V = CellValue;

    open spec fn view(&self) -> CellValue {
        CellValue { text: self.text@, width: self.width, color: self.color@ }
    }
}

/// The values of a list of cells, in order.
pub open spec fn cell_values(cells: Seq<DisplayCell>) -> Seq<CellValue> {
    cells.map_values(|cell: DisplayCell| cell@)
}

impl View for DisplayLine {
    type V = LineValue;

    open spec fn view(&self) -> LineValue {
        LineValue { display_type: self.display_type, cells: cell_values(self.cells@) }
    }
}

/// A cell of the given text, width and colour.
pub open spec fn cell(text: Seq<char>, width: usize, color: Seq<char>) -> CellValue {
    CellValue { text, width, color }
}

/// A table row of four cells in the widths of the four columns.
pub open spec fn row(first: CellValue, second: CellValue, third: CellValue, fourth: CellValue)
    -> LineValue {
    LineValue { display_type: OutputDisplayType::Entry, cells: seq![first, second, third, fourth] }
}

/// A table row with the four texts, all in the starting colour.
pub open spec fn plain_row(
    first: Seq<char>,
    second: Seq<char>,
    third: Seq<char>,
    fourth: Seq<char>,
) -> LineValue {
    row(
        cell(first, ADVISORY_WIDTH, CYAN@),
        cell(second, NAME_WIDTH, CYAN@),
        cell(third, VERSION_WIDTH, CYAN@),
        cell(fourth, VERSION_WIDTH, CYAN@),
    )
}

/// The colour of the advisory total: red where there is any, else green.
pub open spec fn advisory_total_color(advisories: u16) -> Seq<char> {
    if advisories > 0 {
        RED@
    } else {
        GREEN@
    }
}

/// The colour of a count that is marked only where it is not zero.
pub open spec fn marked_color(count: u16, mark: Seq<char>) -> Seq<char> {
    if count > 0 {
        mark
    } else {
        CYAN@
    }
}

impl OutputManager {
    /// The settings for the layout that `mode` stands for, `1` for the tree
    /// and anything else for the table, at the given width.
    pub fn new(mode: u8, width: usize) -> (manager: OutputManager)
        ensures
            manager.display_width == width,
            manager.display_mode == if mode == 1 {
                OutputDisplayMode::Tree
            } else {
                OutputDisplayMode::Table
            },
    {
        let display_mode = if mode == 1 {
            OutputDisplayMode::Tree
        } else {
            OutputDisplayMode::Table
        };
        OutputManager { display_mode, display_width: width }
    }
}

impl DisplayCell {
    /// A cell of the given text, width and colour.
    pub fn new(text: String, width: usize, color: &str) -> (made: DisplayCell)
        ensures
            made@ == cell(text@, width, color@),
    {
        DisplayCell { text, width, color: String::from_str(color) }
    }
}

impl DisplayLine {
    /// A table row of four cells.
    pub fn new_row(
        first: DisplayCell,
        second: DisplayCell,
        third: DisplayCell,
        fourth: DisplayCell,
    ) -> (line: DisplayLine)
        ensures
            line@ == row(first@, second@, third@, fourth@),
    {
        let mut cells: Vec<DisplayCell> = Vec::new();
        cells.push(first);
        cells.push(second);
        cells.push(third);
        cells.push(fourth);
        let line = DisplayLine { display_type: OutputDisplayType::Entry, cells };
        assert(line@.cells =~= seq![first@, second@, third@, fourth@]);
        line
    }

    /// The rule between the head of the table and its rows.
    pub fn new_guide() -> (line: DisplayLine)
        ensures
            line@ == (LineValue { display_type: OutputDisplayType::Guide, cells: Seq::empty() }),
    {
        let line = DisplayLine { display_type: OutputDisplayType::Guide, cells: Vec::new() };
        assert(line@.cells =~= Seq::empty());
        line
    }

    /// The rule that closes the table.
    pub fn new_table_end() -> (line: DisplayLine)
        ensures
            line@ == (LineValue { display_type: OutputDisplayType::End, cells: Seq::empty() }),
    {
        let line = DisplayLine { display_type: OutputDisplayType::End, cells: Vec::new() };
        assert(line@.cells =~= Seq::empty());
        line
    }

    /// The title line of a report.
    pub fn new_title(title: &str) -> (line: DisplayLine)
        ensures
            line@ == (LineValue {
                display_type: OutputDisplayType::Title,
                cells: seq![cell(title@, 0, CYAN@)],
            }),
    {
        let mut cells: Vec<DisplayCell> = Vec::new();
        cells.push(DisplayCell::new(String::from_str(title), 0, CYAN));
        let line = DisplayLine { display_type: OutputDisplayType::Title, cells };
        assert(line@.cells =~= seq![cell(title@, 0, CYAN@)]);
        line
    }

    /// The row of one dependency: its advisory count, its name, the declared
    /// version and the newest published version.
    pub fn new_crate(dep: &Dependency, advisories: u128) -> (line: DisplayLine)
        ensures
            line@ == plain_row(
                decimal(advisories as nat),
                dep.name@,
                display_text(dep.version@),
                display_text(dep.remote@),
            ),
    {
        DisplayLine::new_row(
            DisplayCell::new(decimal_text(advisories), ADVISORY_WIDTH, CYAN),
            DisplayCell::new(dep.name.clone(), NAME_WIDTH, CYAN),
            DisplayCell::new(dep.version.to_text(), VERSION_WIDTH, CYAN),
            DisplayCell::new(dep.remote.to_text(), VERSION_WIDTH, CYAN),
        )
    }

    /// The head of the table.
    pub fn new_header() -> (line: DisplayLine)
        ensures
            line@ == plain_row("Advisories"@, "Dependency"@, "Version"@, "Latest"@),
    {
        DisplayLine::new_row(
            DisplayCell::new(String::from_str("Advisories"), ADVISORY_WIDTH, CYAN),
            DisplayCell::new(String::from_str("Dependency"), NAME_WIDTH, CYAN),
            DisplayCell::new(String::from_str("Version"), VERSION_WIDTH, CYAN),
            DisplayCell::new(String::from_str("Latest"), VERSION_WIDTH, CYAN),
        )
    }

    /// The head of the totals.
    pub fn new_footer() -> (line: DisplayLine)
        ensures
            line@ == plain_row(
                "Advisories"@,
                "Total Dependencies"@,
                "Up To Date"@,
                "Out Of Date"@,
            ),
    {
        DisplayLine::new_row(
            DisplayCell::new(String::from_str("Advisories"), ADVISORY_WIDTH, CYAN),
            DisplayCell::new(String::from_str("Total Dependencies"), NAME_WIDTH, CYAN),
            DisplayCell::new(String::from_str("Up To Date"), VERSION_WIDTH, CYAN),
            DisplayCell::new(String::from_str("Out Of Date"), VERSION_WIDTH, CYAN),
        )
    }

    /// The totals of a report: the advisories, the dependencies counted
    /// (up to date, out of date and without a version), those up to date and
    /// those out of date. The advisory total is red where there is any and
    /// green where there is none; the other two are marked where not zero.
    pub fn new_footer_content(utd: u16, ood: u16, advisories: u16, warn: u16) -> (line: DisplayLine)
        requires
            utd + ood + warn <= u16::MAX,
        ensures
            line@ == row(
                cell(decimal(advisories as nat), ADVISORY_WIDTH, advisory_total_color(advisories)),
                cell(decimal((utd + ood + warn) as nat), NAME_WIDTH, CYAN@),
                cell(decimal(utd as nat), VERSION_WIDTH, marked_color(utd, GREEN@)),
                cell(decimal(ood as nat), VERSION_WIDTH, marked_color(ood, RED@)),
            ),
    {
        let total: u16 = utd + ood + warn;
        DisplayLine::new_row(
            DisplayCell::new(
                decimal_text(advisories as u128),
                ADVISORY_WIDTH,
                if advisories > 0 {
                    RED
                } else {
                    GREEN
                },
            ),
            DisplayCell::new(decimal_text(total as u128), NAME_WIDTH, CYAN),
            DisplayCell::new(
                decimal_text(utd as u128),
                VERSION_WIDTH,
                if utd > 0 {
                    GREEN
                } else {
                    CYAN
                },
            ),
            DisplayCell::new(
                decimal_text(ood as u128),
                VERSION_WIDTH,
                if ood > 0 {
                    RED
                } else {
                    CYAN
                },
            ),
        )
    }
}

} // verus!
