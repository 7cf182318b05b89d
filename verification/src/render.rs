//! The text of a line of the report, as it goes to the terminal.

use crate::output::{
    cell_values, CellValue, DisplayCell, DisplayLine, LineValue, OutputDisplayType, OutputManager,
};
use crate::version::{display_text, Version};
use vstd::prelude::*;
use vstd::string::*;
use vstd::utf8::encode_utf8;

verus! {

/// What opens a table row: the outer edge.
pub const ROW_OPEN: &'static str = " \x1b[90;1m║\x1b[0m ";

/// What ends a cell's colour.
pub const RESET: &'static str = "\x1b[0m";

/// The edge between two cells.
pub const INNER_EDGE: &'static str = " \x1b[90;1m│\x1b[0m ";

/// The edge that closes a row.
pub const OUTER_EDGE: &'static str = " \x1b[90;1m║\x1b[0m ";

pub const TITLE_OPEN: &'static str = " \x1b[90;1m╔";

pub const TITLE_LEFT: &'static str = "╡ ";

pub const TITLE_RIGHT: &'static str = " ╞";

pub const TITLE_CLOSE: &'static str = "╗\x1b[0m\n";

pub const GUIDE_OPEN: &'static str = " \x1b[90;1m╟";

pub const GUIDE_CLOSE: &'static str = "╢\x1b[0m\n";

pub const END_OPEN: &'static str = " \x1b[90;1m╚";

pub const END_CLOSE: &'static str = "╝\x1b[0m\n";

pub const DOUBLE_RULE: &'static str = "═";

pub const RULE: &'static str = "─";

pub const CROSSING: &'static str = "┼";

pub const SPACE: &'static str = " ";

pub const LINE_END: &'static str = "\n";

/// `piece`, `n` times over.
pub open spec fn repeated(piece: Seq<char>, n: nat) -> Seq<char>
    decreases n,
{
    if n == 0 {
        Seq::empty()
    } else {
        repeated(piece, (n - 1) as nat) + piece
    }
}

/// The number of bytes that `text` takes, which is what a cell's width is
/// held against.
pub open spec fn byte_len(text: Seq<char>) -> usize {
    encode_utf8(text).len() as usize
}

/// What is missing for `taken` to fill `width`.
pub open spec fn gap(width: usize, taken: int) -> nat {
    if width > taken {
        (width - taken) as nat
    } else {
        0
    }
}

/// The text of the cell at place `index` of a table row. The first cell is
/// set to the right of its width and follows the outer edge; the next three
/// are set to the left of their width less four; a row shows no more than
/// four cells.
pub open spec fn cell_text(index: int, c: CellValue) -> Seq<char> {
    if index == 0 {
        ROW_OPEN@ + c.color + repeated(SPACE@, gap(c.width, byte_len(c.text) as int)) + c.text
            + RESET@ + INNER_EDGE@
    } else if index == 1 || index == 2 {
        c.color + c.text + RESET@ + repeated(SPACE@, gap(c.width, byte_len(c.text) + 4))
            + INNER_EDGE@
    } else if index == 3 {
        c.color + c.text + RESET@ + repeated(SPACE@, gap(c.width, byte_len(c.text) + 4))
            + OUTER_EDGE@
    } else {
        Seq::empty()
    }
}

/// The text of the cells of a table row, in order.
pub open spec fn cells_text(cells: Seq<CellValue>) -> Seq<char>
    decreases cells.len(),
{
    if cells.len() == 0 {
        Seq::empty()
    } else {
        cells_text(cells.drop_last()) + cell_text(cells.len() - 1, cells.last())
    }
}

/// Whether the rule under the head of the table is crossed at place `index`
/// by the edge between two columns.
pub open spec fn is_crossing(index: int) -> bool {
    index == 13 || index == 62 || index == 86
}

/// The first `n` places of the rule under the head of the table.
pub open spec fn guide_rule(n: nat) -> Seq<char>
    decreases n,
{
    if n == 0 {
        Seq::empty()
    } else {
        guide_rule((n - 1) as nat) + if is_crossing(n - 1) {
            CROSSING@
        } else {
            RULE@
        }
    }
}

/// The length of the rule on either side of a title.
pub open spec fn title_rule(width: usize, title: Seq<char>) -> nat
    recommends
        width >= byte_len(title) + 6,
{
    ((width - (byte_len(title) + 4)) / 2 - 1) as nat
}

/// Whether a line can be drawn at the width `width`: a title needs its cell
/// and room for itself, its brackets and a rule of one on either side; a rule
/// needs room for its two ends.
pub open spec fn drawable(width: usize, line: LineValue) -> bool {
    match line.display_type {
        OutputDisplayType::Title => line.cells.len() >= 1 && width >= byte_len(line.cells[0].text)
            + 6,
        OutputDisplayType::Guide => width >= 2,
        OutputDisplayType::End => width >= 2,
        _ => true,
    }
}

/// The text of a line at the width `width`, with its line break; a header
/// line has no text of its own.
pub open spec fn line_text(width: usize, line: LineValue) -> Seq<char>
    recommends
        drawable(width, line),
{
    match line.display_type {
        OutputDisplayType::Blank => LINE_END@,
        OutputDisplayType::Entry => cells_text(line.cells) + LINE_END@,
        OutputDisplayType::Title => {
            let title = line.cells[0].text;
            TITLE_OPEN@ + repeated(DOUBLE_RULE@, title_rule(width, title)) + TITLE_LEFT@ + title
                + TITLE_RIGHT@ + repeated(DOUBLE_RULE@, title_rule(width, title)) + TITLE_CLOSE@
        },
        OutputDisplayType::Guide => GUIDE_OPEN@ + guide_rule((width - 2) as nat) + GUIDE_CLOSE@,
        OutputDisplayType::Header => Seq::empty(),
        OutputDisplayType::End => END_OPEN@ + repeated(DOUBLE_RULE@, (width - 2) as nat)
            + END_CLOSE@,
    }
}

/// Appends `piece` to `out`, `n` times over.
pub fn append_repeated(out: &mut String, piece: &str, n: usize)
    ensures
        final(out)@ == old(out)@ + repeated(piece@, n as nat),
{
    let ghost start = out@;
    let mut i: usize = 0;
    proof {
        assert(start + repeated(piece@, 0) =~= start);
    }
    while i < n
        invariant
            i <= n,
            out@ == start + repeated(piece@, i as nat),
        decreases n - i,
    {
        out.append(piece);
        proof {
            assert(start + repeated(piece@, i as nat) + piece@ =~= start + repeated(
                piece@,
                (i + 1) as nat,
            ));
        }
        i += 1;
    }
}

/// Appends the first `n` places of the rule under the head of the table.
pub fn append_guide_rule(out: &mut String, n: usize)
    ensures
        final(out)@ == old(out)@ + guide_rule(n as nat),
{
    let ghost start = out@;
    let mut i: usize = 0;
    proof {
        assert(start + guide_rule(0) =~= start);
    }
    while i < n
        invariant
            i <= n,
            out@ == start + guide_rule(i as nat),
        decreases n - i,
    {
        if i == 13 || i == 62 || i == 86 {
            out.append(CROSSING);
        } else {
            out.append(RULE);
        }
        proof {
            assert(out@ =~= start + guide_rule((i + 1) as nat));
        }
        i += 1;
    }
}

/// What is missing for `taken` bytes and `margin` more to fill `width`.
pub fn gap_of(width: usize, taken: usize, margin: usize) -> (missing: usize)
    ensures
        missing == gap(width, taken + margin),
{
    if width > margin && width - margin > taken {
        width - margin - taken
    } else {
        0
    }
}

/// Appends the text of the cell at place `index` of a table row.
pub fn append_cell(out: &mut String, index: usize, c: &DisplayCell)
    ensures
        final(out)@ == old(out)@ + cell_text(index as int, c@),
{
    let ghost start = out@;
    let taken: usize = c.text.as_str().len();
    if index == 0 {
        out.append(ROW_OPEN);
        out.append(c.color.as_str());
        append_repeated(out, SPACE, gap_of(c.width, taken, 0));
        out.append(c.text.as_str());
        out.append(RESET);
        out.append(INNER_EDGE);
        proof {
            assert(out@ =~= start + cell_text(0, c@));
        }
    } else if index <= 3 {
        out.append(c.color.as_str());
        out.append(c.text.as_str());
        out.append(RESET);
        append_repeated(out, SPACE, gap_of(c.width, taken, 4));
        if index == 3 {
            out.append(OUTER_EDGE);
        } else {
            out.append(INNER_EDGE);
        }
        proof {
            assert(out@ =~= start + cell_text(index as int, c@));
        }
    } else {
        proof {
            assert(out@ =~= start + cell_text(index as int, c@));
        }
    }
}

impl OutputManager {
    /// Whether `content` can be drawn at the width of the report.
    pub fn can_render(&self, content: &DisplayLine) -> (able: bool)
        ensures
            able == drawable(self.display_width, content@),
    {
        match content.display_type {
            OutputDisplayType::Title => {
                if content.cells.len() == 0 {
                    false
                } else {
                    let taken: usize = content.cells[0].text.as_str().len();
                    self.display_width >= 6 && self.display_width - 6 >= taken
                }
            },
            OutputDisplayType::Guide => self.display_width >= 2,
            OutputDisplayType::End => self.display_width >= 2,
            _ => true,
        }
    }

    /// The text that draws `content`; `None` where the report is too narrow
    /// for it.
    pub fn try_render_text(&self, content: &DisplayLine) -> (text: Option<String>)
        ensures
            match text {
                Some(text) => drawable(self.display_width, content@) && text@ == line_text(
                    self.display_width,
                    content@,
                ),
                None => !drawable(self.display_width, content@),
            },
    {
        if self.can_render(content) {
            Some(self.render_text(content))
        } else {
            None
        }
    }

    /// The text that draws `content`, with its line break.
    pub fn render_text(&self, content: &DisplayLine) -> (text: String)
        requires
            drawable(self.display_width, content@),
        ensures
            text@ == line_text(self.display_width, content@),
    {
        match content.display_type {
            OutputDisplayType::Blank => String::from_str(LINE_END),
            OutputDisplayType::Entry => {
                let ghost cells = cell_values(content.cells@);
                let mut out = String::new();
                let mut i: usize = 0;
                proof {
                    assert(cells.take(0) =~= Seq::<CellValue>::empty());
                }
                while i < content.cells.len()
                    invariant
                        i <= content.cells.len(),
                        cells == cell_values(content.cells@),
                        out@ == cells_text(cells.take(i as int)),
                    decreases content.cells.len() - i,
                {
                    append_cell(&mut out, i, &content.cells[i]);
                    proof {
                        assert(cells.take(i + 1).drop_last() =~= cells.take(i as int));
                        assert(cells.take(i + 1).last() == content.cells@[i as int]@);
                    }
                    i += 1;
                }
                proof {
                    assert(cells.take(content.cells.len() as int) =~= cells);
                }
                out.append(LINE_END);
                out
            },
            OutputDisplayType::Title => {
                let title = content.cells[0].text.as_str();
                let taken: usize = title.len();
                let rule: usize = (self.display_width - (taken + 4)) / 2 - 1;
                let mut out = String::from_str(TITLE_OPEN);
                append_repeated(&mut out, DOUBLE_RULE, rule);
                out.append(TITLE_LEFT);
                out.append(title);
                out.append(TITLE_RIGHT);
                append_repeated(&mut out, DOUBLE_RULE, rule);
                out.append(TITLE_CLOSE);
                out
            },
            OutputDisplayType::Guide => {
                let mut out = String::from_str(GUIDE_OPEN);
                append_guide_rule(&mut out, self.display_width - 2);
                out.append(GUIDE_CLOSE);
                out
            },
            OutputDisplayType::Header => String::new(),
            OutputDisplayType::End => {
                let mut out = String::from_str(END_OPEN);
                append_repeated(&mut out, DOUBLE_RULE, self.display_width - 2);
                out.append(END_CLOSE);
                out
            },
        }
    }
}

pub const NOTICE_TOP_OPEN: &'static str = "\x1b[90;1m╔";

pub const NOTICE_TOP_CLOSE: &'static str = "╗\n";

pub const NOTICE_EDGE: &'static str = "║";

pub const NOTICE_LINE_CLOSE: &'static str = "║\n";

pub const NOTICE_BOTTOM_OPEN: &'static str = "╚";

pub const NOTICE_BOTTOM_CLOSE: &'static str = "╝\x1b[0m\n";

pub const FRAME: &'static str = "\x1b[90;1m";

pub const PURPLE: &'static str = "\x1b[35m";

pub const OLD_COLOR: &'static str = "\x1b[31m";

pub const ARROW: &'static str = " -> ";

pub const COLORED_ARROW: &'static str = "\x1b[35m -> \x1b[32m";

pub const NOTICE_HEAD: &'static str = "A new update is available to install";

pub const ADVICE: &'static str = "Use cargo update to install it";

pub const ADVICE_LEFT: &'static str = "Use";

pub const ADVICE_COMMAND: &'static str = "\x1b[33m cargo update \x1b[35m";

pub const ADVICE_RIGHT: &'static str = "to install it";

/// The width inside the frame of the notice.
pub const NOTICE_WIDTH: usize = 50;

/// The middle line of the notice as it is measured: both versions and the
/// arrow between them.
pub open spec fn notice_middle(current: Seq<char>, latest: Seq<char>) -> Seq<char> {
    current + ARROW@ + latest
}

/// The margin on either side of a line of the notice: half the width, less
/// half the line.
pub open spec fn notice_margin(line: Seq<char>) -> nat {
    gap(25, (byte_len(line) / 2) as int)
}

/// One line of the notice: the coloured text `shown` between two margins
/// that go by the line as it is measured, inside the frame.
pub open spec fn notice_line(measured: Seq<char>, shown: Seq<char>) -> Seq<char> {
    NOTICE_EDGE@ + repeated(SPACE@, notice_margin(measured)) + shown + FRAME@ + repeated(
        SPACE@,
        notice_margin(measured),
    ) + NOTICE_LINE_CLOSE@
}

/// Whether the notice has room for both versions: half the middle line is
/// no more than half the width.
pub open spec fn notice_fits(current: Seq<char>, latest: Seq<char>) -> bool {
    byte_len(notice_middle(current, latest)) / 2 <= 25
}

/// The notice that a newer release is out: a frame around three centred
/// lines, the second of which shows the version in use and the newest one.
pub open spec fn notice_text(current: Seq<char>, latest: Seq<char>) -> Seq<char> {
    NOTICE_TOP_OPEN@ + repeated(DOUBLE_RULE@, NOTICE_WIDTH as nat) + NOTICE_TOP_CLOSE@
        + notice_line(NOTICE_HEAD@, PURPLE@ + NOTICE_HEAD@) + notice_line(
        notice_middle(current, latest),
        OLD_COLOR@ + current + COLORED_ARROW@ + latest,
    ) + notice_line(ADVICE@, PURPLE@ + ADVICE_LEFT@ + ADVICE_COMMAND@ + ADVICE_RIGHT@)
        + NOTICE_BOTTOM_OPEN@ + repeated(DOUBLE_RULE@, NOTICE_WIDTH as nat)
        + NOTICE_BOTTOM_CLOSE@
}

/// Appends one line of the notice.
pub fn append_notice_line(out: &mut String, measured: &str, shown: &str)
    ensures
        final(out)@ == old(out)@ + notice_line(measured@, shown@),
{
    let ghost start = out@;
    let margin = gap_of(25, measured.len() / 2, 0);
    out.append(NOTICE_EDGE);
    append_repeated(out, SPACE, margin);
    out.append(shown);
    out.append(FRAME);
    append_repeated(out, SPACE, margin);
    out.append(NOTICE_LINE_CLOSE);
    proof {
        assert(out@ =~= start + notice_line(measured@, shown@));
    }
}

/// The middle line of the notice as it is measured.
pub fn middle_line(current: &Version, latest: &Version) -> (line: String)
    ensures
        line@ == notice_middle(display_text(current@), display_text(latest@)),
{
    let mut line = current.to_text();
    line.append(ARROW);
    line.append(latest.to_text().as_str());
    line
}

impl OutputManager {
    /// Whether the notice has room for both versions.
    pub fn can_warn(&self, current: &Version, latest: &Version) -> (able: bool)
        ensures
            able == notice_fits(display_text(current@), display_text(latest@)),
    {
        middle_line(current, latest).as_str().len() / 2 <= 25
    }

    /// The notice that `latest` is out while `current` is in use; `None`
    /// where the notice has no room for both versions.
    pub fn try_warning_text(&self, current: &Version, latest: &Version) -> (text: Option<String>)
        ensures
            match text {
                Some(text) => notice_fits(display_text(current@), display_text(latest@))
                    && text@ == notice_text(display_text(current@), display_text(latest@)),
                None => !notice_fits(display_text(current@), display_text(latest@)),
            },
    {
        if self.can_warn(current, latest) {
            Some(self.warning_text(current, latest))
        } else {
            None
        }
    }

    /// The notice that `latest` is out while `current` is in use.
    pub fn warning_text(&self, current: &Version, latest: &Version) -> (text: String)
        requires
            notice_fits(display_text(current@), display_text(latest@)),
        ensures
            text@ == notice_text(display_text(current@), display_text(latest@)),
    {
        let mut head = String::from_str(PURPLE);
        head.append(NOTICE_HEAD);
        let mut shown = String::from_str(OLD_COLOR);
        shown.append(current.to_text().as_str());
        shown.append(COLORED_ARROW);
        shown.append(latest.to_text().as_str());
        let mut advice = String::from_str(PURPLE);
        advice.append(ADVICE_LEFT);
        advice.append(ADVICE_COMMAND);
        advice.append(ADVICE_RIGHT);
        let mut out = String::from_str(NOTICE_TOP_OPEN);
        append_repeated(&mut out, DOUBLE_RULE, NOTICE_WIDTH);
        out.append(NOTICE_TOP_CLOSE);
        append_notice_line(&mut out, NOTICE_HEAD, head.as_str());
        append_notice_line(&mut out, middle_line(current, latest).as_str(), shown.as_str());
        append_notice_line(&mut out, ADVICE, advice.as_str());
        out.append(NOTICE_BOTTOM_OPEN);
        append_repeated(&mut out, DOUBLE_RULE, NOTICE_WIDTH);
        out.append(NOTICE_BOTTOM_CLOSE);
        out
    }
}

} // verus!
