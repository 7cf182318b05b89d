use version_checker::dependency::Dependency;
use version_checker::output::{
    DisplayCell, DisplayLine, OutputDisplayMode, OutputDisplayType, OutputManager,
};
use version_checker::render::{append_cell, append_guide_rule, append_repeated, gap_of};
use version_checker::version::{SemVer, Version};

fn cells(line: &DisplayLine) -> Vec<(String, usize, String)> {
    line.cells.iter().map(|c| (c.text.clone(), c.width, c.color.clone())).collect()
}

fn cell(text: &str, width: usize, color: &str) -> (String, usize, String) {
    (text.to_string(), width, color.to_string())
}

const CYAN: &str = "\x1b[36m";
const GREEN: &str = "\x1b[32m";
const RED: &str = "\x1b[31m";

#[test]
fn manager_modes() {
    assert_eq!(OutputManager::new(0, 100).display_mode, OutputDisplayMode::Table);
    assert_eq!(OutputManager::new(1, 100).display_mode, OutputDisplayMode::Tree);
    assert_eq!(OutputManager::new(2, 100).display_mode, OutputDisplayMode::Table);
    assert_eq!(OutputManager::new(255, 7).display_mode, OutputDisplayMode::Table);
    assert_eq!(OutputManager::new(1, 7).display_width, 7);
}

#[test]
fn guide_and_end_have_no_cells() {
    let guide = DisplayLine::new_guide();
    assert_eq!(guide.display_type, OutputDisplayType::Guide);
    assert!(guide.cells.is_empty());
    let end = DisplayLine::new_table_end();
    assert_eq!(end.display_type, OutputDisplayType::End);
    assert!(end.cells.is_empty());
}

#[test]
fn title_line() {
    let title = DisplayLine::new_title("Report");
    assert_eq!(title.display_type, OutputDisplayType::Title);
    assert_eq!(cells(&title), vec![cell("Report", 0, CYAN)]);
}

#[test]
fn header_and_footer_lines() {
    let header = DisplayLine::new_header();
    assert_eq!(header.display_type, OutputDisplayType::Entry);
    assert_eq!(
        cells(&header),
        vec![
            cell("Advisories", 11, CYAN),
            cell("Dependency", 50, CYAN),
            cell("Version", 25, CYAN),
            cell("Latest", 25, CYAN)
        ]
    );
    let footer = DisplayLine::new_footer();
    assert_eq!(footer.display_type, OutputDisplayType::Entry);
    assert_eq!(
        cells(&footer),
        vec![
            cell("Advisories", 11, CYAN),
            cell("Total Dependencies", 50, CYAN),
            cell("Up To Date", 25, CYAN),
            cell("Out Of Date", 25, CYAN)
        ]
    );
}

#[test]
fn footer_content_totals_and_colours() {
    let line = DisplayLine::new_footer_content(3, 2, 4, 1);
    assert_eq!(line.display_type, OutputDisplayType::Entry);
    assert_eq!(
        cells(&line),
        vec![cell("4", 11, RED), cell("6", 50, CYAN), cell("3", 25, GREEN), cell("2", 25, RED)]
    );
    let clean = DisplayLine::new_footer_content(0, 0, 0, 0);
    assert_eq!(
        cells(&clean),
        vec![cell("0", 11, GREEN), cell("0", 50, CYAN), cell("0", 25, CYAN), cell("0", 25, CYAN)]
    );
    let big = DisplayLine::new_footer_content(65535, 0, 65535, 0);
    assert_eq!(big.cells[0].text, "65535");
    assert_eq!(big.cells[1].text, "65535");
}

#[test]
fn crate_line() {
    let dep = Dependency {
        wildcards: vec!['^'],
        name: "serde".to_string(),
        version: Version::Semantic(SemVer::new(1, 0, 0)),
        remote: Version::Opaque("weird".to_string()),
    };
    let line = DisplayLine::new_crate(&dep, 12);
    assert_eq!(
        cells(&line),
        vec![
            cell("12", 11, CYAN),
            cell("serde", 50, CYAN),
            cell("1.0.0", 25, CYAN),
            cell("weird", 25, CYAN)
        ]
    );
}

#[test]
fn rows_and_cells_are_built() {
    let made = DisplayCell::new("x".to_string(), 3, GREEN);
    assert_eq!((made.text.as_str(), made.width, made.color.as_str()), ("x", 3, GREEN));
    let row = DisplayLine::new_row(
        DisplayCell::new("a".to_string(), 1, CYAN),
        DisplayCell::new("b".to_string(), 2, RED),
        DisplayCell::new("c".to_string(), 3, GREEN),
        DisplayCell::new("d".to_string(), 4, CYAN),
    );
    assert_eq!(
        cells(&row),
        vec![cell("a", 1, CYAN), cell("b", 2, RED), cell("c", 3, GREEN), cell("d", 4, CYAN)]
    );
}

#[test]
fn blank_and_header_text() {
    let manager = OutputManager::new(0, 114);
    let blank = DisplayLine { display_type: OutputDisplayType::Blank, cells: Vec::new() };
    assert_eq!(manager.render_text(&blank), "\n");
    let header = DisplayLine { display_type: OutputDisplayType::Header, cells: Vec::new() };
    assert_eq!(manager.render_text(&header), "");
}

#[test]
fn entry_text() {
    let manager = OutputManager::new(0, 114);
    let row = DisplayLine::new_row(
        DisplayCell::new("7".to_string(), 4, CYAN),
        DisplayCell::new("name".to_string(), 10, RED),
        DisplayCell::new("1.0.0".to_string(), 9, GREEN),
        DisplayCell::new("1.2.0".to_string(), 12, GREEN),
    );
    let expected = concat_all(&[
        " \x1b[90;1m║\x1b[0m ",
        CYAN,
        "   7",
        "\x1b[0m \x1b[90;1m│\x1b[0m ",
        RED,
        "name\x1b[0m",
        "  ",
        " \x1b[90;1m│\x1b[0m ",
        GREEN,
        "1.0.0\x1b[0m",
        "",
        " \x1b[90;1m│\x1b[0m ",
        GREEN,
        "1.2.0\x1b[0m",
        "   ",
        " \x1b[90;1m║\x1b[0m ",
        "\n",
    ]);
    assert_eq!(manager.render_text(&row), expected);
}

fn concat_all(parts: &[&str]) -> String {
    parts.iter().map(|p| p.to_string()).collect()
}

#[test]
fn entry_text_ignores_cells_after_the_fourth() {
    let manager = OutputManager::new(0, 114);
    let mut row = DisplayLine::new_header();
    let four = manager.render_text(&row);
    row.cells.push(DisplayCell::new("extra".to_string(), 30, RED));
    assert_eq!(manager.render_text(&row), four);
    let none = DisplayLine { display_type: OutputDisplayType::Entry, cells: Vec::new() };
    assert_eq!(manager.render_text(&none), "\n");
}

#[test]
fn wide_text_is_not_cut() {
    let manager = OutputManager::new(0, 114);
    let row = DisplayLine {
        display_type: OutputDisplayType::Entry,
        cells: vec![DisplayCell::new("123456".to_string(), 3, CYAN)],
    };
    assert_eq!(
        manager.render_text(&row),
        " \x1b[90;1m║\x1b[0m \x1b[36m123456\x1b[0m \x1b[90;1m│\x1b[0m \n"
    );
}

#[test]
fn width_is_held_against_bytes() {
    let manager = OutputManager::new(0, 114);
    let row = DisplayLine {
        display_type: OutputDisplayType::Entry,
        cells: vec![DisplayCell::new("é".to_string(), 4, CYAN)],
    };
    assert_eq!(
        manager.render_text(&row),
        " \x1b[90;1m║\x1b[0m \x1b[36m  é\x1b[0m \x1b[90;1m│\x1b[0m \n"
    );
}

#[test]
fn title_text() {
    let manager = OutputManager::new(0, 20);
    let title = DisplayLine::new_title("abcd");
    assert!(manager.can_render(&title));
    assert_eq!(
        manager.render_text(&title),
        " \x1b[90;1m╔═════╡ abcd ╞═════╗\x1b[0m\n"
    );
    let odd = DisplayLine::new_title("abcde");
    assert_eq!(manager.render_text(&odd), " \x1b[90;1m╔════╡ abcde ╞════╗\x1b[0m\n");
}

#[test]
fn title_needs_room() {
    let title = DisplayLine::new_title("abcd");
    assert!(OutputManager::new(0, 10).can_render(&title));
    assert_eq!(
        OutputManager::new(0, 10).render_text(&title),
        " \x1b[90;1m╔╡ abcd ╞╗\x1b[0m\n"
    );
    assert!(!OutputManager::new(0, 9).can_render(&title));
    assert!(!OutputManager::new(0, 0).can_render(&title));
    let no_cell = DisplayLine { display_type: OutputDisplayType::Title, cells: Vec::new() };
    assert!(!OutputManager::new(0, 100).can_render(&no_cell));
}

#[test]
fn guide_text() {
    let manager = OutputManager::new(0, 17);
    let guide = DisplayLine::new_guide();
    assert!(manager.can_render(&guide));
    assert_eq!(
        manager.render_text(&guide),
        " \x1b[90;1m╟─────────────┼─╢\x1b[0m\n"
    );
    let wide = OutputManager::new(0, 90).render_text(&guide);
    let rule: Vec<char> = wide.chars().skip_while(|c| *c != '╟').skip(1).take(88).collect();
    let crossings: Vec<usize> =
        rule.iter().enumerate().filter(|(_, c)| **c == '┼').map(|(i, _)| i).collect();
    assert_eq!(crossings, vec![13, 62, 86]);
    assert!(rule.iter().all(|c| *c == '┼' || *c == '─'));
}

#[test]
fn end_text() {
    let end = DisplayLine::new_table_end();
    assert_eq!(OutputManager::new(0, 5).render_text(&end), " \x1b[90;1m╚═══╝\x1b[0m\n");
    assert_eq!(OutputManager::new(0, 2).render_text(&end), " \x1b[90;1m╚╝\x1b[0m\n");
    assert!(OutputManager::new(0, 2).can_render(&end));
    assert!(!OutputManager::new(0, 1).can_render(&end));
    assert!(!OutputManager::new(0, 1).can_render(&DisplayLine::new_guide()));
    assert!(OutputManager::new(0, 0).can_render(&DisplayLine::new_header()));
}

#[test]
fn pieces_are_appended() {
    let mut out = "x".to_string();
    append_repeated(&mut out, "ab", 3);
    assert_eq!(out, "xababab");
    append_repeated(&mut out, "ab", 0);
    assert_eq!(out, "xababab");
    let mut rule = String::new();
    append_guide_rule(&mut rule, 15);
    assert_eq!(rule, "─────────────┼─");
    assert_eq!(gap_of(10, 3, 4), 3);
    assert_eq!(gap_of(10, 6, 4), 0);
    assert_eq!(gap_of(10, 7, 4), 0);
    assert_eq!(gap_of(3, 0, 4), 0);
    assert_eq!(gap_of(10, usize::MAX, 4), 0);
    let mut cell = String::new();
    append_cell(&mut cell, 4, &DisplayCell::new("gone".to_string(), 9, CYAN));
    assert_eq!(cell, "");
    append_cell(&mut cell, 2, &DisplayCell::new("ab".to_string(), 8, CYAN));
    assert_eq!(cell, "\x1b[36mab\x1b[0m   \x1b[90;1m│\x1b[0m ");
}

#[test]
fn update_notice_text() {
    let manager = OutputManager::new(0, 114);
    let current = Version::Semantic(SemVer::new(0, 1, 2));
    let latest = Version::Semantic(SemVer::new(0, 2, 0));
    assert!(manager.can_warn(&current, &latest));
    let rule = "═".repeat(50);
    let expected = format!(
        "\x1b[90;1m╔{rule}╗\n\
         ║{m1}\x1b[35mA new update is available to install\x1b[90;1m{m1}║\n\
         ║{m2}\x1b[31m0.1.2\x1b[35m -> \x1b[32m0.2.0\x1b[90;1m{m2}║\n\
         ║{m3}\x1b[35mUse\x1b[33m cargo update \x1b[35mto install it\x1b[90;1m{m3}║\n\
         ╚{rule}╝\x1b[0m\n",
        rule = rule,
        m1 = " ".repeat(7),
        m2 = " ".repeat(18),
        m3 = " ".repeat(10),
    );
    assert_eq!(manager.warning_text(&current, &latest), expected);
}

#[test]
fn update_notice_needs_room() {
    let manager = OutputManager::new(0, 114);
    let long = Version::Opaque("x".repeat(24));
    let short = Version::Opaque("y".repeat(23));
    assert!(manager.can_warn(&short, &long));
    assert!(!manager.can_warn(&long, &long));
    let text = manager.warning_text(&short, &long);
    assert!(text.contains(&format!("║\x1b[31m{}\x1b[35m -> ", "y".repeat(23))));
}
