use mdui::blocks::{push_lines, push_quote_lines};
use mdui::markdown::Align;
use mdui::render::Renderer;
use mdui::table::{cell_padding, widen_widths};
use mdui::style::{Hue, Palette};

const RESET: &str = "\x1b[0m";
const BOLD: &str = "\x1b[1m";

fn render(markdown: &str, width: u16) -> String {
    let renderer = Renderer::with_terminal_width(Some(width));
    let bytes = renderer.render_to_bytes(markdown).unwrap();
    String::from_utf8(bytes).unwrap()
}

fn fg(h: Hue) -> String {
    Palette::from_terminal().fg(h).to_string()
}

fn bg(h: Hue) -> String {
    Palette::from_terminal().bg(h).to_string()
}

#[test]
fn width_is_capped_at_120() {
    assert_eq!(Renderer::with_terminal_width(Some(200)).term_width(), 120);
    assert_eq!(Renderer::with_terminal_width(Some(120)).term_width(), 120);
    assert_eq!(Renderer::with_terminal_width(Some(50)).term_width(), 50);
    assert_eq!(Renderer::with_terminal_width(None).term_width(), 80);
    assert!(Renderer::new().term_width() <= 120);
}

#[test]
fn palette_sequences_are_256_colour_or_blank() {
    let pal = Palette::from_terminal();
    let magenta = pal.fg(Hue::Magenta);
    assert!(magenta == "\x1b[38;5;13m" || magenta == "\x1b[m");
    let grey = pal.bg(Hue::DarkGrey);
    assert!(grey == "\x1b[48;5;8m" || grey == "\x1b[m");
}

#[test]
fn plain_paragraph() {
    assert_eq!(render("Hello world", 80), format!("Hello world\n{}", RESET));
}

#[test]
fn empty_document_only_resets() {
    assert_eq!(render("", 80), RESET);
}

#[test]
fn two_paragraphs() {
    assert_eq!(render("one\n\ntwo", 80), format!("one\ntwo\n{}", RESET));
}

#[test]
fn soft_break_becomes_space() {
    assert_eq!(render("one\ntwo", 80), format!("one two\n{}", RESET));
}

#[test]
fn emphasis_strong_strikethrough() {
    assert_eq!(render("*x*", 80), format!("\x1b[3mx\x1b[23m\n{}", RESET));
    assert_eq!(render("**x**", 80), format!("\x1b[1mx\x1b[22m\n{}", RESET));
    assert_eq!(render("~~x~~", 80), format!("\x1b[9mx\x1b[29m\n{}", RESET));
}

#[test]
fn inline_code_is_highlighted() {
    let expected = format!(
        "a {}{}{} b {} c\n{}",
        bg(Hue::DarkGrey),
        fg(Hue::Yellow),
        BOLD,
        RESET,
        RESET
    );
    assert_eq!(render("a `b` c", 80), expected);
}

#[test]
fn link_shows_its_url() {
    let expected = format!(
        "{}\x1b[4mt{}{} (http://u){}\n{}",
        fg(Hue::Blue),
        RESET,
        fg(Hue::DarkGrey),
        RESET,
        RESET
    );
    assert_eq!(render("[t](http://u)", 80), expected);
}

#[test]
fn heading_level_one_has_bars() {
    let bar = "━".repeat(9);
    let expected = format!(
        "\n{}{}{}\n ◉ Title\n{}\n{}\n{}",
        fg(Hue::Magenta),
        BOLD,
        bar,
        bar,
        RESET,
        RESET
    );
    assert_eq!(render("# Title", 80), expected);
}

#[test]
fn heading_level_three_has_no_bars() {
    let expected = format!("\n{}{} ◆ Sub\n{}\n{}", fg(Hue::Cyan), BOLD, RESET, RESET);
    assert_eq!(render("### Sub", 80), expected);
}

#[test]
fn heading_bar_is_capped_by_width() {
    let bar = "━".repeat(10);
    let expected = format!(
        "\n{}{}{}\n ◈ A long heading\n{}\n{}\n{}",
        fg(Hue::Blue),
        BOLD,
        bar,
        bar,
        RESET,
        RESET
    );
    assert_eq!(render("## A long heading", 10), expected);
}

fn item(marker: &str, text: &str) -> String {
    format!("{}{}{} {}{}\n", fg(Hue::DarkCyan), BOLD, marker, RESET, text)
}

#[test]
fn unordered_list() {
    let expected = format!("{}{}\n{}", item("●", "a"), item("●", "b"), RESET);
    assert_eq!(render("- a\n- b", 80), expected);
}

#[test]
fn ordered_list_counts_from_its_start() {
    let expected = format!("{}{}\n{}", item("3.", "x"), item("4.", "y"), RESET);
    assert_eq!(render("3. x\n4. y", 80), expected);
}

#[test]
fn nested_list_uses_deeper_bullet() {
    let expected = format!("{}{}\n{}", item("●", "a"), item("  ○", "b"), RESET);
    assert_eq!(render("- a\n  - b", 80), expected);
}

#[test]
fn task_list_shows_check_boxes() {
    let expected = format!("{}{}\n{}", item("●", "☑ done"), item("●", "☐ todo"), RESET);
    assert_eq!(render("- [x] done\n- [ ] todo", 80), expected);
}

#[test]
fn block_quote_has_sidebar() {
    let expected = format!(
        "  {}▐ {}\x1b[3mquoted\n{}\n{}",
        fg(Hue::DarkYellow),
        fg(Hue::White),
        RESET,
        RESET
    );
    assert_eq!(render("> quoted", 80), expected);
}

#[test]
fn code_block_has_a_frame_and_icon() {
    let grey = fg(Hue::DarkGrey);
    let expected = format!(
        "{g}{b}┌─ 🦀 rust ─{fill}\n{r}{g}│ {green}fn main() {{}}\n{g}└{line}\n{r}\n{r}",
        g = grey,
        b = BOLD,
        fill = "─".repeat(25),
        r = RESET,
        green = fg(Hue::Green),
        line = "─".repeat(36)
    );
    assert_eq!(render("```rust\nfn main() {}\n```", 40), expected);
}

#[test]
fn indented_code_block_has_plain_header() {
    let grey = fg(Hue::DarkGrey);
    let expected = format!(
        "{g}{b}┌{line}\n{r}{g}│ {green}x = 1\n{g}└{line}\n{r}\n{r}",
        g = grey,
        b = BOLD,
        r = RESET,
        green = fg(Hue::Green),
        line = "─".repeat(36)
    );
    assert_eq!(render("    x = 1\n", 40), expected);
}

#[test]
fn long_code_line_is_truncated() {
    let grey = fg(Hue::DarkGrey);
    let expected = format!(
        "{g}{b}┌{line}\n{r}{g}│ {green}abcdefg…\n{g}└{line}\n{r}\n{r}",
        g = grey,
        b = BOLD,
        r = RESET,
        green = fg(Hue::Green),
        line = "─".repeat(10)
    );
    assert_eq!(render("```\nabcdefghijklmnop\n```", 14), expected);
}

#[test]
fn horizontal_rule() {
    let expected = format!("{}{}\n{}\n{}", fg(Hue::DarkGrey), "─".repeat(60), RESET, RESET);
    assert_eq!(render("---", 80), expected);
    let narrow = format!("{}{}\n{}\n{}", fg(Hue::DarkGrey), "─".repeat(20), RESET, RESET);
    assert_eq!(render("---", 20), narrow);
}

#[test]
fn table_with_alignment() {
    let g = fg(Hue::DarkGrey);
    let w = fg(Hue::White);
    let sep = |l: &str, m: &str, r: &str, f: &str| format!("{}{}{}{}{}{}{}\n", g, l, f.repeat(5), m, f.repeat(5), r, RESET);
    let head = format!(
        "{g}│{r}{b}{w} a   {g}│{r}{b}{w}  b  {g}│{r}\n",
        g = g,
        r = RESET,
        b = BOLD,
        w = w
    );
    let body = format!("{g}│{r} 1   {g}│{r}  2  {g}│{r}\n", g = g, r = RESET);
    let expected = format!(
        "{}{}{}{}{}\n{}",
        sep("┌", "┬", "┐", "─"),
        head,
        sep("├", "┼", "┤", "─"),
        body,
        sep("└", "┴", "┘", "─"),
        RESET
    );
    assert_eq!(render("| a | b |\n|---|:-:|\n| 1 | 2 |", 80), expected);
}

#[test]
fn table_rows_are_separated_by_dashed_rules() {
    let out = render("| h |\n|--:|\n| 1 |\n| 2 |", 80);
    assert!(out.contains("├╌╌╌╌╌┤"));
    assert!(out.contains("   1 "));
}

#[test]
fn wide_table_cells_are_cut() {
    let out = render("| a |\n|---|\n| abcdefghijklmnopqrstuvwxyz |", 12);
    assert!(out.contains("abcdef…"));
}

#[test]
fn html_is_dimmed() {
    let expected = format!("{}<div>x</div>\n{}{}", fg(Hue::DarkGrey), RESET, RESET);
    assert_eq!(render("<div>x</div>\n", 80), expected);
}

#[test]
fn output_always_ends_with_reset() {
    for doc in ["", "# a", "- x", "> q", "| a |\n|---|\n| b |", "```\ncode\n```"] {
        assert!(render(doc, 80).ends_with(RESET));
    }
}

#[test]
fn render_markdown_matches_bytes() {
    let renderer = Renderer::with_terminal_width(Some(80));
    let pal = Palette::from_terminal();
    let s = renderer.render_markdown("**hi** there", &pal);
    let bytes = renderer.render_to_bytes("**hi** there").unwrap();
    assert_eq!(s.into_bytes(), bytes);
}

#[test]
fn long_list_item_wraps_under_its_text() {
    let expected = format!(
        "{}{}● {}aaa\n  bbb\n  ccc\n\n{}",
        fg(Hue::DarkCyan),
        BOLD,
        RESET,
        RESET
    );
    assert_eq!(render("- aaa bbb ccc", 8), expected);
}

#[test]
fn long_quote_wraps_behind_the_bar() {
    let line = |t: &str| format!("  {}▐ {}\x1b[3m{}\n", fg(Hue::DarkYellow), fg(Hue::White), t);
    let expected = format!("{}{}{}{}\n{}", line("aaa"), line("bbb"), line("ccc"), RESET, RESET);
    assert_eq!(render("> aaa bbb ccc", 9), expected);
}

#[test]
fn nested_quote_has_two_bars() {
    let out = render("> > deep", 80);
    assert!(out.contains("▐ ▐ "));
    assert!(out.contains("deep\n"));
}

#[test]
fn footnotes() {
    let out = render("a[^1]\n\n[^1]: note", 80);
    assert!(out.contains(&format!("{}[1]{}", fg(Hue::DarkCyan), RESET)));
    assert!(out.contains(&format!("{}[1]: ", fg(Hue::DarkGrey))));
    assert!(out.contains("note"));
}

#[test]
fn image_has_an_icon() {
    let expected = format!("{}🖼  alt{}\n{}", fg(Hue::DarkYellow), RESET, RESET);
    assert_eq!(render("![alt](pic.png)", 80), expected);
}

#[test]
fn long_paragraph_wraps_to_the_width() {
    let text = "word ".repeat(20);
    let out = render(&text, 40);
    let expected_line = |n: usize| vec!["word"; n].join(" ");
    let expected = format!(
        "{}\n{}\n{}\n{}",
        expected_line(7),
        expected_line(7),
        expected_line(6),
        RESET
    );
    assert_eq!(out, expected);
    for line in out.lines() {
        assert!(mdui::pager::strip_ansi(line).chars().count() <= 40);
    }
}

#[test]
fn styled_paragraph_wraps_with_its_styles() {
    let out = render("aaa **bbb** ccc", 9);
    assert_eq!(out, format!("aaa \x1b[1mbbb\x1b[22m\nccc\n{}", RESET));
}

#[test]
fn hard_break_ends_a_wrapped_line() {
    assert_eq!(render("one  \ntwo", 80), format!("one\ntwo\n{}", RESET));
}

#[test]
fn render_to_appends_after_existing_bytes() {
    let renderer = Renderer::with_terminal_width(Some(80));
    let mut out = b"before:".to_vec();
    renderer.render_to(&mut out, "# T").unwrap();
    let mut expected = b"before:".to_vec();
    expected.extend(renderer.render_to_bytes("# T").unwrap());
    assert_eq!(out, expected);
}

#[test]
fn cell_padding_by_alignment() {
    assert_eq!(cell_padding(Align::Unset, 7, 2), (0, 5));
    assert_eq!(cell_padding(Align::Left, 7, 2), (0, 5));
    assert_eq!(cell_padding(Align::Right, 7, 2), (5, 0));
    assert_eq!(cell_padding(Align::Center, 7, 2), (2, 3));
    assert_eq!(cell_padding(Align::Center, 3, 9), (0, 0));
}

#[test]
fn widen_widths_takes_the_larger() {
    let mut ws = vec![3, 10, 4];
    widen_widths(&mut ws, &vec![5, 2]);
    assert_eq!(ws, vec![5, 10, 4]);
    widen_widths(&mut ws, &vec![1, 1, 1, 50]);
    assert_eq!(ws, vec![5, 10, 4]);
}

#[test]
fn quote_lines_and_plain_lines() {
    let pal = Palette::from_terminal();
    let mut out = String::new();
    push_quote_lines(&mut out, &vec!["a".to_string(), "b".to_string()], "▐ ", &pal);
    let line = |t: &str| format!("  {}▐ {}\x1b[3m{}\n", fg(Hue::DarkYellow), fg(Hue::White), t);
    assert_eq!(out, format!("{}{}", line("a"), line("b")));
    let mut plain = String::from(">");
    push_lines(&mut plain, &vec!["x".to_string(), "y".to_string()]);
    assert_eq!(plain, ">x\ny\n");
}

#[test]
fn nested_styles_compose() {
    assert_eq!(render("***x***", 80), format!("\x1b[3m\x1b[1mx\x1b[22m\x1b[23m\n{}", RESET));
}

#[test]
fn quoted_paragraph_keeps_its_blank_line() {
    let out = render("> q\n\nafter", 80);
    assert!(out.ends_with(&format!("q\n{}\nafter\n{}", RESET, RESET)));
}
