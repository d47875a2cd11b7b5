use mdui::pager::{strip_ansi, Key, Pager, PagerAction, PagerEvent};

fn key(k: Key) -> PagerEvent {
    PagerEvent::Key(k, false)
}

fn ctrl(c: char) -> PagerEvent {
    PagerEvent::Key(Key::Char(c), true)
}

fn first_row(p: &Pager, h: u16) -> String {
    p.page_rows(h)[0].clone()
}

const DOC: &str = "alpha\nbeta\nGamma\ndelta\nepsilon";

#[test]
fn strip_ansi_removes_sequences() {
    assert_eq!(strip_ansi("\x1b[1mbold\x1b[0m"), "bold");
    assert_eq!(strip_ansi("a\x1b[38;5;13mb"), "ab");
    assert_eq!(strip_ansi("plain text"), "plain text");
    assert_eq!(strip_ansi(""), "");
}

#[test]
fn strip_ansi_drops_lone_escape() {
    assert_eq!(strip_ansi("\x1bXc"), "Xc");
    assert_eq!(strip_ansi("x\x1b"), "x");
    assert_eq!(strip_ansi("\x1b[unterminated"), "nterminated");
}

#[test]
fn strip_ansi_is_idempotent() {
    let once = strip_ansi("\x1b[3mit\x1b[23m and \x1b[1mbold\x1b[22m");
    assert_eq!(once, "it and bold");
    assert_eq!(strip_ansi(&once), once);
}

#[test]
fn page_rows_show_lines_from_offset() {
    let mut p = Pager::new(DOC);
    assert_eq!(p.page_rows(3), vec!["alpha".to_string(), "beta".to_string()]);
    assert_eq!(p.handle(key(Key::Down), 3), PagerAction::Redraw);
    assert_eq!(p.page_rows(3), vec!["beta".to_string(), "Gamma".to_string()]);
}

#[test]
fn rows_past_the_end_are_empty() {
    let p = Pager::new("one");
    assert_eq!(p.page_rows(4), vec!["one".to_string(), String::new(), String::new()]);
}

#[test]
fn scrolling_stays_in_bounds() {
    let mut p = Pager::new(DOC);
    p.handle(key(Key::Up), 3);
    assert_eq!(first_row(&p, 3), "alpha");
    p.handle(key(Key::End), 3);
    assert_eq!(first_row(&p, 3), "delta");
    p.handle(key(Key::Char('j')), 3);
    assert_eq!(first_row(&p, 3), "delta");
    p.handle(key(Key::Char('g')), 3);
    assert_eq!(first_row(&p, 3), "alpha");
    p.handle(key(Key::Char('G')), 3);
    assert_eq!(first_row(&p, 3), "delta");
    p.handle(key(Key::Home), 3);
    assert_eq!(first_row(&p, 3), "alpha");
}

#[test]
fn page_and_half_page_moves() {
    let mut p = Pager::new(DOC);
    p.handle(key(Key::PageDown), 3);
    assert_eq!(first_row(&p, 3), "Gamma");
    p.handle(key(Key::Char(' ')), 3);
    assert_eq!(first_row(&p, 3), "delta");
    p.handle(key(Key::Char('b')), 3);
    assert_eq!(first_row(&p, 3), "beta");
    p.handle(key(Key::PageUp), 3);
    assert_eq!(first_row(&p, 3), "alpha");
    p.handle(ctrl('d'), 5);
    assert_eq!(first_row(&p, 5), "beta");
    p.handle(ctrl('u'), 5);
    assert_eq!(first_row(&p, 5), "alpha");
    let long: Vec<String> = (0..10).map(|i| format!("l{}", i)).collect();
    let mut q = Pager::new(&long.join("\n"));
    q.handle(ctrl('d'), 5);
    assert_eq!(first_row(&q, 5), "l2");
    q.handle(ctrl('d'), 5);
    assert_eq!(first_row(&q, 5), "l4");
    q.handle(ctrl('u'), 5);
    assert_eq!(first_row(&q, 5), "l2");
}

#[test]
fn down_then_up_round_trip() {
    let mut p = Pager::new(DOC);
    p.handle(key(Key::Down), 3);
    p.handle(key(Key::Down), 3);
    p.handle(key(Key::Up), 3);
    assert_eq!(first_row(&p, 3), "beta");
}

#[test]
fn quit_keys() {
    let mut p = Pager::new(DOC);
    assert_eq!(p.handle(key(Key::Char('q')), 3), PagerAction::Quit);
    assert_eq!(p.handle(key(Key::Esc), 3), PagerAction::Quit);
    assert_eq!(p.handle(ctrl('c'), 3), PagerAction::Quit);
    assert_eq!(p.handle(key(Key::Char('c')), 3), PagerAction::Redraw);
}

#[test]
fn other_events() {
    let mut p = Pager::new(DOC);
    assert_eq!(p.handle(PagerEvent::Resize, 3), PagerAction::Redraw);
    assert_eq!(p.handle(PagerEvent::Other, 3), PagerAction::Wait);
    assert_eq!(p.handle(key(Key::Other), 3), PagerAction::Redraw);
}

#[test]
fn search_is_case_insensitive_and_jumps() {
    let mut p = Pager::new(DOC);
    assert_eq!(p.handle(key(Key::Char('/')), 3), PagerAction::DrawSearchBar);
    assert!(p.in_search());
    for c in "GAM".chars() {
        assert_eq!(p.handle(key(Key::Char(c)), 3), PagerAction::DrawSearchBar);
    }
    assert_eq!(p.search_input(), "GAM");
    p.handle(key(Key::Backspace), 3);
    assert_eq!(p.search_input(), "GA");
    assert_eq!(p.handle(key(Key::Enter), 3), PagerAction::DrawSearchBar);
    assert!(!p.in_search());
    assert_eq!(p.search_input(), "");
    assert_eq!(first_row(&p, 3), "Gamma");
    assert!(p.status_bar(60, 3).contains("│ \"GA\" 1/1"));
}

#[test]
fn search_ignores_escape_sequences() {
    let mut p = Pager::new("\x1b[1mred\x1b[0m\nplain\nalso red");
    p.handle(key(Key::Char('/')), 10);
    p.handle(key(Key::Char('r')), 10);
    p.handle(key(Key::Char('e')), 10);
    p.handle(key(Key::Char('d')), 10);
    p.handle(key(Key::Enter), 10);
    assert!(p.status_bar(60, 10).contains("\"red\" 1/2"));
    p.handle(key(Key::Char('n')), 10);
    assert!(p.status_bar(60, 10).contains("\"red\" 2/2"));
    p.handle(key(Key::Char('n')), 10);
    assert!(p.status_bar(60, 10).contains("\"red\" 1/2"));
    p.handle(key(Key::Char('N')), 10);
    assert!(p.status_bar(60, 10).contains("\"red\" 2/2"));
}

#[test]
fn search_without_match() {
    let mut p = Pager::new(DOC);
    p.handle(key(Key::Down), 3);
    p.handle(key(Key::Char('/')), 3);
    p.handle(key(Key::Char('z')), 3);
    p.handle(key(Key::Enter), 3);
    assert_eq!(first_row(&p, 3), "beta");
    assert!(p.status_bar(60, 3).contains("\"z\" no match"));
    p.handle(key(Key::Char('n')), 3);
    assert_eq!(first_row(&p, 3), "beta");
}

#[test]
fn abandoned_search_changes_nothing() {
    let mut p = Pager::new(DOC);
    p.handle(key(Key::Down), 3);
    let before = p.status_bar(60, 3);
    p.handle(key(Key::Char('/')), 3);
    p.handle(key(Key::Char('q')), 3);
    assert!(p.in_search());
    assert_eq!(p.handle(key(Key::Esc), 3), PagerAction::DrawSearchBar);
    assert!(!p.in_search());
    assert_eq!(p.search_input(), "");
    assert_eq!(p.status_bar(60, 3), before);
}

#[test]
fn status_bar_text_and_padding() {
    let p = Pager::new(DOC);
    let expected = " 1/5 (40%) │ q:quit ↑↓:scroll /:search ";
    assert_eq!(p.status_bar(0, 3), expected);
    let padded = p.status_bar(50, 3);
    assert_eq!(padded.chars().count(), 50);
    assert!(padded.starts_with(expected));
    assert!(padded[expected.len()..].chars().all(|c| c == ' '));
}

#[test]
fn status_bar_at_bottom_is_100_percent() {
    let mut p = Pager::new(DOC);
    p.handle(key(Key::End), 3);
    assert_eq!(p.status_bar(0, 3), " 4/5 (100%) │ q:quit ↑↓:scroll /:search ");
}

#[test]
fn status_bar_of_empty_document() {
    let p = Pager::new("");
    assert_eq!(p.status_bar(0, 3), " 0/0 (100%) │ q:quit ↑↓:scroll /:search ");
}
