use mdui::blocks::lang_to_icon;
use mdui::measure::truncate_to_width;
use mdui::text::{chars_of, push_decimal, split_lines, trim_chars};

#[test]
fn truncate_keeps_short_text() {
    assert_eq!(truncate_to_width("hello", 10), "hello");
    assert_eq!(truncate_to_width("hello", 6), "hello");
    assert_eq!(truncate_to_width("", 5), "");
}

#[test]
fn truncate_cuts_with_ellipsis() {
    assert_eq!(truncate_to_width("hello world", 6), "hello…");
    assert_eq!(truncate_to_width("hello", 5), "hell…");
}

#[test]
fn truncate_below_two_columns() {
    assert_eq!(truncate_to_width("hello", 1), "…");
    assert_eq!(truncate_to_width("", 0), "…");
}

#[test]
fn truncate_counts_wide_characters() {
    assert_eq!(truncate_to_width("日本語", 4), "日…");
    assert_eq!(truncate_to_width("日本語", 7), "日本語");
}

#[test]
fn truncate_counts_control_characters_as_zero() {
    assert_eq!(truncate_to_width("a\tb", 3), "a\tb");
}

#[test]
fn icons_for_languages() {
    assert_eq!(lang_to_icon("rust"), "🦀");
    assert_eq!(lang_to_icon("rs"), "🦀");
    assert_eq!(lang_to_icon("python"), "🐍");
    assert_eq!(lang_to_icon("js"), "📜");
    assert_eq!(lang_to_icon("ts"), "📘");
    assert_eq!(lang_to_icon("go"), "🐹");
    assert_eq!(lang_to_icon("zsh"), "🐚");
    assert_eq!(lang_to_icon("sql"), "🗃️");
    assert_eq!(lang_to_icon("html"), "🌐");
    assert_eq!(lang_to_icon("css"), "🎨");
    assert_eq!(lang_to_icon("json"), "📋");
    assert_eq!(lang_to_icon("toml"), "⚙️");
    assert_eq!(lang_to_icon("docker"), "🐳");
    assert_eq!(lang_to_icon("c++"), "⚡");
    assert_eq!(lang_to_icon("java"), "☕");
    assert_eq!(lang_to_icon("rb"), "💎");
    assert_eq!(lang_to_icon("swift"), "🐦");
    assert_eq!(lang_to_icon("kt"), "🟣");
    assert_eq!(lang_to_icon("lua"), "🌙");
    assert_eq!(lang_to_icon("php"), "🐘");
    assert_eq!(lang_to_icon("r"), "📊");
    assert_eq!(lang_to_icon("md"), "📝");
    assert_eq!(lang_to_icon("svelte"), "🔶");
    assert_eq!(lang_to_icon("vue"), "💚");
    assert_eq!(lang_to_icon("ex"), "💧");
    assert_eq!(lang_to_icon("hs"), "λ");
    assert_eq!(lang_to_icon("zig"), "⚡");
}

#[test]
fn unknown_language_gets_a_page() {
    assert_eq!(lang_to_icon("cobol"), "📄");
    assert_eq!(lang_to_icon("Rust"), "📄");
    assert_eq!(lang_to_icon(""), "📄");
}

#[test]
fn decimal_digits() {
    let mut s = String::from("n=");
    push_decimal(&mut s, 0);
    s.push(' ');
    push_decimal(&mut s, 1907);
    s.push(' ');
    push_decimal(&mut s, u64::MAX);
    assert_eq!(s, "n=0 1907 18446744073709551615");
}

#[test]
fn lines_like_str_lines() {
    for text in ["a\nb", "a\r\nb\n", "", "\n", "x\n\ny", "end\r"] {
        let expected: Vec<String> = text.lines().map(|l| l.to_string()).collect();
        assert_eq!(split_lines(text), expected);
    }
}

#[test]
fn trimming() {
    let t = trim_chars(&chars_of("  \t hi there \n"));
    assert_eq!(t.iter().collect::<String>(), "hi there");
    assert!(trim_chars(&chars_of("   ")).is_empty());
}
