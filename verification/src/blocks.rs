//! The block-level pieces of a rendered document: headings, code blocks, quotes, wrapped
//! paragraphs and list items.

use vstd::prelude::*;
use crate::measure::{str_columns, str_width, truncate_to_width, truncated, wrap_text, wrapped_lines};
use crate::style::{attr_sequence, attr_sgr, Attr, Hue, Palette, PaletteView};
use crate::text::{
    chars_of, decimal, has_prefix, lines_of, push_chars, push_char, push_decimal, push_repeated,
    repeated, split_lines, starts_with, string_of, trim_chars, trimmed,
};

verus! {

/// Which of the six heading styles a level uses: level 1 the first, level 6 and beyond the last.
pub open spec fn heading_style(level: u8) -> int {
    let l: int = if level >= 1 { level - 1 } else { 0 };
    if l > 5 { 5 } else { l }
}

/// The colour of each heading style.
pub open spec fn heading_hue(style: int) -> Hue {
    if style == 0 { Hue::Magenta } else if style == 1 { Hue::Blue } else if style == 2 { Hue::Cyan }
    else if style == 3 { Hue::Green } else if style == 4 { Hue::Yellow } else { Hue::Red }
}

/// The icon of each heading style.
pub open spec fn heading_icon(style: int) -> Seq<char> {
    if style == 0 { "◉"@ } else if style == 1 { "◈"@ } else if style == 2 { "◆"@ }
    else if style == 3 { "▸"@ } else if style == 4 { "▪"@ } else { "▫"@ }
}

fn heading_style_of(level: u8) -> (s: usize)
    ensures
        s == heading_style(level),
        s <= 5,
{
    let l: u8 = if level >= 1 { level - 1 } else { 0 };
    if l > 5 { 5 } else { l as usize }
}

fn heading_hue_of(style: usize) -> (h: Hue)
    ensures
        h == heading_hue(style as int),
{
    if style == 0 { Hue::Magenta } else if style == 1 { Hue::Blue } else if style == 2 { Hue::Cyan }
    else if style == 3 { Hue::Green } else if style == 4 { Hue::Yellow } else { Hue::Red }
}

fn heading_icon_of(style: usize) -> (s: &'static str)
    ensures
        s@ == heading_icon(style as int),
{
    if style == 0 { "◉" } else if style == 1 { "◈" } else if style == 2 { "◆" }
    else if style == 3 { "▸" } else if style == 4 { "▪" } else { "▫" }
}

/// `min(a, b)` on integers.
pub open spec fn min_int(a: int, b: int) -> int {
    if a <= b { a } else { b }
}

/// `a - b`, or zero when `b` is the larger (what `saturating_sub` computes).
pub open spec fn minus(a: int, b: int) -> int {
    if a >= b { a - b } else { 0 }
}

/// `min(a + b, c)` without overflow.
fn add_min(a: usize, b: usize, c: usize) -> (r: usize)
    ensures
        r == min_int(a + b, c as int),
{
    if a > c || b > c - a { c } else { a + b }
}

/// `c - (a + b)`, or zero, without overflow.
fn sub_sum(c: usize, a: usize, b: usize) -> (r: usize)
    ensures
        r == minus(c as int, a + b),
{
    if a > c || b > c - a { 0 } else { c - a - b }
}

/// The rule above and below a heading of the first two levels.
pub open spec fn heading_bar(level: u8, bar: int) -> Seq<char> {
    if level <= 2 {
        repeated("━"@, bar as nat) + seq!['\n']
    } else {
        Seq::empty()
    }
}

/// A rendered heading: a blank line, then in the style's colour and in bold the heading's
/// icon and text, between two rules as wide as the text plus four (at most the terminal's
/// width) for levels 1 and 2, then a blank line.
pub open spec fn heading_out(level: u8, text: Seq<char>, width: usize, pal: PaletteView) -> Seq<char> {
    let style = heading_style(level);
    let bar = min_int(str_columns(text) + 4, width as int);
    seq!['\n'] + pal.fg_of(heading_hue(style)) + attr_sgr(Attr::Bold) + heading_bar(level, bar)
        + seq![' '] + heading_icon(style) + seq![' '] + text + seq!['\n'] + heading_bar(level, bar)
        + attr_sgr(Attr::Reset) + seq!['\n']
}

/// Writes a heading.
pub fn render_heading(out: &mut String, width: usize, pal: &Palette, level: u8, text: &str)
    ensures
        final(out)@ == old(out)@ + heading_out(level, text@, width, pal@),
{
    let style = heading_style_of(level);
    push_char(out, '\n');
    out.append(pal.fg(heading_hue_of(style)));
    out.append(&attr_sequence(Attr::Bold));
    let bar = add_min(str_width(text), 4, width);
    let ghost with_bar = out@;
    if level <= 2 {
        push_repeated(out, "━", bar);
        push_char(out, '\n');
    }
    assert(out@ =~= with_bar + heading_bar(level, bar as int));
    push_char(out, ' ');
    out.append(heading_icon_of(style));
    push_char(out, ' ');
    out.append(text);
    push_char(out, '\n');
    let ghost with_text = out@;
    if level <= 2 {
        push_repeated(out, "━", bar);
        push_char(out, '\n');
    }
    assert(out@ =~= with_text + heading_bar(level, bar as int));
    out.append(&attr_sequence(Attr::Reset));
    push_char(out, '\n');
    assert(out@ =~= old(out)@ + heading_out(level, text@, width, pal@));
}

} // verus!

verus! {

/// The icon shown for a code block's language.
pub open spec fn lang_icon(lang: Seq<char>) -> Seq<char> {
    if lang == "rust"@ || lang == "rs"@ { "🦀"@ }
    else if lang == "python"@ || lang == "py"@ { "🐍"@ }
    else if lang == "javascript"@ || lang == "js"@ { "📜"@ }
    else if lang == "typescript"@ || lang == "ts"@ { "📘"@ }
    else if lang == "go"@ { "🐹"@ }
    else if lang == "bash"@ || lang == "sh"@ || lang == "shell"@ || lang == "zsh"@ { "🐚"@ }
    else if lang == "sql"@ { "🗃️"@ }
    else if lang == "html"@ { "🌐"@ }
    else if lang == "css"@ { "🎨"@ }
    else if lang == "json"@ { "📋"@ }
    else if lang == "yaml"@ || lang == "yml"@ || lang == "toml"@ { "⚙️"@ }
    else if lang == "dockerfile"@ || lang == "docker"@ { "🐳"@ }
    else if lang == "c"@ || lang == "cpp"@ || lang == "c++"@ { "⚡"@ }
    else if lang == "java"@ { "☕"@ }
    else if lang == "ruby"@ || lang == "rb"@ { "💎"@ }
    else if lang == "swift"@ { "🐦"@ }
    else if lang == "kotlin"@ || lang == "kt"@ { "🟣"@ }
    else if lang == "lua"@ { "🌙"@ }
    else if lang == "php"@ { "🐘"@ }
    else if lang == "r"@ { "📊"@ }
    else if lang == "markdown"@ || lang == "md"@ { "📝"@ }
    else if lang == "svelte"@ { "🔶"@ }
    else if lang == "vue"@ { "💚"@ }
    else if lang == "elixir"@ || lang == "ex"@ { "💧"@ }
    else if lang == "haskell"@ || lang == "hs"@ { "λ"@ }
    else if lang == "zig"@ { "⚡"@ }
    else { "📄"@ }
}

/// Tests whether `a` holds exactly the characters of `b`.
fn is_text(a: &Vec<char>, b: &str) -> (r: bool)
    ensures
        r == (a@ == b@),
{
    let bs = chars_of(b);
    if a.len() != bs.len() {
        return false;
    }
    let n = a.len();
    for i in 0..n
        invariant
            n == a@.len(),
            n == bs@.len(),
            bs@ == b@,
            forall|k: int| 0 <= k < i ==> a@[k] == bs@[k],
    {
        if a[i] != bs[i] {
            return false;
        }
    }
    assert(a@ =~= bs@);
    true
}

/// The icon for a code block's language.
pub fn lang_to_icon(lang: &str) -> (icon: &'static str)
    ensures
        icon@ == lang_icon(lang@),
{
    let l = chars_of(lang);
    if is_text(&l, "rust") || is_text(&l, "rs") { "🦀" }
    else if is_text(&l, "python") || is_text(&l, "py") { "🐍" }
    else if is_text(&l, "javascript") || is_text(&l, "js") { "📜" }
    else if is_text(&l, "typescript") || is_text(&l, "ts") { "📘" }
    else if is_text(&l, "go") { "🐹" }
    else if is_text(&l, "bash") || is_text(&l, "sh") || is_text(&l, "shell") || is_text(&l, "zsh") { "🐚" }
    else if is_text(&l, "sql") { "🗃️" }
    else if is_text(&l, "html") { "🌐" }
    else if is_text(&l, "css") { "🎨" }
    else if is_text(&l, "json") { "📋" }
    else if is_text(&l, "yaml") || is_text(&l, "yml") || is_text(&l, "toml") { "⚙️" }
    else if is_text(&l, "dockerfile") || is_text(&l, "docker") { "🐳" }
    else if is_text(&l, "c") || is_text(&l, "cpp") || is_text(&l, "c++") { "⚡" }
    else if is_text(&l, "java") { "☕" }
    else if is_text(&l, "ruby") || is_text(&l, "rb") { "💎" }
    else if is_text(&l, "swift") { "🐦" }
    else if is_text(&l, "kotlin") || is_text(&l, "kt") { "🟣" }
    else if is_text(&l, "lua") { "🌙" }
    else if is_text(&l, "php") { "🐘" }
    else if is_text(&l, "r") { "📊" }
    else if is_text(&l, "markdown") || is_text(&l, "md") { "📝" }
    else if is_text(&l, "svelte") { "🔶" }
    else if is_text(&l, "vue") { "💚" }
    else if is_text(&l, "elixir") || is_text(&l, "ex") { "💧" }
    else if is_text(&l, "haskell") || is_text(&l, "hs") { "λ" }
    else if is_text(&l, "zig") { "⚡" }
    else { "📄" }
}

/// `s` without its trailing newlines (what `trim_end_matches('\n')` gives).
pub open spec fn without_trailing_newlines(s: Seq<char>) -> Seq<char>
    decreases s.len(),
{
    if s.len() > 0 && s.last() == '\n' {
        without_trailing_newlines(s.drop_last())
    } else {
        s
    }
}

fn strip_trailing_newlines(s: &str) -> (r: String)
    ensures
        r@ == without_trailing_newlines(s@),
{
    let mut cs = chars_of(s);
    while cs.len() > 0 && cs[cs.len() - 1] == '\n'
        invariant
            without_trailing_newlines(s@) == without_trailing_newlines(cs@),
        decreases cs.len(),
    {
        let ghost before = cs@;
        cs.pop();
        assert(cs@ =~= before.drop_last());
    }
    string_of(cs.as_slice())
}

/// The width that a code block's frame spans: the terminal's width less four.
pub open spec fn code_frame_width(width: usize) -> int {
    minus(width as int, 4)
}

/// The first line of a code block's frame, naming the language (with its icon) when there
/// is one.
pub open spec fn code_header(lang: Seq<char>, frame: int, pal: PaletteView) -> Seq<char> {
    pal.fg_of(Hue::DarkGrey) + attr_sgr(Attr::Bold) + (if lang.len() > 0 {
        "┌─ "@ + lang_icon(lang) + " "@ + lang + " ─"@
            + repeated("─"@, minus(frame, (vstd::utf8::encode_utf8(lang).len() as usize) + 7) as nat)
    } else {
        "┌"@ + repeated("─"@, frame as nat)
    }) + seq!['\n'] + attr_sgr(Attr::Reset)
}

/// One line of code inside the frame, cut with an ellipsis when it is wider than the frame
/// less two.
pub open spec fn code_line_out(line: Seq<char>, frame: int, pal: PaletteView) -> Seq<char> {
    let room = minus(frame, 2);
    pal.fg_of(Hue::DarkGrey) + "│ "@ + pal.fg_of(Hue::Green)
        + (if str_columns(line) > room { truncated(line, room as usize) } else { line }) + seq!['\n']
}

/// The lines of code inside the frame.
pub open spec fn code_lines_out(lines: Seq<Seq<char>>, frame: int, pal: PaletteView) -> Seq<char>
    decreases lines.len(),
{
    if lines.len() == 0 {
        Seq::empty()
    } else {
        code_lines_out(lines.drop_last(), frame, pal) + code_line_out(lines.last(), frame, pal)
    }
}

/// A rendered code block: the header, each line of the code (trailing newlines dropped),
/// and the bottom of the frame.
pub open spec fn code_block_out(lang: Seq<char>, code: Seq<char>, width: usize, pal: PaletteView) -> Seq<char> {
    let frame = code_frame_width(width);
    code_header(lang, frame, pal) + code_lines_out(lines_of(without_trailing_newlines(code)), frame, pal)
        + pal.fg_of(Hue::DarkGrey) + "└"@ + repeated("─"@, frame as nat) + seq!['\n'] + attr_sgr(Attr::Reset)
}

fn push_code_header(out: &mut String, frame: usize, pal: &Palette, lang: &str)
    ensures
        final(out)@ == old(out)@ + code_header(lang@, frame as int, pal@),
{
    out.append(pal.fg(Hue::DarkGrey));
    out.append(&attr_sequence(Attr::Bold));
    let ghost opened = out@;
    if !lang.is_empty() {
        let icon = lang_to_icon(lang);
        let fill = sub_sum(frame, lang.len(), 7);
        out.append("┌─ ");
        out.append(icon);
        out.append(" ");
        out.append(lang);
        out.append(" ─");
        push_repeated(out, "─", fill);
    } else {
        out.append("┌");
        push_repeated(out, "─", frame);
    }
    let ghost framed = out@;
    push_char(out, '\n');
    out.append(&attr_sequence(Attr::Reset));
    assert(out@ =~= old(out)@ + code_header(lang@, frame as int, pal@)) by {
        assert(framed == opened + (framed.subrange(opened.len() as int, framed.len() as int)));
    }
}

fn push_code_line(out: &mut String, frame: usize, pal: &Palette, line: &str)
    ensures
        final(out)@ == old(out)@ + code_line_out(line@, frame as int, pal@),
{
    let room = frame.saturating_sub(2);
    out.append(pal.fg(Hue::DarkGrey));
    out.append("│ ");
    out.append(pal.fg(Hue::Green));
    if str_width(line) > room {
        let cut = truncate_to_width(line, room);
        out.append(&cut);
    } else {
        out.append(line);
    }
    push_char(out, '\n');
    assert(out@ =~= old(out)@ + code_line_out(line@, frame as int, pal@));
}

/// Writes a code block.
pub fn render_code_block(out: &mut String, width: usize, pal: &Palette, lang: &str, code: &str)
    ensures
        final(out)@ == old(out)@ + code_block_out(lang@, code@, width, pal@),
{
    let frame = width.saturating_sub(4);
    push_code_header(out, frame, pal, lang);
    let stripped = strip_trailing_newlines(code);
    let lines = split_lines(&stripped);
    let ghost start = out@;
    let n = lines.len();
    for i in 0..n
        invariant
            n == lines.deep_view().len(),
            out@ == start + code_lines_out(lines.deep_view().take(i as int), frame as int, pal@),
    {
        let ghost before = out@;
        push_code_line(out, frame, pal, lines[i].as_str());
        proof {
            let taken = lines.deep_view().take(i + 1);
            assert(taken.drop_last() =~= lines.deep_view().take(i as int));
            assert(taken.last() == lines[i as int]@);
        }
    }
    assert(lines.deep_view().take(n as int) =~= lines.deep_view());
    let ghost body = out@;
    out.append(pal.fg(Hue::DarkGrey));
    out.append("└");
    push_repeated(out, "─", frame);
    push_char(out, '\n');
    out.append(&attr_sequence(Attr::Reset));
    assert(out@ =~= old(out)@ + code_block_out(lang@, code@, width, pal@));
}

} // verus!

verus! {

/// Lines of text, each followed by a newline.
pub open spec fn plain_lines_out(lines: Seq<Seq<char>>) -> Seq<char>
    decreases lines.len(),
{
    if lines.len() == 0 {
        Seq::empty()
    } else {
        plain_lines_out(lines.drop_last()) + lines.last() + seq!['\n']
    }
}

/// Writes each line followed by a newline.
pub fn push_lines(out: &mut String, lines: &Vec<String>)
    ensures
        final(out)@ == old(out)@ + plain_lines_out(lines.deep_view()),
{
    let n = lines.len();
    for i in 0..n
        invariant
            n == lines.deep_view().len(),
            out@ == old(out)@ + plain_lines_out(lines.deep_view().take(i as int)),
    {
        out.append(lines[i].as_str());
        push_char(out, '\n');
        proof {
            let taken = lines.deep_view().take(i + 1);
            assert(taken.drop_last() =~= lines.deep_view().take(i as int));
            assert(taken.last() == lines[i as int]@);
            assert(out@ =~= old(out)@ + plain_lines_out(taken));
        }
    }
    assert(lines.deep_view().take(n as int) =~= lines.deep_view());
}

/// A paragraph wrapped to the terminal's width less two, later lines indented by
/// `continuation`.
pub open spec fn wrapped_out(text: Seq<char>, continuation: Seq<char>, width: usize) -> Seq<char> {
    plain_lines_out(wrapped_lines(text, minus(width as int, 2) as usize, continuation))
}

/// Writes a paragraph wrapped to the terminal's width less two.
pub fn render_wrapped(out: &mut String, width: usize, text: &str, continuation: &str)
    ensures
        final(out)@ == old(out)@ + wrapped_out(text@, continuation@, width),
{
    let lines = wrap_text(text, width.saturating_sub(2), continuation);
    push_lines(out, &lines);
}

/// The quote bar drawn once for each level of nesting.
pub open spec fn quote_prefix(depth: usize) -> Seq<char> {
    repeated("▐ "@, depth as nat)
}

/// The lines of a quote, each indented, behind the quote bars, in italics.
pub open spec fn quote_lines_out(lines: Seq<Seq<char>>, prefix: Seq<char>, pal: PaletteView) -> Seq<char>
    decreases lines.len(),
{
    if lines.len() == 0 {
        Seq::empty()
    } else {
        quote_lines_out(lines.drop_last(), prefix, pal) + "  "@ + pal.fg_of(Hue::DarkYellow) + prefix
            + pal.fg_of(Hue::White) + attr_sgr(Attr::Italic) + lines.last() + seq!['\n']
    }
}

/// A quoted paragraph at a nesting depth: wrapped to what the bars and the indent leave of
/// the terminal's width.
pub open spec fn quote_out(text: Seq<char>, depth: usize, width: usize, pal: PaletteView) -> Seq<char> {
    let prefix = quote_prefix(depth);
    let room = minus(width as int, str_columns(prefix) + 2);
    quote_lines_out(wrapped_lines(text, room as usize, ""@), prefix, pal) + attr_sgr(Attr::Reset)
}

/// Writes a quoted paragraph.
pub fn render_block_quote_line(out: &mut String, width: usize, pal: &Palette, text: &str, depth: usize)
    ensures
        final(out)@ == old(out)@ + quote_out(text@, depth, width, pal@),
{
    let mut prefix = String::new();
    push_repeated(&mut prefix, "▐ ", depth);
    assert(prefix@ =~= quote_prefix(depth));
    let room = sub_sum(width, str_width(prefix.as_str()), 2);
    let lines = wrap_text(text, room, "");
    push_quote_lines(out, &lines, prefix.as_str(), pal);
    out.append(&attr_sequence(Attr::Reset));
}

/// Writes the lines of a quote, each indented, behind the quote bars `prefix`, in italics.
pub fn push_quote_lines(out: &mut String, lines: &Vec<String>, prefix: &str, pal: &Palette)
    ensures
        final(out)@ == old(out)@ + quote_lines_out(lines.deep_view(), prefix@, pal@),
{
    let n = lines.len();
    for i in 0..n
        invariant
            n == lines.deep_view().len(),
            out@ == old(out)@ + quote_lines_out(lines.deep_view().take(i as int), prefix@, pal@),
    {
        out.append("  ");
        out.append(pal.fg(Hue::DarkYellow));
        out.append(prefix);
        out.append(pal.fg(Hue::White));
        out.append(&attr_sequence(Attr::Italic));
        out.append(lines[i].as_str());
        push_char(out, '\n');
        proof {
            let taken = lines.deep_view().take(i + 1);
            assert(taken.drop_last() =~= lines.deep_view().take(i as int));
            assert(taken.last() == lines[i as int]@);
            assert(out@ =~= old(out)@ + quote_lines_out(taken, prefix@, pal@));
        }
    }
    assert(lines.deep_view().take(n as int) =~= lines.deep_view());
}

/// An open list: whether it is numbered, the number of its next item, and its nesting depth.
#[derive(Clone, Copy, Debug, PartialEq, Eq)]
pub struct ListCtx {
    pub ordered: bool,
    pub index: u64,
    pub depth: usize,
}

/// The bullet of an unordered list at a depth: `●`, `○`, `■`, then `□` for every deeper level.
pub open spec fn bullet(depth: usize) -> Seq<char> {
    if depth == 0 { "●"@ } else if depth == 1 { "○"@ } else if depth == 2 { "■"@ } else { "□"@ }
}

fn bullet_of(depth: usize) -> (s: &'static str)
    ensures
        s@ == bullet(depth),
{
    if depth == 0 { "●" } else if depth == 1 { "○" } else if depth == 2 { "■" } else { "□" }
}

/// The marker of the next item of a list: its number and a dot, or the bullet.
pub open spec fn item_marker(list: ListCtx) -> Seq<char> {
    if list.ordered {
        decimal(list.index as nat) + "."@
    } else {
        bullet(list.depth)
    }
}

/// The list after one more item: a numbered list counts on (wrapping past the largest `u64`).
pub open spec fn advanced(list: ListCtx) -> ListCtx {
    if list.ordered {
        ListCtx { index: if list.index == u64::MAX { 0 } else { (list.index + 1) as u64 }, ..list }
    } else {
        list
    }
}

/// An item's text with a task marker (`[x] `, `[X] `, `[ ] `) turned into a check box.
pub open spec fn task_display(text: Seq<char>) -> Seq<char> {
    if has_prefix(text, "[x] "@) || has_prefix(text, "[X] "@) {
        "☑ "@ + text.skip(4)
    } else if has_prefix(text, "[ ] "@) {
        "☐ "@ + text.skip(4)
    } else {
        text
    }
}

/// The indent, the marker and a space that start a list item.
pub open spec fn item_prefix(list: ListCtx) -> Seq<char> {
    repeated("  "@, list.depth as nat) + item_marker(list) + " "@
}

/// The text of an item after its prefix: on one line when it fits what the prefix leaves
/// of the terminal's width (less one), else wrapped there, later lines indented under the text.
pub open spec fn item_body(display: Seq<char>, prefix_width: usize, width: usize) -> Seq<char> {
    let room = minus(width as int, prefix_width + 1);
    if str_columns(display) <= room {
        display + seq!['\n']
    } else {
        plain_lines_out(wrapped_lines(display, room as usize, repeated(" "@, prefix_width as nat)))
    }
}

/// A rendered list item: its prefix in bold cyan, then its body.
pub open spec fn list_item_out(list: ListCtx, text: Seq<char>, width: usize, pal: PaletteView) -> Seq<char> {
    let prefix = item_prefix(list);
    pal.fg_of(Hue::DarkCyan) + attr_sgr(Attr::Bold) + prefix + attr_sgr(Attr::Reset)
        + item_body(task_display(text), str_columns(prefix), width)
}

/// What ending a list item writes and leaves of the open lists: nothing when its trimmed
/// text is empty or no list is open; else the item, rendered in the innermost list, which
/// counts on.
pub open spec fn flush_item(lists: Seq<ListCtx>, buf: Seq<char>, width: usize, pal: PaletteView) -> (Seq<char>, Seq<ListCtx>) {
    let text = trimmed(buf);
    if text.len() == 0 || lists.len() == 0 {
        (Seq::empty(), lists)
    } else {
        (list_item_out(lists.last(), text, width, pal), lists.update(lists.len() - 1, advanced(lists.last())))
    }
}

fn display_of(text: &Vec<char>) -> (d: String)
    ensures
        d@ == task_display(text@),
{
    let checked = starts_with(text.as_slice(), chars_of("[x] ").as_slice())
        || starts_with(text.as_slice(), chars_of("[X] ").as_slice());
    let open = starts_with(text.as_slice(), chars_of("[ ] ").as_slice());
    if checked || open {
        let mut d = String::new();
        d.append(if checked { "☑ " } else { "☐ " });
        let n = text.len();
        let mut i: usize = 4;
        proof {
            reveal_strlit("[x] ");
            reveal_strlit("[X] ");
            reveal_strlit("[ ] ");
        }
        assert(text@.subrange(4, 4) =~= Seq::<char>::empty());
        while i < n
            invariant
                4 <= i <= n,
                n == text@.len(),
                d@ == (if checked { "☑ "@ } else { "☐ "@ }) + text@.subrange(4, i as int),
            decreases n - i,
        {
            push_char(&mut d, text[i]);
            i += 1;
            assert(text@.subrange(4, i as int) =~= text@.subrange(4, i - 1).push(text@[i - 1]));
        }
        assert(text@.subrange(4, n as int) =~= text@.skip(4));
        d
    } else {
        string_of(text.as_slice())
    }
}

fn push_item_body(out: &mut String, width: usize, display: &String, prefix_width: usize)
    ensures
        final(out)@ == old(out)@ + item_body(display@, prefix_width, width),
{
    let room = sub_sum(width, prefix_width, 1);
    if str_width(display.as_str()) <= room {
        out.append(display.as_str());
        push_char(out, '\n');
    } else {
        let mut indent = String::new();
        push_repeated(&mut indent, " ", prefix_width);
        let lines = wrap_text(display.as_str(), room, indent.as_str());
        push_lines(out, &lines);
    }
}

/// Ends a list item: writes the buffered text as an item of the innermost list, and empties
/// the buffer.
pub fn flush_list_item(out: &mut String, width: usize, pal: &Palette, lists: &mut Vec<ListCtx>, buf: &mut String)
    ensures
        final(out)@ == old(out)@ + flush_item(old(lists)@, old(buf)@, width, pal@).0,
        final(lists)@ == flush_item(old(lists)@, old(buf)@, width, pal@).1,
        final(buf)@ == Seq::<char>::empty(),
{
    let text = trim_chars(&chars_of(buf.as_str()));
    *buf = String::new();
    if text.len() == 0 || lists.len() == 0 {
        return;
    }
    let last = lists.len() - 1;
    let list = lists[last];
    let mut prefix = String::new();
    push_repeated(&mut prefix, "  ", list.depth);
    if list.ordered {
        push_decimal(&mut prefix, list.index);
        prefix.append(".");
        let next = if list.index == u64::MAX { 0 } else { list.index + 1 };
        lists.set(last, ListCtx { index: next, ..list });
    } else {
        prefix.append(bullet_of(list.depth));
    }
    prefix.append(" ");
    assert(prefix@ =~= item_prefix(list));
    let display = display_of(&text);
    out.append(pal.fg(Hue::DarkCyan));
    out.append(&attr_sequence(Attr::Bold));
    out.append(prefix.as_str());
    out.append(&attr_sequence(Attr::Reset));
    push_item_body(out, width, &display, str_width(prefix.as_str()));
    assert(out@ =~= old(out)@ + flush_item(old(lists)@, old(buf)@, width, pal@).0);
    assert(lists@ =~= flush_item(old(lists)@, old(buf)@, width, pal@).1);
}

} // verus!

verus! {

proof fn code_lines_flatten(lines: Seq<Seq<char>>, frame: int, pal: PaletteView)
    ensures
        code_lines_out(lines, frame, pal) == lines.map_values(|l: Seq<char>| code_line_out(l, frame, pal)).flatten_alt(),
    decreases lines.len(),
{
    let framed = lines.map_values(|l: Seq<char>| code_line_out(l, frame, pal));
    if lines.len() > 0 {
        code_lines_flatten(lines.drop_last(), frame, pal);
        assert(framed.drop_last() =~= lines.drop_last().map_values(|l: Seq<char>| code_line_out(l, frame, pal)));
        assert(framed.last() == code_line_out(lines.last(), frame, pal));
    }
}

/// A code block shows every line of its code, blank lines included, one framed line each
/// and in order: the block is its header, then for each line of the code (trailing newlines
/// removed) that line in the frame, then the bottom of the frame.
pub proof fn code_block_frames_every_line(lang: Seq<char>, code: Seq<char>, width: usize, pal: PaletteView)
    ensures
        ({
            let frame = code_frame_width(width);
            let lines = lines_of(without_trailing_newlines(code));
            code_block_out(lang, code, width, pal) == code_header(lang, frame, pal)
                + lines.map_values(|l: Seq<char>| code_line_out(l, frame, pal)).flatten()
                + pal.fg_of(Hue::DarkGrey) + "└"@ + repeated("─"@, frame as nat) + seq!['\n'] + attr_sgr(Attr::Reset)
        }),
        forall|line: Seq<char>, frame: int| #![trigger code_line_out(line, frame, pal)]
            code_line_out(line, frame, pal) == pal.fg_of(Hue::DarkGrey) + "│ "@ + pal.fg_of(Hue::Green)
                + (if str_columns(line) > minus(frame, 2) { truncated(line, minus(frame, 2) as usize) } else { line })
                + seq!['\n'],
{
    let frame = code_frame_width(width);
    let lines = lines_of(without_trailing_newlines(code));
    code_lines_flatten(lines, frame, pal);
    lines.map_values(|l: Seq<char>| code_line_out(l, frame, pal)).lemma_flatten_and_flatten_alt_are_equivalent();
}

} // verus!
