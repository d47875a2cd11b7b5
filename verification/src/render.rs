//! The renderer: reads the events of a Markdown document one by one and writes the
//! terminal text, with colours and attributes, that shows it.

use vstd::prelude::*;
use crate::blocks::{
    plain_lines_out, code_block_out, flush_item, item_marker, list_item_out, flush_list_item, heading_out, min_int, minus, quote_out,
    render_block_quote_line, render_code_block, render_heading, render_wrapped, wrapped_out, ListCtx,
};
use crate::markdown::{markdown_events, parse_events, Extensions, MdEvent, MdTag, MdTagEnd};
use crate::measure::{terminal_columns, wrapped_lines};
use vstd::utf8::encode_utf8;
use crate::style::{attr_sequence, attr_sgr, Attr, Hue, Palette, PaletteView};
use crate::table::{new_table, render_table, table_out, TableState, TableView};
use crate::text::{decimal, push_char, push_repeated, repeated, trimmed};

verus! {

/// What the renderer holds between two events.
pub struct RenderView {
    /// What has been written so far.
    pub out: Seq<char>,
    /// The table being read, if any.
    pub table: Option<TableView>,
    /// The open lists, innermost last.
    pub lists: Seq<ListCtx>,
    /// The language of the code block being read.
    pub code_lang: Seq<char>,
    /// The code read so far.
    pub code: Seq<char>,
    /// How many block quotes are open.
    pub bq_depth: usize,
    /// Text held back until its paragraph, item or heading ends.
    pub buf: Seq<char>,
    pub in_heading: bool,
    pub heading_level: u8,
    pub in_code_block: bool,
    /// Whether a paragraph outside lists and block quotes is being read; its text is held
    /// back and wrapped when it ends.
    pub in_paragraph: bool,
    /// The destination of the link being read, shown after its text.
    pub link_url: Option<Seq<char>>,
}

/// The state before the first event.
pub open spec fn initial_view() -> RenderView {
    RenderView {
        out: Seq::empty(),
        table: None,
        lists: Seq::empty(),
        code_lang: Seq::empty(),
        code: Seq::empty(),
        bq_depth: 0,
        buf: Seq::empty(),
        in_heading: false,
        heading_level: 1,
        in_code_block: false,
        in_paragraph: false,
        link_url: None,
    }
}

/// An event read while a table is open: cells, rows and the header are collected, and
/// the end of the table draws it. Other events are dropped.
pub open spec fn table_step(st: RenderView, t: TableView, ev: MdEvent, width: usize, pal: PaletteView) -> RenderView {
    match ev {
        MdEvent::Start(MdTag::TableHead) => RenderView { table: Some(TableView { in_head: true, ..t }), ..st },
        MdEvent::End(MdTagEnd::TableHead) => RenderView {
            table: Some(TableView { in_head: false, head_cells: t.current_row, current_row: Seq::empty(), ..t }),
            ..st
        },
        MdEvent::Start(MdTag::TableRow) => RenderView { table: Some(TableView { current_row: Seq::empty(), ..t }), ..st },
        MdEvent::End(MdTagEnd::TableRow) => RenderView {
            table: Some(TableView { rows: t.rows.push(t.current_row), current_row: Seq::empty(), ..t }),
            ..st
        },
        MdEvent::Start(MdTag::TableCell) => RenderView { table: Some(TableView { current_cell: Seq::empty(), ..t }), ..st },
        MdEvent::End(MdTagEnd::TableCell) => RenderView {
            table: Some(TableView { current_row: t.current_row.push(t.current_cell), ..t }),
            ..st
        },
        MdEvent::Text(s) => RenderView { table: Some(TableView { current_cell: t.current_cell + s@, ..t }), ..st },
        MdEvent::Code(s) => RenderView {
            table: Some(TableView { current_cell: t.current_cell + "`"@ + s@ + "`"@, ..t }),
            ..st
        },
        MdEvent::SoftBreak => RenderView { table: Some(TableView { current_cell: t.current_cell.push(' '), ..t }), ..st },
        MdEvent::HardBreak => RenderView { table: Some(TableView { current_cell: t.current_cell.push(' '), ..t }), ..st },
        MdEvent::End(MdTagEnd::Table) => RenderView {
            out: st.out + table_out(t, width, pal) + seq!['\n'],
            table: None,
            ..st
        },
        _ => st,
    }
}

/// An event read inside a heading: its text is collected, and its end draws it. Other
/// events are dropped.
pub open spec fn heading_step(st: RenderView, ev: MdEvent, width: usize, pal: PaletteView) -> RenderView {
    match ev {
        MdEvent::Text(s) => RenderView { buf: st.buf + s@, ..st },
        MdEvent::Code(s) => RenderView { buf: st.buf + s@, ..st },
        MdEvent::SoftBreak => RenderView { buf: st.buf.push(' '), ..st },
        MdEvent::End(MdTagEnd::Heading) => RenderView {
            out: st.out + heading_out(st.heading_level, st.buf, width, pal),
            buf: Seq::empty(),
            in_heading: false,
            ..st
        },
        _ => st,
    }
}

/// An event read inside a code block: its text is collected, and its end draws it. Other
/// events are dropped.
pub open spec fn code_step(st: RenderView, ev: MdEvent, width: usize, pal: PaletteView) -> RenderView {
    match ev {
        MdEvent::Text(s) => RenderView { code: st.code + s@, ..st },
        MdEvent::End(MdTagEnd::CodeBlock) => RenderView {
            out: st.out + code_block_out(st.code_lang, st.code, width, pal) + seq!['\n'],
            in_code_block: false,
            ..st
        },
        _ => st,
    }
}

} // verus!

verus! {

/// Whether text is held back rather than written: inside a list or a block quote.
pub open spec fn buffering(st: RenderView) -> bool {
    st.lists.len() > 0 || st.bq_depth > 0
}

/// `st` with `s` written.
pub open spec fn emit(st: RenderView, s: Seq<char>) -> RenderView {
    RenderView { out: st.out + s, ..st }
}

/// `st` with `s` added to the held-back text.
pub open spec fn hold(st: RenderView, s: Seq<char>) -> RenderView {
    RenderView { buf: st.buf + s, ..st }
}

/// Writes `s` with its styles: inside a paragraph outside lists and quotes it joins the
/// paragraph's text, to be wrapped with it; elsewhere it goes straight out.
pub open spec fn write(st: RenderView, s: Seq<char>) -> RenderView {
    if st.in_paragraph { hold(st, s) } else { emit(st, s) }
}

/// Writes `s` unless text is held back (inside a list or a block quote, where styles are
/// dropped).
pub open spec fn emit_unless_buffering(st: RenderView, s: Seq<char>) -> RenderView {
    if buffering(st) { st } else { write(st, s) }
}

/// A horizontal rule: a dark grey line as wide as the terminal, at most 60, and a blank line.
pub open spec fn rule_out(width: usize, pal: PaletteView) -> Seq<char> {
    pal.fg_of(Hue::DarkGrey) + repeated("─"@, min_int(width as int, 60) as nat) + seq!['\n']
        + attr_sgr(Attr::Reset) + seq!['\n']
}

/// Inline code written straight out: on a dark grey background, in bold yellow, between spaces.
pub open spec fn inline_code_out(code: Seq<char>, pal: PaletteView) -> Seq<char> {
    pal.bg_of(Hue::DarkGrey) + pal.fg_of(Hue::Yellow) + attr_sgr(Attr::Bold) + " "@ + code + " "@
        + attr_sgr(Attr::Reset)
}

/// An inline event outside tables, headings and code blocks.
pub open spec fn inline_step(st: RenderView, ev: MdEvent, pal: PaletteView) -> RenderView {
    match ev {
        MdEvent::Start(MdTag::Emphasis) => emit_unless_buffering(st, attr_sgr(Attr::Italic)),
        MdEvent::End(MdTagEnd::Emphasis) => emit_unless_buffering(st, attr_sgr(Attr::NoItalic)),
        MdEvent::Start(MdTag::Strong) => emit_unless_buffering(st, attr_sgr(Attr::Bold)),
        MdEvent::End(MdTagEnd::Strong) => emit_unless_buffering(st, attr_sgr(Attr::NormalIntensity)),
        MdEvent::Start(MdTag::Strikethrough) => emit_unless_buffering(st, attr_sgr(Attr::CrossedOut)),
        MdEvent::End(MdTagEnd::Strikethrough) => emit_unless_buffering(st, attr_sgr(Attr::NotCrossedOut)),
        MdEvent::Code(c) => if buffering(st) {
            hold(st, "`"@ + c@ + "`"@)
        } else {
            write(st, inline_code_out(c@, pal))
        },
        MdEvent::Start(MdTag::Link(dest)) => RenderView {
            link_url: Some(dest@),
            ..emit_unless_buffering(st, pal.fg_of(Hue::Blue) + attr_sgr(Attr::Underlined))
        },
        MdEvent::End(MdTagEnd::Link) => match st.link_url {
            Some(url) => {
                let cleared = RenderView { link_url: None, ..st };
                if buffering(st) {
                    hold(cleared, " ("@ + url + ")"@)
                } else {
                    write(cleared, attr_sgr(Attr::Reset) + pal.fg_of(Hue::DarkGrey) + " ("@ + url + ")"@ + attr_sgr(Attr::Reset))
                }
            },
            None => st,
        },
        MdEvent::Start(MdTag::Image) => if buffering(st) {
            hold(st, "🖼  "@)
        } else {
            write(st, pal.fg_of(Hue::DarkYellow) + "🖼  "@)
        },
        MdEvent::End(MdTagEnd::Image) => emit_unless_buffering(st, attr_sgr(Attr::Reset)),
        MdEvent::FootnoteReference(label) => if buffering(st) {
            hold(st, "["@ + label@ + "]"@)
        } else {
            write(st, pal.fg_of(Hue::DarkCyan) + "["@ + label@ + "]"@ + attr_sgr(Attr::Reset))
        },
        MdEvent::TaskListMarker(checked) => RenderView {
            buf: (if checked { "[x] "@ } else { "[ ] "@ }) + st.buf,
            ..st
        },
        MdEvent::Text(t) => if buffering(st) { hold(st, t@) } else { write(st, t@) },
        MdEvent::SoftBreak => if buffering(st) { hold(st, seq![' ']) } else { write(st, seq![' ']) },
        MdEvent::Html(h) => write(st, pal.fg_of(Hue::DarkGrey) + h@ + attr_sgr(Attr::Reset)),
        _ => st,
    }
}

/// The end of a paragraph: outside lists its text is written, quoted inside a block quote
/// (and followed by a blank line), else wrapped to the terminal's width less two, each line
/// ending with a newline; an empty paragraph outside lists leaves a newline; inside a list
/// the text stays for the item.
pub open spec fn paragraph_end(st: RenderView, width: usize, pal: PaletteView) -> RenderView {
    let out1 = if st.buf.len() > 0 {
        if st.bq_depth > 0 {
            st.out + quote_out(st.buf, st.bq_depth, width, pal)
        } else if st.lists.len() > 0 {
            st.out
        } else {
            st.out + wrapped_out(st.buf, ""@, width)
        }
    } else {
        st.out
    };
    let buf1 = if st.buf.len() > 0 && st.lists.len() == 0 { Seq::empty() } else { st.buf };
    let wrapped = st.buf.len() > 0 && st.bq_depth == 0 && st.lists.len() == 0;
    let out2 = if st.lists.len() == 0 && !wrapped { out1.push('\n') } else { out1 };
    RenderView { out: out2, buf: buf1, in_paragraph: false, ..st }
}

/// The end of a list item: its text is written as an item of the innermost list.
pub open spec fn item_end(st: RenderView, width: usize, pal: PaletteView) -> RenderView {
    let f = flush_item(st.lists, st.buf, width, pal);
    RenderView { out: st.out + f.0, lists: f.1, buf: Seq::empty(), ..st }
}

/// The start of a list: text held for an item of an enclosing list is written first; the
/// new list is numbered from its first number, or has bullets.
pub open spec fn list_start(st: RenderView, first: Option<u64>, width: usize, pal: PaletteView) -> RenderView {
    let st1 = if st.buf.len() > 0 && st.lists.len() > 0 { item_end(st, width, pal) } else { st };
    let list = ListCtx {
        ordered: first is Some,
        index: match first { Some(n) => n, None => 1 },
        depth: st1.lists.len() as usize,
    };
    RenderView { lists: st1.lists.push(list), ..st1 }
}

/// The end of a list: the innermost list is closed; closing the outermost adds a blank line.
pub open spec fn list_end(st: RenderView) -> RenderView {
    let lists = if st.lists.len() > 0 { st.lists.drop_last() } else { st.lists };
    RenderView { lists, out: if lists.len() == 0 { st.out.push('\n') } else { st.out }, ..st }
}

/// A hard line break: inside a block quote, held text is written as a quoted line; in a list
/// it becomes a newline in the held text; elsewhere a newline is written (inside a paragraph,
/// into its text, where it ends a line).
pub open spec fn hard_break(st: RenderView, width: usize, pal: PaletteView) -> RenderView {
    if buffering(st) {
        if st.bq_depth > 0 && st.buf.len() > 0 {
            RenderView { out: st.out + quote_out(st.buf, st.bq_depth, width, pal), buf: Seq::empty(), ..st }
        } else {
            hold(st, seq!['\n'])
        }
    } else {
        write(st, seq!['\n'])
    }
}

/// An event outside tables, headings and code blocks.
pub open spec fn block_step(st: RenderView, ev: MdEvent, width: usize, pal: PaletteView) -> RenderView {
    match ev {
        MdEvent::Start(MdTag::Heading(level)) => RenderView { in_heading: true, heading_level: level, buf: Seq::empty(), ..st },
        MdEvent::Start(MdTag::Paragraph) => if buffering(st) { st } else { RenderView { in_paragraph: true, ..st } },
        MdEvent::End(MdTagEnd::Paragraph) => paragraph_end(st, width, pal),
        MdEvent::Start(MdTag::CodeBlock(kind)) => RenderView {
            in_code_block: true,
            code: Seq::empty(),
            code_lang: match kind { Some(lang) => lang@, None => Seq::empty() },
            ..st
        },
        MdEvent::Start(MdTag::BlockQuote) => RenderView { bq_depth: (st.bq_depth + 1) as usize, ..st },
        MdEvent::End(MdTagEnd::BlockQuote) => RenderView { bq_depth: minus(st.bq_depth as int, 1) as usize, ..st },
        MdEvent::Start(MdTag::List(first)) => list_start(st, first, width, pal),
        MdEvent::End(MdTagEnd::List) => list_end(st),
        MdEvent::End(MdTagEnd::Item) => item_end(st, width, pal),
        MdEvent::Start(MdTag::Table(aligns)) => RenderView { table: Some(new_table(aligns@)), ..st },
        MdEvent::Rule => emit(st, rule_out(width, pal)),
        MdEvent::Start(MdTag::FootnoteDefinition(label)) => emit(st, pal.fg_of(Hue::DarkGrey) + "["@ + label@ + "]: "@),
        MdEvent::End(MdTagEnd::FootnoteDefinition) => emit(st, attr_sgr(Attr::Reset) + seq!['\n']),
        MdEvent::HardBreak => hard_break(st, width, pal),
        _ => inline_step(st, ev, pal),
    }
}

/// One event: a table, a heading or a code block being read takes it first.
pub open spec fn render_step(st: RenderView, ev: MdEvent, width: usize, pal: PaletteView) -> RenderView {
    match st.table {
        Some(t) => table_step(st, t, ev, width, pal),
        None => if st.in_heading {
            heading_step(st, ev, width, pal)
        } else if st.in_code_block {
            code_step(st, ev, width, pal)
        } else {
            block_step(st, ev, width, pal)
        },
    }
}

/// The state after reading `events` from `st`, one by one.
pub open spec fn render_from(st: RenderView, events: Seq<MdEvent>, width: usize, pal: PaletteView) -> RenderView
    decreases events.len(),
{
    if events.len() == 0 {
        st
    } else {
        render_step(render_from(st, events.drop_last(), width, pal), events.last(), width, pal)
    }
}

/// What the renderer writes after the last event: text still held back on a line of its
/// own, then a reset of all attributes.
pub open spec fn finish(st: RenderView) -> Seq<char> {
    st.out + (if st.buf.len() > 0 { st.buf + seq!['\n'] } else { Seq::empty() }) + attr_sgr(Attr::Reset)
}

/// The rendering of a whole sequence of events for a terminal of the given width.
pub open spec fn rendered(events: Seq<MdEvent>, width: usize, pal: PaletteView) -> Seq<char> {
    finish(render_from(initial_view(), events, width, pal))
}

} // verus!

verus! {

struct RenderState {
    out: String,
    table: Option<TableState>,
    lists: Vec<ListCtx>,
    code_lang: String,
    code: String,
    bq_depth: usize,
    buf: String,
    in_heading: bool,
    heading_level: u8,
    in_code_block: bool,
    in_paragraph: bool,
    link_url: Option<String>,
}

impl View for RenderState {
    type V = RenderView;

    closed spec fn view(&self) -> RenderView {
        RenderView {
            out: self.out@,
            table: match self.table { Some(t) => Some(t@), None => None },
            lists: self.lists@,
            code_lang: self.code_lang@,
            code: self.code@,
            bq_depth: self.bq_depth,
            buf: self.buf@,
            in_heading: self.in_heading,
            heading_level: self.heading_level,
            in_code_block: self.in_code_block,
            in_paragraph: self.in_paragraph,
            link_url: match self.link_url { Some(u) => Some(u@), None => None },
        }
    }
}

impl RenderState {
    fn new() -> (st: RenderState)
        ensures
            st@ == initial_view(),
    {
        RenderState {
            out: String::new(),
            table: None,
            lists: Vec::new(),
            code_lang: String::new(),
            code: String::new(),
            bq_depth: 0,
            buf: String::new(),
            in_heading: false,
            heading_level: 1,
            in_code_block: false,
            in_paragraph: false,
            link_url: None,
        }
    }

    fn table_event(&mut self, ev: &MdEvent, width: usize, pal: &Palette)
        requires
            old(self).table is Some,
        ensures
            final(self)@ == table_step(old(self)@, old(self)@.table->0, *ev, width, pal@),
    {
        let mut t = self.table.take().unwrap();
        match ev {
            MdEvent::Start(MdTag::TableHead) => {
                t.in_head = true;
            },
            MdEvent::End(MdTagEnd::TableHead) => {
                t.in_head = false;
                let mut row: Vec<String> = Vec::new();
                std::mem::swap(&mut row, &mut t.current_row);
                t.head_cells = row;
                assert(t.current_row.deep_view() =~= Seq::<Seq<char>>::empty());
            },
            MdEvent::Start(MdTag::TableRow) => {
                t.current_row = Vec::new();
                assert(t.current_row.deep_view() =~= Seq::<Seq<char>>::empty());
            },
            MdEvent::End(MdTagEnd::TableRow) => {
                let mut row: Vec<String> = Vec::new();
                std::mem::swap(&mut row, &mut t.current_row);
                let ghost rows0 = t.rows.deep_view();
                let ghost row0 = row.deep_view();
                t.rows.push(row);
                assert(t.rows.deep_view() =~= rows0.push(row0));
                assert(t.current_row.deep_view() =~= Seq::<Seq<char>>::empty());
            },
            MdEvent::Start(MdTag::TableCell) => {
                t.current_cell = String::new();
            },
            MdEvent::End(MdTagEnd::TableCell) => {
                let ghost row0 = t.current_row.deep_view();
                let cell = t.current_cell.clone();
                t.current_row.push(cell);
                assert(t.current_row.deep_view() =~= row0.push(t.current_cell@));
            },
            MdEvent::Text(s) => {
                t.current_cell.append(s.as_str());
            },
            MdEvent::Code(s) => {
                t.current_cell.append("`");
                t.current_cell.append(s.as_str());
                t.current_cell.append("`");
            },
            MdEvent::SoftBreak | MdEvent::HardBreak => {
                push_char(&mut t.current_cell, ' ');
            },
            MdEvent::End(MdTagEnd::Table) => {
                render_table(&mut self.out, width, pal, &t);
                push_char(&mut self.out, '\n');
                assert(self.out@ =~= old(self).out@ + table_out(t@, width, pal@) + seq!['\n']);
                return;
            },
            _ => {},
        }
        self.table = Some(t);
    }

    fn heading_event(&mut self, ev: &MdEvent, width: usize, pal: &Palette)
        ensures
            final(self)@ == heading_step(old(self)@, *ev, width, pal@),
    {
        match ev {
            MdEvent::Text(s) => {
                self.buf.append(s.as_str());
            },
            MdEvent::Code(s) => {
                self.buf.append(s.as_str());
            },
            MdEvent::SoftBreak => {
                push_char(&mut self.buf, ' ');
            },
            MdEvent::End(MdTagEnd::Heading) => {
                render_heading(&mut self.out, width, pal, self.heading_level, self.buf.as_str());
                self.buf = String::new();
                self.in_heading = false;
            },
            _ => {},
        }
    }

    fn code_event(&mut self, ev: &MdEvent, width: usize, pal: &Palette)
        ensures
            final(self)@ == code_step(old(self)@, *ev, width, pal@),
    {
        match ev {
            MdEvent::Text(s) => {
                self.code.append(s.as_str());
                assert(self@ == code_step(old(self)@, *ev, width, pal@));
            },
            MdEvent::End(MdTagEnd::CodeBlock) => {
                self.in_code_block = false;
                render_code_block(&mut self.out, width, pal, self.code_lang.as_str(), self.code.as_str());
                push_char(&mut self.out, '\n');
                assert(self.out@ =~= old(self).out@ + code_block_out(old(self).code_lang@, old(self).code@, width, pal@) + seq!['\n']);
            },
            _ => {},
        }
    }
}

impl RenderState {
    fn is_buffering(&self) -> (b: bool)
        ensures
            b == buffering(self@),
    {
        self.lists.len() > 0 || self.bq_depth > 0
    }

    fn write(&mut self, s: &str)
        ensures
            final(self)@ == write(old(self)@, s@),
    {
        if self.in_paragraph {
            self.buf.append(s);
        } else {
            self.out.append(s);
        }
    }

    fn write_char(&mut self, c: char)
        ensures
            final(self)@ == write(old(self)@, seq![c]),
    {
        if self.in_paragraph {
            push_char(&mut self.buf, c);
            assert(self.buf@ =~= old(self).buf@ + seq![c]);
        } else {
            push_char(&mut self.out, c);
            assert(self.out@ =~= old(self).out@ + seq![c]);
        }
    }

    fn emit_attr_unless_buffering(&mut self, a: Attr)
        ensures
            final(self)@ == emit_unless_buffering(old(self)@, attr_sgr(a)),
    {
        if !self.is_buffering() {
            self.write(&attr_sequence(a));
        }
    }

    fn inline_event(&mut self, ev: &MdEvent, pal: &Palette)
        ensures
            final(self)@ == inline_step(old(self)@, *ev, pal@),
    {
        match ev {
            MdEvent::Start(MdTag::Emphasis) => self.emit_attr_unless_buffering(Attr::Italic),
            MdEvent::End(MdTagEnd::Emphasis) => self.emit_attr_unless_buffering(Attr::NoItalic),
            MdEvent::Start(MdTag::Strong) => self.emit_attr_unless_buffering(Attr::Bold),
            MdEvent::End(MdTagEnd::Strong) => self.emit_attr_unless_buffering(Attr::NormalIntensity),
            MdEvent::Start(MdTag::Strikethrough) => self.emit_attr_unless_buffering(Attr::CrossedOut),
            MdEvent::End(MdTagEnd::Strikethrough) => self.emit_attr_unless_buffering(Attr::NotCrossedOut),
            MdEvent::Code(c) => {
                if self.is_buffering() {
                    self.buf.append("`");
                    self.buf.append(c.as_str());
                    self.buf.append("`");
                    assert(self.buf@ =~= old(self).buf@ + ("`"@ + c@ + "`"@));
                } else {
                    let mut s = String::new();
                    s.append(pal.bg(Hue::DarkGrey));
                    s.append(pal.fg(Hue::Yellow));
                    s.append(&attr_sequence(Attr::Bold));
                    s.append(" ");
                    s.append(c.as_str());
                    s.append(" ");
                    s.append(&attr_sequence(Attr::Reset));
                    assert(s@ =~= inline_code_out(c@, pal@));
                    self.write(s.as_str());
                }
            },
            MdEvent::Start(MdTag::Link(dest)) => {
                self.link_url = Some(dest.clone());
                if !self.is_buffering() {
                    let mut s = String::new();
                    s.append(pal.fg(Hue::Blue));
                    s.append(&attr_sequence(Attr::Underlined));
                    assert(s@ =~= pal@.fg_of(Hue::Blue) + attr_sgr(Attr::Underlined));
                    self.write(s.as_str());
                }
            },
            MdEvent::End(MdTagEnd::Link) => {
                match self.link_url.take() {
                    Some(url) => {
                        if self.is_buffering() {
                            self.buf.append(" (");
                            self.buf.append(url.as_str());
                            self.buf.append(")");
                            assert(self.buf@ =~= old(self).buf@ + (" ("@ + url@ + ")"@));
                        } else {
                            let mut s = String::new();
                            s.append(&attr_sequence(Attr::Reset));
                            s.append(pal.fg(Hue::DarkGrey));
                            s.append(" (");
                            s.append(url.as_str());
                            s.append(")");
                            s.append(&attr_sequence(Attr::Reset));
                            assert(s@ =~= attr_sgr(Attr::Reset) + pal@.fg_of(Hue::DarkGrey)
                                + " ("@ + url@ + ")"@ + attr_sgr(Attr::Reset));
                            self.write(s.as_str());
                        }
                    },
                    None => {},
                }
            },
            MdEvent::Start(MdTag::Image) => {
                if self.is_buffering() {
                    self.buf.append("🖼  ");
                } else {
                    let mut s = String::new();
                    s.append(pal.fg(Hue::DarkYellow));
                    s.append("🖼  ");
                    assert(s@ =~= pal@.fg_of(Hue::DarkYellow) + "🖼  "@);
                    self.write(s.as_str());
                }
            },
            MdEvent::End(MdTagEnd::Image) => self.emit_attr_unless_buffering(Attr::Reset),
            MdEvent::FootnoteReference(label) => {
                if self.is_buffering() {
                    self.buf.append("[");
                    self.buf.append(label.as_str());
                    self.buf.append("]");
                    assert(self.buf@ =~= old(self).buf@ + ("["@ + label@ + "]"@));
                } else {
                    let mut s = String::new();
                    s.append(pal.fg(Hue::DarkCyan));
                    s.append("[");
                    s.append(label.as_str());
                    s.append("]");
                    s.append(&attr_sequence(Attr::Reset));
                    assert(s@ =~= pal@.fg_of(Hue::DarkCyan) + "["@ + label@ + "]"@ + attr_sgr(Attr::Reset));
                    self.write(s.as_str());
                }
            },
            MdEvent::TaskListMarker(checked) => {
                let mut marked = String::from_str(if *checked { "[x] " } else { "[ ] " });
                marked.append(self.buf.as_str());
                self.buf = marked;
            },
            MdEvent::Text(t) => {
                if self.is_buffering() {
                    self.buf.append(t.as_str());
                } else {
                    self.write(t.as_str());
                }
            },
            MdEvent::SoftBreak => {
                if self.is_buffering() {
                    push_char(&mut self.buf, ' ');
                    assert(self.buf@ =~= old(self).buf@ + seq![' ']);
                } else {
                    self.write_char(' ');
                }
            },
            MdEvent::Html(h) => {
                let mut s = String::new();
                s.append(pal.fg(Hue::DarkGrey));
                s.append(h.as_str());
                s.append(&attr_sequence(Attr::Reset));
                assert(s@ =~= pal@.fg_of(Hue::DarkGrey) + h@ + attr_sgr(Attr::Reset));
                self.write(s.as_str());
            },
            _ => {},
        }
    }
}

impl RenderState {
    fn end_paragraph(&mut self, width: usize, pal: &Palette)
        ensures
            final(self)@ == paragraph_end(old(self)@, width, pal@),
    {
        let wrapped = !self.buf.as_str().is_empty() && self.bq_depth == 0 && self.lists.len() == 0;
        if !self.buf.as_str().is_empty() {
            if self.bq_depth > 0 {
                render_block_quote_line(&mut self.out, width, pal, self.buf.as_str(), self.bq_depth);
            } else if self.lists.len() > 0 {
            } else {
                render_wrapped(&mut self.out, width, self.buf.as_str(), "");
            }
            if self.lists.len() == 0 {
                self.buf = String::new();
            }
        }
        if self.lists.len() == 0 && !wrapped {
            push_char(&mut self.out, '\n');
        }
        self.in_paragraph = false;
    }

    fn end_item(&mut self, width: usize, pal: &Palette)
        ensures
            final(self)@ == item_end(old(self)@, width, pal@),
    {
        flush_list_item(&mut self.out, width, pal, &mut self.lists, &mut self.buf);
    }

    fn start_list(&mut self, first: Option<u64>, width: usize, pal: &Palette)
        ensures
            final(self)@ == list_start(old(self)@, first, width, pal@),
    {
        if !self.buf.as_str().is_empty() && self.lists.len() > 0 {
            self.end_item(width, pal);
        }
        let depth = self.lists.len();
        let index = match first {
            Some(n) => n,
            None => 1,
        };
        self.lists.push(ListCtx { ordered: first.is_some(), index, depth });
    }

    fn end_list(&mut self)
        ensures
            final(self)@ == list_end(old(self)@),
    {
        self.lists.pop();
        if self.lists.len() == 0 {
            push_char(&mut self.out, '\n');
        }
        assert(self.lists@ =~= (if old(self).lists@.len() > 0 { old(self).lists@.drop_last() } else { old(self).lists@ }));
    }

    fn hard_break(&mut self, width: usize, pal: &Palette)
        ensures
            final(self)@ == hard_break(old(self)@, width, pal@),
    {
        if self.is_buffering() {
            if self.bq_depth > 0 && !self.buf.as_str().is_empty() {
                render_block_quote_line(&mut self.out, width, pal, self.buf.as_str(), self.bq_depth);
                self.buf = String::new();
            } else {
                push_char(&mut self.buf, '\n');
                assert(self.buf@ =~= old(self).buf@ + seq!['\n']);
            }
        } else {
            self.write_char('\n');
        }
    }

    fn rule(&mut self, width: usize, pal: &Palette)
        ensures
            final(self)@ == emit(old(self)@, rule_out(width, pal@)),
    {
        let span = if width < 60 { width } else { 60 };
        self.out.append(pal.fg(Hue::DarkGrey));
        push_repeated(&mut self.out, "─", span);
        push_char(&mut self.out, '\n');
        self.out.append(&attr_sequence(Attr::Reset));
        push_char(&mut self.out, '\n');
        assert(self.out@ =~= old(self).out@ + rule_out(width, pal@));
    }

    fn block_event(&mut self, ev: &MdEvent, width: usize, pal: &Palette)
        requires
            old(self).bq_depth < usize::MAX,
        ensures
            final(self)@ == block_step(old(self)@, *ev, width, pal@),
    {
        match ev {
            MdEvent::Start(MdTag::Heading(level)) => {
                self.in_heading = true;
                self.heading_level = *level;
                self.buf = String::new();
            },
            MdEvent::Start(MdTag::Paragraph) => {
                if !self.is_buffering() {
                    self.in_paragraph = true;
                }
            },
            MdEvent::End(MdTagEnd::Paragraph) => self.end_paragraph(width, pal),
            MdEvent::Start(MdTag::CodeBlock(kind)) => {
                self.in_code_block = true;
                self.code = String::new();
                self.code_lang = match kind {
                    Some(lang) => lang.clone(),
                    None => String::new(),
                };
            },
            MdEvent::Start(MdTag::BlockQuote) => {
                self.bq_depth = self.bq_depth + 1;
            },
            MdEvent::End(MdTagEnd::BlockQuote) => {
                self.bq_depth = self.bq_depth.saturating_sub(1);
            },
            MdEvent::Start(MdTag::List(first)) => self.start_list(*first, width, pal),
            MdEvent::End(MdTagEnd::List) => self.end_list(),
            MdEvent::End(MdTagEnd::Item) => self.end_item(width, pal),
            MdEvent::Start(MdTag::Table(aligns)) => {
                self.table = Some(TableState::new(aligns.clone()));
            },
            MdEvent::Rule => self.rule(width, pal),
            MdEvent::Start(MdTag::FootnoteDefinition(label)) => {
                self.out.append(pal.fg(Hue::DarkGrey));
                self.out.append("[");
                self.out.append(label.as_str());
                self.out.append("]: ");
                assert(self.out@ =~= old(self).out@ + (pal@.fg_of(Hue::DarkGrey) + "["@ + label@ + "]: "@));
            },
            MdEvent::End(MdTagEnd::FootnoteDefinition) => {
                self.out.append(&attr_sequence(Attr::Reset));
                push_char(&mut self.out, '\n');
                assert(self.out@ =~= old(self).out@ + (attr_sgr(Attr::Reset) + seq!['\n']));
            },
            MdEvent::HardBreak => self.hard_break(width, pal),
            _ => self.inline_event(ev, pal),
        }
    }

    fn step(&mut self, ev: &MdEvent, width: usize, pal: &Palette)
        requires
            old(self).bq_depth < usize::MAX,
        ensures
            final(self)@ == render_step(old(self)@, *ev, width, pal@),
            final(self).bq_depth <= old(self).bq_depth + 1,
    {
        if self.table.is_some() {
            self.table_event(ev, width, pal);
        } else if self.in_heading {
            self.heading_event(ev, width, pal);
        } else if self.in_code_block {
            self.code_event(ev, width, pal);
        } else {
            self.block_event(ev, width, pal);
        }
    }
}

} // verus!

verus! {

/// The events that the renderer reads from a Markdown text: CommonMark with tables,
/// strikethrough, task lists and footnotes.
pub open spec fn document_events(markdown: Seq<char>) -> Seq<MdEvent> {
    markdown_events(markdown, true, true, true, true)
}

#[verifier::external_type_specification]
#[verifier::external_body]
pub struct ExIoError(std::io::Error);

/// Renders Markdown for a terminal of a fixed width.
pub struct Renderer {
    term_width: usize,
}

impl Renderer {
    /// The width, in columns, that the renderer lays text out for.
    pub closed spec fn width(&self) -> usize {
        self.term_width
    }

    /// The width, in columns, that the renderer lays text out for.
    pub fn term_width(&self) -> (w: usize)
        ensures
            w == self.width(),
    {
        self.term_width
    }

    /// A renderer for a terminal that is `columns` wide (80 when unknown), capped at 120.
    pub fn with_terminal_width(columns: Option<u16>) -> (r: Renderer)
        ensures
            r.width() == min_int(match columns { Some(c) => c as int, None => 80 }, 120),
            r.width() <= 120,
    {
        let width: usize = match columns {
            Some(c) => c as usize,
            None => 80,
        };
        Renderer { term_width: if width < 120 { width } else { 120 } }
    }

    /// A renderer for the terminal's width, capped at 120 columns: the terminal on standard
    /// output, else on standard error, else on standard input (80 when none is a terminal).
    pub fn new() -> (r: Renderer)
        ensures
            r.width() <= 120,
    {
        Renderer::with_terminal_width(terminal_columns())
    }

    /// Renders a sequence of events with the given colour sequences.
    pub fn render_events(&self, events: &Vec<MdEvent>, pal: &Palette) -> (s: String)
        ensures
            s@ == rendered(events@, self.width(), pal@),
    {
        let mut st = RenderState::new();
        let n = events.len();
        for i in 0..n
            invariant
                n == events@.len(),
                st.bq_depth <= i,
                st@ == render_from(initial_view(), events@.take(i as int), self.width(), pal@),
        {
            st.step(&events[i], self.term_width, pal);
            assert(events@.take(i + 1).drop_last() =~= events@.take(i as int));
        }
        assert(events@.take(n as int) =~= events@);
        let mut out = st.out;
        if !st.buf.as_str().is_empty() {
            out.append(st.buf.as_str());
            push_char(&mut out, '\n');
        }
        out.append(&attr_sequence(Attr::Reset));
        assert(out@ =~= rendered(events@, self.width(), pal@));
        out
    }

    /// Renders a Markdown text with the given colour sequences.
    pub fn render_markdown(&self, markdown: &str, pal: &Palette) -> (s: String)
        ensures
            s@ == rendered(document_events(markdown@), self.width(), pal@),
    {
        let ext = Extensions { tables: true, strikethrough: true, tasklists: true, footnotes: true };
        let events = parse_events(markdown, ext);
        self.render_events(&events, pal)
    }

    /// Renders a Markdown text as UTF-8 bytes after what `out` already holds, with the
    /// colours that `crossterm` uses in this environment. Writing to memory does not fail.
    pub fn render_to(&self, out: &mut Vec<u8>, markdown: &str) -> (r: std::io::Result<()>)
        ensures
            r is Ok,
            exists|pal: PaletteView| pal.wf()
                && final(out)@ == old(out)@ + encode_utf8(rendered(document_events(markdown@), self.width(), pal)),
    {
        let pal = Palette::from_terminal();
        let text = self.render_markdown(markdown, &pal);
        let mut bytes = text.as_str().as_bytes_vec();
        out.append(&mut bytes);
        Ok(())
    }

    /// Renders a Markdown text as UTF-8 bytes, with the colours that `crossterm` uses in
    /// this environment. Writing to memory does not fail.
    pub fn render_to_bytes(&self, markdown: &str) -> (r: std::io::Result<Vec<u8>>)
        ensures
            r is Ok,
            r matches Ok(bytes) ==> exists|pal: PaletteView| pal.wf()
                && bytes@ == encode_utf8(rendered(document_events(markdown@), self.width(), pal)),
    {
        let mut buf: Vec<u8> = Vec::new();
        match self.render_to(&mut buf, markdown) {
            Ok(()) => {
                proof {
                    let pal = choose|pal: PaletteView| pal.wf()
                        && buf@ == Seq::<u8>::empty() + encode_utf8(rendered(document_events(markdown@), self.width(), pal));
                    assert(buf@ =~= encode_utf8(rendered(document_events(markdown@), self.width(), pal)));
                }
                Ok(buf)
            },
            Err(e) => Err(e),
        }
    }
}

} // verus!

verus! {

/// Each open list records how deeply it is nested: the list at position `i`, counted from the
/// outermost, has depth `i`.
pub open spec fn lists_nested(lists: Seq<ListCtx>) -> bool {
    forall|i: int| 0 <= i < lists.len() ==> (#[trigger] lists[i]).depth == i
}

proof fn step_keeps_nesting(st: RenderView, ev: MdEvent, width: usize, pal: PaletteView)
    requires
        lists_nested(st.lists),
        st.lists.len() < usize::MAX,
    ensures
        lists_nested(render_step(st, ev, width, pal).lists),
        render_step(st, ev, width, pal).lists.len() <= st.lists.len() + 1,
{
    let next = render_step(st, ev, width, pal);
    if st.table is None && !st.in_heading && !st.in_code_block {
        match ev {
            MdEvent::Start(MdTag::List(first)) => {
                let st1 = if st.buf.len() > 0 && st.lists.len() > 0 { item_end(st, width, pal) } else { st };
                assert(st1.lists.len() == st.lists.len());
                assert(lists_nested(st1.lists)) by {
                    assert forall|i: int| 0 <= i < st1.lists.len() implies (#[trigger] st1.lists[i]).depth == i by {
                        assert(st.lists[i].depth == i);
                    }
                }
                assert(next.lists == st1.lists.push(ListCtx {
                    ordered: first is Some,
                    index: match first { Some(n) => n, None => 1 },
                    depth: st1.lists.len() as usize,
                }));
                assert forall|i: int| 0 <= i < next.lists.len() implies (#[trigger] next.lists[i]).depth == i by {
                    if i < st1.lists.len() {
                        assert(next.lists[i] == st1.lists[i]);
                    }
                }
            },
            MdEvent::End(MdTagEnd::List) => {
                assert forall|i: int| 0 <= i < next.lists.len() implies (#[trigger] next.lists[i]).depth == i by {
                    assert(next.lists[i] == st.lists[i]);
                }
            },
            MdEvent::End(MdTagEnd::Item) => {
                assert forall|i: int| 0 <= i < next.lists.len() implies (#[trigger] next.lists[i]).depth == i by {
                    assert(st.lists[i].depth == i);
                }
            },
            _ => {},
        }
    }
}

/// However a document nests its lists, each open list knows its own depth: after any run of
/// events, the list at position `i` has depth `i`, so its bullets and indent are those of
/// that level.
pub proof fn lists_know_their_depth(events: Seq<MdEvent>, width: usize, pal: PaletteView)
    requires
        events.len() <= usize::MAX,
    ensures
        lists_nested(render_from(initial_view(), events, width, pal).lists),
        render_from(initial_view(), events, width, pal).lists.len() <= events.len(),
    decreases events.len(),
{
    if events.len() > 0 {
        lists_know_their_depth(events.drop_last(), width, pal);
        step_keeps_nesting(render_from(initial_view(), events.drop_last(), width, pal), events.last(), width, pal);
    }
}

proof fn step_keeps_output(st: RenderView, ev: MdEvent, width: usize, pal: PaletteView)
    ensures
        st.out.is_prefix_of(render_step(st, ev, width, pal).out),
{
    let next = render_step(st, ev, width, pal);
    assert(next.out.len() >= st.out.len());
    assert(next.out.subrange(0, st.out.len() as int) =~= st.out);
}

/// What the renderer has written is never taken back: the output after any first events of
/// a document begins the output after more of them, and the finished rendering.
pub proof fn output_only_grows(events: Seq<MdEvent>, k: int, width: usize, pal: PaletteView)
    requires
        0 <= k <= events.len(),
    ensures
        render_from(initial_view(), events.take(k), width, pal).out.is_prefix_of(
            render_from(initial_view(), events, width, pal).out,
        ),
        render_from(initial_view(), events.take(k), width, pal).out.is_prefix_of(rendered(events, width, pal)),
    decreases events.len() - k,
{
    let all = render_from(initial_view(), events, width, pal);
    if k < events.len() {
        output_only_grows(events, k + 1, width, pal);
        assert(events.take(k + 1).drop_last() =~= events.take(k));
        assert(events.take(k + 1).last() == events[k]);
        step_keeps_output(render_from(initial_view(), events.take(k), width, pal), events[k], width, pal);
    } else {
        assert(events.take(k) =~= events);
    }
    let before = render_from(initial_view(), events.take(k), width, pal).out;
    assert(rendered(events, width, pal).subrange(0, all.out.len() as int) =~= all.out);
    assert(rendered(events, width, pal).subrange(0, before.len() as int) =~= all.out.subrange(0, before.len() as int));
}

/// A rendering always ends by resetting every colour and attribute, so that nothing leaks
/// into what the terminal shows next.
pub proof fn rendering_ends_with_reset(events: Seq<MdEvent>, width: usize, pal: PaletteView)
    ensures
        ({
            let r = rendered(events, width, pal);
            let reset = attr_sgr(Attr::Reset);
            r.len() >= reset.len() && r.subrange(r.len() - reset.len(), r.len() as int) == reset
        }),
{
    let r = rendered(events, width, pal);
    let reset = attr_sgr(Attr::Reset);
    assert(r.subrange(r.len() - reset.len(), r.len() as int) =~= reset);
}

/// Items of a numbered list count up: ending an item with text writes it with the list's
/// number, and the list's next item gets the number after it (wrapping past the largest
/// `u64`).
pub proof fn numbered_items_count_up(st: RenderView, width: usize, pal: PaletteView)
    requires
        st.table is None,
        !st.in_heading,
        !st.in_code_block,
        st.lists.len() > 0,
        st.lists.last().ordered,
        trimmed(st.buf).len() > 0,
    ensures
        ({
            let next = render_step(st, MdEvent::End(MdTagEnd::Item), width, pal);
            let list = st.lists.last();
            &&& next.out == st.out + list_item_out(list, trimmed(st.buf), width, pal)
            &&& item_marker(list) == decimal(list.index as nat) + "."@
            &&& next.lists.len() == st.lists.len()
            &&& next.lists.last().index == (if list.index == u64::MAX { 0 } else { list.index + 1 })
            &&& next.buf.len() == 0
        }),
{
}

/// Tables, headings and code blocks are drawn whole: while one is being read, no event but
/// its end writes anything.
pub proof fn blocks_drawn_when_complete(st: RenderView, ev: MdEvent, width: usize, pal: PaletteView)
    ensures
        st.table is Some && ev != MdEvent::End(MdTagEnd::Table)
            ==> render_step(st, ev, width, pal).out == st.out,
        st.table is None && st.in_heading && ev != MdEvent::End(MdTagEnd::Heading)
            ==> render_step(st, ev, width, pal).out == st.out,
        st.table is None && !st.in_heading && st.in_code_block && ev != MdEvent::End(MdTagEnd::CodeBlock)
            ==> render_step(st, ev, width, pal).out == st.out,
{
}

/// Whether every event is text or a soft break: the events inside a plain paragraph.
pub open spec fn plain_inline(evs: Seq<MdEvent>) -> bool {
    forall|i: int| 0 <= i < evs.len() ==> (#[trigger] evs[i] is Text || evs[i] is SoftBreak)
}

/// The text that plain inline events make: each text, and a space for each soft break.
pub open spec fn plain_text(evs: Seq<MdEvent>) -> Seq<char>
    decreases evs.len(),
{
    if evs.len() == 0 {
        Seq::empty()
    } else {
        plain_text(evs.drop_last()) + plain_piece(evs.last())
    }
}

/// What one plain inline event adds to a paragraph's text.
pub open spec fn plain_piece(ev: MdEvent) -> Seq<char> {
    match ev {
        MdEvent::Text(t) => t@,
        _ => seq![' '],
    }
}

proof fn paragraph_start_step(st: RenderView, width: usize, pal: PaletteView)
    requires
        st.table is None,
        !st.in_heading,
        !st.in_code_block,
        !buffering(st),
    ensures
        render_step(st, MdEvent::Start(MdTag::Paragraph), width, pal) == (RenderView { in_paragraph: true, ..st }),
{
}

proof fn paragraph_text_step(st: RenderView, ev: MdEvent, width: usize, pal: PaletteView)
    requires
        st.table is None,
        !st.in_heading,
        !st.in_code_block,
        !buffering(st),
        st.in_paragraph,
        ev is Text || ev is SoftBreak,
    ensures
        render_step(st, ev, width, pal) == (RenderView { buf: st.buf + plain_piece(ev), ..st }),
{
    assert(render_step(st, ev, width, pal) == block_step(st, ev, width, pal));
    assert(block_step(st, ev, width, pal) == inline_step(st, ev, pal));
}

proof fn paragraph_collects(st: RenderView, inner: Seq<MdEvent>, k: int, width: usize, pal: PaletteView)
    requires
        st.table is None,
        !st.in_heading,
        !st.in_code_block,
        !buffering(st),
        st.buf.len() == 0,
        plain_inline(inner),
        0 <= k <= inner.len(),
    ensures
        render_from(st, seq![MdEvent::Start(MdTag::Paragraph)] + inner.take(k), width, pal)
            == (RenderView { in_paragraph: true, buf: plain_text(inner.take(k)), ..st }),
    decreases k,
{
    let evs = seq![MdEvent::Start(MdTag::Paragraph)] + inner.take(k);
    if k == 0 {
        assert(evs.drop_last() =~= Seq::<MdEvent>::empty());
        assert(inner.take(0) =~= Seq::<MdEvent>::empty());
        assert(st.buf =~= plain_text(inner.take(0)));
        assert(render_from(st, evs.drop_last(), width, pal) == st);
        assert(evs.last() == MdEvent::Start(MdTag::Paragraph));
        paragraph_start_step(st, width, pal);
        assert(render_from(st, evs, width, pal) == render_step(st, MdEvent::Start(MdTag::Paragraph), width, pal));
    } else {
        paragraph_collects(st, inner, k - 1, width, pal);
        assert(evs.drop_last() =~= seq![MdEvent::Start(MdTag::Paragraph)] + inner.take(k - 1));
        assert(evs.last() == inner[k - 1]);
        assert(inner.take(k).drop_last() =~= inner.take(k - 1));
        assert(inner.take(k).last() == inner[k - 1]);
        assert(inner[k - 1] is Text || inner[k - 1] is SoftBreak);
        let before = RenderView { in_paragraph: true, buf: plain_text(inner.take(k - 1)), ..st };
        paragraph_text_step(before, inner[k - 1], width, pal);
        assert(render_from(st, evs, width, pal) == render_step(before, inner[k - 1], width, pal));
        assert(plain_text(inner.take(k)) == plain_text(inner.take(k - 1)) + plain_piece(inner[k - 1]));
    }
}

/// A paragraph outside lists and block quotes is wrapped to the terminal's width: a plain
/// paragraph read from there writes the lines of its text as `textwrap` breaks it for the
/// width less two, each followed by a newline, and nothing more; an empty one writes a
/// newline.
pub proof fn paragraphs_wrap(st: RenderView, inner: Seq<MdEvent>, width: usize, pal: PaletteView)
    requires
        st.table is None,
        !st.in_heading,
        !st.in_code_block,
        !buffering(st),
        st.buf.len() == 0,
        plain_inline(inner),
    ensures
        ({
            let text = plain_text(inner);
            let evs = seq![MdEvent::Start(MdTag::Paragraph)] + inner + seq![MdEvent::End(MdTagEnd::Paragraph)];
            let after = render_from(st, evs, width, pal);
            &&& after.out == st.out
                + (if text.len() > 0 { plain_lines_out(wrapped_lines(text, minus(width as int, 2) as usize, ""@)) } else { seq!['\n'] })
            &&& after.buf.len() == 0
            &&& !after.in_paragraph
        }),
{
    paragraph_collects(st, inner, inner.len() as int, width, pal);
    let evs = seq![MdEvent::Start(MdTag::Paragraph)] + inner + seq![MdEvent::End(MdTagEnd::Paragraph)];
    assert(inner.take(inner.len() as int) =~= inner);
    assert(evs.drop_last() =~= seq![MdEvent::Start(MdTag::Paragraph)] + inner.take(inner.len() as int));
    assert(evs.last() == MdEvent::End(MdTagEnd::Paragraph));
}

/// Reading events one run after another is reading them all at once.
pub proof fn render_from_concat(st: RenderView, a: Seq<MdEvent>, b: Seq<MdEvent>, width: usize, pal: PaletteView)
    ensures
        render_from(st, a + b, width, pal) == render_from(render_from(st, a, width, pal), b, width, pal),
    decreases b.len(),
{
    if b.len() == 0 {
        assert(a + b =~= a);
    } else {
        render_from_concat(st, a, b.drop_last(), width, pal);
        assert((a + b).drop_last() =~= a + b.drop_last());
        assert((a + b).last() == b.last());
    }
}

proof fn render_one(st: RenderView, e: MdEvent, width: usize, pal: PaletteView)
    ensures
        render_from(st, seq![e], width, pal) == render_step(st, e, width, pal),
{
    let evs = seq![e];
    assert(evs.drop_last() =~= Seq::<MdEvent>::empty());
    assert(evs.last() == e);
    assert(render_from(st, evs.drop_last(), width, pal) == st);
}

/// The events of the cells of a table row: each cell with its text.
pub open spec fn cell_events(cells: Seq<String>) -> Seq<MdEvent>
    decreases cells.len(),
{
    if cells.len() == 0 {
        Seq::empty()
    } else {
        cell_events(cells.drop_last()) + seq![
            MdEvent::Start(MdTag::TableCell),
            MdEvent::Text(cells.last()),
            MdEvent::End(MdTagEnd::TableCell),
        ]
    }
}

/// The events of a table row with the given cell texts.
pub open spec fn row_events(cells: Seq<String>) -> Seq<MdEvent> {
    seq![MdEvent::Start(MdTag::TableRow)] + cell_events(cells) + seq![MdEvent::End(MdTagEnd::TableRow)]
}

/// The events of table rows, one after another.
pub open spec fn rows_events(rows: Seq<Seq<String>>) -> Seq<MdEvent>
    decreases rows.len(),
{
    if rows.len() == 0 {
        Seq::empty()
    } else {
        rows_events(rows.drop_last()) + row_events(rows.last())
    }
}

/// The texts of some cells.
pub open spec fn cell_texts(cells: Seq<String>) -> Seq<Seq<char>> {
    cells.map_values(|c: String| c@)
}

proof fn cell_collects(st: RenderView, text: String, width: usize, pal: PaletteView)
    requires
        st.table is Some,
    ensures
        ({
            let r = render_from(st, seq![
                MdEvent::Start(MdTag::TableCell),
                MdEvent::Text(text),
                MdEvent::End(MdTagEnd::TableCell),
            ], width, pal);
            &&& r.table is Some
            &&& r.out == st.out
            &&& r.table->0.rows == st.table->0.rows
            &&& r.table->0.current_row == st.table->0.current_row.push(text@)
        }),
{
    let e1 = MdEvent::Start(MdTag::TableCell);
    let e2 = MdEvent::Text(text);
    let e3 = MdEvent::End(MdTagEnd::TableCell);
    render_from_concat(st, seq![e1], seq![e2], width, pal);
    render_from_concat(st, seq![e1] + seq![e2], seq![e3], width, pal);
    assert(seq![e1] + seq![e2] + seq![e3] =~= seq![e1, e2, e3]);
    render_one(st, e1, width, pal);
    let s1 = render_step(st, e1, width, pal);
    assert(s1.table is Some && s1.out == st.out && s1.table->0.rows == st.table->0.rows);
    assert(s1.table->0.current_row == st.table->0.current_row);
    assert(s1.table->0.current_cell.len() == 0);
    render_one(s1, e2, width, pal);
    let s2 = render_step(s1, e2, width, pal);
    assert(s2.table is Some && s2.out == st.out && s2.table->0.rows == st.table->0.rows);
    assert(s2.table->0.current_row == st.table->0.current_row);
    assert(s2.table->0.current_cell =~= text@);
    render_one(s2, e3, width, pal);
    let s3 = render_step(s2, e3, width, pal);
    assert(s3.table->0.current_row == st.table->0.current_row.push(text@));
}

#[verifier::spinoff_prover]
#[verifier::rlimit(60)]
proof fn cells_collect(st: RenderView, cells: Seq<String>, width: usize, pal: PaletteView)
    requires
        st.table is Some,
    ensures
        ({
            let r = render_from(st, cell_events(cells), width, pal);
            &&& r.table is Some
            &&& r.out == st.out
            &&& r.table->0.rows == st.table->0.rows
            &&& r.table->0.current_row == st.table->0.current_row + cell_texts(cells)
        }),
    decreases cells.len(),
{
    if cells.len() == 0 {
        assert(st.table->0.current_row + cell_texts(cells) =~= st.table->0.current_row);
    } else {
        let front = cell_events(cells.drop_last());
        let last3 = seq![
            MdEvent::Start(MdTag::TableCell),
            MdEvent::Text(cells.last()),
            MdEvent::End(MdTagEnd::TableCell),
        ];
        cells_collect(st, cells.drop_last(), width, pal);
        render_from_concat(st, front, last3, width, pal);
        let mid = render_from(st, front, width, pal);
        cell_collects(mid, cells.last(), width, pal);
        cell_texts_push(st.table->0.current_row, cells);
    }
}

proof fn cell_texts_push(row: Seq<Seq<char>>, cells: Seq<String>)
    requires
        cells.len() > 0,
    ensures
        row + cell_texts(cells) == (row + cell_texts(cells.drop_last())).push(cells.last()@),
{
    assert(cell_texts(cells) =~= cell_texts(cells.drop_last()).push(cells.last()@));
    assert(row + cell_texts(cells) =~= (row + cell_texts(cells.drop_last())).push(cells.last()@));
}

proof fn row_collects(st: RenderView, cells: Seq<String>, width: usize, pal: PaletteView)
    requires
        st.table is Some,
    ensures
        ({
            let r = render_from(st, row_events(cells), width, pal);
            &&& r.table is Some
            &&& r.out == st.out
            &&& r.table->0.rows == st.table->0.rows.push(cell_texts(cells))
        }),
{
    let start = seq![MdEvent::Start(MdTag::TableRow)];
    let end = seq![MdEvent::End(MdTagEnd::TableRow)];
    render_from_concat(st, start + cell_events(cells), end, width, pal);
    render_from_concat(st, start, cell_events(cells), width, pal);
    render_one(st, MdEvent::Start(MdTag::TableRow), width, pal);
    let s1 = render_from(st, start, width, pal);
    cells_collect(s1, cells, width, pal);
    let s2 = render_from(s1, cell_events(cells), width, pal);
    render_one(s2, MdEvent::End(MdTagEnd::TableRow), width, pal);
    assert(Seq::<Seq<char>>::empty() + cell_texts(cells) =~= cell_texts(cells));
}

/// Table rows stay in document order: from any point inside a table, the events of rows
/// `r0 .. rn` add exactly those rows, each with its cells' texts, after the rows already
/// read and in that order, and write nothing until the table ends.
pub proof fn table_rows_in_document_order(st: RenderView, rows: Seq<Seq<String>>, width: usize, pal: PaletteView)
    requires
        st.table is Some,
    ensures
        ({
            let r = render_from(st, rows_events(rows), width, pal);
            &&& r.table is Some
            &&& r.out == st.out
            &&& r.table->0.rows == st.table->0.rows + rows.map_values(|cells: Seq<String>| cell_texts(cells))
        }),
    decreases rows.len(),
{
    let views = rows.map_values(|cells: Seq<String>| cell_texts(cells));
    if rows.len() == 0 {
        assert(st.table->0.rows + views =~= st.table->0.rows);
    } else {
        table_rows_in_document_order(st, rows.drop_last(), width, pal);
        render_from_concat(st, rows_events(rows.drop_last()), row_events(rows.last()), width, pal);
        let mid = render_from(st, rows_events(rows.drop_last()), width, pal);
        row_collects(mid, rows.last(), width, pal);
        assert(rows.drop_last().map_values(|cells: Seq<String>| cell_texts(cells)) =~= views.drop_last());
        assert(st.table->0.rows + views =~= (st.table->0.rows + views.drop_last()).push(cell_texts(rows.last())));
    }
}

/// Whether every event is text, code or a soft break: the events inside a heading.
pub open spec fn heading_inline(evs: Seq<MdEvent>) -> bool {
    forall|i: int| 0 <= i < evs.len() ==> (#[trigger] evs[i] is Text || evs[i] is Code || evs[i] is SoftBreak)
}

/// The text that inline events make: each text and each code span's text, and a space for
/// each soft break.
pub open spec fn inline_texts(evs: Seq<MdEvent>) -> Seq<char>
    decreases evs.len(),
{
    if evs.len() == 0 {
        Seq::empty()
    } else {
        inline_texts(evs.drop_last()) + match evs.last() {
            MdEvent::Text(t) => t@,
            MdEvent::Code(c) => c@,
            _ => seq![' '],
        }
    }
}

proof fn heading_piece_step(st: RenderView, ev: MdEvent, width: usize, pal: PaletteView)
    requires
        st.table is None,
        st.in_heading,
        ev is Text || ev is Code || ev is SoftBreak,
    ensures
        ({
            let r = render_step(st, ev, width, pal);
            &&& r.table is None
            &&& r.in_heading
            &&& r.heading_level == st.heading_level
            &&& r.out == st.out
            &&& r.buf == st.buf + match ev {
                MdEvent::Text(t) => t@,
                MdEvent::Code(c) => c@,
                _ => seq![' '],
            }
        }),
{
    match ev {
        MdEvent::Text(t) => {},
        MdEvent::Code(c) => {},
        _ => {
            assert(st.buf.push(' ') =~= st.buf + seq![' ']);
        },
    }
}

proof fn heading_collects(st: RenderView, level: u8, inner: Seq<MdEvent>, k: int, width: usize, pal: PaletteView)
    requires
        st.table is None,
        !st.in_heading,
        !st.in_code_block,
        heading_inline(inner),
        0 <= k <= inner.len(),
    ensures
        ({
            let r = render_from(st, seq![MdEvent::Start(MdTag::Heading(level))] + inner.take(k), width, pal);
            &&& r.table is None
            &&& r.in_heading
            &&& r.heading_level == level
            &&& r.out == st.out
            &&& r.buf == inline_texts(inner.take(k))
        }),
    decreases k,
{
    let start = seq![MdEvent::Start(MdTag::Heading(level))];
    if k == 0 {
        assert(start + inner.take(0) =~= start);
        render_one(st, MdEvent::Start(MdTag::Heading(level)), width, pal);
        assert(inner.take(0) =~= Seq::<MdEvent>::empty());
    } else {
        heading_collects(st, level, inner, k - 1, width, pal);
        assert(start + inner.take(k) =~= (start + inner.take(k - 1)) + seq![inner[k - 1]]);
        render_from_concat(st, start + inner.take(k - 1), seq![inner[k - 1]], width, pal);
        let mid = render_from(st, start + inner.take(k - 1), width, pal);
        render_one(mid, inner[k - 1], width, pal);
        assert(inner[k - 1] is Text || inner[k - 1] is Code || inner[k - 1] is SoftBreak);
        heading_piece_step(mid, inner[k - 1], width, pal);
        assert(inner.take(k).drop_last() =~= inner.take(k - 1));
        assert(inner.take(k).last() == inner[k - 1]);
    }
}

/// A heading shows all of its inline text, code spans included: a heading read from outside
/// tables and code blocks writes, at its end, the heading for the texts of its text and code
/// events joined in order (a space for each soft break), and nothing before that.
pub proof fn heading_shows_all_its_text(st: RenderView, level: u8, inner: Seq<MdEvent>, width: usize, pal: PaletteView)
    requires
        st.table is None,
        !st.in_heading,
        !st.in_code_block,
        heading_inline(inner),
    ensures
        ({
            let evs = seq![MdEvent::Start(MdTag::Heading(level))] + inner + seq![MdEvent::End(MdTagEnd::Heading)];
            let r = render_from(st, evs, width, pal);
            &&& r.out == st.out + heading_out(level, inline_texts(inner), width, pal)
            &&& r.buf.len() == 0
            &&& !r.in_heading
        }),
{
    let start = seq![MdEvent::Start(MdTag::Heading(level))];
    let end = MdEvent::End(MdTagEnd::Heading);
    heading_collects(st, level, inner, inner.len() as int, width, pal);
    assert(inner.take(inner.len() as int) =~= inner);
    render_from_concat(st, start + inner, seq![end], width, pal);
    render_one(render_from(st, start + inner, width, pal), end, width, pal);
}

proof fn link_events(st: RenderView, dest: String, text: String, width: usize, pal: PaletteView)
    ensures
        render_from(st, seq![MdEvent::Start(MdTag::Link(dest)), MdEvent::Text(text), MdEvent::End(MdTagEnd::Link)], width, pal)
            == render_step(render_step(render_step(st, MdEvent::Start(MdTag::Link(dest)), width, pal),
                MdEvent::Text(text), width, pal), MdEvent::End(MdTagEnd::Link), width, pal),
{
    let e1 = MdEvent::Start(MdTag::Link(dest));
    let e2 = MdEvent::Text(text);
    let e3 = MdEvent::End(MdTagEnd::Link);
    render_from_concat(st, seq![e1], seq![e2], width, pal);
    render_from_concat(st, seq![e1] + seq![e2], seq![e3], width, pal);
    assert(seq![e1] + seq![e2] + seq![e3] =~= seq![e1, e2, e3]);
    render_one(st, e1, width, pal);
    render_one(render_step(st, e1, width, pal), e2, width, pal);
    render_one(render_step(render_step(st, e1, width, pal), e2, width, pal), e3, width, pal);
}

proof fn link_in_list(st: RenderView, dest: String, text: String, width: usize, pal: PaletteView)
    requires
        st.table is None,
        !st.in_heading,
        !st.in_code_block,
        buffering(st),
    ensures
        ({
            let r = render_step(render_step(render_step(st, MdEvent::Start(MdTag::Link(dest)), width, pal),
                MdEvent::Text(text), width, pal), MdEvent::End(MdTagEnd::Link), width, pal);
            &&& r.buf == st.buf + text@ + " ("@ + dest@ + ")"@
            &&& r.out == st.out
            &&& r.link_url is None
        }),
{
    let s1 = render_step(st, MdEvent::Start(MdTag::Link(dest)), width, pal);
    assert(s1 == RenderView { link_url: Some(dest@), ..st });
    let s2 = render_step(s1, MdEvent::Text(text), width, pal);
    assert(s2 == RenderView { buf: st.buf + text@, ..s1 });
    let s3 = render_step(s2, MdEvent::End(MdTagEnd::Link), width, pal);
    assert(s3.buf =~= st.buf + text@ + " ("@ + dest@ + ")"@);
}

proof fn link_in_paragraph(st: RenderView, dest: String, text: String, width: usize, pal: PaletteView)
    requires
        st.table is None,
        !st.in_heading,
        !st.in_code_block,
        !buffering(st),
        st.in_paragraph,
    ensures
        ({
            let r = render_step(render_step(render_step(st, MdEvent::Start(MdTag::Link(dest)), width, pal),
                MdEvent::Text(text), width, pal), MdEvent::End(MdTagEnd::Link), width, pal);
            &&& r.buf == st.buf + pal.fg_of(Hue::Blue) + attr_sgr(Attr::Underlined) + text@
                + attr_sgr(Attr::Reset) + pal.fg_of(Hue::DarkGrey) + " ("@ + dest@ + ")"@ + attr_sgr(Attr::Reset)
            &&& r.out == st.out
            &&& r.link_url is None
        }),
{
    let s1 = render_step(st, MdEvent::Start(MdTag::Link(dest)), width, pal);
    let style = pal.fg_of(Hue::Blue) + attr_sgr(Attr::Underlined);
    assert(s1 == RenderView { link_url: Some(dest@), buf: st.buf + style, ..st });
    let s2 = render_step(s1, MdEvent::Text(text), width, pal);
    assert(s2 == RenderView { buf: s1.buf + text@, ..s1 });
    let s3 = render_step(s2, MdEvent::End(MdTagEnd::Link), width, pal);
    let tail = attr_sgr(Attr::Reset) + pal.fg_of(Hue::DarkGrey) + " ("@ + dest@ + ")"@ + attr_sgr(Attr::Reset);
    assert(s3.buf == s2.buf + tail);
    assert(s3.buf =~= st.buf + pal.fg_of(Hue::Blue) + attr_sgr(Attr::Underlined) + text@
        + attr_sgr(Attr::Reset) + pal.fg_of(Hue::DarkGrey) + " ("@ + dest@ + ")"@ + attr_sgr(Attr::Reset));
}

/// A link always shows its destination. Inside a list or a block quote, a link with text
/// `a` to `dest` adds `a (dest)` to the held text; inside a paragraph outside them, it adds
/// `a` in blue and underlined, then ` (dest)` in dark grey.
pub proof fn links_show_their_destination(st: RenderView, dest: String, text: String, width: usize, pal: PaletteView)
    requires
        st.table is None,
        !st.in_heading,
        !st.in_code_block,
    ensures
        ({
            let evs = seq![MdEvent::Start(MdTag::Link(dest)), MdEvent::Text(text), MdEvent::End(MdTagEnd::Link)];
            let r = render_from(st, evs, width, pal);
            &&& buffering(st) ==> r.buf == st.buf + text@ + " ("@ + dest@ + ")"@ && r.out == st.out
            &&& !buffering(st) && st.in_paragraph ==> r.out == st.out && r.buf == st.buf
                + pal.fg_of(Hue::Blue) + attr_sgr(Attr::Underlined) + text@
                + attr_sgr(Attr::Reset) + pal.fg_of(Hue::DarkGrey) + " ("@ + dest@ + ")"@ + attr_sgr(Attr::Reset)
        }),
{
    link_events(st, dest, text, width, pal);
    if buffering(st) {
        link_in_list(st, dest, text, width, pal);
    } else if st.in_paragraph {
        link_in_paragraph(st, dest, text, width, pal);
    }
}

} // verus!
