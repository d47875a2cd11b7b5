//! Tables: cells collected while reading, then drawn with box-drawing characters.

use vstd::prelude::*;
use crate::blocks::minus;
use crate::markdown::Align;
use crate::measure::{str_columns, str_width, truncate_to_width, truncated};
use crate::style::{attr_sequence, attr_sgr, Attr, Hue, Palette, PaletteView};
use crate::text::{push_char, push_repeated, repeated};

verus! {

/// A table being read: the columns' alignments, the header's cells, the finished rows,
/// the row and the cell being read, and whether the header is being read.
pub struct TableState {
    pub alignments: Vec<Align>,
    pub head_cells: Vec<String>,
    pub rows: Vec<Vec<String>>,
    pub current_row: Vec<String>,
    pub current_cell: String,
    pub in_head: bool,
}

/// What a table being read holds.
pub struct TableView {
    pub alignments: Seq<Align>,
    pub head_cells: Seq<Seq<char>>,
    pub rows: Seq<Seq<Seq<char>>>,
    pub current_row: Seq<Seq<char>>,
    pub current_cell: Seq<char>,
    pub in_head: bool,
}

impl View for TableState {
    type V = TableView;

    open spec fn view(&self) -> TableView {
        TableView {
            alignments: self.alignments@,
            head_cells: self.head_cells.deep_view(),
            rows: self.rows.deep_view(),
            current_row: self.current_row.deep_view(),
            current_cell: self.current_cell@,
            in_head: self.in_head,
        }
    }
}

/// A table that has just started, with the given alignments.
pub open spec fn new_table(alignments: Seq<Align>) -> TableView {
    TableView {
        alignments,
        head_cells: Seq::empty(),
        rows: Seq::empty(),
        current_row: Seq::empty(),
        current_cell: Seq::empty(),
        in_head: false,
    }
}

impl TableState {
    /// A table with the given column alignments and nothing read yet.
    pub fn new(alignments: Vec<Align>) -> (t: TableState)
        ensures
            t@ == new_table(alignments@),
    {
        let t = TableState {
            alignments,
            head_cells: Vec::new(),
            rows: Vec::new(),
            current_row: Vec::new(),
            current_cell: String::new(),
            in_head: false,
        };
        assert(t.head_cells.deep_view() =~= Seq::<Seq<char>>::empty());
        assert(t.rows.deep_view() =~= Seq::<Seq<Seq<char>>>::empty());
        assert(t.current_row.deep_view() =~= Seq::<Seq<char>>::empty());
        t
    }
}

/// The larger of two integers.
pub open spec fn max_int(a: int, b: int) -> int {
    if a >= b { a } else { b }
}

/// Column widths widened to the given cell widths (those past the last column do not count).
pub open spec fn widen_by(widths: Seq<int>, cell_widths: Seq<int>) -> Seq<int> {
    Seq::new(widths.len(), |i: int| if i < cell_widths.len() { max_int(widths[i], cell_widths[i]) } else { widths[i] })
}

/// The display widths of a row's cells.
pub open spec fn cell_widths(cells: Seq<Seq<char>>) -> Seq<int> {
    cells.map_values(|c: Seq<char>| str_columns(c) as int)
}

/// Column widths widened to fit a row's cells (cells past the last column do not count).
pub open spec fn widen(widths: Seq<int>, cells: Seq<Seq<char>>) -> Seq<int> {
    widen_by(widths, cell_widths(cells))
}

/// Column widths widened to fit each of the rows.
pub open spec fn widen_rows(widths: Seq<int>, rows: Seq<Seq<Seq<char>>>) -> Seq<int>
    decreases rows.len(),
{
    if rows.len() == 0 {
        widths
    } else {
        widen(widen_rows(widths, rows.drop_last()), rows.last())
    }
}

/// A column's width kept between 3 and 40.
pub open spec fn clamp_width(w: int) -> int {
    if w < 3 { 3 } else if w > 40 { 40 } else { w }
}

/// The sum of some widths.
pub open spec fn sum_widths(ws: Seq<int>) -> int
    decreases ws.len(),
{
    if ws.len() == 0 {
        0
    } else {
        sum_widths(ws.drop_last()) + ws.last()
    }
}

/// The widths of the columns as their content asks, each between 3 and 40.
pub open spec fn natural_widths(t: TableView) -> Seq<int> {
    let start = Seq::new(t.alignments.len(), |i: int| 0int);
    widen_rows(widen(start, t.head_cells), t.rows).map_values(|w: int| clamp_width(w))
}

/// The width of the whole table drawn with the given column widths.
pub open spec fn table_span(ws: Seq<int>) -> int {
    sum_widths(ws) + 3 * ws.len() + 1
}

/// The widths of the columns: their natural widths, all shrunk by the same amount (but not
/// below 3) when the table would be wider than the terminal.
pub open spec fn column_widths(t: TableView, width: usize) -> Seq<int> {
    let ws = natural_widths(t);
    let total = table_span(ws);
    if total > width {
        let shrink = (total - width) / (ws.len() as int) + 1;
        ws.map_values(|w: int| max_int(minus(w, shrink), 3))
    } else {
        ws
    }
}

} // verus!

verus! {

/// Widths as integers.
pub open spec fn ints(ws: Seq<usize>) -> Seq<int> {
    ws.map_values(|w: usize| w as int)
}

proof fn widen_rows_len(widths: Seq<int>, rows: Seq<Seq<Seq<char>>>)
    ensures
        widen_rows(widths, rows).len() == widths.len(),
    decreases rows.len(),
{
    if rows.len() > 0 {
        widen_rows_len(widths, rows.drop_last());
    }
}

/// Every column of a table is between 3 and 40 columns wide, and there is one width for
/// each column.
pub proof fn column_widths_bounded(t: TableView, width: usize)
    ensures
        column_widths(t, width).len() == t.alignments.len(),
        forall|k: int| 0 <= k < t.alignments.len() ==>
            3 <= #[trigger] column_widths(t, width)[k] <= 40,
{
    let start = Seq::new(t.alignments.len(), |i: int| 0int);
    widen_rows_len(widen(start, t.head_cells), t.rows);
}

/// Widens column widths to the given cell widths: each column becomes as wide as its cell
/// when that is wider; widths past the last cell stay.
pub fn widen_widths(widths: &mut Vec<usize>, cell_widths: &Vec<usize>)
    ensures
        final(widths)@.len() == old(widths)@.len(),
        ints(final(widths)@) == widen_by(ints(old(widths)@), ints(cell_widths@)),
{
    let n = widths.len();
    let m = cell_widths.len();
    let ghost start = ints(widths@);
    let ghost cws = ints(cell_widths@);
    for i in 0..m
        invariant
            n == widths@.len(),
            m == cell_widths@.len(),
            start == ints(old(widths)@),
            cws == ints(cell_widths@),
            ints(widths@) == Seq::new(n as nat, |k: int|
                if k < i && k < m { max_int(start[k], cws[k]) } else { start[k] }),
    {
        let ghost prev = ints(widths@);
        if i < n {
            assert(prev[i as int] == start[i as int]);
            let w = cell_widths[i];
            if w > widths[i] {
                widths.set(i, w);
            }
            assert(ints(widths@)[i as int] == max_int(start[i as int], cws[i as int]));
            assert forall|k: int| 0 <= k < n && k != i implies ints(widths@)[k] == prev[k] by {}
        }
        let ghost next = Seq::new(n as nat, |k: int|
            if k < i + 1 && k < m { max_int(start[k], cws[k]) } else { start[k] });
        assert forall|k: int| 0 <= k < n implies #[trigger] ints(widths@)[k] == next[k] by {
            if k != i {
                assert(ints(widths@)[k] == prev[k]);
            }
        }
        assert(ints(widths@) =~= next);
    }
    assert(ints(widths@) =~= widen_by(start, cws));
}

fn widen_to(widths: &mut Vec<usize>, cells: &Vec<String>)
    ensures
        final(widths)@.len() == old(widths)@.len(),
        ints(final(widths)@) == widen(ints(old(widths)@), cells.deep_view()),
{
    let m = cells.len();
    let mut cws: Vec<usize> = Vec::new();
    for i in 0..m
        invariant
            m == cells.deep_view().len(),
            ints(cws@) == cell_widths(cells.deep_view()).take(i as int),
    {
        let ghost before = ints(cws@);
        cws.push(str_width(cells[i].as_str()));
        assert(cells[i as int]@ == cells.deep_view()[i as int]);
        assert(ints(cws@) =~= before.push(str_columns(cells.deep_view()[i as int]) as int));
        assert(ints(cws@) =~= cell_widths(cells.deep_view()).take(i + 1));
    }
    assert(cell_widths(cells.deep_view()).take(m as int) =~= cell_widths(cells.deep_view()));
    widen_widths(widths, &cws);
}

fn column_widths_of(t: &TableState, width: usize) -> (ws: Vec<usize>)
    requires
        t.alignments@.len() > 0,
    ensures
        ints(ws@) == column_widths(t@, width),
{
    let ncols = t.alignments.len();
    let mut ws: Vec<usize> = Vec::new();
    for i in 0..ncols
        invariant
            ws@.len() == i,
            forall|k: int| 0 <= k < i ==> ws@[k] == 0,
    {
        ws.push(0);
    }
    assert(ints(ws@) =~= Seq::new(t@.alignments.len(), |i: int| 0int));
    widen_to(&mut ws, &t.head_cells);
    let ghost head = ints(ws@);
    let nrows = t.rows.len();
    for r in 0..nrows
        invariant
            nrows == t.rows.deep_view().len(),
            ws@.len() == ncols,
            ints(ws@) == widen_rows(head, t.rows.deep_view().take(r as int)),
    {
        assert(t.rows[r as int].deep_view() == t.rows.deep_view()[r as int]);
        widen_to(&mut ws, &t.rows[r]);
        assert(t.rows.deep_view().take(r + 1).drop_last() =~= t.rows.deep_view().take(r as int));
    }
    assert(t.rows.deep_view().take(nrows as int) =~= t.rows.deep_view());
    let ghost raw = ints(ws@);
    let mut clamped: Vec<usize> = Vec::new();
    let mut total: u128 = 0;
    for i in 0..ncols
        invariant
            ncols == ws@.len(),
            raw == ints(ws@),
            ints(clamped@) == raw.take(i as int).map_values(|w: int| clamp_width(w)),
            total as int == sum_widths(ints(clamped@)),
            total <= 40 * i,
            clamped@.len() == i,
            forall|k: int| 0 <= k < i ==> clamped@[k] <= 40,
    {
        let w = ws[i];
        let c = if w < 3 { 3 } else if w > 40 { 40 } else { w };
        let ghost before = ints(clamped@);
        clamped.push(c);
        assert(ints(clamped@) =~= before.push(c as int));
        assert(ints(clamped@).drop_last() =~= before);
        assert(raw.take(i + 1).map_values(|w: int| clamp_width(w)) =~= before.push(clamp_width(raw[i as int])));
        total = total + c as u128;
    }
    assert(raw.take(ncols as int) =~= raw);
    assert(ints(clamped@) == natural_widths(t@));
    let span: u128 = total + 3 * (ncols as u128) + 1;
    if span > width as u128 {
        let shrink: u128 = (span - width as u128) / (ncols as u128) + 1;
        let mut out: Vec<usize> = Vec::new();
        for i in 0..ncols
            invariant
                ncols == clamped@.len(),
                ints(out@) == ints(clamped@).take(i as int).map_values(|w: int| max_int(minus(w, shrink as int), 3)),
                forall|k: int| 0 <= k < ncols ==> clamped@[k] <= 40,
        {
            let w = clamped[i] as u128;
            let s: u128 = if w >= shrink { w - shrink } else { 0 };
            let v: usize = if s < 3 { 3 } else { s as usize };
            let ghost before = ints(out@);
            out.push(v);
            assert(ints(out@) =~= before.push(v as int));
            assert(ints(clamped@).take(i + 1).map_values(|w: int| max_int(minus(w, shrink as int), 3))
                =~= before.push(max_int(minus(clamped@[i as int] as int, shrink as int), 3)));
        }
        assert(ints(clamped@).take(ncols as int) =~= ints(clamped@));
        out
    } else {
        clamped
    }
}

} // verus!

verus! {

/// The first `k` cells of a rule line: each cell's fill, two wider than the column, and the
/// junction after every cell but the last.
pub open spec fn rule_cells(ws: Seq<int>, k: int, mid: Seq<char>, fill: Seq<char>) -> Seq<char>
    decreases k,
{
    if k <= 0 {
        Seq::empty()
    } else {
        rule_cells(ws, k - 1, mid, fill) + repeated(fill, (ws[k - 1] + 2) as nat)
            + (if k - 1 < ws.len() - 1 { mid } else { Seq::empty() })
    }
}

/// A rule line across the table, in dark grey.
pub open spec fn rule_line(ws: Seq<int>, left: Seq<char>, mid: Seq<char>, right: Seq<char>, fill: Seq<char>, pal: PaletteView) -> Seq<char> {
    pal.fg_of(Hue::DarkGrey) + left + rule_cells(ws, ws.len() as int, mid, fill) + right
        + attr_sgr(Attr::Reset) + seq!['\n']
}

/// The left and right padding of a cell's text for its column's alignment.
pub open spec fn padding(align: Align, pad: int) -> (int, int) {
    match align {
        Align::Center => (pad / 2, pad - pad / 2),
        Align::Right => (pad, 0),
        _ => (0, pad),
    }
}

/// What a cell shows of its text: all of it, or when it is wider than the column, the text
/// cut with an ellipsis.
pub open spec fn cell_shown(text: Seq<char>, cw: int) -> Seq<char> {
    if str_columns(text) > cw { truncated(text, cw as usize) } else { text }
}

/// The styling that starts a cell: a reset, and bold white for the header.
pub open spec fn cell_style(bold: bool, pal: PaletteView) -> Seq<char> {
    attr_sgr(Attr::Reset) + (if bold { attr_sgr(Attr::Bold) + pal.fg_of(Hue::White) } else { Seq::empty() })
}

/// Shown text between its padding and a space on each side.
pub open spec fn padded(shown: Seq<char>, lp: int, rp: int) -> Seq<char> {
    " "@ + repeated(" "@, lp as nat) + shown + repeated(" "@, rp as nat) + " "@
}

/// One cell of a row: its text (cut with an ellipsis when wider than the column) padded to
/// the column's width by its alignment, between spaces, then a border.
pub open spec fn cell_out(text: Seq<char>, cw: int, align: Align, bold: bool, pal: PaletteView) -> Seq<char> {
    let shown = cell_shown(text, cw);
    let pad = padding(align, minus(cw, str_columns(shown) as int));
    cell_style(bold, pal) + padded(shown, pad.0, pad.1) + pal.fg_of(Hue::DarkGrey) + "│"@
}

/// The text of a row's cell in a column, empty when the row has fewer cells.
pub open spec fn cell_text(cells: Seq<Seq<char>>, i: int) -> Seq<char> {
    if i < cells.len() { cells[i] } else { ""@ }
}

/// The first `k` cells of a row.
pub open spec fn row_cells(cells: Seq<Seq<char>>, ws: Seq<int>, aligns: Seq<Align>, k: int, bold: bool, pal: PaletteView) -> Seq<char>
    decreases k,
{
    if k <= 0 {
        Seq::empty()
    } else {
        row_cells(cells, ws, aligns, k - 1, bold, pal) + cell_out(cell_text(cells, k - 1), ws[k - 1], aligns[k - 1], bold, pal)
    }
}

/// A row of the table: a border, then one cell for each column.
pub open spec fn row_line(cells: Seq<Seq<char>>, ws: Seq<int>, aligns: Seq<Align>, bold: bool, pal: PaletteView) -> Seq<char> {
    pal.fg_of(Hue::DarkGrey) + "│"@ + row_cells(cells, ws, aligns, ws.len() as int, bold, pal)
        + attr_sgr(Attr::Reset) + seq!['\n']
}

/// The first `k` rows of the body, a dashed rule between two rows.
pub open spec fn body_rows(rows: Seq<Seq<Seq<char>>>, ws: Seq<int>, aligns: Seq<Align>, k: int, pal: PaletteView) -> Seq<char>
    decreases k,
{
    if k <= 0 {
        Seq::empty()
    } else {
        body_rows(rows, ws, aligns, k - 1, pal) + row_line(rows[k - 1], ws, aligns, false, pal)
            + (if k - 1 < rows.len() - 1 { rule_line(ws, "├"@, "┼"@, "┤"@, "╌"@, pal) } else { Seq::empty() })
    }
}

/// A rendered table: nothing when it has no column; else the top rule, the header in bold
/// white, a rule, the rows, and the bottom rule.
pub open spec fn table_out(t: TableView, width: usize, pal: PaletteView) -> Seq<char> {
    if t.alignments.len() == 0 {
        Seq::empty()
    } else {
        let ws = column_widths(t, width);
        rule_line(ws, "┌"@, "┬"@, "┐"@, "─"@, pal) + row_line(t.head_cells, ws, t.alignments, true, pal)
            + rule_line(ws, "├"@, "┼"@, "┤"@, "─"@, pal)
            + body_rows(t.rows, ws, t.alignments, t.rows.len() as int, pal)
            + rule_line(ws, "└"@, "┴"@, "┘"@, "─"@, pal)
    }
}

fn push_rule(out: &mut String, pal: &Palette, ws: &Vec<usize>, left: &str, mid: &str, right: &str, fill: &str)
    requires
        forall|k: int| 0 <= k < ws@.len() ==> ws@[k] <= 40,
    ensures
        final(out)@ == old(out)@ + rule_line(ints(ws@), left@, mid@, right@, fill@, pal@),
{
    out.append(pal.fg(Hue::DarkGrey));
    out.append(left);
    let ghost start = out@;
    let n = ws.len();
    for i in 0..n
        invariant
            n == ws@.len(),
            forall|k: int| 0 <= k < ws@.len() ==> ws@[k] <= 40,
            out@ == start + rule_cells(ints(ws@), i as int, mid@, fill@),
    {
        push_repeated(out, fill, ws[i] + 2);
        if i < n - 1 {
            out.append(mid);
        }
        assert(out@ =~= start + rule_cells(ints(ws@), i + 1, mid@, fill@));
    }
    out.append(right);
    out.append(&attr_sequence(Attr::Reset));
    push_char(out, '\n');
    assert(out@ =~= old(out)@ + rule_line(ints(ws@), left@, mid@, right@, fill@, pal@));
}

} // verus!

verus! {

/// The text shown in a cell and its left and right padding.
fn fitted_cell(text: &str, cw: usize, align: Align) -> (r: (String, usize, usize))
    ensures
        r.0@ == cell_shown(text@, cw as int),
        (r.1 as int, r.2 as int) == padding(align, minus(cw as int, str_columns(r.0@) as int)),
{
    let shown = if str_width(text) > cw { truncate_to_width(text, cw) } else { String::from_str(text) };
    let (lp, rp) = cell_padding(align, cw, str_width(shown.as_str()));
    (shown, lp, rp)
}

/// The left and right padding of a cell whose shown text is `shown_width` columns wide in a
/// column `cw` wide: all on the right, all on the left, or split with the extra column on
/// the right, as the column aligns.
pub fn cell_padding(align: Align, cw: usize, shown_width: usize) -> (r: (usize, usize))
    ensures
        (r.0 as int, r.1 as int) == padding(align, minus(cw as int, shown_width as int)),
{
    let pad = cw.saturating_sub(shown_width);
    match align {
        Align::Center => (pad / 2, pad - pad / 2),
        Align::Right => (pad, 0),
        _ => (0, pad),
    }
}

fn push_padded(out: &mut String, shown: &str, lp: usize, rp: usize)
    ensures
        final(out)@ == old(out)@ + padded(shown@, lp as int, rp as int),
{
    out.append(" ");
    push_repeated(out, " ", lp);
    out.append(shown);
    push_repeated(out, " ", rp);
    out.append(" ");
    assert(out@ =~= old(out)@ + padded(shown@, lp as int, rp as int));
}

fn push_cell_style(out: &mut String, pal: &Palette, bold: bool)
    ensures
        final(out)@ == old(out)@ + cell_style(bold, pal@),
{
    out.append(&attr_sequence(Attr::Reset));
    if bold {
        out.append(&attr_sequence(Attr::Bold));
        out.append(pal.fg(Hue::White));
    }
    assert(out@ =~= old(out)@ + cell_style(bold, pal@));
}

fn push_cell(out: &mut String, pal: &Palette, text: &str, cw: usize, align: Align, bold: bool)
    ensures
        final(out)@ == old(out)@ + cell_out(text@, cw as int, align, bold, pal@),
{
    push_cell_style(out, pal, bold);
    let (shown, lp, rp) = fitted_cell(text, cw, align);
    push_padded(out, shown.as_str(), lp, rp);
    out.append(pal.fg(Hue::DarkGrey));
    out.append("│");
    let ghost pad = padding(align, minus(cw as int, str_columns(shown@) as int));
    assert(pad.0 == lp && pad.1 == rp);
    assert(out@ =~= old(out)@ + cell_out(text@, cw as int, align, bold, pal@));
}

fn push_row(out: &mut String, pal: &Palette, cells: &Vec<String>, ws: &Vec<usize>, aligns: &Vec<Align>, bold: bool)
    requires
        aligns@.len() == ws@.len(),
    ensures
        final(out)@ == old(out)@ + row_line(cells.deep_view(), ints(ws@), aligns@, bold, pal@),
{
    out.append(pal.fg(Hue::DarkGrey));
    out.append("│");
    let ghost start = out@;
    let n = ws.len();
    for i in 0..n
        invariant
            n == ws@.len(),
            aligns@.len() == n,
            out@ == start + row_cells(cells.deep_view(), ints(ws@), aligns@, i as int, bold, pal@),
    {
        if i < cells.len() {
            assert(cells[i as int]@ == cells.deep_view()[i as int]);
            push_cell(out, pal, cells[i].as_str(), ws[i], aligns[i], bold);
        } else {
            push_cell(out, pal, "", ws[i], aligns[i], bold);
        }
        assert(out@ =~= start + row_cells(cells.deep_view(), ints(ws@), aligns@, i + 1, bold, pal@));
    }
    out.append(&attr_sequence(Attr::Reset));
    push_char(out, '\n');
    assert(out@ =~= old(out)@ + row_line(cells.deep_view(), ints(ws@), aligns@, bold, pal@));
}

/// Writes a table.
pub fn render_table(out: &mut String, width: usize, pal: &Palette, t: &TableState)
    ensures
        final(out)@ == old(out)@ + table_out(t@, width, pal@),
{
    let ncols = t.alignments.len();
    if ncols == 0 {
        assert(out@ =~= old(out)@ + table_out(t@, width, pal@));
        return;
    }
    let ws = column_widths_of(t, width);
    proof {
        column_widths_bounded(t@, width);
        assert(ints(ws@).len() == ws@.len());
        assert forall|k: int| 0 <= k < ws@.len() implies ws@[k] <= 40 by {
            assert(ints(ws@)[k] == ws@[k] as int);
        }
    }
    push_rule(out, pal, &ws, "┌", "┬", "┐", "─");
    push_row(out, pal, &t.head_cells, &ws, &t.alignments, true);
    push_rule(out, pal, &ws, "├", "┼", "┤", "─");
    let ghost start = out@;
    let nrows = t.rows.len();
    for i in 0..nrows
        invariant
            nrows == t.rows.deep_view().len(),
            ws@.len() == ncols,
            t.alignments@.len() == ncols,
            forall|k: int| 0 <= k < ws@.len() ==> ws@[k] <= 40,
            out@ == start + body_rows(t.rows.deep_view(), ints(ws@), t.alignments@, i as int, pal@),
    {
        assert(t.rows[i as int].deep_view() == t.rows.deep_view()[i as int]);
        push_row(out, pal, &t.rows[i], &ws, &t.alignments, false);
        if i < nrows - 1 {
            push_rule(out, pal, &ws, "├", "┼", "┤", "╌");
        }
        assert(out@ =~= start + body_rows(t.rows.deep_view(), ints(ws@), t.alignments@, i + 1, pal@));
    }
    push_rule(out, pal, &ws, "└", "┴", "┘", "─");
    assert(out@ =~= old(out)@ + table_out(t@, width, pal@));
}

} // verus!

verus! {

/// The drawing of body row `i` of `rows`: the row's line, then a dashed rule unless it is the
/// last row.
pub open spec fn body_row_drawn(rows: Seq<Seq<Seq<char>>>, ws: Seq<int>, aligns: Seq<Align>, i: int, pal: PaletteView) -> Seq<char> {
    row_line(rows[i], ws, aligns, false, pal)
        + (if i < rows.len() - 1 { rule_line(ws, "├"@, "┼"@, "┤"@, "╌"@, pal) } else { Seq::empty() })
}

proof fn body_rows_flatten(rows: Seq<Seq<Seq<char>>>, ws: Seq<int>, aligns: Seq<Align>, k: int, pal: PaletteView)
    requires
        0 <= k <= rows.len(),
    ensures
        body_rows(rows, ws, aligns, k, pal)
            == Seq::new(k as nat, |i: int| body_row_drawn(rows, ws, aligns, i, pal)).flatten_alt(),
    decreases k,
{
    let drawn = Seq::new(k as nat, |i: int| body_row_drawn(rows, ws, aligns, i, pal));
    if k > 0 {
        body_rows_flatten(rows, ws, aligns, k - 1, pal);
        assert(drawn.drop_last() =~= Seq::new((k - 1) as nat, |i: int| body_row_drawn(rows, ws, aligns, i, pal)));
        assert(drawn.last() == body_row_drawn(rows, ws, aligns, k - 1, pal));
    }
}

/// A table is drawn as its top border, its header in bold, a rule, then its body rows in the
/// order they were read (row `i` drawn `i`-th, dashed rules between them), then its bottom
/// border.
pub proof fn table_rows_drawn_in_order(t: TableView, width: usize, pal: PaletteView)
    requires
        t.alignments.len() > 0,
    ensures
        ({
            let ws = column_widths(t, width);
            table_out(t, width, pal) == rule_line(ws, "┌"@, "┬"@, "┐"@, "─"@, pal)
                + row_line(t.head_cells, ws, t.alignments, true, pal)
                + rule_line(ws, "├"@, "┼"@, "┤"@, "─"@, pal)
                + Seq::new(t.rows.len(), |i: int| body_row_drawn(t.rows, ws, t.alignments, i, pal)).flatten()
                + rule_line(ws, "└"@, "┴"@, "┘"@, "─"@, pal)
        }),
{
    let ws = column_widths(t, width);
    body_rows_flatten(t.rows, ws, t.alignments, t.rows.len() as int, pal);
    Seq::new(t.rows.len(), |i: int| body_row_drawn(t.rows, ws, t.alignments, i, pal)).lemma_flatten_and_flatten_alt_are_equivalent();
}

} // verus!
