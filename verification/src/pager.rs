//! The pager's decisions: which keys scroll, search and quit, and what its status bar
//! says. Reading keys and drawing the screen are left to the caller.

use vstd::prelude::*;
use crate::blocks::{min_int, minus};
use crate::text::{
    chars_of, contains, decimal, lines_of, lowercase, occurs_in, push_char, push_decimal, push_repeated,
    repeated, split_lines, to_lowercase,
};

verus! {

/// The escape character that starts a terminal control sequence.
pub open spec fn esc() -> char {
    '\x1b'
}

/// Whether `c` is an ASCII letter.
pub open spec fn is_ascii_letter(c: char) -> bool {
    ('A' <= c && c <= 'Z') || ('a' <= c && c <= 'z')
}

/// Where the stripping of escape sequences stands: in plain text, just after an escape,
/// or inside a `ESC [` sequence.
pub enum StripMode {
    Plain,
    AfterEsc,
    InSequence,
}

/// The plain text of `s`, read from `mode`: an escape is dropped; when `[` follows it, the
/// characters after it are dropped up to and including the first ASCII letter.
pub open spec fn strip_from(s: Seq<char>, mode: StripMode) -> Seq<char>
    decreases s.len(),
{
    if s.len() == 0 {
        Seq::empty()
    } else {
        let c = s[0];
        let rest = s.drop_first();
        match mode {
            StripMode::InSequence => if is_ascii_letter(c) || c == 'm' {
                strip_from(rest, StripMode::Plain)
            } else {
                strip_from(rest, StripMode::InSequence)
            },
            StripMode::AfterEsc => if c == '[' {
                strip_from(rest, StripMode::InSequence)
            } else if c == esc() {
                strip_from(rest, StripMode::AfterEsc)
            } else {
                seq![c] + strip_from(rest, StripMode::Plain)
            },
            StripMode::Plain => if c == esc() {
                strip_from(rest, StripMode::AfterEsc)
            } else {
                seq![c] + strip_from(rest, StripMode::Plain)
            },
        }
    }
}

/// `s` without its ANSI escape sequences.
pub open spec fn stripped(s: Seq<char>) -> Seq<char> {
    strip_from(s, StripMode::Plain)
}

/// Strips ANSI escape sequences from a line, for search matching.
pub fn strip_ansi(s: &str) -> (r: String)
    ensures
        r@ == stripped(s@),
{
    let cs = chars_of(s);
    let n = cs.len();
    let mut result = String::new();
    let mut mode = StripMode::Plain;
    let mut i: usize = 0;
    assert(cs@.skip(0) =~= cs@);
    while i < n
        invariant
            i <= n,
            n == cs@.len(),
            cs@ == s@,
            stripped(s@) == result@ + strip_from(cs@.skip(i as int), mode),
        decreases n - i,
    {
        let c = cs[i];
        let ghost rest = cs@.skip(i as int);
        assert(rest[0] == c);
        assert(rest.drop_first() =~= cs@.skip(i + 1));
        let letter = ('A' <= c && c <= 'Z') || ('a' <= c && c <= 'z');
        match mode {
            StripMode::InSequence => {
                if letter || c == 'm' {
                    mode = StripMode::Plain;
                }
            },
            StripMode::AfterEsc => {
                if c == '[' {
                    mode = StripMode::InSequence;
                } else if c == '\x1b' {
                    mode = StripMode::AfterEsc;
                } else {
                    push_char(&mut result, c);
                    mode = StripMode::Plain;
                }
            },
            StripMode::Plain => {
                if c == '\x1b' {
                    mode = StripMode::AfterEsc;
                } else {
                    push_char(&mut result, c);
                }
            },
        }
        i += 1;
        assert(stripped(s@) =~= result@ + strip_from(cs@.skip(i as int), mode));
    }
    assert(cs@.skip(n as int) =~= Seq::<char>::empty());
    assert(result@ + Seq::<char>::empty() =~= result@);
    result
}

proof fn strip_from_has_no_escape(s: Seq<char>, mode: StripMode)
    ensures
        !strip_from(s, mode).contains(esc()),
    decreases s.len(),
{
    if s.len() > 0 {
        let rest = s.drop_first();
        strip_from_has_no_escape(rest, StripMode::Plain);
        strip_from_has_no_escape(rest, StripMode::AfterEsc);
        strip_from_has_no_escape(rest, StripMode::InSequence);
        let r = strip_from(rest, StripMode::Plain);
        assert forall|k: int| 0 <= k < (seq![s[0]] + r).len() && s[0] != esc() implies (seq![s[0]] + r)[k] != esc() by {
            if k > 0 {
                assert((seq![s[0]] + r)[k] == r[k - 1]);
            }
        }
    }
}

proof fn strip_plain_text(s: Seq<char>)
    requires
        !s.contains(esc()),
    ensures
        strip_from(s, StripMode::Plain) == s,
    decreases s.len(),
{
    if s.len() > 0 {
        assert(s[0] != esc());
        assert(!s.drop_first().contains(esc())) by {
            assert forall|k: int| 0 <= k < s.drop_first().len() implies s.drop_first()[k] != esc() by {
                assert(s.drop_first()[k] == s[k + 1]);
            }
        }
        strip_plain_text(s.drop_first());
        assert(seq![s[0]] + s.drop_first() =~= s);
    }
}

/// Stripping leaves no escape character behind, leaves text without one unchanged, and so
/// stripping twice is stripping once.
pub proof fn strip_ansi_laws(s: Seq<char>)
    ensures
        !stripped(s).contains(esc()),
        !s.contains(esc()) ==> stripped(s) == s,
        stripped(stripped(s)) == stripped(s),
{
    strip_from_has_no_escape(s, StripMode::Plain);
    if !s.contains(esc()) {
        strip_plain_text(s);
    }
    strip_plain_text(stripped(s));
}

} // verus!

verus! {

/// A key of the keyboard, as far as the pager tells keys apart.
#[derive(Clone, Copy, Debug, PartialEq, Eq)]
pub enum Key {
    Char(char),
    Enter,
    Esc,
    Backspace,
    Up,
    Down,
    PageUp,
    PageDown,
    Home,
    End,
    Other,
}

/// Something that happened at the terminal.
#[derive(Clone, Copy, Debug, PartialEq, Eq)]
pub enum PagerEvent {
    /// A key was pressed, with the Control key held or not.
    Key(Key, bool),
    /// The terminal changed size.
    Resize,
    /// Anything else (mouse, focus, paste).
    Other,
}

/// What the caller does after an event.
#[derive(Clone, Copy, Debug, PartialEq, Eq)]
pub enum PagerAction {
    /// Leave the pager.
    Quit,
    /// Draw the page and the status bar.
    Redraw,
    /// Draw only the search bar.
    DrawSearchBar,
    /// Do nothing.
    Wait,
}

/// What the pager holds: the lines of the document, the first line shown, the last search
/// and its matching lines, the match last jumped to, and the search being typed.
pub struct PagerView {
    pub lines: Seq<Seq<char>>,
    pub offset: usize,
    pub query: Seq<char>,
    pub matches: Seq<usize>,
    pub current: usize,
    pub in_search: bool,
    pub input: Seq<char>,
}

/// Whether a line matches a search: its text without escape sequences, in lowercase,
/// contains the query in lowercase.
pub open spec fn line_matches(line: Seq<char>, query: Seq<char>) -> bool {
    occurs_in(lowercase(stripped(line)), lowercase(query))
}

/// The indices, in increasing order, of the first `k` lines that match a search.
pub open spec fn matching_lines(lines: Seq<Seq<char>>, query: Seq<char>, k: int) -> Seq<usize>
    decreases k,
{
    if k <= 0 {
        Seq::empty()
    } else {
        let before = matching_lines(lines, query, k - 1);
        if line_matches(lines[k - 1], query) { before.push((k - 1) as usize) } else { before }
    }
}

/// The indices of all the lines that match a search.
pub open spec fn search_results(lines: Seq<Seq<char>>, query: Seq<char>) -> Seq<usize> {
    matching_lines(lines, query, lines.len() as int)
}

impl PagerView {
    /// The match last jumped to is one of the matches (when there are any), the first line
    /// shown is a line of the document or just past it, and nothing is typed outside a search.
    pub open spec fn wf(self) -> bool {
        &&& self.matches.len() > 0 ==> self.current < self.matches.len()
        &&& self.offset <= self.lines.len()
        &&& self.lines.len() <= usize::MAX
        &&& self.matches.len() <= usize::MAX
        &&& !self.in_search ==> self.input.len() == 0
    }
}

/// The lines shown at once: all rows of the terminal but the status bar.
pub open spec fn viewport(term_h: u16) -> int {
    minus(term_h as int, 1)
}

/// The largest first line: the one that shows the last line at the bottom.
pub open spec fn max_offset(v: PagerView, term_h: u16) -> int {
    minus(v.lines.len() as int, viewport(term_h))
}

/// `v` showing `offset` first.
pub open spec fn at(v: PagerView, offset: int) -> PagerView {
    PagerView { offset: offset as usize, ..v }
}

/// A key typed while a search is being entered: Enter runs it and jumps to the first match,
/// Esc abandons it, Backspace deletes a character, a character is added.
pub open spec fn search_key(v: PagerView, key: Key, term_h: u16) -> PagerView {
    match key {
        Key::Enter => {
            let matches = search_results(v.lines, v.input);
            PagerView {
                in_search: false,
                query: v.input,
                input: Seq::empty(),
                matches,
                current: 0,
                offset: if matches.len() > 0 { min_int(matches[0] as int, max_offset(v, term_h)) as usize } else { v.offset },
                ..v
            }
        },
        Key::Esc => PagerView { in_search: false, input: Seq::empty(), ..v },
        Key::Backspace => PagerView { input: if v.input.len() > 0 { v.input.drop_last() } else { v.input }, ..v },
        Key::Char(c) => PagerView { input: v.input.push(c), ..v },
        _ => v,
    }
}

/// A key pressed while browsing: q, Esc and Control-C quit; arrows, j and k scroll by a line;
/// page keys, space and b by a page; Control-D and Control-U by half a page; Home, g, End and
/// G go to the top and the bottom; / starts a search; n and N go to the next and the previous
/// match. Every move stays between the top and the largest first line.
pub open spec fn browse_key(v: PagerView, key: Key, ctrl: bool, term_h: u16) -> (PagerView, PagerAction) {
    let page = viewport(term_h);
    let max = max_offset(v, term_h);
    match key {
        Key::Char('q') | Key::Esc => (v, PagerAction::Quit),
        Key::Char('c') if ctrl => (v, PagerAction::Quit),
        Key::Down | Key::Char('j') => (at(v, min_int(v.offset + 1, max)), PagerAction::Redraw),
        Key::Up | Key::Char('k') => (at(v, minus(v.offset as int, 1)), PagerAction::Redraw),
        Key::PageDown | Key::Char(' ') => (at(v, min_int(v.offset + page, max)), PagerAction::Redraw),
        Key::PageUp | Key::Char('b') => (at(v, minus(v.offset as int, page)), PagerAction::Redraw),
        Key::Home | Key::Char('g') => (at(v, 0), PagerAction::Redraw),
        Key::End | Key::Char('G') => (at(v, max), PagerAction::Redraw),
        Key::Char('d') if ctrl => (at(v, min_int(v.offset + page / 2, max)), PagerAction::Redraw),
        Key::Char('u') if ctrl => (at(v, minus(v.offset as int, page / 2)), PagerAction::Redraw),
        Key::Char('/') => (PagerView { in_search: true, input: Seq::empty(), ..v }, PagerAction::DrawSearchBar),
        Key::Char('n') => if v.matches.len() > 0 {
            let current = ((v.current + 1) % (v.matches.len() as int)) as usize;
            (PagerView { current, offset: min_int(v.matches[current as int] as int, max) as usize, ..v }, PagerAction::Redraw)
        } else {
            (v, PagerAction::Redraw)
        },
        Key::Char('N') => if v.matches.len() > 0 {
            let current = if v.current == 0 { (v.matches.len() - 1) as usize } else { (v.current - 1) as usize };
            (PagerView { current, offset: min_int(v.matches[current as int] as int, max) as usize, ..v }, PagerAction::Redraw)
        } else {
            (v, PagerAction::Redraw)
        },
        _ => (v, PagerAction::Redraw),
    }
}

/// What the pager does with an event, on a terminal `term_h` rows high.
pub open spec fn pager_step(v: PagerView, ev: PagerEvent, term_h: u16) -> (PagerView, PagerAction) {
    match ev {
        PagerEvent::Key(key, ctrl) => if v.in_search {
            (search_key(v, key, term_h), PagerAction::DrawSearchBar)
        } else {
            browse_key(v, key, ctrl, term_h)
        },
        PagerEvent::Resize => (v, PagerAction::Redraw),
        PagerEvent::Other => (v, PagerAction::Wait),
    }
}

} // verus!

verus! {

/// A pager over the lines of a rendered document.
pub struct Pager {
    lines: Vec<String>,
    offset: usize,
    search_query: String,
    search_matches: Vec<usize>,
    current_match: usize,
    in_search: bool,
    search_input: String,
}

impl View for Pager {
    type V = PagerView;

    closed spec fn view(&self) -> PagerView {
        PagerView {
            lines: self.lines.deep_view(),
            offset: self.offset,
            query: self.search_query@,
            matches: self.search_matches@,
            current: self.current_match,
            in_search: self.in_search,
            input: self.search_input@,
        }
    }
}

/// A pager that has just opened on some lines.
pub open spec fn opened(lines: Seq<Seq<char>>) -> PagerView {
    PagerView {
        lines,
        offset: 0,
        query: Seq::empty(),
        matches: Seq::empty(),
        current: 0,
        in_search: false,
        input: Seq::empty(),
    }
}

fn find_matches(lines: &Vec<String>, query: &str) -> (found: Vec<usize>)
    ensures
        found@ == search_results(lines.deep_view(), query@),
{
    let q = chars_of(to_lowercase(query).as_str());
    let n = lines.len();
    let mut found: Vec<usize> = Vec::new();
    for i in 0..n
        invariant
            n == lines.deep_view().len(),
            q@ == lowercase(query@),
            found@ == matching_lines(lines.deep_view(), query@, i as int),
    {
        let plain = strip_ansi(lines[i].as_str());
        let low = chars_of(to_lowercase(plain.as_str()).as_str());
        assert(lines[i as int]@ == lines.deep_view()[i as int]);
        if contains(low.as_slice(), q.as_slice()) {
            found.push(i);
        }
    }
    found
}

impl Pager {
    #[verifier::type_invariant]
    spec fn inv(self) -> bool {
        self@.wf()
    }

    /// A pager over the lines of `content`, at the top, with no search.
    pub fn new(content: &str) -> (p: Pager)
        ensures
            p@ == opened(lines_of(content@)),
    {
        let lines = split_lines(content);
        assert(lines.deep_view().len() == lines.len());
        Pager {
            lines,
            offset: 0,
            search_query: String::new(),
            search_matches: Vec::new(),
            current_match: 0,
            in_search: false,
            search_input: String::new(),
        }
    }

    /// Whether a search is being typed.
    pub fn in_search(&self) -> (b: bool)
        ensures
            b == self@.in_search,
    {
        self.in_search
    }

    /// The search being typed.
    pub fn search_input(&self) -> (s: &str)
        ensures
            s@ == self@.input,
    {
        self.search_input.as_str()
    }

    fn search_key(&mut self, key: Key, term_h: u16)
        requires
            old(self)@.wf(),
            old(self)@.in_search,
        ensures
            final(self)@ == search_key(old(self)@, key, term_h),
    {
        match key {
            Key::Enter => {
                let viewport = (term_h as usize).saturating_sub(1);
                let max = self.lines.len().saturating_sub(viewport);
                let mut query = String::new();
                std::mem::swap(&mut query, &mut self.search_input);
                self.in_search = false;
                let found = find_matches(&self.lines, query.as_str());
                self.search_query = query;
                self.current_match = 0;
                if found.len() > 0 {
                    let first = found[0];
                    self.offset = if first < max { first } else { max };
                }
                self.search_matches = found;
            },
            Key::Esc => {
                self.search_input = String::new();
                self.in_search = false;
            },
            Key::Backspace => {
                let mut cs = chars_of(self.search_input.as_str());
                cs.pop();
                self.search_input = crate::text::string_of(cs.as_slice());
            },
            Key::Char(c) => {
                let mut input = String::new();
                std::mem::swap(&mut input, &mut self.search_input);
                push_char(&mut input, c);
                self.search_input = input;
            },
            _ => {},
        }
    }

    fn jump_to_match(&mut self, current: usize, max: usize)
        requires
            old(self)@.wf(),
            current < old(self)@.matches.len(),
            max <= old(self)@.lines.len(),
        ensures
            final(self)@ == (PagerView {
                current,
                offset: min_int(old(self)@.matches[current as int] as int, max as int) as usize,
                ..old(self)@
            }),
    {
        self.current_match = current;
        let line = self.search_matches[current];
        self.offset = if line < max { line } else { max };
    }

    fn browse_key(&mut self, key: Key, ctrl: bool, term_h: u16) -> (a: PagerAction)
        requires
            old(self)@.wf(),
        ensures
            (final(self)@, a) == browse_key(old(self)@, key, ctrl, term_h),
    {
        let page = (term_h as usize).saturating_sub(1);
        let max = self.lines.len().saturating_sub(page);
        let off = self.offset;
        match key {
            Key::Char('q') | Key::Esc => {
                return PagerAction::Quit;
            },
            Key::Char('c') if ctrl => {
                return PagerAction::Quit;
            },
            Key::Down | Key::Char('j') => {
                self.offset = if off < max { off + 1 } else { max };
            },
            Key::Up | Key::Char('k') => {
                self.offset = off.saturating_sub(1);
            },
            Key::PageDown | Key::Char(' ') => {
                self.offset = if off >= max || page > max - off { max } else { off + page };
            },
            Key::PageUp | Key::Char('b') => {
                self.offset = off.saturating_sub(page);
            },
            Key::Home | Key::Char('g') => {
                self.offset = 0;
            },
            Key::End | Key::Char('G') => {
                self.offset = max;
            },
            Key::Char('d') if ctrl => {
                let half = page / 2;
                self.offset = if off >= max || half > max - off { max } else { off + half };
            },
            Key::Char('u') if ctrl => {
                self.offset = off.saturating_sub(page / 2);
            },
            Key::Char('/') => {
                self.in_search = true;
                self.search_input = String::new();
                return PagerAction::DrawSearchBar;
            },
            Key::Char('n') => {
                let len = self.search_matches.len();
                if len > 0 {
                    let next = (self.current_match + 1) % len;
                    self.jump_to_match(next, max);
                }
            },
            Key::Char('N') => {
                let len = self.search_matches.len();
                if len > 0 {
                    let prev = if self.current_match == 0 { len - 1 } else { self.current_match - 1 };
                    self.jump_to_match(prev, max);
                }
            },
            _ => {},
        }
        PagerAction::Redraw
    }

    /// Takes in an event and says what to do next, on a terminal `term_h` rows high.
    pub fn handle(&mut self, ev: PagerEvent, term_h: u16) -> (a: PagerAction)
        ensures
            (final(self)@, a) == pager_step(old(self)@, ev, term_h),
    {
        proof {
            use_type_invariant(&*self);
        }
        match ev {
            PagerEvent::Key(key, ctrl) => {
                if self.in_search {
                    self.search_key(key, term_h);
                    PagerAction::DrawSearchBar
                } else {
                    self.browse_key(key, ctrl, term_h)
                }
            },
            PagerEvent::Resize => PagerAction::Redraw,
            PagerEvent::Other => PagerAction::Wait,
        }
    }
}

} // verus!

verus! {

/// What the status bar says of the last search: the query and which match of how many is
/// shown, or that nothing matched.
pub open spec fn search_info(v: PagerView) -> Seq<char> {
    if v.query.len() > 0 && v.matches.len() > 0 {
        " │ \""@ + v.query + "\" "@ + decimal((v.current + 1) as nat) + "/"@ + decimal(v.matches.len())
    } else if v.query.len() > 0 {
        " │ \""@ + v.query + "\" no match"@
    } else {
        Seq::empty()
    }
}

/// How far through the document the bottom of the page is, in percent (100 for an empty one).
pub open spec fn percent_shown(v: PagerView, term_h: u16) -> int {
    if v.lines.len() == 0 {
        100
    } else {
        (min_int(v.offset + viewport(term_h), v.lines.len() as int) * 100) / (v.lines.len() as int)
    }
}

/// The status bar's text: the first line shown, the number of lines, the percentage, the
/// search, and a reminder of the keys.
pub open spec fn status_text(v: PagerView, term_h: u16) -> Seq<char> {
    " "@ + decimal(min_int(v.offset + 1, v.lines.len() as int) as nat) + "/"@ + decimal(v.lines.len())
        + " ("@ + decimal(percent_shown(v, term_h) as nat) + "%)"@ + search_info(v)
        + " │ q:quit ↑↓:scroll /:search "@
}

/// `s` padded with spaces to `width` characters (what `format!("{:<width$}", s)` gives).
pub open spec fn padded_to(s: Seq<char>, width: int) -> Seq<char> {
    if s.len() < width { s + repeated(" "@, (width - s.len()) as nat) } else { s }
}

/// The status bar for a terminal `term_w` columns wide and `term_h` rows high.
pub open spec fn status_bar(v: PagerView, term_w: u16, term_h: u16) -> Seq<char> {
    padded_to(status_text(v, term_h), term_w as int)
}

/// The rows of the page: the lines from the first one shown, empty past the last line.
pub open spec fn page_rows(v: PagerView, term_h: u16) -> Seq<Seq<char>> {
    Seq::new(viewport(term_h) as nat, |r: int|
        if v.offset + r < v.lines.len() { v.lines[v.offset + r] } else { Seq::empty() })
}

proof fn percent_at_most_100(part: int, whole: int)
    requires
        0 <= part <= whole,
        whole > 0,
    ensures
        part * 100 / whole <= 100,
        part * 100 / whole >= 0,
{
    assert(part * 100 <= whole * 100) by (nonlinear_arith)
        requires
            0 <= part <= whole;
    assert(part * 100 / whole <= (whole * 100) / whole) by (nonlinear_arith)
        requires
            part * 100 <= whole * 100,
            whole > 0,
            part >= 0;
    assert((whole * 100) / whole == 100) by (nonlinear_arith)
        requires
            whole > 0;
}

impl Pager {
    fn push_search_info(&self, out: &mut String)
        ensures
            final(out)@ == old(out)@ + search_info(self@),
    {
        proof {
            use_type_invariant(self);
        }
        let has_query = !self.search_query.as_str().is_empty();
        if has_query && self.search_matches.len() > 0 {
            out.append(" │ \"");
            out.append(self.search_query.as_str());
            out.append("\" ");
            push_decimal(out, (self.current_match + 1) as u64);
            out.append("/");
            push_decimal(out, self.search_matches.len() as u64);
        } else if has_query {
            out.append(" │ \"");
            out.append(self.search_query.as_str());
            out.append("\" no match");
        }
        assert(out@ =~= old(out)@ + search_info(self@));
    }

    /// The status bar for a terminal `term_w` columns wide and `term_h` rows high.
    pub fn status_bar(&self, term_w: u16, term_h: u16) -> (s: String)
        ensures
            s@ == status_bar(self@, term_w, term_h),
    {
        proof {
            use_type_invariant(self);
        }
        let page = (term_h as usize).saturating_sub(1);
        let len = self.lines.len();
        let bottom: u128 = if self.offset >= len || page > len - self.offset { len as u128 } else { (self.offset + page) as u128 };
        let pct: u128 = if len == 0 { 100 } else { bottom * 100 / (len as u128) };
        proof {
            if len > 0 {
                percent_at_most_100(bottom as int, len as int);
            }
        }
        let mut s = String::new();
        s.append(" ");
        push_decimal(&mut s, if self.offset < len { (self.offset + 1) as u64 } else { len as u64 });
        s.append("/");
        push_decimal(&mut s, len as u64);
        s.append(" (");
        push_decimal(&mut s, pct as u64);
        s.append("%)");
        self.push_search_info(&mut s);
        s.append(" │ q:quit ↑↓:scroll /:search ");
        assert(s@ =~= status_text(self@, term_h));
        let count = chars_of(s.as_str()).len();
        if count < term_w as usize {
            push_repeated(&mut s, " ", term_w as usize - count);
        }
        s
    }

    /// The rows of the page on a terminal `term_h` rows high.
    pub fn page_rows(&self, term_h: u16) -> (rows: Vec<String>)
        ensures
            rows.deep_view() == page_rows(self@, term_h),
    {
        let page = (term_h as usize).saturating_sub(1);
        let mut rows: Vec<String> = Vec::new();
        for r in 0..page
            invariant
                rows.deep_view() == page_rows(self@, term_h).take(r as int),
                page == viewport(term_h),
        {
            let ghost before = rows.deep_view();
            if self.offset < self.lines.len() && r < self.lines.len() - self.offset {
                rows.push(self.lines[self.offset + r].clone());
            } else {
                rows.push(String::new());
            }
            assert(rows.deep_view() =~= before.push(rows[r as int]@));
            assert(self.lines.deep_view().len() == self.lines@.len());
            assert(rows.deep_view() =~= page_rows(self@, term_h).take(r + 1));
        }
        assert(page_rows(self@, term_h).take(page as int) =~= page_rows(self@, term_h));
        rows
    }
}

} // verus!

verus! {

/// The pager after a run of events, taken one by one.
pub open spec fn pager_after(v: PagerView, evs: Seq<PagerEvent>, term_h: u16) -> PagerView
    decreases evs.len(),
{
    if evs.len() == 0 {
        v
    } else {
        pager_step(pager_after(v, evs.drop_last(), term_h), evs.last(), term_h).0
    }
}

/// A key pressed without Control.
pub open spec fn press(key: Key) -> PagerEvent {
    PagerEvent::Key(key, false)
}

/// Every event keeps the pager well formed and on the same document; from a page that does
/// not pass the bottom, no event scrolls past it.
pub proof fn pager_stays_in_bounds(v: PagerView, ev: PagerEvent, term_h: u16)
    requires
        v.wf(),
    ensures
        pager_step(v, ev, term_h).0.wf(),
        pager_step(v, ev, term_h).0.lines == v.lines,
        v.offset <= max_offset(v, term_h) ==> pager_step(v, ev, term_h).0.offset <= max_offset(v, term_h),
{
    search_results_exact(v.lines, v.input);
}

/// A line down and then a line up come back to where the pager was when it was above the
/// bottom, and a line up and then a line down when it was below the top; the same holds of a
/// page down and a page up with a page of room.
pub proof fn scrolling_round_trips(v: PagerView, term_h: u16)
    requires
        v.wf(),
        !v.in_search,
    ensures
        v.offset < max_offset(v, term_h)
            ==> pager_step(pager_step(v, press(Key::Down), term_h).0, press(Key::Up), term_h).0 == v,
        0 < v.offset <= max_offset(v, term_h)
            ==> pager_step(pager_step(v, press(Key::Up), term_h).0, press(Key::Down), term_h).0 == v,
        v.offset + viewport(term_h) <= max_offset(v, term_h)
            ==> pager_step(pager_step(v, press(Key::PageDown), term_h).0, press(Key::PageUp), term_h).0 == v,
        viewport(term_h) <= v.offset <= max_offset(v, term_h)
            ==> pager_step(pager_step(v, press(Key::PageUp), term_h).0, press(Key::PageDown), term_h).0 == v,
{
}

/// Home and g go to the first line; End and G to the largest first line.
pub proof fn top_and_bottom(v: PagerView, ctrl: bool, term_h: u16)
    requires
        v.wf(),
        !v.in_search,
    ensures
        pager_step(v, PagerEvent::Key(Key::Home, ctrl), term_h).0.offset == 0,
        pager_step(v, PagerEvent::Key(Key::Char('g'), ctrl), term_h).0.offset == 0,
        pager_step(v, PagerEvent::Key(Key::End, ctrl), term_h).0.offset == max_offset(v, term_h),
        pager_step(v, PagerEvent::Key(Key::Char('G'), ctrl), term_h).0.offset == max_offset(v, term_h),
{
}

/// While browsing, q, Esc and Control-C quit and leave the pager as it was; while a search
/// is typed, no event quits.
pub proof fn quitting(v: PagerView, ev: PagerEvent, ctrl: bool, term_h: u16)
    ensures
        !v.in_search ==> pager_step(v, PagerEvent::Key(Key::Char('q'), ctrl), term_h) == (v, PagerAction::Quit),
        !v.in_search ==> pager_step(v, PagerEvent::Key(Key::Esc, ctrl), term_h) == (v, PagerAction::Quit),
        !v.in_search ==> pager_step(v, PagerEvent::Key(Key::Char('c'), true), term_h) == (v, PagerAction::Quit),
        v.in_search ==> pager_step(v, ev, term_h).1 != PagerAction::Quit,
{
}

/// The results of a search are the indices of exactly the lines that match it, in
/// increasing order.
pub proof fn search_results_exact(lines: Seq<Seq<char>>, query: Seq<char>)
    requires
        lines.len() <= usize::MAX,
    ensures
        forall|i: int| 0 <= i < search_results(lines, query).len() ==> {
            let k = #[trigger] search_results(lines, query)[i];
            k < lines.len() && line_matches(lines[k as int], query)
        },
        forall|i: int, j: int| 0 <= i < j < search_results(lines, query).len()
            ==> search_results(lines, query)[i] < search_results(lines, query)[j],
        forall|k: int| 0 <= k < lines.len() && line_matches(lines[k], query)
            ==> search_results(lines, query).contains(k as usize),
        search_results(lines, query).len() <= lines.len(),
{
    matching_lines_exact(lines, query, lines.len() as int);
}

proof fn matching_lines_exact(lines: Seq<Seq<char>>, query: Seq<char>, n: int)
    requires
        0 <= n <= lines.len(),
        lines.len() <= usize::MAX,
    ensures
        forall|i: int| 0 <= i < matching_lines(lines, query, n).len() ==> {
            let k = #[trigger] matching_lines(lines, query, n)[i];
            k < n && line_matches(lines[k as int], query)
        },
        forall|i: int, j: int| 0 <= i < j < matching_lines(lines, query, n).len()
            ==> matching_lines(lines, query, n)[i] < matching_lines(lines, query, n)[j],
        forall|k: int| 0 <= k < n && line_matches(lines[k], query)
            ==> matching_lines(lines, query, n).contains(k as usize),
        matching_lines(lines, query, n).len() <= n,
    decreases n,
{
    if n > 0 {
        matching_lines_exact(lines, query, n - 1);
        let before = matching_lines(lines, query, n - 1);
        let now = matching_lines(lines, query, n);
        if line_matches(lines[n - 1], query) {
            assert(now == before.push((n - 1) as usize));
            assert forall|k: int| 0 <= k < n && line_matches(lines[k], query) implies now.contains(k as usize) by {
                if k < n - 1 {
                    let i = choose|i: int| 0 <= i < before.len() && before[i] == k as usize;
                    assert(now[i] == k as usize);
                } else {
                    assert(now[before.len() as int] == k as usize);
                }
            }
        }
    }
}

/// After a search, n and then N come back to the match last jumped to, and so do N and then n.
pub proof fn next_then_previous(v: PagerView, term_h: u16)
    requires
        v.wf(),
        !v.in_search,
        v.matches.len() > 0,
    ensures
        pager_step(pager_step(v, press(Key::Char('n')), term_h).0, press(Key::Char('N')), term_h).0
            == (PagerView { offset: min_int(v.matches[v.current as int] as int, max_offset(v, term_h)) as usize, ..v }),
        pager_step(pager_step(v, press(Key::Char('N')), term_h).0, press(Key::Char('n')), term_h).0
            == (PagerView { offset: min_int(v.matches[v.current as int] as int, max_offset(v, term_h)) as usize, ..v }),
{
    let len = v.matches.len() as int;
    let c = v.current as int;
    assert((c + 1) % len == if c + 1 == len { 0 } else { c + 1 }) by (nonlinear_arith)
        requires
            0 <= c < len;
    let p = if c == 0 { len - 1 } else { c - 1 };
    assert((p + 1) % len == c) by (nonlinear_arith)
        requires
            0 <= c < len,
            p == if c == 0 { len - 1 } else { c - 1 };
    let w = pager_step(v, press(Key::Char('n')), term_h).0;
    assert(w.current == if c + 1 == len { 0 } else { c + 1 });
    assert(w.matches == v.matches && w.lines == v.lines);
    let u = pager_step(w, press(Key::Char('N')), term_h).0;
    assert(u.current == v.current);
    let w2 = pager_step(v, press(Key::Char('N')), term_h).0;
    assert(w2.current == p);
    let u2 = pager_step(w2, press(Key::Char('n')), term_h).0;
    assert(u2.current == v.current);
}

/// The pager while a search is typed: the same as `v` but for the search being typed.
pub open spec fn typing_over(w: PagerView, v: PagerView) -> bool {
    w == (PagerView { in_search: true, input: w.input, ..v })
}

/// Whether an event neither runs nor abandons a search.
pub open spec fn keeps_typing(ev: PagerEvent) -> bool {
    !(ev matches PagerEvent::Key(Key::Enter, _)) && !(ev matches PagerEvent::Key(Key::Esc, _))
}

proof fn typing_keeps_the_rest(v: PagerView, typed: Seq<PagerEvent>, ctrl: bool, term_h: u16, k: int)
    requires
        v.wf(),
        !v.in_search,
        0 <= k <= typed.len(),
        forall|i: int| 0 <= i < typed.len() ==> keeps_typing(#[trigger] typed[i]),
    ensures
        typing_over(pager_after(v, seq![PagerEvent::Key(Key::Char('/'), ctrl)] + typed.take(k), term_h), v),
    decreases k,
{
    let evs = seq![PagerEvent::Key(Key::Char('/'), ctrl)] + typed.take(k);
    if k == 0 {
        assert(evs.drop_last() =~= Seq::<PagerEvent>::empty());
        assert(pager_after(v, evs.drop_last(), term_h) == v);
        assert(evs.last() == PagerEvent::Key(Key::Char('/'), ctrl));
    } else {
        typing_keeps_the_rest(v, typed, ctrl, term_h, k - 1);
        assert(evs.drop_last() =~= seq![PagerEvent::Key(Key::Char('/'), ctrl)] + typed.take(k - 1));
        assert(evs.last() == typed[k - 1]);
        assert(keeps_typing(typed[k - 1]));
    }
}

/// A search typed and then abandoned leaves the pager as it was: after /, any events that
/// neither run nor abandon the search, and Esc, nothing has changed.
pub proof fn abandoned_search(v: PagerView, typed: Seq<PagerEvent>, ctrl: bool, ctrl2: bool, term_h: u16)
    requires
        v.wf(),
        !v.in_search,
        forall|i: int| 0 <= i < typed.len() ==> keeps_typing(#[trigger] typed[i]),
    ensures
        pager_after(
            v,
            seq![PagerEvent::Key(Key::Char('/'), ctrl)] + typed + seq![PagerEvent::Key(Key::Esc, ctrl2)],
            term_h,
        ) == v,
{
    let start = seq![PagerEvent::Key(Key::Char('/'), ctrl)];
    typing_keeps_the_rest(v, typed, ctrl, term_h, typed.len() as int);
    assert(typed.take(typed.len() as int) =~= typed);
    let evs = start + typed + seq![PagerEvent::Key(Key::Esc, ctrl2)];
    assert(evs.drop_last() =~= start + typed);
    assert(evs.last() == PagerEvent::Key(Key::Esc, ctrl2));
    assert(v.input =~= Seq::<char>::empty());
}

} // verus!

verus! {

/// While browsing, the letter keys are the same as the keys they stand for: k is Up, j is
/// Down, b is PageUp, space is PageDown, g is Home, G is End; Esc quits like q.
pub proof fn letter_keys_match_their_keys(v: PagerView, ctrl: bool, term_h: u16)
    requires
        !v.in_search,
    ensures
        pager_step(v, PagerEvent::Key(Key::Char('k'), ctrl), term_h) == pager_step(v, PagerEvent::Key(Key::Up, ctrl), term_h),
        pager_step(v, PagerEvent::Key(Key::Char('j'), ctrl), term_h) == pager_step(v, PagerEvent::Key(Key::Down, ctrl), term_h),
        pager_step(v, PagerEvent::Key(Key::Char('b'), ctrl), term_h) == pager_step(v, PagerEvent::Key(Key::PageUp, ctrl), term_h),
        pager_step(v, PagerEvent::Key(Key::Char(' '), ctrl), term_h) == pager_step(v, PagerEvent::Key(Key::PageDown, ctrl), term_h),
        pager_step(v, PagerEvent::Key(Key::Char('g'), ctrl), term_h) == pager_step(v, PagerEvent::Key(Key::Home, ctrl), term_h),
        pager_step(v, PagerEvent::Key(Key::Char('G'), ctrl), term_h) == pager_step(v, PagerEvent::Key(Key::End, ctrl), term_h),
        pager_step(v, PagerEvent::Key(Key::Esc, ctrl), term_h) == pager_step(v, PagerEvent::Key(Key::Char('q'), ctrl), term_h),
{
}

/// Line and page scrolling move the first line shown by exactly one line or one page (the
/// rows of the terminal less the status bar), up towards the top and down towards the
/// largest first line, stopping there; nothing else about the pager changes.
pub proof fn scrolling_moves_by_lines_and_pages(v: PagerView, ctrl: bool, term_h: u16)
    requires
        v.wf(),
        !v.in_search,
    ensures
        ({
            let page = if term_h >= 1 { term_h - 1 } else { 0 };
            let bottom = if v.lines.len() >= page { v.lines.len() - page } else { 0 };
            let up = pager_step(v, PagerEvent::Key(Key::Up, ctrl), term_h);
            let down = pager_step(v, PagerEvent::Key(Key::Down, ctrl), term_h);
            let page_up = pager_step(v, PagerEvent::Key(Key::PageUp, ctrl), term_h);
            let page_down = pager_step(v, PagerEvent::Key(Key::PageDown, ctrl), term_h);
            &&& up.1 == PagerAction::Redraw && down.1 == PagerAction::Redraw
            &&& page_up.1 == PagerAction::Redraw && page_down.1 == PagerAction::Redraw
            &&& up.0 == (PagerView { offset: (if v.offset >= 1 { v.offset - 1 } else { 0 }) as usize, ..v })
            &&& down.0 == (PagerView { offset: (if v.offset + 1 <= bottom { v.offset + 1 } else { bottom }) as usize, ..v })
            &&& page_up.0 == (PagerView { offset: (if v.offset >= page { v.offset - page } else { 0 }) as usize, ..v })
            &&& page_down.0 == (PagerView { offset: (if v.offset + page <= bottom { v.offset + page } else { bottom }) as usize, ..v })
        }),
{
}

} // verus!
