//! Terminal colours and text attributes, as the escape sequences that `crossterm` writes.

use vstd::prelude::*;
use crossterm::style::{Attribute, Color, SetAttribute, SetBackgroundColor, SetForegroundColor};

verus! {

/// The text attributes that the renderer switches on and off.
#[derive(Clone, Copy, Debug, PartialEq, Eq)]
pub enum Attr {
    Reset,
    Bold,
    Italic,
    Underlined,
    CrossedOut,
    NormalIntensity,
    NoItalic,
    NotCrossedOut,
}

/// The colours that the renderer and the pager use.
#[derive(Clone, Copy, Debug, PartialEq, Eq)]
pub enum Hue {
    Black,
    Red,
    Green,
    Yellow,
    DarkYellow,
    Blue,
    Magenta,
    Cyan,
    DarkCyan,
    White,
    DarkGrey,
}

/// How many colours `Hue` has.
pub const HUE_COUNT: usize = 11;

/// The position of a colour in a palette.
pub open spec fn hue_index(h: Hue) -> int {
    match h {
        Hue::Black => 0,
        Hue::Red => 1,
        Hue::Green => 2,
        Hue::Yellow => 3,
        Hue::DarkYellow => 4,
        Hue::Blue => 5,
        Hue::Magenta => 6,
        Hue::Cyan => 7,
        Hue::DarkCyan => 8,
        Hue::White => 9,
        Hue::DarkGrey => 10,
    }
}

/// The colour at a palette position.
pub open spec fn hue_at(i: int) -> Hue {
    if i == 0 { Hue::Black } else if i == 1 { Hue::Red } else if i == 2 { Hue::Green }
    else if i == 3 { Hue::Yellow } else if i == 4 { Hue::DarkYellow } else if i == 5 { Hue::Blue }
    else if i == 6 { Hue::Magenta } else if i == 7 { Hue::Cyan } else if i == 8 { Hue::DarkCyan }
    else if i == 9 { Hue::White } else { Hue::DarkGrey }
}

/// The 256-colour number of each colour.
pub open spec fn hue_number(h: Hue) -> Seq<char> {
    match h {
        Hue::Black => seq!['0'],
        Hue::Red => seq!['9'],
        Hue::Green => seq!['1', '0'],
        Hue::Yellow => seq!['1', '1'],
        Hue::DarkYellow => seq!['3'],
        Hue::Blue => seq!['1', '2'],
        Hue::Magenta => seq!['1', '3'],
        Hue::Cyan => seq!['1', '4'],
        Hue::DarkCyan => seq!['6'],
        Hue::White => seq!['1', '5'],
        Hue::DarkGrey => seq!['8'],
    }
}

/// The SGR parameter of each attribute.
pub open spec fn attr_param(a: Attr) -> Seq<char> {
    match a {
        Attr::Reset => seq!['0'],
        Attr::Bold => seq!['1'],
        Attr::Italic => seq!['3'],
        Attr::Underlined => seq!['4'],
        Attr::CrossedOut => seq!['9'],
        Attr::NormalIntensity => seq!['2', '2'],
        Attr::NoItalic => seq!['2', '3'],
        Attr::NotCrossedOut => seq!['2', '9'],
    }
}

/// A "select graphic rendition" escape sequence with the given parameter.
pub open spec fn sgr(param: Seq<char>) -> Seq<char> {
    seq!['\x1b', '['] + param + seq!['m']
}

/// The sequence that switches the foreground to `h`.
pub open spec fn fg_sgr(h: Hue) -> Seq<char> {
    sgr(seq!['3', '8', ';', '5', ';'] + hue_number(h))
}

/// The sequence that switches the background to `h`.
pub open spec fn bg_sgr(h: Hue) -> Seq<char> {
    sgr(seq!['4', '8', ';', '5', ';'] + hue_number(h))
}

/// The sequence that `crossterm` writes for a colour while colours are switched off.
pub open spec fn blank_sgr() -> Seq<char> {
    sgr(Seq::empty())
}

/// The sequence for attribute `a`.
pub open spec fn attr_sgr(a: Attr) -> Seq<char> {
    sgr(attr_param(a))
}

/// `crossterm`'s `SetAttribute` as text (its `Display`). The sequence is `ESC [`, the
/// attribute's SGR number and `m`, as `Attribute::sgr` gives it for these attributes; on
/// Windows consoles without ANSI support `crossterm` writes nothing instead, which this
/// contract does not cover.
#[verifier::external_body]
pub(crate) fn attr_sequence(a: Attr) -> (s: String)
    ensures
        s@ == attr_sgr(a),
{
    SetAttribute(match a {
        Attr::Reset => Attribute::Reset,
        Attr::Bold => Attribute::Bold,
        Attr::Italic => Attribute::Italic,
        Attr::Underlined => Attribute::Underlined,
        Attr::CrossedOut => Attribute::CrossedOut,
        Attr::NormalIntensity => Attribute::NormalIntensity,
        Attr::NoItalic => Attribute::NoItalic,
        Attr::NotCrossedOut => Attribute::NotCrossedOut,
    }).to_string()
}

/// `crossterm`'s `SetForegroundColor` as text (its `Display`). `crossterm` writes
/// `ESC [38;5;<n>m`, or `ESC [m` when the `NO_COLOR` environment variable is set and not
/// empty; which of the two comes back depends on the environment. On Windows consoles
/// without ANSI support `crossterm` writes nothing instead, which this contract does not
/// cover.
#[verifier::external_body]
pub(crate) fn fg_sequence(h: Hue) -> (s: String)
    ensures
        s@ == fg_sgr(h) || s@ == blank_sgr(),
{
    SetForegroundColor(crossterm_color(h)).to_string()
}

/// `crossterm`'s `SetBackgroundColor` as text (its `Display`): `ESC [48;5;<n>m`, or `ESC [m`
/// when `NO_COLOR` is set and not empty. On Windows consoles without ANSI support
/// `crossterm` writes nothing instead, which this contract does not cover.
#[verifier::external_body]
pub(crate) fn bg_sequence(h: Hue) -> (s: String)
    ensures
        s@ == bg_sgr(h) || s@ == blank_sgr(),
{
    SetBackgroundColor(crossterm_color(h)).to_string()
}

/// `crossterm`'s colour for each of ours (a one-for-one renaming of the variants).
#[verifier::external_body]
fn crossterm_color(h: Hue) -> Color {
    match h {
        Hue::Black => Color::Black,
        Hue::Red => Color::Red,
        Hue::Green => Color::Green,
        Hue::Yellow => Color::Yellow,
        Hue::DarkYellow => Color::DarkYellow,
        Hue::Blue => Color::Blue,
        Hue::Magenta => Color::Magenta,
        Hue::Cyan => Color::Cyan,
        Hue::DarkCyan => Color::DarkCyan,
        Hue::White => Color::White,
        Hue::DarkGrey => Color::DarkGrey,
    }
}

#[verifier::external_type_specification]
#[verifier::external_body]
pub struct ExColor(Color);

/// What a palette holds: the sequence for each foreground and each background colour,
/// by `hue_index`.
pub struct PaletteView {
    pub fg: Seq<Seq<char>>,
    pub bg: Seq<Seq<char>>,
}

impl PaletteView {
    /// Every entry is either the colour's own sequence or the blank one.
    pub open spec fn wf(self) -> bool {
        &&& self.fg.len() == HUE_COUNT
        &&& self.bg.len() == HUE_COUNT
        &&& forall|i: int| 0 <= i < HUE_COUNT as int ==>
            (#[trigger] self.fg[i] == fg_sgr(hue_at(i)) || self.fg[i] == blank_sgr())
        &&& forall|i: int| 0 <= i < HUE_COUNT as int ==>
            (#[trigger] self.bg[i] == bg_sgr(hue_at(i)) || self.bg[i] == blank_sgr())
    }

    /// The foreground sequence of `h`.
    pub open spec fn fg_of(self, h: Hue) -> Seq<char> {
        self.fg[hue_index(h)]
    }

    /// The background sequence of `h`.
    pub open spec fn bg_of(self, h: Hue) -> Seq<char> {
        self.bg[hue_index(h)]
    }
}

/// The colour sequences in use, read once from `crossterm`.
pub struct Palette {
    fg: Vec<String>,
    bg: Vec<String>,
}

impl View for Palette {
    type V = PaletteView;

    closed spec fn view(&self) -> PaletteView {
        PaletteView { fg: self.fg.deep_view(), bg: self.bg.deep_view() }
    }
}

fn hue_of(i: usize) -> (h: Hue)
    requires
        i < HUE_COUNT,
    ensures
        h == hue_at(i as int),
        hue_index(h) == i,
{
    if i == 0 { Hue::Black } else if i == 1 { Hue::Red } else if i == 2 { Hue::Green }
    else if i == 3 { Hue::Yellow } else if i == 4 { Hue::DarkYellow } else if i == 5 { Hue::Blue }
    else if i == 6 { Hue::Magenta } else if i == 7 { Hue::Cyan } else if i == 8 { Hue::DarkCyan }
    else if i == 9 { Hue::White } else { Hue::DarkGrey }
}

fn index_of_hue(h: Hue) -> (i: usize)
    ensures
        i == hue_index(h),
        i < HUE_COUNT,
{
    match h {
        Hue::Black => 0,
        Hue::Red => 1,
        Hue::Green => 2,
        Hue::Yellow => 3,
        Hue::DarkYellow => 4,
        Hue::Blue => 5,
        Hue::Magenta => 6,
        Hue::Cyan => 7,
        Hue::DarkCyan => 8,
        Hue::White => 9,
        Hue::DarkGrey => 10,
    }
}

impl Palette {
    #[verifier::type_invariant]
    spec fn inv(self) -> bool {
        self@.wf()
    }

    /// The sequences that `crossterm` writes in this environment, for every colour.
    pub fn from_terminal() -> (p: Palette)
        ensures
            p@.wf(),
    {
        let mut fg: Vec<String> = Vec::new();
        let mut bg: Vec<String> = Vec::new();
        for i in 0..HUE_COUNT
            invariant
                fg.len() == i,
                bg.len() == i,
                forall|k: int| 0 <= k < i ==>
                    (#[trigger] fg.deep_view()[k] == fg_sgr(hue_at(k)) || fg.deep_view()[k] == blank_sgr()),
                forall|k: int| 0 <= k < i ==>
                    (#[trigger] bg.deep_view()[k] == bg_sgr(hue_at(k)) || bg.deep_view()[k] == blank_sgr()),
        {
            let h = hue_of(i);
            let ghost fg0 = fg.deep_view();
            let ghost bg0 = bg.deep_view();
            fg.push(fg_sequence(h));
            bg.push(bg_sequence(h));
            assert(fg.deep_view() =~= fg0.push(fg[i as int]@));
            assert(bg.deep_view() =~= bg0.push(bg[i as int]@));
        }
        Palette { fg, bg }
    }

    /// The foreground sequence of `h`.
    pub fn fg(&self, h: Hue) -> (s: &str)
        ensures
            s@ == self@.fg_of(h),
    {
        proof {
            use_type_invariant(self);
        }
        self.fg[index_of_hue(h)].as_str()
    }

    /// The background sequence of `h`.
    pub fn bg(&self, h: Hue) -> (s: &str)
        ensures
            s@ == self@.bg_of(h),
    {
        proof {
            use_type_invariant(self);
        }
        self.bg[index_of_hue(h)].as_str()
    }
}

} // verus!
