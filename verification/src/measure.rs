//! Display widths (from `unicode-width`), word wrapping (from `textwrap`), the terminal's
//! width (from `terminal_size`), and truncation to a width.

use vstd::prelude::*;
use crate::text::{chars_of, push_char};
use unicode_width::{UnicodeWidthChar, UnicodeWidthStr};

verus! {

/// What `UnicodeWidthChar::width` gives for a character: its columns, or `None` for a
/// control character.
pub uninterp spec fn char_columns(c: char) -> Option<usize>;

/// `unicode_width::UnicodeWidthChar::width`. Its source answers `None` below U+0020 and from
/// U+007F up to U+00A0, `Some(1)` from U+0020 up to U+007F, and above that a width out of a
/// table of `u8` values; which width that is, the contract leaves to `char_columns`.
#[verifier::external_body]
pub(crate) fn char_width(c: char) -> (w: Option<usize>)
    ensures
        w == char_columns(c),
        w is None <==> ((c as u32) < 0x20 || (0x7f <= (c as u32) && (c as u32) < 0xa0)),
        w == Some(1usize) <== (0x20 <= (c as u32) && (c as u32) < 0x7f),
        w is Some ==> w.unwrap() <= 255,
{
    UnicodeWidthChar::width(c)
}

/// What `UnicodeWidthStr::width` gives for a string: its display width in columns.
pub uninterp spec fn str_columns(s: Seq<char>) -> usize;

/// `unicode_width::UnicodeWidthStr::width`: the display width of `s`. The rules that it
/// applies (emoji sequences, variation selectors, and more) are left to `str_columns`.
#[verifier::external_body]
pub(crate) fn str_width(s: &str) -> (w: usize)
    ensures
        w == str_columns(s@),
{
    UnicodeWidthStr::width(s)
}

/// What `textwrap::wrap` gives for a text, a width and the indent of every line after the
/// first (all other options at their defaults).
pub uninterp spec fn wrapped_lines(text: Seq<char>, width: usize, indent: Seq<char>) -> Seq<Seq<char>>;

/// `textwrap::wrap` with `Options::new(width).subsequent_indent(indent)`: the lines of
/// `text` broken to fit `width`. The breaking algorithm is left to `wrapped_lines`.
#[verifier::external_body]
pub(crate) fn wrap_text(text: &str, width: usize, indent: &str) -> (lines: Vec<String>)
    ensures
        lines.deep_view() == wrapped_lines(text@, width, indent@),
{
    let opts = textwrap::Options::new(width).subsequent_indent(indent);
    textwrap::wrap(text, opts).into_iter().map(|line| line.into_owned()).collect()
}

/// `terminal_size::terminal_size`, keeping the width in columns: the size of the terminal
/// on standard output, else on standard error, else on standard input, and `None` when none
/// of them is a terminal. The answer depends on the terminal, so nothing is promised.
#[verifier::external_body]
pub(crate) fn terminal_columns() -> (w: Option<u16>) {
    terminal_size::terminal_size().map(|(width, _)| width.0)
}

/// The columns that truncation counts for a character: its width, and zero for a control
/// character.
pub open spec fn cols(c: char) -> nat {
    match char_columns(c) {
        Some(w) => w as nat,
        None => 0,
    }
}

/// The columns of a run of characters, each counted by `cols`.
pub open spec fn columns(s: Seq<char>) -> nat
    decreases s.len(),
{
    if s.len() == 0 {
        0
    } else {
        cols(s[0]) + columns(s.drop_first())
    }
}

/// Keeps characters of `s` while the columns used so far (`used`) stay within `limit`;
/// at the first character that would pass it, puts an ellipsis instead and stops.
pub open spec fn truncate_from(s: Seq<char>, used: nat, limit: nat) -> Seq<char>
    decreases s.len(),
{
    if s.len() == 0 {
        Seq::empty()
    } else if used + cols(s[0]) > limit {
        seq!['…']
    } else {
        seq![s[0]] + truncate_from(s.drop_first(), used + cols(s[0]), limit)
    }
}

/// `s` cut to fit `max_width` columns, the last of which goes to an ellipsis when
/// anything is cut; a width below 2 leaves only the ellipsis.
pub open spec fn truncated(s: Seq<char>, max_width: usize) -> Seq<char> {
    if max_width < 2 {
        seq!['…']
    } else {
        truncate_from(s, 0, (max_width - 1) as nat)
    }
}

/// Cuts `s` to at most `max_width` columns, ending it with an ellipsis when it was cut.
pub fn truncate_to_width(s: &str, max_width: usize) -> (r: String)
    ensures
        r@ == truncated(s@, max_width),
{
    let mut result = String::new();
    if max_width < 2 {
        push_char(&mut result, '…');
        return result;
    }
    let cs = chars_of(s);
    let n = cs.len();
    let limit = max_width - 1;
    let mut w: usize = 0;
    let mut i: usize = 0;
    assert(cs@.skip(0) =~= cs@);
    assert(result@ + truncate_from(cs@, 0, limit as nat) =~= truncate_from(cs@, 0, limit as nat));
    while i < n
        invariant
            i <= n,
            n == cs@.len(),
            cs@ == s@,
            w <= limit,
            limit == max_width - 1,
            max_width >= 2,
            truncated(s@, max_width) == result@ + truncate_from(cs@.skip(i as int), w as nat, limit as nat),
        decreases n - i,
    {
        let ch = cs[i];
        let cw = match char_width(ch) {
            Some(x) => x,
            None => 0,
        };
        let ghost rest = cs@.skip(i as int);
        assert(rest[0] == ch);
        assert(rest.drop_first() =~= cs@.skip(i + 1));
        if cw > limit - w {
            push_char(&mut result, '…');
            return result;
        }
        push_char(&mut result, ch);
        w += cw;
        i += 1;
        assert(truncated(s@, max_width) =~= result@ + truncate_from(cs@.skip(i as int), w as nat, limit as nat));
    }
    assert(cs@.skip(n as int) =~= Seq::<char>::empty());
    result
}

proof fn truncate_from_cases(s: Seq<char>, used: nat, limit: nat)
    requires
        used <= limit,
    ensures
        ({
            let r = truncate_from(s, used, limit);
            ||| (r == s && used + columns(s) <= limit)
            ||| exists|k: int| 0 <= k < s.len() && r == s.take(k).push('…')
                && used + columns(s.take(k)) <= limit && used + columns(#[trigger] s.take(k + 1)) > limit
        }),
    decreases s.len(),
{
    if s.len() == 0 {
    } else if used + cols(s[0]) > limit {
        assert(s.take(0) =~= Seq::<char>::empty());
        assert(s.take(1).drop_first() =~= Seq::<char>::empty());
        assert(truncate_from(s, used, limit) =~= s.take(0).push('…'));
        assert(columns(s.take(1).drop_first()) == 0);
        assert(s.take(1)[0] == s[0]);
        assert(columns(s.take(1)) == cols(s[0]));
        assert(columns(s.take(0)) == 0);
    } else {
        let rest = s.drop_first();
        let u2 = used + cols(s[0]);
        truncate_from_cases(rest, u2, limit);
        let r2 = truncate_from(rest, u2, limit);
        if r2 == rest && u2 + columns(rest) <= limit {
            assert(seq![s[0]] + rest =~= s);
        } else {
            let k = choose|k: int| 0 <= k < rest.len() && r2 == rest.take(k).push('…')
                && u2 + columns(rest.take(k)) <= limit && u2 + columns(#[trigger] rest.take(k + 1)) > limit;
            assert(s.take(k + 1).drop_first() =~= rest.take(k));
            assert(s.take(k + 2).drop_first() =~= rest.take(k + 1));
            assert(s.take(k + 1)[0] == s[0]);
            assert(s.take(k + 2)[0] == s[0]);
            assert(seq![s[0]] + r2 =~= s.take(k + 1).push('…'));
        }
    }
}

/// Truncation keeps a prefix of the text within the width: either the whole text, when it
/// fits in one column less than the width, or the longest prefix that fits there followed by
/// an ellipsis.
pub proof fn truncation_fits(s: Seq<char>, max_width: usize)
    requires
        max_width >= 2,
    ensures
        ({
            let r = truncated(s, max_width);
            let limit = max_width - 1;
            ||| (r == s && columns(s) <= limit)
            ||| exists|k: int| 0 <= k < s.len() && r == s.take(k).push('…')
                && columns(s.take(k)) <= limit && columns(#[trigger] s.take(k + 1)) > limit
        }),
{
    truncate_from_cases(s, 0, (max_width - 1) as nat);
}

} // verus!
