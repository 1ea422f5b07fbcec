use vstd::prelude::*;

use crate::text::{push_char, push_str};
use crate::visualization::terminal::utils::{truncate, truncated};

verus! {

/// The characters terminal bars are drawn with.
#[derive(Debug, Clone, Copy, PartialEq, Eq, Structural)]
pub enum BarCharset {
    Unicode,
    Ascii,
}

/// The character a bar is filled with: a full block, or '#' in ASCII.
pub open spec fn fill_char(charset: BarCharset) -> char {
    match charset {
        BarCharset::Unicode => '\u{2588}',
        BarCharset::Ascii => '#',
    }
}

/// The character bars of this charset are made of.
pub fn bar_fill_char(charset: BarCharset) -> (res: char)
    ensures
        res == fill_char(charset),
{
    match charset {
        BarCharset::Unicode => '\u{2588}',
        BarCharset::Ascii => '#',
    }
}

/// How a chart row splits the terminal width: the label gets
/// `min(label_cap, width / label_div)` columns but at least `label_min`; the
/// bar gets what is left after the label and `reserve` more columns, kept
/// between `bar_min` and `bar_max`.
pub open spec fn layout(
    width: nat,
    label_cap: nat,
    label_div: nat,
    label_min: nat,
    reserve: nat,
    bar_min: nat,
    bar_max: nat,
) -> (nat, nat) {
    let share = width / label_div;
    let capped = if label_cap < share {
        label_cap
    } else {
        share
    };
    let label = if capped > label_min {
        capped
    } else {
        label_min
    };
    let rest: nat = if width > label + reserve {
        (width - (label + reserve)) as nat
    } else {
        0
    };
    let bar = if rest < bar_min {
        bar_min
    } else if rest > bar_max {
        bar_max
    } else {
        rest
    };
    (label, bar)
}

/// The label and bar widths of a chart row (see `layout`).
pub fn column_widths(
    width: usize,
    label_cap: usize,
    label_div: usize,
    label_min: usize,
    reserve: usize,
    bar_min: usize,
    bar_max: usize,
) -> (res: (usize, usize))
    requires
        label_div > 0,
        bar_min <= bar_max,
        label_cap + reserve <= usize::MAX,
        label_min + reserve <= usize::MAX,
    ensures
        res.0 as nat == layout(width as nat, label_cap as nat, label_div as nat, label_min as nat, reserve as nat, bar_min as nat, bar_max as nat).0,
        res.1 as nat == layout(width as nat, label_cap as nat, label_div as nat, label_min as nat, reserve as nat, bar_min as nat, bar_max as nat).1,
{
    let share = width / label_div;
    let capped = if label_cap < share {
        label_cap
    } else {
        share
    };
    let label = if capped > label_min {
        capped
    } else {
        label_min
    };
    let rest = if width > label + reserve {
        width - (label + reserve)
    } else {
        0
    };
    let bar = if rest < bar_min {
        bar_min
    } else if rest > bar_max {
        bar_max
    } else {
        rest
    };
    (label, bar)
}

/// `n` copies of `c`.
pub open spec fn repeated(c: char, n: nat) -> Seq<char> {
    Seq::new(n, |_i: int| c)
}

fn push_repeated(out: &mut String, c: char, n: usize)
    ensures
        final(out)@ == old(out)@ + repeated(c, n as nat),
{
    let ghost start = out@;
    for i in 0..n
        invariant
            out@ == start + repeated(c, i as nat),
    {
        push_char(out, c);
        assert(repeated(c, (i + 1) as nat) =~= repeated(c, i as nat).push(c));
        assert(out@ =~= start + repeated(c, (i + 1) as nat));
    }
}

/// A bar of `fill` cells drawn with the charset's fill character.
pub fn bar_text(charset: BarCharset, fill: usize) -> (res: String)
    ensures
        res@ == repeated(fill_char(charset), fill as nat),
{
    let mut out = String::new();
    push_repeated(&mut out, bar_fill_char(charset), fill);
    assert(out@ =~= repeated(fill_char(charset), fill as nat));
    out
}

/// `s` left-aligned in `width` characters: spaces added on the right when
/// it is shorter (`{:<width$}`).
pub open spec fn padded_right(s: Seq<char>, width: nat) -> Seq<char> {
    if s.len() >= width {
        s
    } else {
        s + repeated(' ', (width - s.len()) as nat)
    }
}

/// `s` right-aligned in `width` characters: spaces added on the left when
/// it is shorter (`{:>width$}`).
pub open spec fn padded_left(s: Seq<char>, width: nat) -> Seq<char> {
    if s.len() >= width {
        s
    } else {
        repeated(' ', (width - s.len()) as nat) + s
    }
}

fn char_count(s: &str) -> (res: usize)
    ensures
        res == s@.len(),
{
    crate::text::chars_of(s).len()
}

/// `s` left-aligned in `width` characters.
pub fn pad_right(s: &str, width: usize) -> (res: String)
    ensures
        res@ == padded_right(s@, width as nat),
{
    let len = char_count(s);
    let mut out = crate::text::text_of(s);
    if len < width {
        push_repeated(&mut out, ' ', width - len);
    }
    out
}

/// `s` right-aligned in `width` characters.
pub fn pad_left(s: &str, width: usize) -> (res: String)
    ensures
        res@ == padded_left(s@, width as nat),
{
    let len = char_count(s);
    let mut out = String::new();
    if len < width {
        push_repeated(&mut out, ' ', width - len);
    }
    push_str(&mut out, s);
    assert(len >= width ==> out@ =~= s@);
    out
}

/// How wide the value at the end of a chart row is written.
pub const VALUE_WIDTH: usize = 5;

/// One row of a terminal bar chart: a line break, the label cut and
/// left-aligned to `label_w`, a space and the bar; then, when there is a
/// value, a space and the value right-aligned to five characters, followed
/// by `suffix`.
pub open spec fn chart_row_text(
    label: Seq<char>,
    label_w: nat,
    bar: Seq<char>,
    value: Option<Seq<char>>,
    suffix: Seq<char>,
) -> Seq<char> {
    let head = seq!['\n'] + padded_right(truncated(label, label_w), label_w) + seq![' '] + bar;
    match value {
        Some(v) => head + seq![' '] + padded_left(v, VALUE_WIDTH as nat) + suffix,
        None => head,
    }
}

/// A chart row (see `chart_row_text`).
pub fn chart_row(label: &str, label_w: usize, bar: &str, value: Option<&str>, suffix: &str) -> (res: String)
    ensures
        res@ == chart_row_text(
            label@,
            label_w as nat,
            bar@,
            match value {
                Some(v) => Some(v@),
                None => None,
            },
            suffix@,
        ),
{
    let mut out = String::new();
    push_char(&mut out, '\n');
    let cut = truncate(label, label_w);
    push_str(&mut out, pad_right(cut.as_str(), label_w).as_str());
    push_char(&mut out, ' ');
    push_str(&mut out, bar);
    match value {
        Some(v) => {
            push_char(&mut out, ' ');
            push_str(&mut out, pad_left(v, VALUE_WIDTH).as_str());
            push_str(&mut out, suffix);
        },
        None => {},
    }
    out
}

/// The label field of a chart row is exactly `label_w` characters wide
/// whenever `label_w` leaves room for the "..." of a cut label.
pub proof fn lemma_label_field_width(label: Seq<char>, label_w: nat)
    requires
        label_w >= 3,
    ensures
        padded_right(truncated(label, label_w), label_w).len() == label_w,
{
    crate::visualization::terminal::utils::lemma_truncated_fits(label, label_w);
}
} // verus!
