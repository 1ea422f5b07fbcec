use vstd::prelude::*;

use crate::num::{decimal, digit};
use crate::profiler::types::ColumnProfile;
use crate::text::{ascii_lower, ascii_lowercase, chars_hold, chars_of, holds_part, push_char, push_str, same_text, text_of};

verus! {

/// `value` shown in at most `max` characters (at least the three of "..."):
/// kept whole if it fits, else its first `max - 3` characters and "...".
pub open spec fn truncated(value: Seq<char>, max: nat) -> Seq<char> {
    if value.len() <= max {
        value
    } else {
        let keep: nat = if max >= 3 {
            (max - 3) as nat
        } else {
            0
        };
        value.take(keep as int) + seq!['.', '.', '.']
    }
}

/// Shortens `value` to `max` characters, marking the cut with "...".
pub fn truncate(value: &str, max: usize) -> (res: String)
    ensures
        res@ == truncated(value@, max as nat),
{
    let cs = chars_of(value);
    if cs.len() <= max {
        text_of(value)
    } else {
        let keep: usize = if max >= 3 {
            max - 3
        } else {
            0
        };
        let mut out = String::new();
        for i in 0..keep
            invariant
                keep < cs.len(),
                out@ == cs@.take(i as int),
        {
            push_char(&mut out, cs[i]);
            assert(cs@.take(i + 1) =~= cs@.take(i as int).push(cs@[i as int]));
        }
        push_str(&mut out, "...");
        proof {
            reveal_strlit("...");
            assert(cs@ == value@);
        }
        out
    }
}

/// A truncated text is no longer than `max`, or three characters when `max` is smaller.
pub proof fn lemma_truncated_fits(value: Seq<char>, max: nat)
    ensures
        truncated(value, max).len() <= if max >= 3 { max } else { 3 },
        value.len() <= max ==> truncated(value, max) == value,
{
}

/// Truncating twice to the same width gives what truncating once gives.
pub proof fn lemma_truncate_idempotent(value: Seq<char>, max: nat)
    ensures
        truncated(truncated(value, max), max) == truncated(value, max),
{
    let once = truncated(value, max);
    if value.len() > max && max < 3 {
        assert(once =~= seq!['.', '.', '.']);
        assert(once.take(0) + seq!['.', '.', '.'] =~= once);
    }
}

/// The names of the profiles that carry a mean, a minimum or a maximum, in order.
pub open spec fn stat_column_names(profiles: Seq<ColumnProfile>) -> Seq<Seq<char>>
    decreases profiles.len(),
{
    if profiles.len() == 0 {
        Seq::empty()
    } else {
        let p = profiles.last();
        let rest = stat_column_names(profiles.drop_last());
        if p.mean is Some || p.min is Some || p.max is Some {
            rest.push(p.name@)
        } else {
            rest
        }
    }
}

/// The names of the columns with numeric statistics.
pub fn numeric_column_names(profiles: &Vec<ColumnProfile>) -> (res: Vec<String>)
    ensures
        res@.map_values(|s: String| s@) == stat_column_names(profiles@),
{
    let mut out: Vec<String> = Vec::new();
    for k in 0..profiles.len()
        invariant
            out@.map_values(|s: String| s@) == stat_column_names(profiles@.take(k as int)),
    {
        assert(profiles@.take(k + 1).drop_last() =~= profiles@.take(k as int));
        let p = &profiles[k];
        if p.mean.is_some() || p.min.is_some() || p.max.is_some() {
            out.push(text_of(p.name.as_str()));
            assert(out@.map_values(|s: String| s@) =~= stat_column_names(profiles@.take(k as int)).push(
                p.name@,
            ));
        }
    }
    assert(profiles@.take(profiles.len() as int) =~= profiles@);
    out
}

/// The value of decimal digits.
pub open spec fn digits_value(d: Seq<char>) -> nat
    decreases d.len(),
{
    if d.len() == 0 {
        0
    } else {
        digits_value(d.drop_last()) * 10 + ((d.last() as int) - ('0' as int)) as nat
    }
}

/// Decimal digits only.
pub open spec fn all_digits(d: Seq<char>) -> bool {
    forall|i: int| 0 <= i < d.len() ==> '0' <= #[trigger] d[i] && d[i] <= '9'
}

/// What `str::parse::<usize>` gives: an optional '+', then at least one
/// decimal digit, with a value that fits in `usize`.
pub open spec fn parsed_usize(s: Seq<char>) -> Option<nat> {
    let d = if s.len() > 0 && s[0] == '+' {
        s.drop_first()
    } else {
        s
    };
    if d.len() > 0 && all_digits(d) && digits_value(d) <= usize::MAX {
        Some(digits_value(d))
    } else {
        None
    }
}

proof fn lemma_digits_value_grows(d: Seq<char>, i: int)
    requires
        0 <= i <= d.len(),
        all_digits(d),
    ensures
        digits_value(d.take(i)) <= digits_value(d),
    decreases d.len() - i,
{
    if i < d.len() {
        lemma_digits_value_grows(d, i + 1);
        assert(d.take(i + 1).drop_last() =~= d.take(i));
        assert('0' <= d[i] <= '9');
    } else {
        assert(d.take(i) =~= d);
    }
}

/// Reads a `usize` as `str::parse::<usize>` does.
pub fn parse_usize(s: &str) -> (res: Option<usize>)
    ensures
        res matches Some(v) ==> parsed_usize(s@) == Some(v as nat),
        res is None ==> parsed_usize(s@) is None,
{
    let cs = chars_of(s);
    let start: usize = if cs.len() > 0 && cs[0] == '+' {
        1
    } else {
        0
    };
    let ghost d = cs@.skip(start as int);
    assert(d == if s@.len() > 0 && s@[0] == '+' { s@.drop_first() } else { s@ });
    if cs.len() == start {
        return None;
    }
    let mut acc: usize = 0;
    let mut i: usize = start;
    while i < cs.len()
        invariant
            start <= i <= cs.len(),
            cs@ == s@,
            d == cs@.skip(start as int),
            d == if s@.len() > 0 && s@[0] == '+' { s@.drop_first() } else { s@ },
            acc as nat == digits_value(d.take(i - start)),
            all_digits(d.take(i - start)),
        decreases cs.len() - i,
    {
        let c = cs[i];
        assert(d[i - start] == c);
        assert(d.take(i - start + 1).drop_last() =~= d.take(i - start));
        if c < '0' || c > '9' {
            assert(!all_digits(d));
            return None;
        }
        let dig: usize = (c as u32 - '0' as u32) as usize;
        assert(dig as int == (c as int) - ('0' as int));
        if acc > (usize::MAX - dig) / 10 {
            assert(acc * 10 + dig > usize::MAX) by (nonlinear_arith)
                requires
                    acc > (usize::MAX - dig) / 10,
                    dig <= 9,
            ;
            assert forall|j: int| 0 <= j < i - start + 1 implies '0' <= #[trigger] d.take(i - start + 1)[j]
                && d.take(i - start + 1)[j] <= '9' by {
                if j < i - start {
                    assert(d.take(i - start + 1)[j] == d.take(i - start)[j]);
                }
            }
            proof {
                if all_digits(d) {
                    lemma_digits_value_grows(d, i - start + 1);
                }
            }
            return None;
        }
        assert(acc * 10 + dig <= usize::MAX) by (nonlinear_arith)
            requires
                acc <= (usize::MAX - dig) / 10,
                dig <= 9,
        ;
        acc = acc * 10 + dig;
        assert forall|j: int| 0 <= j < i - start + 1 implies '0' <= #[trigger] d.take(i - start + 1)[j]
            && d.take(i - start + 1)[j] <= '9' by {
            if j < i - start {
                assert(d.take(i - start + 1)[j] == d.take(i - start)[j]);
            }
        }
        i = i + 1;
    }
    assert(d.take(i - start) =~= d);
    Some(acc)
}

/// The width of the terminal from `COLUMNS`: its number when it reads as one
/// of at least 60, else 100.
pub open spec fn width_from(columns: Option<Seq<char>>) -> nat {
    match columns {
        Some(c) => match parsed_usize(c) {
            Some(w) => if w >= 60 {
                w
            } else {
                100
            },
            None => 100,
        },
        None => 100,
    }
}

/// The chart width for the value of `COLUMNS`, if it is set.
pub fn terminal_width_from(columns: Option<&str>) -> (res: usize)
    ensures
        res == width_from(match columns {
            Some(c) => Some(c@),
            None => None,
        }),
{
    match columns {
        Some(c) => match parse_usize(c) {
            Some(w) => if w >= 60 {
                w
            } else {
                100
            },
            None => 100,
        },
        None => 100,
    }
}

/// Whether the locale and terminal settings allow Unicode block characters:
/// not when `NO_UNICODE` is set or the terminal is "dumb", else when the
/// locale names UTF-8 (in any ASCII case).
pub open spec fn unicode_allowed(no_unicode: bool, term: Seq<char>, lang: Seq<char>) -> bool {
    !no_unicode && term != "dumb"@ && holds_part(lang.map_values(|c: char| ascii_lower(c)), "utf-8"@)
}

/// Decides Unicode support from whether `NO_UNICODE` is set, the value of
/// `TERM` (empty when unset) and the first of `LC_ALL`, `LC_CTYPE`, `LANG`
/// that is set (empty when none is).
pub fn unicode_supported(no_unicode: bool, term: &str, lang: &str) -> (res: bool)
    ensures
        res == unicode_allowed(no_unicode, term@, lang@),
{
    if no_unicode {
        return false;
    }
    if same_text(term, "dumb") {
        return false;
    }
    let lower = ascii_lowercase(lang);
    let utf8 = chars_of("utf-8");
    chars_hold(&lower, &utf8)
}

proof fn lemma_digit_value(d: nat)
    requires
        d < 10,
    ensures
        '0' <= digit(d) <= '9',
        (digit(d) as int) - ('0' as int) == d,
{
    let s = seq!['0', '1', '2', '3', '4', '5', '6', '7', '8', '9'];
    assert(digit(d) == s[d as int]);
    if d == 0 {
        assert(s[0] == '0');
    } else if d == 1 {
        assert(s[1] == '1');
    } else if d == 2 {
        assert(s[2] == '2');
    } else if d == 3 {
        assert(s[3] == '3');
    } else if d == 4 {
        assert(s[4] == '4');
    } else if d == 5 {
        assert(s[5] == '5');
    } else if d == 6 {
        assert(s[6] == '6');
    } else if d == 7 {
        assert(s[7] == '7');
    } else if d == 8 {
        assert(s[8] == '8');
    } else {
        assert(s[9] == '9');
    }
}

proof fn lemma_decimal_digits(n: nat)
    ensures
        decimal(n).len() > 0,
        all_digits(decimal(n)),
        digits_value(decimal(n)) == n,
    decreases n,
{
    reveal_with_fuel(decimal, 1);
    lemma_digit_value(n % 10);
    if n < 10 {
        assert(decimal(n) == seq![digit(n)]);
        assert(seq![digit(n)].drop_last() =~= Seq::<char>::empty());
        assert(digits_value(Seq::<char>::empty()) == 0);
        assert(digits_value(seq![digit(n)]) == digits_value(seq![digit(n)].drop_last()) * 10 + ((digit(n) as int) - ('0' as int)) as nat);
    } else {
        lemma_decimal_digits(n / 10);
        let d = decimal(n / 10);
        assert(decimal(n) == d.push(digit(n % 10)));
        assert(d.push(digit(n % 10)).drop_last() =~= d);
        assert(digits_value(d.push(digit(n % 10))) == digits_value(d) * 10 + ((digit(n % 10) as int) - ('0' as int)) as nat);
        assert((n / 10) * 10 + n % 10 == n);
        assert forall|i: int| 0 <= i < d.len() + 1 implies '0' <= #[trigger] d.push(digit(n % 10))[i]
            && d.push(digit(n % 10))[i] <= '9' by {
            if i < d.len() {
                assert(d.push(digit(n % 10))[i] == d[i]);
            }
        }
    }
}

/// Reading back the decimal text of a count gives the count.
pub proof fn lemma_parse_decimal(n: nat)
    requires
        n <= usize::MAX,
    ensures
        parsed_usize(decimal(n)) == Some(n),
{
    lemma_decimal_digits(n);
    assert('0' <= decimal(n)[0] <= '9');
}
} // verus!
