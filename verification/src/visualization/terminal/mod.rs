use vstd::prelude::*;

pub mod bars;
pub mod rank;
pub mod sparkline;
pub mod utils;

use crate::text::{join_texts, joined, push_str, text_of, texts};
use crate::visualization::terminal::utils::{truncate, truncated};

verus! {

/// How many profiles the terminal category charts look at.
pub const CATEGORY_COLUMNS: usize = 6;

/// How many categories a terminal category chart shows.
pub const TOP_CATEGORIES: usize = 6;

/// How many numeric columns get a terminal histogram.
pub const HISTOGRAM_COLUMNS: usize = 4;

/// How many columns the missing-value bars show.
pub const MISSING_ROWS: usize = 12;

/// How many column pairs the correlation-strength bars show.
pub const CORRELATION_PAIRS: usize = 10;

/// The sections that have any text, in order.
pub open spec fn nonempty_texts(parts: Seq<Seq<char>>) -> Seq<Seq<char>> {
    parts.filter(|p: Seq<char>| p.len() > 0)
}

/// The terminal chart block: the non-empty sections under a heading, one
/// blank line apart; nothing when every section is empty.
pub open spec fn terminal_charts_text(sections: Seq<Seq<char>>) -> Option<Seq<char>> {
    let kept = nonempty_texts(sections);
    if kept.len() == 0 {
        None
    } else {
        Some("\nTerminal Charts:\n"@ + joined(kept, "\n\n"@))
    }
}

/// Puts the rendered chart sections (histograms, categories, missing
/// values, correlation strength) together under one heading.
pub fn assemble_terminal_charts(sections: &Vec<String>) -> (res: Option<String>)
    ensures
        res matches Some(s) ==> terminal_charts_text(texts(sections@)) == Some(s@),
        res is None ==> terminal_charts_text(texts(sections@)) is None,
{
    let mut kept: Vec<String> = Vec::new();
    for i in 0..sections.len()
        invariant
            texts(kept@) == nonempty_texts(texts(sections@.take(i as int))),
    {
        let ghost prev = texts(sections@.take(i as int));
        assert(texts(sections@.take(i + 1)) =~= prev.push(sections@[i as int]@));
        reveal_with_fuel(Seq::<_>::filter, 1);
        assert(prev.push(sections@[i as int]@).drop_last() =~= prev);
        assert(prev.push(sections@[i as int]@).last() == sections@[i as int]@);
        let part = sections[i].as_str();
        if crate::text::chars_of(part).len() > 0 {
            kept.push(text_of(part));
            assert(part@.len() > 0);
            assert(texts(kept@) =~= nonempty_texts(prev).push(part@));
        }
    }
    assert(sections@.take(sections.len() as int) =~= sections@);
    if kept.len() == 0 {
        None
    } else {
        let mut out = text_of("\nTerminal Charts:\n");
        let body = join_texts(&kept, "\n\n");
        push_str(&mut out, body.as_str());
        Some(out)
    }
}


/// The rows of a chart written one after another.
pub open spec fn rows_text(rows: Seq<String>) -> Seq<char> {
    joined(texts(rows), ""@)
}

/// A chart section under `heading`; nothing when there are no rows.
pub open spec fn section_text(heading: Seq<char>, rows: Seq<String>) -> Seq<char> {
    if rows.len() == 0 {
        Seq::empty()
    } else {
        heading + rows_text(rows)
    }
}

fn section(heading: &str, rows: &Vec<String>) -> (res: String)
    ensures
        res@ == section_text(heading@, rows@),
{
    if rows.len() == 0 {
        String::new()
    } else {
        let mut out = text_of(heading);
        let body = join_texts(rows, "");
        push_str(&mut out, body.as_str());
        out
    }
}

/// The missing-value bars: "Missing Values" and the rows, or nothing
/// without rows.
pub fn missing_values_section(rows: &Vec<String>) -> (res: String)
    ensures
        res@ == section_text("Missing Values"@, rows@),
{
    section("Missing Values", rows)
}

/// The correlation-strength bars: "Correlation Strength" and the rows, or
/// nothing without rows.
pub fn correlation_strength_section(rows: &Vec<String>) -> (res: String)
    ensures
        res@ == section_text("Correlation Strength"@, rows@),
{
    section("Correlation Strength", rows)
}

/// The label of a column pair: "a <-> b".
pub fn pair_label(a: &str, b: &str) -> (res: String)
    ensures
        res@ == a@ + " <-> "@ + b@,
{
    let mut out = text_of(a);
    push_str(&mut out, " <-> ");
    push_str(&mut out, b);
    out
}

/// A category chart: the column name cut to 36 characters, then its rows.
pub fn category_section(name: &str, rows: &Vec<String>) -> (res: String)
    ensures
        res@ == truncated(name@, 36) + rows_text(rows@),
{
    let mut out = truncate(name, 36);
    let body = join_texts(rows, "");
    push_str(&mut out, body.as_str());
    out
}

/// A histogram: "Numeric Distribution: " and the column name cut to 32
/// characters, a line "trend: " with the sparkline, then the rows.
pub fn histogram_section(name: &str, trend: &str, rows: &Vec<String>) -> (res: String)
    ensures
        res@ == "Numeric Distribution: "@ + truncated(name@, 32) + "\ntrend: "@ + trend@ + rows_text(rows@),
{
    let mut out = text_of("Numeric Distribution: ");
    push_str(&mut out, truncate(name, 32).as_str());
    push_str(&mut out, "\ntrend: ");
    push_str(&mut out, trend);
    let body = join_texts(rows, "");
    push_str(&mut out, body.as_str());
    out
}

/// A section with one row is its heading followed by that row; adding a row
/// to a section that has rows appends the row; a section without rows is
/// empty. So a section shows every row, in order, whenever it has any.
pub proof fn lemma_section_rows(heading: Seq<char>, rows: Seq<String>, row: String)
    ensures
        section_text(heading, Seq::empty()) == Seq::<char>::empty(),
        section_text(heading, seq![row]) == heading + row@,
        rows.len() > 0 ==> section_text(heading, rows.push(row)) == section_text(heading, rows) + row@,
{
    reveal_strlit("");
    assert(""@ =~= Seq::<char>::empty());
    assert(texts(seq![row]) =~= seq![row@]);
    assert(joined(seq![row@], ""@) == row@);
    if rows.len() > 0 {
        let t = texts(rows.push(row));
        assert(t =~= texts(rows).push(row@));
        assert(t.drop_last() =~= texts(rows));
        assert(t.last() == row@);
        assert(joined(t, ""@) == joined(t.drop_last(), ""@) + ""@ + t.last());
        assert(joined(t, ""@) =~= joined(texts(rows), ""@) + row@);
        assert(section_text(heading, rows.push(row)) =~= section_text(heading, rows) + row@);
    }
}
} // verus!
