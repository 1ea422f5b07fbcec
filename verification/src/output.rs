use vstd::prelude::*;

use crate::num::{decimal, decimal_text, Stat};
use crate::profiler::types::{ColumnInsight, ColumnProfile, CorrelationMatrix, ProfileReport};
use crate::text::{push_str, text_of, texts};
use crate::visualization::terminal::utils::{truncate, truncated};

verus! {

/// The widest a column name is shown in the summary tables.
pub const NAME_MAX_WIDTH: usize = 20;

/// An optional statistic in a table: its two-decimal text when it is
/// finite, "nan" when it is not, "-" when it is absent.
pub open spec fn cell_stat(v: Option<Stat>) -> Seq<char> {
    match v {
        Some(s) => if s.finite() {
            s.fixed2@
        } else {
            "nan"@
        },
        None => "-"@,
    }
}

/// An optional count: its decimal text, else "-".
pub open spec fn cell_count(v: Option<u64>) -> Seq<char> {
    match v {
        Some(n) => decimal(n as nat),
        None => "-"@,
    }
}

/// Writes an optional statistic for a table cell.
pub fn fmt_opt_f64(value: &Option<Stat>) -> (res: String)
    ensures
        res@ == cell_stat(*value),
{
    match value {
        Some(s) => if s.is_finite() {
            text_of(s.fixed2.as_str())
        } else {
            text_of("nan")
        },
        None => text_of("-"),
    }
}

/// Writes an optional count for a table cell.
pub fn fmt_opt_u64(value: Option<u64>) -> (res: String)
    ensures
        res@ == cell_count(value),
{
    match value {
        Some(v) => decimal_text(v),
        None => text_of("-"),
    }
}

/// The lines above the tables: row and column counts, and the sample size
/// when the rows were sampled.
pub open spec fn header_lines(report: ProfileReport) -> Seq<Seq<char>> {
    let base = seq!["Rows: "@ + decimal(report.rows as nat), "Columns: "@ + decimal(report.columns as nat)];
    match report.sampled_rows {
        Some(n) => base.push("Sampled rows: "@ + decimal(n as nat)),
        None => base,
    }
}

fn labelled(label: &str, n: u64) -> (res: String)
    ensures
        res@ == label@ + decimal(n as nat),
{
    let mut s = text_of(label);
    push_str(&mut s, decimal_text(n).as_str());
    s
}

/// The dataset header lines.
pub fn dataset_header(report: &ProfileReport) -> (res: Vec<String>)
    ensures
        texts(res@) == header_lines(*report),
{
    let mut lines: Vec<String> = Vec::new();
    lines.push(labelled("Rows: ", report.rows));
    lines.push(labelled("Columns: ", report.columns as u64));
    if let Some(n) = report.sampled_rows {
        lines.push(labelled("Sampled rows: ", n as u64));
    }
    assert(texts(lines@) =~= header_lines(*report));
    lines
}

/// A row of the short summary table: name, type, null percentage, count,
/// mean, minimum, maximum.
pub open spec fn minimal_row(p: ColumnProfile) -> Seq<Seq<char>> {
    seq![
        truncated(p.name@, NAME_MAX_WIDTH as nat),
        truncated(p.dtype@, 12),
        p.null_pct.fixed2@,
        decimal(p.count as nat),
        cell_stat(p.mean),
        cell_stat(p.min),
        cell_stat(p.max),
    ]
}

/// A row of the full summary table.
pub open spec fn full_row(p: ColumnProfile) -> Seq<Seq<char>> {
    seq![
        truncated(p.name@, NAME_MAX_WIDTH as nat),
        truncated(p.dtype@, 18),
        decimal(p.count as nat),
        decimal(p.null_count as nat),
        p.null_pct.fixed2@,
        cell_stat(p.mean),
        cell_stat(p.std),
        cell_stat(p.min),
        cell_stat(p.p25),
        cell_stat(p.p50),
        cell_stat(p.p75),
        cell_stat(p.max),
        cell_count(p.unique_count),
    ]
}

/// The cells of the short summary table, one row per profile.
pub fn minimal_table_rows(report: &ProfileReport) -> (res: Vec<Vec<String>>)
    ensures
        res.len() == report.profiles.len(),
        forall|i: int| 0 <= i < res.len() ==> texts(#[trigger] res@[i]@) == minimal_row(report.profiles@[i]),
{
    let mut rows: Vec<Vec<String>> = Vec::new();
    for i in 0..report.profiles.len()
        invariant
            rows.len() == i,
            forall|a: int| 0 <= a < i ==> texts(#[trigger] rows@[a]@) == minimal_row(report.profiles@[a]),
    {
        let p = &report.profiles[i];
        let mut row: Vec<String> = Vec::new();
        row.push(truncate(p.name.as_str(), NAME_MAX_WIDTH));
        row.push(truncate(p.dtype.as_str(), 12));
        row.push(text_of(p.null_pct.fixed2.as_str()));
        row.push(decimal_text(p.count));
        row.push(fmt_opt_f64(&p.mean));
        row.push(fmt_opt_f64(&p.min));
        row.push(fmt_opt_f64(&p.max));
        assert(texts(row@) =~= minimal_row(*p));
        let ghost old_rows = rows@;
        rows.push(row);
        assert forall|a: int| 0 <= a < i + 1 implies texts(#[trigger] rows@[a]@) == minimal_row(
            report.profiles@[a],
        ) by {
            if a < i {
                assert(rows@[a] == old_rows[a]);
            }
        }
    }
    rows
}

/// The cells of the full summary table, one row per profile.
pub fn full_table_rows(report: &ProfileReport) -> (res: Vec<Vec<String>>)
    ensures
        res.len() == report.profiles.len(),
        forall|i: int| 0 <= i < res.len() ==> texts(#[trigger] res@[i]@) == full_row(report.profiles@[i]),
{
    let mut rows: Vec<Vec<String>> = Vec::new();
    for i in 0..report.profiles.len()
        invariant
            rows.len() == i,
            forall|a: int| 0 <= a < i ==> texts(#[trigger] rows@[a]@) == full_row(report.profiles@[a]),
    {
        let p = &report.profiles[i];
        let mut row: Vec<String> = Vec::new();
        row.push(truncate(p.name.as_str(), NAME_MAX_WIDTH));
        row.push(truncate(p.dtype.as_str(), 18));
        row.push(decimal_text(p.count));
        row.push(decimal_text(p.null_count));
        row.push(text_of(p.null_pct.fixed2.as_str()));
        row.push(fmt_opt_f64(&p.mean));
        row.push(fmt_opt_f64(&p.std));
        row.push(fmt_opt_f64(&p.min));
        row.push(fmt_opt_f64(&p.p25));
        row.push(fmt_opt_f64(&p.p50));
        row.push(fmt_opt_f64(&p.p75));
        row.push(fmt_opt_f64(&p.max));
        row.push(fmt_opt_u64(p.unique_count));
        assert(texts(row@) =~= full_row(*p));
        let ghost old_rows = rows@;
        rows.push(row);
        assert forall|a: int| 0 <= a < i + 1 implies texts(#[trigger] rows@[a]@) == full_row(
            report.profiles@[a],
        ) by {
            if a < i {
                assert(rows@[a] == old_rows[a]);
            }
        }
    }
    rows
}

/// The column labels of the correlation table: "Column", then each numeric
/// column's name cut to 12 characters.
pub fn correlation_header(corr: &CorrelationMatrix) -> (res: Vec<String>)
    ensures
        res.len() == corr.columns.len() + 1,
        res@[0]@ == "Column"@,
        forall|j: int| 0 <= j < corr.columns.len() ==> #[trigger] res@[j + 1]@ == truncated(corr.columns@[j]@, 12),
{
    let mut header: Vec<String> = Vec::new();
    header.push(text_of("Column"));
    for j in 0..corr.columns.len()
        invariant
            header.len() == j + 1,
            header@[0]@ == "Column"@,
            forall|a: int| 0 <= a < j ==> #[trigger] header@[a + 1]@ == truncated(corr.columns@[a]@, 12),
    {
        let ghost old_header = header@;
        header.push(truncate(corr.columns[j].as_str(), 12));
        assert forall|a: int| 0 <= a < j + 1 implies #[trigger] header@[a + 1]@ == truncated(corr.columns@[a]@, 12) by {
            if a < j {
                assert(header@[a + 1] == old_header[a + 1]);
            }
        }
    }
    header
}

/// The matrix has a row for each name, and each of those rows a value for
/// each name (longer rows and further rows are not read).
pub open spec fn covers_columns(corr: CorrelationMatrix) -> bool {
    &&& corr.values.len() >= corr.columns.len()
    &&& forall|i: int| 0 <= i < corr.columns.len() ==> #[trigger] corr.values@[i].len() >= corr.columns.len()
}

/// The cells of the correlation table: each row starts with its column's
/// name cut to 12 characters, then holds its correlations.
pub fn correlation_rows(corr: &CorrelationMatrix) -> (res: Vec<Vec<String>>)
    requires
        covers_columns(*corr),
    ensures
        res.len() == corr.columns.len(),
        forall|i: int| 0 <= i < res.len() ==> (#[trigger] res@[i]).len() == corr.columns.len() + 1,
        forall|i: int| 0 <= i < res.len() ==> (#[trigger] res@[i])@[0]@ == truncated(corr.columns@[i]@, 12),
        forall|i: int, j: int|
            0 <= i < res.len() && 0 <= j < corr.columns.len() ==> (#[trigger] res@[i])@[j + 1]@ == cell_stat(
                #[trigger] corr.values@[i]@[j],
            ),
{
    let n = corr.columns.len();
    let mut rows: Vec<Vec<String>> = Vec::new();
    for i in 0..n
        invariant
            n == corr.columns.len(),
            covers_columns(*corr),
            rows.len() == i,
            forall|a: int| 0 <= a < i ==> (#[trigger] rows@[a]).len() == n + 1,
            forall|a: int| 0 <= a < i ==> (#[trigger] rows@[a])@[0]@ == truncated(corr.columns@[a]@, 12),
            forall|a: int, j: int|
                0 <= a < i && 0 <= j < n ==> (#[trigger] rows@[a])@[j + 1]@ == cell_stat(
                    #[trigger] corr.values@[a]@[j],
                ),
    {
        let mut row: Vec<String> = Vec::new();
        row.push(truncate(corr.columns[i].as_str(), 12));
        assert(corr.values@[i as int].len() >= n);
        for j in 0..n
            invariant
                n == corr.columns.len(),
                covers_columns(*corr),
                i < n,
                row.len() == j + 1,
                row@[0]@ == truncated(corr.columns@[i as int]@, 12),
                forall|b: int| 0 <= b < j ==> #[trigger] row@[b + 1]@ == cell_stat(corr.values@[i as int]@[b]),
        {
            assert(corr.values@[i as int].len() >= n);
            let ghost old_row = row@;
            row.push(fmt_opt_f64(&corr.values[i][j]));
            assert forall|b: int| 0 <= b < j + 1 implies #[trigger] row@[b + 1]@ == cell_stat(
                corr.values@[i as int]@[b],
            ) by {
                if b < j {
                    assert(row@[b + 1] == old_row[b + 1]);
                }
            }
        }
        let ghost old_rows = rows@;
        rows.push(row);
        assert forall|a: int| 0 <= a < i + 1 implies (#[trigger] rows@[a]).len() == n + 1 && rows@[a]@[0]@
            == truncated(corr.columns@[a]@, 12) by {
            if a < i {
                assert(rows@[a] == old_rows[a]);
            }
        }
        assert forall|a: int, j: int|
            0 <= a < i + 1 && 0 <= j < n implies (#[trigger] rows@[a])@[j + 1]@ == cell_stat(
                #[trigger] corr.values@[a]@[j],
            ) by {
            if a < i {
                assert(rows@[a] == old_rows[a]);
            }
        }
    }
    rows
}

/// One insight line: "  \u{2022} column: label".
pub open spec fn insight_line(i: ColumnInsight) -> Seq<char> {
    "  \u{2022} "@ + i.column@ + ": "@ + i.classification@
}

/// The insight lines, one per insight.
pub fn insight_lines(report: &ProfileReport) -> (res: Vec<String>)
    ensures
        res.len() == report.column_insights.len(),
        forall|i: int| 0 <= i < res.len() ==> #[trigger] res@[i]@ == insight_line(report.column_insights@[i]),
{
    let mut lines: Vec<String> = Vec::new();
    for i in 0..report.column_insights.len()
        invariant
            lines.len() == i,
            forall|a: int| 0 <= a < i ==> #[trigger] lines@[a]@ == insight_line(report.column_insights@[a]),
    {
        let insight = &report.column_insights[i];
        let mut line = text_of("  \u{2022} ");
        push_str(&mut line, insight.column.as_str());
        push_str(&mut line, ": ");
        push_str(&mut line, insight.classification.as_str());
        let ghost old_lines = lines@;
        lines.push(line);
        assert forall|a: int| 0 <= a < i + 1 implies #[trigger] lines@[a]@ == insight_line(report.column_insights@[a]) by {
            if a < i {
                assert(lines@[a] == old_lines[a]);
            }
        }
    }
    lines
}

} // verus!
