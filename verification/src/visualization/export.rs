use vstd::prelude::*;

use crate::num::{decimal, decimal_text, Stat};
use crate::paths::{path_stripped, strip_path_prefix};
use crate::profiler::types::{ColumnInsight, ColumnProfile, ProfileReport};
use crate::text::{
    holds_part, lemma_holds_part_extend, lemma_holds_part_self, lemma_holds_part_within, push_str, text_of,
};
use crate::visualization::utils::{escape_html, html_escaped};

verus! {

/// The start of the report page, up to the opening of its body.
pub const HTML_HEAD: &'static str = "<!doctype html><html><head><meta charset=\"utf-8\"><meta name=\"viewport\" content=\"width=device-width,initial-scale=1\"><title>statline report</title><style>body{font-family:Arial,sans-serif;margin:24px;line-height:1.35}table{border-collapse:collapse;width:100%}th,td{border:1px solid #ddd;padding:6px 8px;font-size:13px}th{background:#f6f6f6;text-align:left}img{max-width:100%;height:auto;border:1px solid #ddd;margin:12px 0}</style></head><body>";

/// The heading row of the profiling table.
pub const HTML_TABLE_HEAD: &'static str = "<h2>Profiling Table</h2><table><thead><tr><th>Column</th><th>Type</th><th>Count</th><th>Nulls</th><th>Null%</th><th>Mean</th><th>Std</th><th>Min</th><th>P25</th><th>P50</th><th>P75</th><th>Max</th><th>Unique</th></tr></thead><tbody>";

/// A table cell.
pub open spec fn td(x: Seq<char>) -> Seq<char> {
    "<td>"@ + x + "</td>"@
}

/// An optional statistic in the report: its two-decimal text when it is
/// present and finite, else "-".
pub open spec fn stat_text(v: Option<Stat>) -> Seq<char> {
    match v {
        Some(s) => if s.finite() {
            s.fixed2@
        } else {
            "-"@
        },
        None => "-"@,
    }
}

/// An optional count: its decimal text, else "-".
pub open spec fn count_text(v: Option<u64>) -> Seq<char> {
    match v {
        Some(n) => decimal(n as nat),
        None => "-"@,
    }
}

/// The table row of one column profile.
pub open spec fn profile_row(p: ColumnProfile) -> Seq<char> {
    "<tr>"@ + td(html_escaped(p.name@)) + td(html_escaped(p.dtype@)) + td(decimal(p.count as nat))
        + td(decimal(p.null_count as nat)) + td(p.null_pct.fixed2@) + td(stat_text(p.mean)) + td(
        stat_text(p.std),
    ) + td(stat_text(p.min)) + td(stat_text(p.p25)) + td(stat_text(p.p50)) + td(stat_text(p.p75))
        + td(stat_text(p.max)) + td(count_text(p.unique_count)) + "</tr>"@
}

/// The rows of all profiles, in order.
pub open spec fn profile_rows(ps: Seq<ColumnProfile>) -> Seq<char>
    decreases ps.len(),
{
    if ps.len() == 0 {
        Seq::empty()
    } else {
        profile_rows(ps.drop_last()) + profile_row(ps.last())
    }
}

/// One insight as a list item.
pub open spec fn insight_item(i: ColumnInsight) -> Seq<char> {
    "<li><strong>"@ + html_escaped(i.column@) + "</strong>: "@ + html_escaped(i.classification@)
        + "</li>"@
}

/// The items of all insights, in order.
pub open spec fn insight_items(is: Seq<ColumnInsight>) -> Seq<char>
    decreases is.len(),
{
    if is.len() == 0 {
        Seq::empty()
    } else {
        insight_items(is.drop_last()) + insight_item(is.last())
    }
}

/// How the report refers to an image, given its path relative to the
/// assets directory when it lies in it: `assets/...`, else its own path.
pub open spec fn source_for(image: Seq<char>, relative: Option<Seq<char>>) -> Seq<char> {
    match relative {
        Some(rel) => "assets/"@ + rel,
        None => image,
    }
}

/// How the report refers to an image in or outside the assets directory.
pub open spec fn image_src(image: Seq<char>, assets_dir: Seq<char>) -> Seq<char> {
    source_for(image, path_stripped(image, assets_dir))
}

/// The reference to `image` in the report, given its path relative to the
/// assets directory if it lies there.
pub fn image_source(image: &str, relative: Option<&str>) -> (res: String)
    ensures
        res@ == source_for(
            image@,
            match relative {
                Some(r) => Some(r@),
                None => None,
            },
        ),
{
    match relative {
        Some(rel) => {
            let mut s = text_of("assets/");
            push_str(&mut s, rel);
            s
        },
        None => text_of(image),
    }
}

/// One image as a figure.
pub open spec fn figure(image: Seq<char>, assets_dir: Seq<char>) -> Seq<char> {
    let src = html_escaped(image_src(image, assets_dir));
    "<figure><img src=\""@ + src + "\" alt=\""@ + src + "\"></figure>"@
}

/// The figures of all images, in order.
pub open spec fn figures(images: Seq<String>, assets_dir: Seq<char>) -> Seq<char>
    decreases images.len(),
{
    if images.len() == 0 {
        Seq::empty()
    } else {
        figures(images.drop_last(), assets_dir) + figure(images.last()@, assets_dir)
    }
}

/// The dataset summary paragraph.
pub open spec fn summary_html(report: ProfileReport) -> Seq<char> {
    "<h1>Dataset Summary</h1>"@ + "<p>Rows: "@ + decimal(report.rows as nat) + "<br>Columns: "@
        + decimal(report.columns as nat) + (match report.sampled_rows {
        Some(n) => "<br>Sampled rows: "@ + decimal(n as nat),
        None => Seq::empty(),
    }) + "</p>"@
}

/// The insights section, when there are insights.
pub open spec fn insights_html(is: Seq<ColumnInsight>) -> Seq<char> {
    if is.len() == 0 {
        Seq::empty()
    } else {
        "<h2>Insights</h2><ul>"@ + insight_items(is) + "</ul>"@
    }
}

/// The charts section, when there are images.
pub open spec fn charts_html(images: Seq<String>, assets_dir: Seq<char>) -> Seq<char> {
    if images.len() == 0 {
        Seq::empty()
    } else {
        "<h2>Charts</h2>"@ + figures(images, assets_dir)
    }
}

/// The standalone HTML report.
pub open spec fn html_report(report: ProfileReport, images: Seq<String>, assets_dir: Seq<char>) -> Seq<char> {
    HTML_HEAD@ + summary_html(report) + HTML_TABLE_HEAD@ + profile_rows(report.profiles@)
        + "</tbody></table>"@ + insights_html(report.column_insights@) + charts_html(images, assets_dir)
        + "</body></html>"@
}

fn push_cell(out: &mut String, x: &str)
    ensures
        final(out)@ == old(out)@ + td(x@),
{
    push_str(out, "<td>");
    push_str(out, x);
    push_str(out, "</td>");
    assert(final(out)@ =~= old(out)@ + td(x@));
}

fn stat_cell(v: &Option<Stat>) -> (res: String)
    ensures
        res@ == stat_text(*v),
{
    match v {
        Some(s) => if s.is_finite() {
            text_of(s.fixed2.as_str())
        } else {
            text_of("-")
        },
        None => text_of("-"),
    }
}

fn count_cell(v: Option<u64>) -> (res: String)
    ensures
        res@ == count_text(v),
{
    match v {
        Some(n) => decimal_text(n),
        None => text_of("-"),
    }
}

fn push_profile_row(out: &mut String, p: &ColumnProfile)
    ensures
        final(out)@ == old(out)@ + profile_row(*p),
{
    let ghost start = out@;
    push_str(out, "<tr>");
    push_cell(out, escape_html(p.name.as_str()).as_str());
    push_cell(out, escape_html(p.dtype.as_str()).as_str());
    push_cell(out, decimal_text(p.count).as_str());
    push_cell(out, decimal_text(p.null_count).as_str());
    push_cell(out, p.null_pct.fixed2.as_str());
    push_cell(out, stat_cell(&p.mean).as_str());
    push_cell(out, stat_cell(&p.std).as_str());
    push_cell(out, stat_cell(&p.min).as_str());
    push_cell(out, stat_cell(&p.p25).as_str());
    push_cell(out, stat_cell(&p.p50).as_str());
    push_cell(out, stat_cell(&p.p75).as_str());
    push_cell(out, stat_cell(&p.max).as_str());
    push_cell(out, count_cell(p.unique_count).as_str());
    push_str(out, "</tr>");
    assert(out@ =~= start + profile_row(*p));
}

fn push_figure(out: &mut String, image: &str, assets_dir: &str)
    ensures
        final(out)@ == old(out)@ + figure(image@, assets_dir@),
{
    let ghost start = out@;
    let src = match strip_path_prefix(image, assets_dir) {
        Some(rel) => image_source(image, Some(rel.as_str())),
        None => image_source(image, None),
    };
    assert(src@ == image_src(image@, assets_dir@));
    let esc = escape_html(src.as_str());
    push_str(out, "<figure><img src=\"");
    push_str(out, esc.as_str());
    push_str(out, "\" alt=\"");
    push_str(out, esc.as_str());
    push_str(out, "\"></figure>");
    assert(out@ =~= start + figure(image@, assets_dir@));
}

fn push_summary(out: &mut String, report: &ProfileReport)
    ensures
        final(out)@ == old(out)@ + summary_html(*report),
{
    let ghost start = out@;
    push_str(out, "<h1>Dataset Summary</h1>");
    push_str(out, "<p>Rows: ");
    push_str(out, decimal_text(report.rows).as_str());
    push_str(out, "<br>Columns: ");
    push_str(out, decimal_text(report.columns as u64).as_str());
    if let Some(sample) = report.sampled_rows {
        push_str(out, "<br>Sampled rows: ");
        push_str(out, decimal_text(sample as u64).as_str());
    }
    push_str(out, "</p>");
    assert(out@ =~= start + summary_html(*report));
}

fn push_profile_rows(out: &mut String, profiles: &Vec<ColumnProfile>)
    ensures
        final(out)@ == old(out)@ + profile_rows(profiles@),
{
    let ghost start = out@;
    for i in 0..profiles.len()
        invariant
            out@ == start + profile_rows(profiles@.take(i as int)),
    {
        assert(profiles@.take(i + 1).drop_last() =~= profiles@.take(i as int));
        push_profile_row(out, &profiles[i]);
        assert(out@ =~= start + profile_rows(profiles@.take(i + 1)));
    }
    assert(profiles@.take(profiles.len() as int) =~= profiles@);
}

fn push_insight(out: &mut String, insight: &ColumnInsight)
    ensures
        final(out)@ == old(out)@ + insight_item(*insight),
{
    let ghost start = out@;
    push_str(out, "<li><strong>");
    push_str(out, escape_html(insight.column.as_str()).as_str());
    push_str(out, "</strong>: ");
    push_str(out, escape_html(insight.classification.as_str()).as_str());
    push_str(out, "</li>");
    assert(out@ =~= start + insight_item(*insight));
}

fn push_insights(out: &mut String, insights: &Vec<ColumnInsight>)
    ensures
        final(out)@ == old(out)@ + insights_html(insights@),
{
    let ghost start = out@;
    if insights.len() > 0 {
        push_str(out, "<h2>Insights</h2><ul>");
        let ghost before_items = out@;
        for i in 0..insights.len()
            invariant
                out@ == before_items + insight_items(insights@.take(i as int)),
        {
            assert(insights@.take(i + 1).drop_last() =~= insights@.take(i as int));
            push_insight(out, &insights[i]);
            assert(out@ =~= before_items + insight_items(insights@.take(i + 1)));
        }
        assert(insights@.take(insights.len() as int) =~= insights@);
        push_str(out, "</ul>");
    }
    assert(out@ =~= start + insights_html(insights@));
}

fn push_charts(out: &mut String, images: &Vec<String>, assets_dir: &str)
    ensures
        final(out)@ == old(out)@ + charts_html(images@, assets_dir@),
{
    let ghost start = out@;
    if images.len() > 0 {
        push_str(out, "<h2>Charts</h2>");
        let ghost before_figures = out@;
        for i in 0..images.len()
            invariant
                out@ == before_figures + figures(images@.take(i as int), assets_dir@),
        {
            assert(images@.take(i + 1).drop_last() =~= images@.take(i as int));
            push_figure(out, images[i].as_str(), assets_dir);
            assert(out@ =~= before_figures + figures(images@.take(i + 1), assets_dir@));
        }
        assert(images@.take(images.len() as int) =~= images@);
    }
    assert(out@ =~= start + charts_html(images@, assets_dir@));
}

/// The standalone HTML report: the dataset summary, the profiling table,
/// the insights and the chart images (`images` relative to `assets_dir`).
pub fn build_html(report: &ProfileReport, images: &Vec<String>, assets_dir: &str) -> (res: String)
    ensures
        res@ == html_report(*report, images@, assets_dir@),
{
    let mut html = text_of(HTML_HEAD);
    push_summary(&mut html, report);
    push_str(&mut html, HTML_TABLE_HEAD);
    push_profile_rows(&mut html, &report.profiles);
    push_str(&mut html, "</tbody></table>");
    push_insights(&mut html, &report.column_insights);
    push_charts(&mut html, images, assets_dir);
    push_str(&mut html, "</body></html>");
    assert(html@ =~= html_report(*report, images@, assets_dir@));
    html
}


/// Adding an insight adds its item after the items of the others; a single
/// insight gives its own item, and none gives nothing.
pub proof fn lemma_insight_items_push(is: Seq<ColumnInsight>, i: ColumnInsight)
    ensures
        insight_items(Seq::empty()) == Seq::<char>::empty(),
        insight_items(seq![i]) == insight_item(i),
        insight_items(is.push(i)) == insight_items(is) + insight_item(i),
{
    assert(seq![i].drop_last() =~= Seq::<ColumnInsight>::empty());
    assert(is.push(i).drop_last() =~= is);
    assert(seq![i].last() == i);
    assert(insight_items(seq![i]) == insight_items(Seq::<ColumnInsight>::empty()) + insight_item(i));
    assert(insight_items(seq![i]) =~= insight_item(i));
}

/// The items of a list of insights split at any point into the items of the
/// two parts.
pub proof fn lemma_insight_items_split(is: Seq<ColumnInsight>, k: int)
    requires
        0 <= k <= is.len(),
    ensures
        insight_items(is) == insight_items(is.take(k)) + insight_items(is.skip(k)),
    decreases is.len() - k,
{
    if k == is.len() {
        assert(is.take(k) =~= is);
        assert(is.skip(k) =~= Seq::<ColumnInsight>::empty());
        assert(insight_items(is) =~= insight_items(is.take(k)) + insight_items(is.skip(k)));
    } else {
        lemma_insight_items_split(is, k + 1);
        lemma_insight_items_push(is.take(k), is[k]);
        assert(is.take(k + 1) =~= is.take(k).push(is[k]));
        lemma_insight_items_skip(is.skip(k));
        assert(is.skip(k).drop_first() =~= is.skip(k + 1));
        assert(is.skip(k)[0] == is[k]);
        assert(insight_items(is) =~= insight_items(is.take(k)) + insight_items(is.skip(k)));
    }
}

proof fn lemma_insight_items_skip(is: Seq<ColumnInsight>)
    requires
        is.len() > 0,
    ensures
        insight_items(is) == insight_item(is[0]) + insight_items(is.drop_first()),
    decreases is.len(),
{
    if is.len() == 1 {
        assert(is.drop_first() =~= Seq::<ColumnInsight>::empty());
        assert(is =~= seq![is[0]]);
        lemma_insight_items_push(Seq::empty(), is[0]);
        assert(insight_items(is) =~= insight_item(is[0]) + insight_items(is.drop_first()));
    } else {
        lemma_insight_items_skip(is.drop_last());
        assert(is.drop_last().drop_first() =~= is.drop_first().drop_last());
        assert(is.drop_first().last() == is.last());
        assert(is.drop_last()[0] == is[0]);
        assert(insight_items(is) =~= insight_item(is[0]) + insight_items(is.drop_first()));
    }
}

/// Every insight of the report is listed in the HTML report, as its own
/// list item, inside the insights list.
pub proof fn lemma_report_lists_every_insight(
    report: ProfileReport,
    images: Seq<String>,
    assets_dir: Seq<char>,
    k: int,
)
    requires
        0 <= k < report.column_insights.len(),
    ensures
        holds_part(insights_html(report.column_insights@), insight_item(report.column_insights@[k])),
        holds_part(html_report(report, images, assets_dir), insight_item(report.column_insights@[k])),
{
    let is = report.column_insights@;
    let item = insight_item(is[k]);
    lemma_insight_items_split(is, k);
    lemma_insight_items_skip(is.skip(k));
    assert(is.skip(k)[0] == is[k]);
    lemma_holds_part_self(item);
    lemma_holds_part_within(insight_items(is.take(k)), item, insight_items(is.skip(k).drop_first()), item);
    assert(insight_items(is) =~= insight_items(is.take(k)) + item + insight_items(is.skip(k).drop_first()));
    lemma_holds_part_within("<h2>Insights</h2><ul>"@, insight_items(is), "</ul>"@, item);
    let before = HTML_HEAD@ + summary_html(report) + HTML_TABLE_HEAD@ + profile_rows(report.profiles@)
        + "</tbody></table>"@;
    let inner = insights_html(is);
    let charts = charts_html(images, assets_dir);
    lemma_holds_part_extend(before, inner, charts, item);
    lemma_holds_part_extend(before, before + inner, charts, item);
    lemma_holds_part_extend(before, before + inner + charts, "</body></html>"@, item);
}
} // verus!
