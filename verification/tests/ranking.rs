use statline::num::Stat;
use statline::profiler::types::{ColumnProfile, CorrelationMatrix};
use statline::visualization::terminal::bars::{
    bar_text, chart_row, pad_left, pad_right, BarCharset, VALUE_WIDTH,
};
use statline::visualization::terminal::rank::{
    correlation_pairs, most_missing, rank_desc, strongest_pairs,
};

fn stat(x: f64) -> Stat {
    Stat { bits: x.to_bits(), fixed2: format!("{:.2}", x) }
}

fn profile(name: &str, null_pct: f64) -> ColumnProfile {
    ColumnProfile {
        name: name.to_string(),
        dtype: "str".to_string(),
        count: 10,
        null_count: 0,
        null_pct: stat(null_pct),
        mean: None,
        std: None,
        min: None,
        p25: None,
        p50: None,
        p75: None,
        max: None,
        unique_count: None,
        parsable_numeric_count: None,
        parsable_datetime_count: None,
    }
}

/// What a stable sort by key, largest first, truncated to `k`, gives.
fn stable_top(keys: &[u64], k: usize) -> Vec<usize> {
    let mut idx: Vec<usize> = (0..keys.len()).collect();
    idx.sort_by(|a, b| keys[*b].cmp(&keys[*a]));
    idx.truncate(k);
    idx
}

#[test]
fn rank_desc_is_a_stable_sort_then_truncate() {
    let keys = vec![3u64, 9, 3, 0, 9, 7, 3];
    for k in 0..9 {
        assert_eq!(rank_desc(&keys, k), stable_top(&keys, k), "k = {k}");
    }
    assert!(rank_desc(&Vec::new(), 4).is_empty());
}

#[test]
fn magnitude_orders_like_absolute_values() {
    let xs = [0.0, -0.0, 0.25, -0.25, 0.5, -0.75, 1.0, -1.0, 1e-300, 3.5e10, f64::MAX];
    for a in xs {
        for b in xs {
            let (ka, kb) = (stat(a).magnitude(), stat(b).magnitude());
            assert_eq!(ka.cmp(&kb), a.abs().partial_cmp(&b.abs()).unwrap(), "{a} {b}");
        }
    }
}

#[test]
fn most_missing_sorts_by_null_percentage() {
    let ps = vec![
        profile("a", 0.0),
        profile("b", 50.0),
        profile("c", 12.5),
        profile("d", 50.0),
        profile("e", 100.0),
    ];
    assert_eq!(most_missing(&ps, 12), vec![4, 1, 3, 2, 0]);
    assert_eq!(most_missing(&ps, 2), vec![4, 1]);
    assert!(most_missing(&ps, 0).is_empty());

    // The same order as sorting the percentages as floats.
    let mut rows: Vec<(usize, f64)> =
        ps.iter().enumerate().map(|(i, p)| (i, f64::from_bits(p.null_pct.bits))).collect();
    rows.sort_by(|a, b| b.1.partial_cmp(&a.1).unwrap_or(std::cmp::Ordering::Equal));
    let expected: Vec<usize> = rows.into_iter().map(|r| r.0).collect();
    assert_eq!(most_missing(&ps, 12), expected);
}

fn matrix() -> CorrelationMatrix {
    let v = |x: f64| Some(stat(x));
    CorrelationMatrix {
        columns: vec!["a".into(), "b".into(), "c".into(), "d".into()],
        values: vec![
            vec![v(1.0), v(0.5), v(-0.9), None],
            vec![v(0.5), v(1.0), v(f64::NAN), v(-0.5)],
            vec![v(-0.9), v(f64::NAN), v(1.0), v(0.1)],
            vec![None, v(-0.5), v(0.1), v(1.0)],
        ],
    }
}

#[test]
fn correlation_pairs_in_row_major_order() {
    assert_eq!(correlation_pairs(&matrix()), vec![(0, 1), (0, 2), (1, 3), (2, 3)]);
}

#[test]
fn strongest_pairs_by_magnitude() {
    let m = matrix();
    assert_eq!(strongest_pairs(&m, 10), vec![(0, 2), (0, 1), (1, 3), (2, 3)]);
    assert_eq!(strongest_pairs(&m, 2), vec![(0, 2), (0, 1)]);
    assert!(strongest_pairs(&m, 0).is_empty());
}

#[test]
fn bars_and_padding() {
    assert_eq!(bar_text(BarCharset::Unicode, 3), "███");
    assert_eq!(bar_text(BarCharset::Ascii, 2), "##");
    assert_eq!(bar_text(BarCharset::Ascii, 0), "");
    assert_eq!(pad_right("ab", 5), format!("{:<5}", "ab"));
    assert_eq!(pad_right("abcdef", 3), "abcdef");
    assert_eq!(pad_left("1.5", 5), format!("{:>5}", "1.5"));
    assert_eq!(pad_left("100.0", 5), "100.0");
    assert_eq!(pad_left("é", 3), format!("{:>3}", "é"));
    assert_eq!(VALUE_WIDTH, 5);
}

#[test]
fn chart_rows_match_the_formatted_lines() {
    let pct = 12.3456f64;
    let row = chart_row("a_very_long_column_name", 10, "###", Some(format!("{pct:.1}").as_str()), "%");
    assert_eq!(row, format!("\n{:<10} {} {:>5.1}%", "a_very_...", "###", pct));

    let r = -0.4567f64;
    let row = chart_row("x <-> y", 14, "██", Some(format!("{r:.2}").as_str()), "");
    assert_eq!(row, format!("\n{:<14} {} {:>5.2}", "x <-> y", "██", r));

    let row = chart_row("1.00-2.00", 10, "", None, "");
    assert_eq!(row, format!("\n{:<10} {}", "1.00-2.00", ""));
}

#[test]
fn strongest_pairs_read_only_the_named_columns() {
    let mut m = matrix();
    m.values[0].push(Some(stat(0.99)));
    m.values.push(vec![Some(stat(0.99)); 5]);
    assert_eq!(strongest_pairs(&m, 10), vec![(0, 2), (0, 1), (1, 3), (2, 3)]);
}
