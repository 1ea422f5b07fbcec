use statline::num::Stat;
use statline::profiler::types::ColumnProfile;
use statline::visualization::terminal::bars::{bar_fill_char, column_widths, BarCharset};
use statline::visualization::terminal::sparkline::sparkline;
use statline::visualization::terminal::utils::{
    numeric_column_names, parse_usize, terminal_width_from, truncate, unicode_supported,
};
use statline::visualization::terminal::{
    assemble_terminal_charts, category_section, correlation_strength_section, histogram_section,
    missing_values_section, pair_label, CATEGORY_COLUMNS, CORRELATION_PAIRS, HISTOGRAM_COLUMNS, MISSING_ROWS,
    TOP_CATEGORIES,
};

fn stat(x: f64) -> Stat {
    Stat { bits: x.to_bits(), fixed2: format!("{:.2}", x) }
}

fn profile(name: &str, mean: Option<f64>, min: Option<f64>, max: Option<f64>) -> ColumnProfile {
    ColumnProfile {
        name: name.to_string(),
        dtype: "f64".to_string(),
        count: 1,
        null_count: 0,
        null_pct: stat(0.0),
        mean: mean.map(stat),
        std: None,
        min: min.map(stat),
        p25: None,
        p50: None,
        p75: None,
        max: max.map(stat),
        unique_count: None,
        parsable_numeric_count: None,
        parsable_datetime_count: None,
    }
}

#[test]
fn truncate_keeps_short_values() {
    assert_eq!(truncate("hello", 10), "hello");
    assert_eq!(truncate("hello", 5), "hello");
    assert_eq!(truncate("", 0), "");
}

#[test]
fn truncate_cuts_long_values() {
    assert_eq!(truncate("hello world", 8), "hello...");
    assert_eq!(truncate("héllo wörld", 6), "hél...");
    assert_eq!(truncate("abcdef", 3), "...");
    assert_eq!(truncate("abcdef", 2), "...");
    assert_eq!(truncate("abcdef", 0), "...");
}

#[test]
fn truncate_twice_is_once() {
    for (s, w) in [("hello world", 8), ("abcdef", 2), ("abc", 3), ("a long column name here", 20)] {
        let once = truncate(s, w);
        assert_eq!(truncate(&once, w), once);
        assert!(once.chars().count() <= w.max(3));
    }
}

#[test]
fn sparkline_scales_to_the_largest_value() {
    assert_eq!(sparkline(&vec![0, 1, 2, 3, 4, 5, 6, 7], true), "▁▂▃▄▅▆▇█");
    assert_eq!(sparkline(&vec![1, 2], true), "▅█");
    assert_eq!(sparkline(&vec![0, 0], true), "▁▁");
    assert_eq!(sparkline(&vec![5], true), "█");
    assert_eq!(sparkline(&Vec::new(), true), "");
}

#[test]
fn sparkline_ascii_marks_non_zero() {
    assert_eq!(sparkline(&vec![0, 3, 0, 9], false), ".*.*");
    assert_eq!(sparkline(&Vec::new(), false), "");
}

#[test]
fn sparkline_matches_rounded_ratio() {
    let glyphs = ['▁', '▂', '▃', '▄', '▅', '▆', '▇', '█'];
    let counts: Vec<u64> = vec![3, 14, 1, 0, 9, 27, 13, 28];
    let max = 28f64;
    let expected: String = counts
        .iter()
        .map(|v| glyphs[(((*v as f64 / max) * 7.0).round() as usize).min(7)])
        .collect();
    assert_eq!(sparkline(&counts, true), expected);
}

#[test]
fn numeric_column_names_picks_columns_with_stats() {
    let ps = vec![
        profile("a", Some(1.0), None, None),
        profile("s", None, None, None),
        profile("b", None, Some(0.0), None),
        profile("c", None, None, Some(2.0)),
    ];
    assert_eq!(numeric_column_names(&ps), vec!["a", "b", "c"]);
    assert!(numeric_column_names(&Vec::new()).is_empty());
}

#[test]
fn parse_usize_agrees_with_std() {
    for s in [
        "", "+", "0", "7", "+5", "-5", "12a", "00123", " 5", "5 ", "++5", "٣",
        "18446744073709551615", "18446744073709551616", "99999999999999999999", "4294967296",
    ] {
        assert_eq!(parse_usize(s), s.parse::<usize>().ok(), "{s:?}");
    }
}

#[test]
fn terminal_width_defaults_to_100() {
    assert_eq!(terminal_width_from(None), 100);
    assert_eq!(terminal_width_from(Some("120")), 120);
    assert_eq!(terminal_width_from(Some("60")), 60);
    assert_eq!(terminal_width_from(Some("59")), 100);
    assert_eq!(terminal_width_from(Some("wide")), 100);
    assert_eq!(terminal_width_from(Some("")), 100);
}

#[test]
fn unicode_needs_a_utf8_locale() {
    assert!(unicode_supported(false, "xterm-256color", "en_US.UTF-8"));
    assert!(unicode_supported(false, "", "C.utf-8"));
    assert!(!unicode_supported(true, "xterm", "en_US.UTF-8"));
    assert!(!unicode_supported(false, "dumb", "en_US.UTF-8"));
    assert!(!unicode_supported(false, "xterm", "en_US.utf8"));
    assert!(!unicode_supported(false, "xterm", ""));
}

#[test]
fn assemble_terminal_charts_skips_empty_sections() {
    let s = vec!["".to_string(), "hist".to_string(), "".to_string(), "bars".to_string()];
    assert_eq!(assemble_terminal_charts(&s).unwrap(), "\nTerminal Charts:\nhist\n\nbars");
    assert_eq!(assemble_terminal_charts(&vec!["x".to_string()]).unwrap(), "\nTerminal Charts:\nx");
    assert!(assemble_terminal_charts(&vec!["".to_string(), "".to_string()]).is_none());
    assert!(assemble_terminal_charts(&Vec::new()).is_none());
}

#[test]
fn column_widths_split_the_terminal() {
    // Missing-value bars: label min(16, w/4) at least 8, bar w-(label+10) in 10..=40.
    assert_eq!(column_widths(100, 16, 4, 8, 10, 10, 40), (16, 40));
    assert_eq!(column_widths(60, 16, 4, 8, 10, 10, 40), (15, 35));
    assert_eq!(column_widths(20, 16, 4, 8, 10, 10, 40), (8, 10));
    // Correlation bars: label min(30, w/2) at least 14, bar in 8..=30.
    assert_eq!(column_widths(100, 30, 2, 14, 10, 8, 30), (30, 30));
    assert_eq!(column_widths(60, 30, 2, 14, 10, 8, 30), (30, 20));
}

#[test]
fn bar_characters() {
    assert_eq!(bar_fill_char(BarCharset::Unicode), '█');
    assert_eq!(bar_fill_char(BarCharset::Ascii), '#');
}

#[test]
fn chart_limits() {
    assert_eq!(CATEGORY_COLUMNS, 6);
    assert_eq!(TOP_CATEGORIES, 6);
    assert_eq!(HISTOGRAM_COLUMNS, 4);
    assert_eq!(MISSING_ROWS, 12);
    assert_eq!(CORRELATION_PAIRS, 10);
}

#[test]
fn chart_sections() {
    use_sections();
}

fn use_sections() {
    let rows = vec!["\nr1".to_string(), "\nr2".to_string()];
    assert_eq!(missing_values_section(&rows), "Missing Values\nr1\nr2");
    assert_eq!(missing_values_section(&Vec::new()), "");
    assert_eq!(correlation_strength_section(&rows), "Correlation Strength\nr1\nr2");
    assert_eq!(correlation_strength_section(&Vec::new()), "");
    assert_eq!(pair_label("a", "b"), "a <-> b");
    assert_eq!(category_section("city", &rows), "city\nr1\nr2");
    let long = "x".repeat(40);
    assert_eq!(category_section(&long, &Vec::new()), format!("{}...", "x".repeat(33)));
    assert_eq!(
        histogram_section("age", "▁█", &rows),
        format!("Numeric Distribution: {}\ntrend: {}{}", "age", "▁█", "\nr1\nr2")
    );
}
