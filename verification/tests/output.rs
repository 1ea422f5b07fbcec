use statline::num::Stat;
use statline::output::{
    correlation_header, correlation_rows, dataset_header, fmt_opt_f64, fmt_opt_u64,
    full_table_rows, insight_lines, minimal_table_rows, NAME_MAX_WIDTH,
};
use statline::profiler::types::{ColumnInsight, ColumnProfile, CorrelationMatrix, ProfileReport};

fn stat(x: f64) -> Stat {
    Stat { bits: x.to_bits(), fixed2: format!("{:.2}", x) }
}

fn report() -> ProfileReport {
    ProfileReport {
        rows: 1200,
        columns: 2,
        sampled_rows: None,
        profiles: vec![
            ColumnProfile {
                name: "a_rather_long_column_name".to_string(),
                dtype: "i64".to_string(),
                count: 1200,
                null_count: 12,
                null_pct: stat(1.0),
                mean: Some(stat(10.126)),
                std: Some(stat(f64::INFINITY)),
                min: Some(stat(-3.0)),
                p25: Some(stat(2.0)),
                p50: None,
                p75: Some(stat(12.0)),
                max: Some(stat(99.999)),
                unique_count: Some(800),
                parsable_numeric_count: None,
                parsable_datetime_count: None,
            },
            ColumnProfile {
                name: "city".to_string(),
                dtype: "datetime[μs, Europe/Amsterdam]".to_string(),
                count: 1200,
                null_count: 0,
                null_pct: stat(0.0),
                mean: None,
                std: None,
                min: None,
                p25: None,
                p50: None,
                p75: None,
                max: None,
                unique_count: None,
                parsable_numeric_count: None,
                parsable_datetime_count: None,
            },
        ],
        correlation: None,
        column_insights: vec![
            ColumnInsight { column: "a_rather_long_column_name".to_string(), classification: "Numeric".to_string() },
            ColumnInsight { column: "city".to_string(), classification: "Unknown".to_string() },
        ],
    }
}

#[test]
fn fmt_opt_f64_cells() {
    assert_eq!(fmt_opt_f64(&Some(stat(1.234))), "1.23");
    assert_eq!(fmt_opt_f64(&Some(stat(-0.5))), "-0.50");
    assert_eq!(fmt_opt_f64(&Some(stat(f64::NAN))), "nan");
    assert_eq!(fmt_opt_f64(&Some(stat(f64::NEG_INFINITY))), "nan");
    assert_eq!(fmt_opt_f64(&None), "-");
}

#[test]
fn fmt_opt_u64_cells() {
    assert_eq!(fmt_opt_u64(Some(42)), "42");
    assert_eq!(fmt_opt_u64(Some(0)), "0");
    assert_eq!(fmt_opt_u64(None), "-");
}

#[test]
fn dataset_header_lines() {
    let mut r = report();
    assert_eq!(dataset_header(&r), vec!["Rows: 1200", "Columns: 2"]);
    r.sampled_rows = Some(50);
    assert_eq!(dataset_header(&r), vec!["Rows: 1200", "Columns: 2", "Sampled rows: 50"]);
}

#[test]
fn minimal_table_rows_cells() {
    let rows = minimal_table_rows(&report());
    assert_eq!(NAME_MAX_WIDTH, 20);
    assert_eq!(rows.len(), 2);
    assert_eq!(
        rows[0],
        vec!["a_rather_long_col...", "i64", "1.00", "1200", "10.13", "-3.00", "100.00"]
    );
    assert_eq!(rows[1], vec!["city", "datetime[...", "0.00", "1200", "-", "-", "-"]);
}

#[test]
fn full_table_rows_cells() {
    let rows = full_table_rows(&report());
    assert_eq!(rows.len(), 2);
    assert_eq!(
        rows[0],
        vec![
            "a_rather_long_col...", "i64", "1200", "12", "1.00", "10.13", "nan", "-3.00", "2.00",
            "-", "12.00", "100.00", "800",
        ]
    );
    assert_eq!(
        rows[1],
        vec!["city", "datetime[μs, Eu...", "1200", "0", "0.00", "-", "-", "-", "-", "-", "-", "-", "-"]
    );
}

#[test]
fn correlation_table_cells() {
    let corr = CorrelationMatrix {
        columns: vec!["height_in_cm".to_string(), "weight_in_kilograms".to_string()],
        values: vec![vec![Some(stat(1.0)), Some(stat(0.8))], vec![Some(stat(0.8)), None]],
    };
    assert_eq!(correlation_header(&corr), vec!["Column", "height_in_cm", "weight_in..."]);
    let rows = correlation_rows(&corr);
    assert_eq!(rows, vec![vec!["height_in_cm", "1.00", "0.80"], vec!["weight_in...", "0.80", "-"]]);
}

#[test]
fn insight_lines_use_bullets() {
    assert_eq!(
        insight_lines(&report()),
        vec!["  \u{2022} a_rather_long_column_name: Numeric", "  \u{2022} city: Unknown"]
    );
}

#[test]
fn correlation_rows_read_only_the_named_columns() {
    let corr = CorrelationMatrix {
        columns: vec!["x".to_string()],
        values: vec![vec![Some(stat(1.0)), Some(stat(0.3))], vec![None, None]],
    };
    assert_eq!(correlation_rows(&corr), vec![vec!["x", "1.00"]]);
}
