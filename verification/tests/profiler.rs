use statline::error::StatlineError;
use statline::num::Stat;
use statline::profiler::corr::{correlation_columns, correlation_matrix, numeric_columns};
use statline::profiler::insights::generate_column_insights;
use statline::profiler::profile::{column_profile, wants_unique_count, NumericStats, SchemaField};
use statline::profiler::types::{ColumnProfile, CorrelationMatrix, ProfileOptions};
use statline::profiler::utils::{is_numeric, is_semantic_id, ColumnDType, UNIQUE_COUNT_THRESHOLD};
use statline::profiler::{finish_report, start_report};

fn stat(x: f64) -> Stat {
    Stat { bits: x.to_bits(), fixed2: format!("{:.2}", x) }
}

fn profile(name: &str, dtype: &str, count: u64, unique: Option<u64>) -> ColumnProfile {
    ColumnProfile {
        name: name.to_string(),
        dtype: dtype.to_string(),
        count,
        null_count: 0,
        null_pct: stat(0.0),
        mean: None,
        std: None,
        min: None,
        p25: None,
        p50: None,
        p75: None,
        max: None,
        unique_count: unique,
        parsable_numeric_count: None,
        parsable_datetime_count: None,
    }
}

fn field(name: &str, dtype: ColumnDType, text: &str) -> SchemaField {
    SchemaField { name: name.to_string(), dtype, dtype_text: text.to_string() }
}

fn options(corr: bool, insights: bool, sample: Option<usize>) -> ProfileOptions {
    ProfileOptions { include_correlation: corr, sample_rows: sample, include_insights: insights }
}

fn all_stats(x: f64) -> NumericStats {
    NumericStats {
        mean: Some(stat(x)),
        std: Some(stat(x + 1.0)),
        min: Some(stat(x - 1.0)),
        p25: Some(stat(x)),
        p50: Some(stat(x)),
        p75: Some(stat(x)),
        max: Some(stat(x + 2.0)),
    }
}

#[test]
fn start_report_refuses_empty_data() {
    assert!(matches!(start_report(0, 3, options(true, true, None)), Err(StatlineError::EmptyDataset)));
    let d = start_report(10, 3, options(true, false, Some(10))).unwrap();
    assert_eq!(d.rows, 10);
    assert_eq!(d.columns, 3);
    assert!(d.wants_correlation());
}

#[test]
fn finish_report_keeps_what_was_asked_for() {
    let d = start_report(4, 2, options(false, true, Some(4))).unwrap();
    let corr = CorrelationMatrix { columns: vec!["a".into(), "b".into()], values: vec![] };
    let r = finish_report(d, vec![profile("id", "i64", 4, Some(4)), profile("c", "str", 4, Some(2))], Some(corr));
    assert!(r.correlation.is_none());
    assert_eq!(r.rows, 4);
    assert_eq!(r.columns, 2);
    assert_eq!(r.sampled_rows, Some(4));
    assert_eq!(r.column_insights.len(), 2);
    assert_eq!(r.column_insights[0].column, "id");
    assert_eq!(r.column_insights[0].classification, "Identifier");
    assert_eq!(r.column_insights[1].classification, "Boolean/Categorical");

    let d = start_report(4, 2, options(true, false, None)).unwrap();
    let corr = CorrelationMatrix { columns: vec!["a".into(), "b".into()], values: vec![] };
    let r = finish_report(d, vec![profile("id", "i64", 4, Some(4))], Some(corr));
    assert!(r.column_insights.is_empty());
    assert_eq!(r.correlation.unwrap().columns, vec!["a".to_string(), "b".to_string()]);
}

#[test]
fn insights_follow_type_and_cardinality() {
    let ps = vec![
        profile("id", "i64", 10, Some(10)),
        profile("age", "i32", 10, Some(7)),
        profile("score", "f64", 10, None),
        profile("ratio", "f32", 0, None),
        profile("flag", "str", 10, Some(2)),
        profile("city", "str", 10, Some(19)),
        profile("note", "str", 100, Some(20)),
        profile("empty", "str", 10, None),
        profile("small", "u8", 10, Some(10)),
        profile("when", "date", 10, Some(3)),
    ];
    let got: Vec<(String, String)> =
        generate_column_insights(&ps).into_iter().map(|i| (i.column, i.classification)).collect();
    let expected = [
        ("id", "Identifier"),
        ("age", "Numeric"),
        ("score", "Numeric"),
        ("ratio", "Identifier"),
        ("flag", "Boolean/Categorical"),
        ("city", "Categorical"),
        ("note", "Text"),
        ("empty", "Categorical"),
        ("small", "Unknown"),
        ("when", "Unknown"),
    ];
    assert_eq!(got.len(), expected.len());
    for (g, e) in got.iter().zip(expected.iter()) {
        assert_eq!((g.0.as_str(), g.1.as_str()), *e);
    }
}

#[test]
fn numeric_types_are_the_integers_and_floats() {
    for t in [
        ColumnDType::Int8,
        ColumnDType::Int16,
        ColumnDType::Int32,
        ColumnDType::Int64,
        ColumnDType::UInt8,
        ColumnDType::UInt16,
        ColumnDType::UInt32,
        ColumnDType::UInt64,
        ColumnDType::Float32,
        ColumnDType::Float64,
    ] {
        assert!(is_numeric(&t));
    }
    assert!(!is_numeric(&ColumnDType::Other));
}

#[test]
fn semantic_ids_ignore_case() {
    assert!(is_semantic_id("id"));
    assert!(is_semantic_id("ID"));
    assert!(is_semantic_id("User_Id"));
    assert!(is_semantic_id("row_uuid_v4"));
    assert!(is_semantic_id("UUID"));
    assert!(!is_semantic_id("idea"));
    assert!(!is_semantic_id("paid"));
    assert!(!is_semantic_id(""));
}

#[test]
fn unique_count_threshold() {
    assert!(wants_unique_count(0));
    assert!(wants_unique_count(UNIQUE_COUNT_THRESHOLD));
    assert!(!wants_unique_count(UNIQUE_COUNT_THRESHOLD + 1));
}

#[test]
fn column_profile_keeps_numeric_stats_only_for_numeric_columns() {
    let p = column_profile(field("x", ColumnDType::Float64, "f64"), 10, 2, stat(20.0), all_stats(3.0), Some(8));
    assert_eq!(p.name, "x");
    assert_eq!(p.dtype, "f64");
    assert_eq!(p.count, 10);
    assert_eq!(p.null_count, 2);
    assert_eq!(p.null_pct.fixed2, "20.00");
    assert_eq!(p.mean.as_ref().unwrap().fixed2, "3.00");
    assert_eq!(p.std.as_ref().unwrap().fixed2, "4.00");
    assert_eq!(p.min.as_ref().unwrap().fixed2, "2.00");
    assert_eq!(p.max.as_ref().unwrap().fixed2, "5.00");
    assert_eq!(p.unique_count, Some(8));
    assert!(p.parsable_numeric_count.is_none());
    assert!(p.parsable_datetime_count.is_none());

    let q = column_profile(field("s", ColumnDType::Other, "str"), 10, 0, stat(0.0), all_stats(3.0), Some(3));
    assert!(q.mean.is_none() && q.std.is_none() && q.min.is_none() && q.max.is_none());
    assert!(q.p25.is_none() && q.p50.is_none() && q.p75.is_none());
    assert_eq!(q.unique_count, Some(3));

    let big = column_profile(
        field("b", ColumnDType::Int64, "i64"),
        UNIQUE_COUNT_THRESHOLD + 1,
        0,
        stat(0.0),
        all_stats(1.0),
        Some(7),
    );
    assert!(big.unique_count.is_none());
    assert!(big.mean.is_some());
}

#[test]
fn numeric_columns_in_schema_order() {
    let fields = vec![
        field("a", ColumnDType::Int64, "i64"),
        field("s", ColumnDType::Other, "str"),
        field("b", ColumnDType::Float32, "f32"),
        field("c", ColumnDType::UInt8, "u8"),
    ];
    assert_eq!(numeric_columns(&fields), vec!["a", "b", "c"]);
    assert_eq!(correlation_columns(&fields).unwrap(), vec!["a", "b", "c"]);

    let one = vec![field("a", ColumnDType::Int64, "i64"), field("s", ColumnDType::Other, "str")];
    assert!(correlation_columns(&one).is_none());
    assert!(correlation_columns(&Vec::new()).is_none());
}

#[test]
fn correlation_matrix_mirrors_the_upper_triangle() {
    let cols = vec!["a".to_string(), "b".to_string(), "c".to_string()];
    let upper = vec![
        vec![Some(stat(1.0)), Some(stat(0.5)), Some(stat(-0.25))],
        vec![Some(stat(1.0)), None],
        vec![Some(stat(1.0))],
    ];
    let m = correlation_matrix(cols.clone(), &upper);
    assert_eq!(m.columns, cols);
    assert_eq!(m.values.len(), 3);
    for i in 0..3 {
        assert_eq!(m.values[i].len(), 3);
        assert_eq!(m.values[i][i].as_ref().unwrap().fixed2, "1.00");
        for j in 0..3 {
            assert_eq!(m.values[i][j].as_ref().map(|s| s.bits), m.values[j][i].as_ref().map(|s| s.bits));
        }
    }
    assert_eq!(m.values[1][0].as_ref().unwrap().fixed2, "0.50");
    assert_eq!(m.values[2][0].as_ref().unwrap().fixed2, "-0.25");
    assert!(m.values[2][1].is_none());
}

#[test]
fn id_like_reads_lowercased_names() {
    use_id_like("id", true);
    use_id_like("customer_id", true);
    use_id_like("row_uuid", true);
    use_id_like("uuid", true);
    use_id_like("_id", true);
    use_id_like("ID", false);
    use_id_like("identity", false);
    use_id_like("idx", false);
}

fn use_id_like(name: &str, expected: bool) {
    assert_eq!(statline::profiler::utils::is_id_like(name), expected, "{name}");
}

#[test]
fn column_profile_drops_aggregates_that_are_not_finite() {
    let stats = NumericStats {
        mean: Some(stat(f64::NAN)),
        std: Some(stat(f64::INFINITY)),
        min: Some(stat(f64::NEG_INFINITY)),
        p25: Some(stat(1.0)),
        p50: None,
        p75: Some(stat(-0.0)),
        max: Some(stat(f64::MAX)),
    };
    let p = column_profile(field("x", ColumnDType::Float64, "f64"), 3, 0, stat(0.0), stats, Some(3));
    assert!(p.mean.is_none() && p.std.is_none() && p.min.is_none() && p.p50.is_none());
    assert_eq!(p.p25.as_ref().unwrap().fixed2, "1.00");
    assert_eq!(p.p75.as_ref().unwrap().bits, (-0.0f64).to_bits());
    assert_eq!(p.max.as_ref().unwrap().bits, f64::MAX.to_bits());
}

#[test]
fn correlation_matrix_drops_values_that_are_not_finite() {
    let cols = vec!["a".to_string(), "b".to_string()];
    let upper = vec![vec![Some(stat(f64::NAN)), Some(stat(f64::INFINITY))], vec![Some(stat(1.0))]];
    let m = correlation_matrix(cols, &upper);
    assert!(m.values[0][0].is_none());
    assert!(m.values[0][1].is_none());
    assert!(m.values[1][0].is_none());
    assert_eq!(m.values[1][1].as_ref().unwrap().fixed2, "1.00");
}
