use statline::cli::{plan_run, CliArgs, DEFAULT_CHART_DIR};
use statline::error::StatlineError;
use statline::io::{detect_format, validate_input_path, InputFormat};
use statline::visualization::default_assets_dir;

fn args(input: &str) -> CliArgs {
    CliArgs {
        input: input.to_string(),
        corr: false,
        json: false,
        sample: None,
        no_color: false,
        no_insights: false,
        full: false,
        charts: false,
        terminal_charts: true,
        no_terminal_charts: false,
        chart_dir: DEFAULT_CHART_DIR.to_string(),
        html: None,
    }
}

#[test]
fn detect_format_reads_the_extension_in_any_case() {
    assert_eq!(detect_format("data.csv").unwrap(), InputFormat::Csv);
    assert_eq!(detect_format("dir/DATA.CSV").unwrap(), InputFormat::Csv);
    assert_eq!(detect_format("t.parquet").unwrap(), InputFormat::Parquet);
    assert_eq!(detect_format("t.PQ").unwrap(), InputFormat::Parquet);
    assert_eq!(detect_format("archive.tar.csv").unwrap(), InputFormat::Csv);
}

#[test]
fn detect_format_refuses_other_files() {
    for p in ["notes.txt", "noext", "data.csv.gz", ".csv"] {
        match detect_format(p) {
            Err(StatlineError::UnsupportedFormat(q)) => assert_eq!(q, p),
            other => panic!("{p}: {other:?}"),
        }
    }
    // A trailing separator does not hide the extension.
    assert_eq!(detect_format("dir.csv/").unwrap(), InputFormat::Csv);
}

#[test]
fn validate_input_path_reports_missing_and_non_files() {
    assert!(validate_input_path("a.csv", true, true).is_ok());
    assert!(matches!(
        validate_input_path("a.csv", false, false),
        Err(StatlineError::InputNotFound(p)) if p == "a.csv"
    ));
    assert!(matches!(
        validate_input_path("dir", true, false),
        Err(StatlineError::InputNotAFile(p)) if p == "dir"
    ));
}

#[test]
fn default_assets_dir_sits_beside_the_report() {
    assert_eq!(default_assets_dir("report/index.html"), "report/assets");
    assert_eq!(default_assets_dir("out/deep/r.html"), "out/deep/assets");
    assert_eq!(default_assets_dir("index.html"), "assets");
}

#[test]
fn plan_run_refuses_zero_sample() {
    let mut a = args("x.csv");
    a.sample = Some(0);
    match plan_run(&a) {
        Err(StatlineError::Message(m)) => assert_eq!(m, "--sample must be greater than 0"),
        other => panic!("{other:?}"),
    }
}

#[test]
fn plan_run_refuses_no_color_with_json() {
    let mut a = args("x.csv");
    a.json = true;
    a.no_color = true;
    match plan_run(&a) {
        Err(StatlineError::Message(m)) => assert_eq!(m, "--no-color cannot be used with --json"),
        other => panic!("{other:?}"),
    }
}

#[test]
fn plan_run_defaults() {
    let plan = plan_run(&args("x.csv")).unwrap();
    assert!(!plan.profile_options.include_correlation);
    assert!(plan.profile_options.include_insights);
    assert_eq!(plan.profile_options.sample_rows, None);
    assert!(plan.terminal_charts);
    assert!(!plan.visualize);
    assert!(!plan.needs_chart_data);
    assert!(!plan.visualization.generate_charts);
    assert_eq!(plan.visualization.chart_dir, "report/assets");
    assert!(plan.visualization.html_output.is_none());
}

#[test]
fn plan_run_full_mode_loads_chart_data_for_terminal_charts() {
    let mut a = args("x.csv");
    a.full = true;
    a.corr = true;
    a.sample = Some(5);
    a.no_insights = true;
    let plan = plan_run(&a).unwrap();
    assert!(plan.needs_chart_data);
    assert!(!plan.visualize);
    assert!(plan.profile_options.include_correlation);
    assert!(!plan.profile_options.include_insights);
    assert_eq!(plan.profile_options.sample_rows, Some(5));

    a.no_terminal_charts = true;
    let plan = plan_run(&a).unwrap();
    assert!(!plan.terminal_charts);
    assert!(!plan.needs_chart_data);

    a.no_terminal_charts = false;
    a.json = true;
    let plan = plan_run(&a).unwrap();
    assert!(!plan.needs_chart_data);
}

#[test]
fn plan_run_moves_default_chart_dir_beside_html() {
    let mut a = args("x.csv");
    a.html = Some("out/report.html".to_string());
    let plan = plan_run(&a).unwrap();
    assert!(plan.visualize);
    assert!(plan.needs_chart_data);
    assert_eq!(plan.visualization.chart_dir, "out/assets");
    assert_eq!(plan.visualization.html_output.as_deref(), Some("out/report.html"));

    // The same directory written differently is still the default.
    a.chart_dir = "report/assets/".to_string();
    assert_eq!(plan_run(&a).unwrap().visualization.chart_dir, "out/assets");

    a.chart_dir = "charts".to_string();
    assert_eq!(plan_run(&a).unwrap().visualization.chart_dir, "charts");
}

#[test]
fn plan_run_charts_without_html() {
    let mut a = args("x.csv");
    a.charts = true;
    a.chart_dir = "pics".to_string();
    let plan = plan_run(&a).unwrap();
    assert!(plan.visualize);
    assert!(plan.visualization.generate_charts);
    assert!(plan.visualization.wants_charts());
    assert_eq!(plan.visualization.chart_dir, "pics");
}

#[test]
fn format_of_extension_reads_the_extension_given() {
    use_format("a.csv", Some("csv"), Some(InputFormat::Csv));
    use_format("a.CsV", Some("CsV"), Some(InputFormat::Csv));
    use_format("a.pq", Some("pq"), Some(InputFormat::Parquet));
    use_format("a.Parquet", Some("Parquet"), Some(InputFormat::Parquet));
    use_format("a.json", Some("json"), None);
    use_format("a", None, None);
}

fn use_format(path: &str, ext: Option<&str>, expected: Option<InputFormat>) {
    match (statline::io::format_of_extension(path, ext), expected) {
        (Ok(f), Some(e)) => assert_eq!(f, e),
        (Err(StatlineError::UnsupportedFormat(p)), None) => assert_eq!(p, path),
        (other, e) => panic!("{path}: {other:?} vs {e:?}"),
    }
}

#[test]
fn choose_chart_dir_prefers_the_report_assets_for_the_default() {
    assert_eq!(statline::cli::choose_chart_dir("report/assets", true, Some("out/assets")), "out/assets");
    assert_eq!(statline::cli::choose_chart_dir("pics", false, Some("out/assets")), "pics");
    assert_eq!(statline::cli::choose_chart_dir("report/assets", true, None), "report/assets");
}
