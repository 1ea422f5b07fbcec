use vstd::prelude::*;

use crate::error::StatlineError;
use crate::paths::{paths_equal, same_path};
use crate::profiler::types::ProfileOptions;
use crate::text::text_of;
use crate::visualization::types::VisualizationOptions;
use crate::visualization::{assets_dir_for, default_assets_dir};

verus! {

/// The command-line options. Paths are held as text.
#[derive(Debug, Clone)]
pub struct CliArgs {
    /// Input dataset path (.csv or .parquet)
    pub input: String,
    /// Compute numeric correlation matrix
    pub corr: bool,
    /// Emit JSON output
    pub json: bool,
    /// Limit profiling to first N rows
    pub sample: Option<usize>,
    /// Disable ANSI colors in table output
    pub no_color: bool,
    /// Print heuristic insights based on computed statistics
    pub no_insights: bool,
    /// Show full statistics (std, percentiles, unique, correlation, insights)
    pub full: bool,
    /// Generate chart PNG assets
    pub charts: bool,
    /// Enable inline terminal charts (text-based)
    pub terminal_charts: bool,
    /// Disable inline terminal charts
    pub no_terminal_charts: bool,
    /// Output directory for generated chart assets
    pub chart_dir: String,
    /// Generate standalone HTML report file
    pub html: Option<String>,
}

/// The chart directory used when none is given.
pub const DEFAULT_CHART_DIR: &'static str = "report/assets";

/// What a run does, decided from its options.
#[derive(Debug, Clone)]
pub struct RunPlan {
    pub profile_options: ProfileOptions,
    /// Whether the inline terminal charts are on.
    pub terminal_charts: bool,
    /// Whether the data itself is loaded for charts.
    pub needs_chart_data: bool,
    /// Whether image charts or the HTML report are produced.
    pub visualize: bool,
    pub visualization: VisualizationOptions,
}

/// The reason the options are refused, if they are.
pub open spec fn refusal(args: CliArgs) -> Option<Seq<char>> {
    if args.sample == Some(0usize) {
        Some("--sample must be greater than 0"@)
    } else if args.json && args.no_color {
        Some("--no-color cannot be used with --json"@)
    } else {
        None
    }
}

/// The chart directory, given the one asked for, whether that is the
/// default one, and the assets directory beside the HTML report when there
/// is a report: the assets directory if the default was left, else the one
/// asked for.
pub open spec fn chart_dir_choice(chart_dir: Seq<char>, is_default: bool, html_assets: Option<Seq<char>>) -> Seq<char> {
    match html_assets {
        Some(a) => if is_default {
            a
        } else {
            chart_dir
        },
        None => chart_dir,
    }
}

/// The chart directory: beside the HTML report when there is one and the
/// directory was left at its default, else the one given.
pub open spec fn chart_dir_for(args: CliArgs) -> Seq<char> {
    chart_dir_choice(
        args.chart_dir@,
        same_path(args.chart_dir@, DEFAULT_CHART_DIR@),
        match args.html {
            Some(h) => Some(assets_dir_for(h@)),
            None => None,
        },
    )
}

/// Picks the chart directory (see `chart_dir_choice`).
pub fn choose_chart_dir(chart_dir: &str, is_default: bool, html_assets: Option<&str>) -> (res: String)
    ensures
        res@ == chart_dir_choice(
            chart_dir@,
            is_default,
            match html_assets {
                Some(a) => Some(a@),
                None => None,
            },
        ),
{
    match html_assets {
        Some(a) => if is_default {
            text_of(a)
        } else {
            text_of(chart_dir)
        },
        None => text_of(chart_dir),
    }
}

/// The terminal charts are on unless switched off.
pub open spec fn terminal_charts_on(args: CliArgs) -> bool {
    args.terminal_charts && !args.no_terminal_charts
}

/// Checks the options and decides what the run does.
pub fn plan_run(args: &CliArgs) -> (res: Result<RunPlan, StatlineError>)
    ensures
        refusal(*args) is Some <==> res is Err,
        res matches Err(e) ==> (e matches StatlineError::Message(m) && m@ == refusal(*args)->0),
        res matches Ok(plan) ==> {
            &&& plan.profile_options.include_correlation == args.corr
            &&& plan.profile_options.sample_rows == args.sample
            &&& plan.profile_options.include_insights == !args.no_insights
            &&& plan.terminal_charts == terminal_charts_on(*args)
            &&& plan.visualize == (args.charts || args.html is Some)
            &&& plan.needs_chart_data == ((args.charts || args.html is Some) || (!args.json
                && args.full && terminal_charts_on(*args)))
            &&& plan.visualization.generate_charts == args.charts
            &&& plan.visualization.chart_dir@ == chart_dir_for(*args)
            &&& (match (plan.visualization.html_output, args.html) {
                (Some(a), Some(b)) => a@ == b@,
                (None, None) => true,
                _ => false,
            })
        },
{
    if let Some(n) = args.sample {
        if n == 0 {
            return Err(StatlineError::Message(text_of("--sample must be greater than 0")));
        }
    }
    if args.json && args.no_color {
        return Err(StatlineError::Message(text_of("--no-color cannot be used with --json")));
    }
    let is_default = paths_equal(args.chart_dir.as_str(), DEFAULT_CHART_DIR);
    let chart_dir = match &args.html {
        Some(h) => {
            let assets = default_assets_dir(h.as_str());
            choose_chart_dir(args.chart_dir.as_str(), is_default, Some(assets.as_str()))
        },
        None => choose_chart_dir(args.chart_dir.as_str(), is_default, None),
    };
    let html_output = match &args.html {
        Some(h) => Some(text_of(h.as_str())),
        None => None,
    };
    let terminal_charts = args.terminal_charts && !args.no_terminal_charts;
    let visualize = args.charts || args.html.is_some();
    Ok(RunPlan {
        profile_options: ProfileOptions {
            include_correlation: args.corr,
            sample_rows: args.sample,
            include_insights: !args.no_insights,
        },
        terminal_charts,
        needs_chart_data: visualize || (!args.json && args.full && terminal_charts),
        visualize,
        visualization: VisualizationOptions {
            generate_charts: args.charts,
            chart_dir,
            html_output,
        },
    })
}


/// The options are refused exactly when the sample size is zero or `--json`
/// comes with `--no-color`; a zero sample is reported first. In particular a
/// run without `--json` and without a zero sample is never refused.
pub proof fn lemma_refusal_cases(args: CliArgs)
    ensures
        refusal(args) is Some <==> (args.sample == Some(0usize) || (args.json && args.no_color)),
        args.sample == Some(0usize) ==> refusal(args) == Some("--sample must be greater than 0"@),
        args.sample != Some(0usize) && args.json && args.no_color ==> refusal(args) == Some(
            "--no-color cannot be used with --json"@,
        ),
        !args.json && args.sample != Some(0usize) ==> refusal(args) is None,
{
}
} // verus!
