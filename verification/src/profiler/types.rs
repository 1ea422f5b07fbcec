use vstd::prelude::*;

use crate::num::Stat;

verus! {

/// What a profile run computes besides the per-column statistics.
#[derive(Debug, Clone, Copy)]
pub struct ProfileOptions {
    pub include_correlation: bool,
    pub sample_rows: Option<usize>,
    pub include_insights: bool,
}

/// Statistics of one column. The floating-point ones are `Stat`s.
#[derive(Debug, Clone)]
pub struct ColumnProfile {
    pub name: String,
    pub dtype: String,
    pub count: u64,
    pub null_count: u64,
    pub null_pct: Stat,
    pub mean: Option<Stat>,
    pub std: Option<Stat>,
    pub min: Option<Stat>,
    pub p25: Option<Stat>,
    pub p50: Option<Stat>,
    pub p75: Option<Stat>,
    pub max: Option<Stat>,
    pub unique_count: Option<u64>,
    pub parsable_numeric_count: Option<u64>,
    pub parsable_datetime_count: Option<u64>,
}

/// Pairwise correlations of the numeric columns: `values[i][j]` belongs to
/// `columns[i]` and `columns[j]`.
#[derive(Debug, Clone)]
pub struct CorrelationMatrix {
    pub columns: Vec<String>,
    pub values: Vec<Vec<Option<Stat>>>,
}

/// A heuristic label for one column.
#[derive(Debug, Clone)]
pub struct ColumnInsight {
    pub column: String,
    pub classification: String,
}

/// Everything a profile run reports.
#[derive(Debug, Clone)]
pub struct ProfileReport {
    pub rows: u64,
    pub columns: usize,
    pub sampled_rows: Option<usize>,
    pub profiles: Vec<ColumnProfile>,
    pub correlation: Option<CorrelationMatrix>,
    pub column_insights: Vec<ColumnInsight>,
}

} // verus!
