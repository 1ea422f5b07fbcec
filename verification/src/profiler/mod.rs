use vstd::prelude::*;

pub mod corr;
pub mod insights;
pub mod profile;
pub mod types;
pub mod utils;

use crate::error::StatlineError;
use crate::profiler::insights::{generate_column_insights, insight_of};
use crate::profiler::types::{ColumnProfile, CorrelationMatrix, ProfileOptions, ProfileReport};

verus! {

/// What a profile run has settled once it knows how many rows there are.
#[derive(Debug, Clone, Copy)]
pub struct ReportDraft {
    pub rows: u64,
    pub columns: usize,
    pub options: ProfileOptions,
}

/// Starts a report over `row_count` rows and `columns` columns; data with no
/// rows is refused.
pub fn start_report(row_count: u64, columns: usize, options: ProfileOptions) -> (res: Result<
    ReportDraft,
    StatlineError,
>)
    ensures
        row_count == 0 <==> res is Err,
        res matches Err(e) ==> e is EmptyDataset,
        res matches Ok(d) ==> d.rows == row_count && d.columns == columns && d.options == options,
{
    if row_count == 0 {
        Err(StatlineError::EmptyDataset)
    } else {
        Ok(ReportDraft { rows: row_count, columns, options })
    }
}

impl ReportDraft {
    /// Whether the run computes a correlation matrix.
    pub fn wants_correlation(&self) -> (res: bool)
        ensures
            res == self.options.include_correlation,
    {
        self.options.include_correlation
    }
}

/// The report of a run: the correlation matrix only where it was asked for,
/// and one insight per column where insights were asked for.
pub fn finish_report(
    draft: ReportDraft,
    profiles: Vec<ColumnProfile>,
    correlation: Option<CorrelationMatrix>,
) -> (res: ProfileReport)
    ensures
        res.rows == draft.rows,
        res.columns == draft.columns,
        res.sampled_rows == draft.options.sample_rows,
        res.profiles@ == profiles@,
        res.correlation == (if draft.options.include_correlation { correlation } else { None }),
        draft.options.include_insights ==> res.column_insights.len() == profiles.len(),
        !draft.options.include_insights ==> res.column_insights.len() == 0,
        forall|i: int|
            0 <= i < res.column_insights.len() ==> insight_of(
                profiles@[i],
                #[trigger] res.column_insights@[i],
            ),
{
    let correlation = if draft.options.include_correlation {
        correlation
    } else {
        None
    };
    let column_insights = if draft.options.include_insights {
        generate_column_insights(&profiles)
    } else {
        Vec::new()
    };
    ProfileReport {
        rows: draft.rows,
        columns: draft.columns,
        sampled_rows: draft.options.sample_rows,
        profiles,
        correlation,
        column_insights,
    }
}

} // verus!
