use vstd::prelude::*;

use crate::num::{finite_if_present, finite_only, keep_finite, Stat};
use crate::profiler::types::ColumnProfile;
use crate::profiler::utils::{is_numeric, numeric, ColumnDType, UNIQUE_COUNT_THRESHOLD};

verus! {

/// A column of the data as profiling sees it.
#[derive(Debug, Clone)]
pub struct SchemaField {
    pub name: String,
    pub dtype: ColumnDType,
    /// The type's name as the data source writes it ("i64", "str", ...).
    pub dtype_text: String,
}

/// The aggregates computed for a numeric column; each is absent where it
/// could not be computed.
#[derive(Debug, Clone)]
pub struct NumericStats {
    pub mean: Option<Stat>,
    pub std: Option<Stat>,
    pub min: Option<Stat>,
    pub p25: Option<Stat>,
    pub p50: Option<Stat>,
    pub p75: Option<Stat>,
    pub max: Option<Stat>,
}

/// Whether a column with `count` values gets a distinct-value count.
pub open spec fn counts_unique(count: u64) -> bool {
    count <= UNIQUE_COUNT_THRESHOLD
}

/// Whether the distinct values of a column with `count` values are counted.
pub fn wants_unique_count(count: u64) -> (res: bool)
    ensures
        res == counts_unique(count),
{
    count <= UNIQUE_COUNT_THRESHOLD
}

/// `v` if the column is numeric and `v` is finite, else nothing.
pub open spec fn gated(numeric_column: bool, v: Option<Stat>) -> Option<Stat> {
    if numeric_column {
        finite_only(v)
    } else {
        None
    }
}

fn gate(numeric_column: bool, v: Option<Stat>) -> (res: Option<Stat>)
    ensures
        res == gated(numeric_column, v),
{
    if numeric_column {
        keep_finite(v)
    } else {
        None
    }
}

/// Every aggregate a profile holds is finite.
pub open spec fn aggregates_finite(p: ColumnProfile) -> bool {
    &&& finite_if_present(p.mean)
    &&& finite_if_present(p.std)
    &&& finite_if_present(p.min)
    &&& finite_if_present(p.p25)
    &&& finite_if_present(p.p50)
    &&& finite_if_present(p.p75)
    &&& finite_if_present(p.max)
}

/// The profile of `field`, from its value count, null count, null
/// percentage, the aggregates of its numeric values and its distinct-value
/// count. Only numeric columns keep the aggregates, and only the finite
/// ones (an aggregate that is NaN or infinite is reported as absent); only
/// columns within the threshold keep the distinct-value count.
pub fn column_profile(
    field: SchemaField,
    count: u64,
    null_count: u64,
    null_pct: Stat,
    stats: NumericStats,
    n_unique: Option<u64>,
) -> (res: ColumnProfile)
    ensures
        res.name@ == field.name@,
        res.dtype@ == field.dtype_text@,
        res.count == count,
        res.null_count == null_count,
        res.null_pct == null_pct,
        res.mean == gated(numeric(field.dtype), stats.mean),
        res.std == gated(numeric(field.dtype), stats.std),
        res.min == gated(numeric(field.dtype), stats.min),
        res.p25 == gated(numeric(field.dtype), stats.p25),
        res.p50 == gated(numeric(field.dtype), stats.p50),
        res.p75 == gated(numeric(field.dtype), stats.p75),
        res.max == gated(numeric(field.dtype), stats.max),
        aggregates_finite(res),
        res.unique_count == (if counts_unique(count) { n_unique } else { None }),
        res.parsable_numeric_count is None,
        res.parsable_datetime_count is None,
{
    let num = is_numeric(&field.dtype);
    let unique_count = if wants_unique_count(count) {
        n_unique
    } else {
        None
    };
    ColumnProfile {
        name: field.name,
        dtype: field.dtype_text,
        count,
        null_count,
        null_pct,
        mean: gate(num, stats.mean),
        std: gate(num, stats.std),
        min: gate(num, stats.min),
        p25: gate(num, stats.p25),
        p50: gate(num, stats.p50),
        p75: gate(num, stats.p75),
        max: gate(num, stats.max),
        unique_count,
        parsable_numeric_count: None,
        parsable_datetime_count: None,
    }
}

} // verus!
