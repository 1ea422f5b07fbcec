use vstd::prelude::*;

use crate::num::{copy_finite, finite_if_present, finite_only, Stat};
use crate::profiler::profile::SchemaField;
use crate::profiler::types::CorrelationMatrix;
use crate::profiler::utils::{is_numeric, numeric};
use crate::text::{text_of, texts};

verus! {

/// The names of the numeric fields, in schema order.
pub open spec fn numeric_names(fields: Seq<SchemaField>) -> Seq<Seq<char>>
    decreases fields.len(),
{
    if fields.len() == 0 {
        Seq::empty()
    } else {
        let rest = numeric_names(fields.drop_last());
        if numeric(fields.last().dtype) {
            rest.push(fields.last().name@)
        } else {
            rest
        }
    }
}

/// The names of the numeric columns, in schema order.
pub fn numeric_columns(fields: &Vec<SchemaField>) -> (res: Vec<String>)
    ensures
        texts(res@) == numeric_names(fields@),
{
    let mut out: Vec<String> = Vec::new();
    for k in 0..fields.len()
        invariant
            texts(out@) == numeric_names(fields@.take(k as int)),
    {
        assert(fields@.take(k + 1).drop_last() =~= fields@.take(k as int));
        if is_numeric(&fields[k].dtype) {
            out.push(text_of(fields[k].name.as_str()));
            assert(texts(out@) =~= numeric_names(fields@.take(k as int)).push(fields@[k as int].name@));
        }
    }
    assert(fields@.take(fields.len() as int) =~= fields@);
    out
}

/// The columns to correlate: the numeric ones, when there are at least two.
pub fn correlation_columns(fields: &Vec<SchemaField>) -> (res: Option<Vec<String>>)
    ensures
        numeric_names(fields@).len() < 2 <==> res is None,
        res matches Some(cols) ==> texts(cols@) == numeric_names(fields@),
{
    let cols = numeric_columns(fields);
    if cols.len() < 2 {
        None
    } else {
        Some(cols)
    }
}

/// The correlations of the pairs `(i, j)` with `i <= j`: row `i` holds
/// those of `(i, i)`, `(i, i + 1)`, ..., `(i, n - 1)`.
pub open spec fn upper_shape(upper: Seq<Vec<Option<Stat>>>, n: int) -> bool {
    &&& upper.len() == n
    &&& forall|i: int| 0 <= i < n ==> #[trigger] upper[i].len() == n - i
}

/// The correlation of columns `i` and `j`, read from the upper triangle.
pub open spec fn upper_entry(upper: Seq<Vec<Option<Stat>>>, i: int, j: int) -> Option<Stat> {
    if i <= j {
        upper[i]@[j - i]
    } else {
        upper[j]@[i - j]
    }
}

/// The full square matrix of `columns` from the correlations of its upper
/// triangle, mirrored below the diagonal; a correlation that is NaN or
/// infinite is reported as absent.
pub fn correlation_matrix(columns: Vec<String>, upper: &Vec<Vec<Option<Stat>>>) -> (res:
    CorrelationMatrix)
    requires
        upper_shape(upper@, columns.len() as int),
    ensures
        res.columns@ == columns@,
        res.values.len() == columns.len(),
        forall|i: int| 0 <= i < columns.len() ==> #[trigger] res.values@[i].len() == columns.len(),
        forall|i: int, j: int|
            0 <= i < columns.len() && 0 <= j < columns.len() ==> #[trigger] res.values@[i]@[j]
                == finite_only(upper_entry(upper@, i, j)),
        forall|i: int, j: int|
            0 <= i < columns.len() && 0 <= j < columns.len() ==> finite_if_present(
                #[trigger] res.values@[i]@[j],
            ),
        forall|i: int, j: int|
            0 <= i < columns.len() && 0 <= j < columns.len() ==> #[trigger] res.values@[i]@[j]
                == res.values@[j]@[i],
{
    let n = columns.len();
    let mut values: Vec<Vec<Option<Stat>>> = Vec::new();
    for i in 0..n
        invariant
            n == columns.len(),
            upper_shape(upper@, n as int),
            values.len() == i,
            forall|a: int| 0 <= a < i ==> #[trigger] values@[a].len() == n,
            forall|a: int, b: int|
                0 <= a < i && 0 <= b < n ==> #[trigger] values@[a]@[b] == finite_only(upper_entry(upper@, a, b)),
    {
        let mut row: Vec<Option<Stat>> = Vec::new();
        for j in 0..n
            invariant
                n == columns.len(),
                0 <= i < n,
                upper_shape(upper@, n as int),
                row.len() == j,
                forall|b: int| 0 <= b < j ==> #[trigger] row@[b] == finite_only(upper_entry(upper@, i as int, b)),
        {
            assert(upper@[i as int].len() == n - i);
            assert(upper@[j as int].len() == n - j);
            let v = if i <= j {
                copy_finite(&upper[i][j - i])
            } else {
                copy_finite(&upper[j][i - j])
            };
            row.push(v);
        }
        values.push(row);
    }
    CorrelationMatrix { columns, values }
}

} // verus!
