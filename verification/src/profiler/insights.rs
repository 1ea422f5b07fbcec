use vstd::prelude::*;

use crate::profiler::types::{ColumnInsight, ColumnProfile};
use crate::text::{same_text, text_of};

verus! {

/// The distinct-value count a classification reads (0 when it is unknown).
pub open spec fn unique_or_zero(unique: Option<u64>) -> u64 {
    match unique {
        Some(u) => u,
        None => 0,
    }
}

/// A numeric column whose values are all distinct.
pub open spec fn identifier(p: ColumnProfile) -> bool {
    unique_or_zero(p.unique_count) == p.count
}

/// The label a column gets from its type name and distinct-value count.
pub open spec fn classification(p: ColumnProfile) -> Seq<char> {
    let dtype = p.dtype@;
    let unique = unique_or_zero(p.unique_count);
    if dtype == "i64"@ || dtype == "i32"@ || dtype == "f64"@ || dtype == "f32"@ {
        if identifier(p) {
            "Identifier"@
        } else {
            "Numeric"@
        }
    } else if dtype == "str"@ {
        if unique == 2 {
            "Boolean/Categorical"@
        } else if unique < 20 {
            "Categorical"@
        } else {
            "Text"@
        }
    } else {
        "Unknown"@
    }
}

fn is_identifier(p: &ColumnProfile) -> (res: bool)
    ensures
        res == identifier(*p),
{
    let unique = match p.unique_count {
        Some(u) => u,
        None => 0,
    };
    unique == p.count
}

fn classify(p: &ColumnProfile) -> (res: String)
    ensures
        res@ == classification(*p),
{
    let dtype = p.dtype.as_str();
    if same_text(dtype, "i64") || same_text(dtype, "i32") || same_text(dtype, "f64")
        || same_text(dtype, "f32") {
        if is_identifier(p) {
            text_of("Identifier")
        } else {
            text_of("Numeric")
        }
    } else if same_text(dtype, "str") {
        let unique = match p.unique_count {
            Some(u) => u,
            None => 0,
        };
        if unique == 2 {
            text_of("Boolean/Categorical")
        } else if unique < 20 {
            text_of("Categorical")
        } else {
            text_of("Text")
        }
    } else {
        text_of("Unknown")
    }
}

/// The insight for one column: its name and its label.
pub open spec fn insight_of(p: ColumnProfile, i: ColumnInsight) -> bool {
    i.column@ == p.name@ && i.classification@ == classification(p)
}

/// One insight per profile, in the same order.
pub fn generate_column_insights(profiles: &Vec<ColumnProfile>) -> (res: Vec<ColumnInsight>)
    ensures
        res.len() == profiles.len(),
        forall|i: int| 0 <= i < res.len() ==> insight_of(profiles@[i], #[trigger] res@[i]),
        forall|i: int|
            0 <= i < res.len() ==> (#[trigger] res@[i]).column@ == profiles@[i].name@
                && res@[i].classification@ == classification(profiles@[i]),
{
    let mut out: Vec<ColumnInsight> = Vec::new();
    for k in 0..profiles.len()
        invariant
            out.len() == k,
            forall|i: int| 0 <= i < k ==> insight_of(profiles@[i], #[trigger] out@[i]),
    {
        let p = &profiles[k];
        out.push(ColumnInsight { column: text_of(p.name.as_str()), classification: classify(p) });
    }
    out
}


/// The labels a column gets, stated case by case on its type name, value
/// count and distinct-value count (an unknown distinct count reads as 0):
/// an `i64`, `i32`, `f64` or `f32` column is an "Identifier" exactly when
/// every value is distinct and "Numeric" otherwise; a `str` column is
/// "Boolean/Categorical" with exactly two distinct values, "Categorical" with
/// fewer than twenty others, and "Text" from twenty on; any other type is
/// "Unknown".
pub proof fn lemma_classification_cases(p: ColumnProfile)
    ensures
        ({
            let d = p.dtype@;
            let u: int = match p.unique_count {
                Some(n) => n as int,
                None => 0,
            };
            let label = classification(p);
            &&& (d == "i64"@ || d == "i32"@ || d == "f64"@ || d == "f32"@) ==> ((label == "Identifier"@
                <==> u == p.count) && (label == "Numeric"@ <==> u != p.count))
            &&& d == "str"@ ==> ((label == "Boolean/Categorical"@ <==> u == 2) && (label == "Categorical"@
                <==> (u != 2 && u < 20)) && (label == "Text"@ <==> u >= 20))
            &&& !(d == "i64"@ || d == "i32"@ || d == "f64"@ || d == "f32"@ || d == "str"@) ==> label
                == "Unknown"@
        }),
{
    reveal_strlit("Identifier");
    reveal_strlit("Numeric");
    reveal_strlit("Boolean/Categorical");
    reveal_strlit("Categorical");
    reveal_strlit("Text");
    reveal_strlit("Unknown");
    reveal_strlit("i64");
    reveal_strlit("i32");
    reveal_strlit("f64");
    reveal_strlit("f32");
    reveal_strlit("str");
    assert("Identifier"@.len() != "Numeric"@.len());
    assert("Boolean/Categorical"@.len() != "Categorical"@.len());
    assert("Boolean/Categorical"@.len() != "Text"@.len());
    assert("Categorical"@.len() != "Text"@.len());
    assert("str"@[0] != "i64"@[0] && "str"@[0] != "i32"@[0] && "str"@[0] != "f64"@[0] && "str"@[0]
        != "f32"@[0]);
}
} // verus!
