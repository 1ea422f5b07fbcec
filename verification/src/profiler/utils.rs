use vstd::prelude::*;

use crate::text::{chars_end_with, chars_hold, chars_of, ends_with, holds_part};

verus! {

/// Columns with more values than this get no distinct-value count.
pub const UNIQUE_COUNT_THRESHOLD: u64 = 5_000_000;

/// The data type of a column, as far as profiling tells them apart.
#[derive(Debug, Clone, Copy, PartialEq, Eq, Structural)]
pub enum ColumnDType {
    Int8,
    Int16,
    Int32,
    Int64,
    UInt8,
    UInt16,
    UInt32,
    UInt64,
    Float32,
    Float64,
    /// Any other type (strings, booleans, dates, ...).
    Other,
}

/// The integer and floating-point types.
pub open spec fn numeric(dtype: ColumnDType) -> bool {
    !(dtype is Other)
}

/// Whether a column of this type gets numeric statistics.
pub fn is_numeric(dtype: &ColumnDType) -> (res: bool)
    ensures
        res == numeric(*dtype),
{
    match dtype {
        ColumnDType::Other => false,
        _ => true,
    }
}

/// What `str::to_lowercase` gives for these characters (Unicode lowercase mapping).
pub uninterp spec fn lowercase(s: Seq<char>) -> Seq<char>;

/// Lowercases `s`: calls `str::to_lowercase`. Trusted: the contract claims
/// only that the result is the value `lowercase` names for these
/// characters; the Unicode case mapping itself is left to std.
#[verifier::external_body]
fn to_lowercase(s: &str) -> (res: String)
    ensures
        res@ == lowercase(s@),
{
    s.to_lowercase()
}

/// An already lowercased name that reads like an identifier column: "id",
/// ending in "_id", or holding "uuid".
pub open spec fn id_like(n: Seq<char>) -> bool {
    n == "id"@ || ends_with(n, "_id"@) || holds_part(n, "uuid"@)
}

/// A name that reads like an identifier column ("id", "*_id", "*uuid*"), ignoring case.
pub open spec fn semantic_id(name: Seq<char>) -> bool {
    id_like(lowercase(name))
}

/// Whether a lowercased column name reads like an identifier.
pub fn is_id_like(lower: &str) -> (res: bool)
    ensures
        res == id_like(lower@),
{
    let n = chars_of(lower);
    let suffix = chars_of("_id");
    let uuid = chars_of("uuid");
    crate::text::same_text(lower, "id") || chars_end_with(&n, &suffix) || chars_hold(&n, &uuid)
}

/// Whether the column name reads like an identifier.
pub fn is_semantic_id(name: &str) -> (res: bool)
    ensures
        res == semantic_id(name@),
{
    let lower = to_lowercase(name);
    is_id_like(lower.as_str())
}

} // verus!
