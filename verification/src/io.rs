use vstd::prelude::*;

use crate::error::StatlineError;
use crate::paths::{extension_of, path_extension};
use crate::text::{ascii_lower, ascii_lowercase, text_of};

verus! {

/// The file formats the data can be read from.
#[derive(Debug, Clone, Copy, PartialEq, Eq, Structural)]
pub enum InputFormat {
    Csv,
    Parquet,
}

/// The format a file extension names, in any ASCII case: "csv" for CSV,
/// "parquet" or "pq" for Parquet.
pub open spec fn format_for(ext: Option<Seq<char>>) -> Option<InputFormat> {
    match ext {
        Some(e) => {
            let lower = e.map_values(|c: char| ascii_lower(c));
            if lower == "csv"@ {
                Some(InputFormat::Csv)
            } else if lower == "parquet"@ || lower == "pq"@ {
                Some(InputFormat::Parquet)
            } else {
                None
            }
        },
        None => None,
    }
}

fn chars_equal(a: &Vec<char>, b: &str) -> (res: bool)
    ensures
        res == (a@ == b@),
{
    let mut s = String::new();
    for i in 0..a.len()
        invariant
            s@ == a@.take(i as int),
    {
        crate::text::push_char(&mut s, a[i]);
        assert(a@.take(i + 1) =~= a@.take(i as int).push(a@[i as int]));
    }
    assert(a@.take(a.len() as int) =~= a@);
    crate::text::same_text(s.as_str(), b)
}

/// The format named by the extension `ext` of the file at `path`; a missing
/// or unknown extension is refused.
pub fn format_of_extension(path: &str, ext: Option<&str>) -> (res: Result<InputFormat, StatlineError>)
    ensures
        match format_for(
            match ext {
                Some(e) => Some(e@),
                None => None,
            },
        ) {
            Some(f) => res == Ok::<InputFormat, StatlineError>(f),
            None => (res matches Err(StatlineError::UnsupportedFormat(p)) && p@ == path@),
        },
{
    match ext {
        Some(e) => {
            let lower = ascii_lowercase(e);
            if chars_equal(&lower, "csv") {
                Ok(InputFormat::Csv)
            } else if chars_equal(&lower, "parquet") || chars_equal(&lower, "pq") {
                Ok(InputFormat::Parquet)
            } else {
                Err(StatlineError::UnsupportedFormat(text_of(path)))
            }
        },
        None => Err(StatlineError::UnsupportedFormat(text_of(path))),
    }
}

/// The format of the file at `path`, from its extension; other extensions,
/// and none, are refused.
pub fn detect_format(path: &str) -> (res: Result<InputFormat, StatlineError>)
    ensures
        match format_for(path_extension(path@)) {
            Some(f) => res == Ok::<InputFormat, StatlineError>(f),
            None => (res matches Err(StatlineError::UnsupportedFormat(p)) && p@ == path@),
        },
{
    match extension_of(path) {
        Some(ext) => format_of_extension(path, Some(ext.as_str())),
        None => format_of_extension(path, None),
    }
}

/// Checks that the input exists and is a file, given what the file system
/// says of `path`.
pub fn validate_input_path(path: &str, exists: bool, is_file: bool) -> (res: Result<(), StatlineError>)
    ensures
        exists && is_file <==> res is Ok,
        !exists ==> (res matches Err(StatlineError::InputNotFound(p)) && p@ == path@),
        exists && !is_file ==> (res matches Err(StatlineError::InputNotAFile(p)) && p@ == path@),
{
    if !exists {
        return Err(StatlineError::InputNotFound(text_of(path)));
    }
    if !is_file {
        return Err(StatlineError::InputNotAFile(text_of(path)));
    }
    Ok(())
}


/// An extension is read as CSV exactly when, lowercased, it is "csv", as
/// Parquet exactly when it is "parquet" or "pq", and any other extension,
/// or none, is refused.
pub proof fn lemma_format_cases(ext: Option<Seq<char>>)
    ensures
        ({
            let lower = match ext {
                Some(e) => Some(e.map_values(|c: char| ascii_lower(c))),
                None => None,
            };
            &&& (format_for(ext) == Some(InputFormat::Csv)) <==> lower == Some("csv"@)
            &&& (format_for(ext) == Some(InputFormat::Parquet)) <==> (lower == Some("parquet"@) || lower
                == Some("pq"@))
            &&& format_for(ext) is None <==> !(lower == Some("csv"@) || lower == Some("parquet"@) || lower
                == Some("pq"@))
        }),
{
    reveal_strlit("csv");
    reveal_strlit("parquet");
    reveal_strlit("pq");
    assert("csv"@.len() != "parquet"@.len() && "csv"@.len() != "pq"@.len());
}
} // verus!
