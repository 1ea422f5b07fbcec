use vstd::prelude::*;

pub mod categorical;
pub mod export;
pub mod terminal;
pub mod types;
pub mod utils;

use crate::paths::{join_path, parent_of, path_joined, path_parent};

verus! {

/// Where chart images go next to an HTML report: `assets` beside the report file.
pub open spec fn assets_dir_for(html_path: Seq<char>) -> Seq<char> {
    let base = match path_parent(html_path) {
        Some(p) => p,
        None => "."@,
    };
    path_joined(base, "assets"@)
}

/// The assets directory for the HTML report at `html_path`.
pub fn default_assets_dir(html_path: &str) -> (res: String)
    ensures
        res@ == assets_dir_for(html_path@),
{
    match parent_of(html_path) {
        Some(p) => join_path(p.as_str(), "assets"),
        None => join_path(".", "assets"),
    }
}

} // verus!
