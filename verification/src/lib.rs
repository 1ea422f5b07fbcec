use vstd::prelude::*;

pub mod error;
pub mod num;
pub mod paths;
pub mod profiler;
pub mod text;
pub mod visualization;
pub mod io;
pub mod cli;
pub mod output;
