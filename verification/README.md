# statline

A command-line profiler for CSV and Parquet files: per-column statistics,
heuristic column labels, a correlation matrix, JSON output, terminal charts,
PNG charts and a standalone HTML report.

The project is split in two:

- `src/` is the library, written in Verus. Its functions carry contracts
  that Verus proves, except seven small trusted functions that call std
  (`String::push`, `str::to_lowercase`, and `Path`'s `extension`, `parent`,
  `join`, `==` and `strip_prefix`), whose contracts Verus takes as given:
  option checking and run planning (`cli`),
  input-format detection (`io`), the shape of a column profile, the
  correlation matrix and the insights (`profiler`), the table cells and
  header lines (`output`), and the chart logic that does not depend on
  floating-point arithmetic (`visualization`): category ranking, file
  names, HTML escaping and the HTML report, sparklines, bar layout and the
  ordering of the terminal bar charts.
  Floating-point statistics travel through the library as `num::Stat`: the
  IEEE-754 bits of the value and its two-decimal text.
- `app/` is the program around it: argument parsing with clap, reading the
  data and computing aggregates with Polars, drawing with Plotters, tables
  with comfy-table, JSON with serde, and the floating-point parts of the
  charts.

`tests/` exercises the library on concrete inputs.
