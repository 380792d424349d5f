# thermodynamic-ast-engine

A heuristic analyzer that looks for scaling bottlenecks ("entropy hotspots") in
source files, as a verified library with a small command line program around it.

- `src/text.rs`: white space, affixes, substrings, lines of a file
- `src/comment.rs`: which lines of a language hold nothing but comments
- `src/pattern.rs`: compiled regular expressions (crate `regex`), known by their text
- `src/sources.rs`, `src/rules.rs`: the patterns and the rule tables of each language
- `src/language.rs`: which files are scanned, and in which language
- `src/line.rs`: the scan state and the hotspots of one line
- `src/sort.rs`: a stable merge sort, highest score first
- `src/report.rs`: the report of a file and of a whole scan
- `src/laws.rs`: what holds of the analyzer as a whole
- `src/insertion.rs`: blank lines and comments only move the lines behind them
- `app/`: argument handling, the walk over a directory, JSON and the terminal

Scores are integers in hundredths of a point. A match with base score `b` at loop
depth `d` has the entropy `b * (1 + d^2 / 2)`, at most 100 points.
