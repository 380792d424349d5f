//! A heuristic "thermodynamic entropy" analyzer for source files.
//!
//! Every line of a source file is held against a table of regular expressions
//! that depends on the file's language. A hit becomes a hotspot whose entropy
//! grows with the square of the loop depth it stands at. Entropy is counted in
//! hundredths of a point throughout.

pub mod comment;
pub mod comment_laws;
pub mod file_laws;
pub mod insertion;
pub mod language;
pub mod laws;
pub mod line;
pub mod line_laws;
pub mod nesting_laws;
pub mod pattern;
pub mod rank_laws;
pub mod report;
pub mod rule_laws;
pub mod rules;
pub mod scan_laws;
pub mod sort;
pub mod sources;
pub mod text;
