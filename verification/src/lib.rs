//! Grade-bookkeeping core: structured score records, bidirectional
//! conversion between records and delimited text, and the grading
//! formulas that recompute derived fields.
//!
//! Scores are held as unsigned fixed-point numbers with two decimal
//! places: the `u64` value `1490` stands for the score `14.90`.

pub mod codec;
pub mod final_item;
pub mod group_item;
pub mod log;
pub mod parser;
pub mod project_item;
pub mod score;
pub mod table_text;
pub mod tables;
