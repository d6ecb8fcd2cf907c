//! Synthesis of fictitious person records: an exhaustive enumerator of fake
//! identifiers, a stratified population builder, and serializers to CSV,
//! JSON and JSON Lines.
//!
//! The library is verified with Verus. Each public function states what it
//! returns or changes, over the mathematical models that its module defines:
//!
//! - `ssn`: the generator of identifiers, with `ssn_laws` for what holds of
//!   every run of it;
//! - `people`: persons and populations, with `salary` for the salaries,
//!   `calendar` for the dates of birth and `counting` for the counts;
//! - `output`: the three output formats, with `headers` for the field names;
//! - `args` and `error`: the configuration and its failures;
//! - `numlib`, `integral`, `path` and `text`: numbers, paths and digits.
//!
//! What other crates compute is taken on trust, each call behind one small
//! function that says what is claimed of it: the calendar arithmetic of
//! `chrono` (in `calendar`), the draws and the shuffle of `rand` (in
//! `random`), the JSON values of `json` (in `json_tree`), the records of
//! `csv` (in `csv_text`), the digit grouping of `thousands` (in `text`), and
//! the text of a path of the standard library (in `path`).

pub mod args;
pub mod calendar;
pub mod counting;
pub mod csv_text;
pub mod error;
pub mod headers;
pub mod integral;
pub mod json_tree;
pub mod numlib;
pub mod output;
pub mod path;
pub mod people;
pub mod random;
pub mod salary;
pub mod ssn;
pub mod ssn_laws;
pub mod text;
