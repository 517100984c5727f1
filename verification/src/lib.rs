//! The front end of a linter, less its input and output: what a lint run
//! does with its configuration, its files and the findings of the engine,
//! and how the documentation of a rule becomes an explanation on a
//! terminal.
//!
//! A caller finds the files, runs the engine, fetches documents and writes
//! to the terminal. It hands what it got to [`run::LintRun`] and to
//! [`explain::ExplanationRunner`], which decide and compute.

pub mod diagnostic;
pub mod document;
pub mod explain;
pub mod number;
pub mod outcome;
pub mod pattern;
pub mod results;
pub mod run;
pub mod style;
pub mod summary;
pub mod text;
