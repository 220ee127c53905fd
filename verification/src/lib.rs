//! An archive-aware content search engine: given an in-memory tree of
//! files, possibly containing zip-format containers, it locates
//! occurrences of a class name, package path, or pattern, producing a
//! flat collection of typed matches plus aggregate statistics.
pub mod classify;
pub mod laws;
pub mod matching;
pub mod pattern;
pub mod records;
pub mod results;
pub mod scan;
pub mod text;
pub mod tool;
pub mod units;
pub mod ziparch;
