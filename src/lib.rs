//! Turns benchmark tables (problem size against a measured value) into
//! pgfplots chart markup.
//!
//! The library reads the comma-separated tables, projects their records onto
//! `(size, value)` series, and renders chart blocks as text. Measured values
//! are carried as the text that prints them: the library never computes with
//! them, it only passes them through to the markup.
pub mod records;
pub mod render;
pub mod report;
pub mod series;
pub mod table;
pub mod text;
