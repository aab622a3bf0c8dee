//! Normalizes tabular and semi-structured inputs (CSV, JSON, XML, XLS, XLSX,
//! ODS) into uniform in-memory tables and encodes them as Parquet, with the
//! format detection, spreadsheet and XML normalization, output-path mapping
//! and batch/watch planning verified against their contracts.

pub mod config;
pub mod converter;
pub mod format;
pub mod processor;
pub mod spreadsheet;
pub mod table;
pub mod text;
pub mod watcher;
pub mod xml_flatten;
