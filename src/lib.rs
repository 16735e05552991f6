//! Code-quality assessment by language-aware heuristics.
//!
//! Source text is turned into a unit model (the functions, methods or blocks of a
//! file, with their line spans, an approximate complexity and parameter counts)
//! by one extractor per language family. Seven metrics score that model, each as
//! a badness in `0..=SCALE`, and the scores of many files are merged into a
//! project score. Every step is verified against the specifications stated in
//! its contract; `laws` holds the properties that relate several steps.
//!
//! - `text`: characters, lines and substring counting, and the few outside
//!   routines (regular expressions, Unicode classes, paths) the rest relies on.
//! - `language`: file extensions to language tags.
//! - `model`: units and unit models.
//! - `scan`: unit ends by braces or indentation, comment lines, complexity.
//! - `units`, `parsers`, `markup`, `php`: the extractors and their dispatch.
//! - `metrics`, `duplication`: the seven metrics.
//! - `analysis`: per-file measurement and project aggregation.
//! - `config`: run options, exclude patterns and errors.
pub mod text;
pub mod language;
pub mod model;
pub mod scan;
pub mod units;
pub mod parsers;
pub mod markup;
pub mod php;
pub mod metrics;
pub mod duplication;
pub mod analysis;
pub mod config;
pub mod laws;
