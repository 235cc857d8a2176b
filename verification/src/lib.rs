//! Detection of semantic contradictions across configuration files.
pub mod baseline;
pub mod cli;
pub mod config;
pub mod discover;
pub mod drift;
pub mod enrich;
pub mod extract;
pub mod federation;
pub mod fix;
pub mod git;
pub mod graph;
pub mod history;
pub mod impact;
pub mod impact_analysis;
pub mod lsp;
pub mod model;
pub mod outcome;
pub mod parse;
pub mod pattern;
pub mod pathing;
pub mod style;
pub mod text;
