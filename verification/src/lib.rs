//! Static architecture linter core.
//!
//! The crate models lint rules, findings, severities, scope-based
//! declarative constraints, a suppression system, and a cross-language
//! layer engine, each with verified contracts over mathematical models.

pub mod allowance;
pub mod analysis;
pub mod arch_config;
pub mod attributes;
pub mod catalog;
pub mod config;
pub mod config_resolver;
pub mod context;
pub mod declarative;
pub mod engine;
pub mod extractor;
pub mod globpat;
pub mod layer;
pub mod loader;
pub mod model;
pub mod paths;
pub mod presets;
pub mod required_crate;
pub mod rule;
pub mod runner;
pub mod sequtil;
pub mod severity;
pub mod strutil;
pub mod toml_data;
pub mod types;
