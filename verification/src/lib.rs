//! Data-generation library for log information extraction.
//!
//! The heart of the crate is [`token_bucket`], a bounded-concurrency
//! bridge: a caller submits any number of units of work and pulls their
//! results back one at a time, while a fixed pool of permits caps how many units
//! may be in their active region at once.  The remaining modules hold
//! the line-oriented annotation parser, the output-directory paths and
//! the record types of the generation pipeline.

pub mod cli_args;
pub mod gentar;
pub mod output_dir;
pub mod parser;
pub mod token_bucket;
