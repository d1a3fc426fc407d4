//! Verified core of a PDF-to-Markdown converter driven by a vision model.
//!
//! The application around this library rasterises pages, calls the model and
//! does the I/O; every decision in between is made here, with contracts that
//! Verus proves:
//!
//! - [`config`]: page selection, separators, fidelity tier, the configuration builder.
//! - [`postprocess`]: the ten cleanup passes applied to each page's Markdown.
//! - [`assemble`] and [`convert`]: ordering, assembly, statistics, fatal outcomes.
//! - [`pipeline`]: retries and backoff, per-page results, sequential context,
//!   and the producer's walk over the selection.
//! - [`error`], [`output`], [`progress`], [`prompts`], [`input`], [`cli`],
//!   [`engine`], [`report`]: errors, result types, events and small helpers.
use vstd::prelude::*;

pub mod text;
pub mod postprocess;
pub mod config;
pub mod error;
pub mod output;
pub mod assemble;
pub mod convert;
pub mod prompts;
pub mod input;
pub mod progress;
pub mod pipeline;
pub mod cli;
pub mod engine;
pub mod report;

verus! {

} // verus!
