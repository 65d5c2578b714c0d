//! Query safety and planning engine for chart rendering over tabular data.
//!
//! A visualization request is checked against per-chart safety policies, turned
//! into an ordered plan of reductions (filters, binning, aggregation, Top-N with
//! an "Others" bucket, deterministic sampling, a final point cap) and executed
//! over an in-memory dataset, with an audit trail of every reduction applied.

pub mod model;
pub mod error;
pub mod types;
pub mod text;
pub mod filter;
pub mod aggregate;
pub mod topn;
pub mod sampling;
pub mod safety;
pub mod planner;
pub mod ordering;
pub mod binning;
pub mod executor;
pub mod samplers;
pub mod query;
pub mod prompts;
pub mod state;
