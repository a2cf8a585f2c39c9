//! Report digitization and indicator normalization engine.
//!
//! A checkup report image is sent to a vision-capable completion service;
//! the service replies with text that should — but need not — contain a JSON
//! array of indicator readings.  This crate turns that noisy reply into
//! validated, catalog-linked indicator values: a tolerant response extractor
//! over a verified JSON codec, a fuzzy name matcher, a regenerative
//! reconciler, the record lifecycle state machine, a streaming completion
//! reader, and the per-batch orchestration rules, all with machine-checked
//! contracts.  Network and storage I/O stay outside; the functions here take
//! plain values and return plain values.

pub mod batch;
pub mod entities;
pub mod extract;
pub mod files;
pub mod json;
pub mod lifecycle;
pub mod matching;
pub mod prompt;
pub mod reconcile;
pub mod store;
pub mod stream;
pub mod text;
