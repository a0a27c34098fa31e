//! Differential conformance testing of calling conventions.
//!
//! A test describes functions by the values they pass and return. Both sides
//! of each call, built independently, record every value they send or receive
//! into observation buffers; the two views are then reconciled subtest by
//! subtest.
//!
//! - `model`: values, subtests and tests, with their mathematical models.
//! - `naming`: type names of values, and names of tests, sources and libraries.
//! - `shape`: type shapes, struct declarations, and why type names are unique.
//! - `prepare`: the checks a test passes before anything is built.
//! - `procedural`: the catalog of generated subtests for a set of values.
//! - `buffer`: the write-back protocol and its observation buffers.
//! - `reconcile`: the verdict on each subtest from the two sides' observations.
//! - `report`: a pairing's report and the totals over a run.
//! - `error`: why a pairing as a whole failed.
pub mod buffer;
pub mod error;
pub mod model;
pub mod naming;
pub mod prepare;
pub mod procedural;
pub mod reconcile;
pub mod report;
pub mod shape;
