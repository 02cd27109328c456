//! Read-only access to an owners-and-pets dataset.
//!
//! A relational store answers one join query with flat rows, one per pet, each
//! carrying its owner. This crate turns such rows into nested owner records,
//! says which statement is sent for each request, and maps every outcome to the
//! status a client sees.
pub mod model;
pub mod grouping;
pub mod flattening;
pub mod laws;
pub mod error;
pub mod query;
pub mod config;
