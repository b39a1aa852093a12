//! Generates source-text definitions from an introspected relational
//! schema - data entities, relation-aware API types and mutation
//! declarations - and models the tagged scalar value union those
//! definitions exchange at runtime, with its narrowest-fit numeric
//! ingestion and widening rules.

pub mod emit;
pub mod filter;
pub mod mapper;
pub mod print_schema;
pub mod scalar;
pub mod schema;
