#![allow(unused_imports)]
pub mod coerce;
pub mod datatypes;
pub mod encoder;
pub mod encoder_laws;
pub mod errors;
pub mod geometry;
pub mod handlers;
pub mod param_laws;
pub mod params;
pub mod pg_catalog;
pub mod pgvector;
pub mod query_laws;
pub mod scalar;
pub mod plan_laws;
pub mod planner;
pub mod schema;
pub mod sql;
pub mod text;
pub mod text_laws;
pub mod type_laws;
pub mod vector_laws;
pub mod wire;
