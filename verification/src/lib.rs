//! Rift: a cross-engine game asset pipeline.
//!
//! The library holds the pipeline's logic: configuration, the path model,
//! asset validation and conversion planning, engine metadata, the asset
//! state store and the pipeline's decisions. Reading and writing files,
//! running processes and serving HTTP are left to the program around it.

pub mod text;
pub mod paths;
pub mod error;
pub mod config;
pub mod digest;
pub mod engines;
pub mod converters;
pub mod order;
pub mod clock;
pub mod db;
pub mod pipeline;
pub mod commands;
pub mod api;
