//! The pipeline's error type.

use vstd::prelude::*;
use crate::text::concat2;

verus! {

/// An error of the pipeline. Errors that come from outside the library
/// (the file system, the database, image and YAML handling, ...) carry the
/// outside error's message.
#[derive(Debug, Clone)]
pub enum RiftError {
    Config(String),
    Pipeline(String),
    Conversion(String),
    Validation(String),
    Engine(String),
    Database(String),
    Io(String),
    Image(String),
    Yaml(String),
    Json(String),
    Notify(String),
    Glob(String),
    Other(String),
}

/// The text an error displays: a prefix naming its kind, then its message.
pub open spec fn error_text(e: RiftError) -> Seq<char> {
    match e {
        RiftError::Config(m) => "Config error: "@ + m@,
        RiftError::Pipeline(m) => "Pipeline error: "@ + m@,
        RiftError::Conversion(m) => "Conversion error: "@ + m@,
        RiftError::Validation(m) => "Validation error: "@ + m@,
        RiftError::Engine(m) => "Engine export error: "@ + m@,
        RiftError::Database(m) => "Database error: "@ + m@,
        RiftError::Io(m) => "IO error: "@ + m@,
        RiftError::Image(m) => "Image error: "@ + m@,
        RiftError::Yaml(m) => "YAML parse error: "@ + m@,
        RiftError::Json(m) => "JSON error: "@ + m@,
        RiftError::Notify(m) => "Notify error: "@ + m@,
        RiftError::Glob(m) => "Glob error: "@ + m@,
        RiftError::Other(m) => m@,
    }
}

impl RiftError {
    /// The text this error displays.
    pub fn message(&self) -> (res: String)
        ensures
            res@ == error_text(*self),
    {
        match self {
            RiftError::Config(m) => concat2("Config error: ", m.as_str()),
            RiftError::Pipeline(m) => concat2("Pipeline error: ", m.as_str()),
            RiftError::Conversion(m) => concat2("Conversion error: ", m.as_str()),
            RiftError::Validation(m) => concat2("Validation error: ", m.as_str()),
            RiftError::Engine(m) => concat2("Engine export error: ", m.as_str()),
            RiftError::Database(m) => concat2("Database error: ", m.as_str()),
            RiftError::Io(m) => concat2("IO error: ", m.as_str()),
            RiftError::Image(m) => concat2("Image error: ", m.as_str()),
            RiftError::Yaml(m) => concat2("YAML parse error: ", m.as_str()),
            RiftError::Json(m) => concat2("JSON error: ", m.as_str()),
            RiftError::Notify(m) => concat2("Notify error: ", m.as_str()),
            RiftError::Glob(m) => concat2("Glob error: ", m.as_str()),
            RiftError::Other(m) => m.clone(),
        }
    }
}

} // verus!
