//! Turns a built executable into the source of a small self-extracting
//! loader: target resolution, the build plan, the payload codec and the
//! source template, each with a machine-checked contract.
pub mod codec;
pub mod manifest;
pub mod options;
pub mod orchestrator;
pub mod paths;
pub mod report;
pub mod resolver;
pub mod template;
pub mod text;
