//! Local model files: header inspection, fit estimates and folder scans.
pub mod catalog;
pub mod ggml_names;
pub mod gguf;
