//! Memory and speed estimates for running language models on local hardware.

pub mod adapters;
pub mod app;
pub mod heuristics;
pub mod system;
pub mod text;
