//! Verified core of a system-information fetch tool: parsers for the
//! semi-structured text the kernel exposes, heuristic GPU-name extraction,
//! package counting, color resolution, and the template-driven renderer
//! with its inline-image escape-sequence encoder.
#![verifier::loop_isolation(false)]

pub mod color;
pub mod config;
pub mod data;
pub mod display;
pub mod error;
pub mod hardware;
pub mod kitty;
pub mod packages;
pub mod parsing;
pub mod strutil;
pub mod system;
