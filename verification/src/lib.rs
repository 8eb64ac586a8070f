//! Face scan, web discovery and evidence-hash chain recording, with the
//! decisions and text handling of each stage verified.

pub mod text;
pub mod digest;
pub mod cli;
pub mod chain;
pub mod face;
pub mod search;
pub mod evidence;
pub mod report;
pub mod discovery;
pub mod upload;
