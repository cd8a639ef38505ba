//! Assay: capability/gap analysis for porting UWP and Electron apps to Tauri v2.
mod text;
mod strset;
pub mod paths;
pub mod matrix;
pub mod dataset;
pub mod profile;
pub mod analyze;
pub mod report;
pub mod xml;
pub mod json;
pub mod parse;
pub mod pwa;
pub mod manifest_types;
pub mod xml_events;
pub mod msix;
pub mod flow;
pub mod discover;
pub mod cli;
pub mod webview_qa;
pub mod probe;
pub mod driver;
pub mod winrt_shim;

pub use text::chars_of;
