//! A license compatibility and text-identification engine: a
//! tri-state compatibility algebra over a closed set of license
//! identifiers (including compound "this OR that" licenses), and a
//! license-text discovery and confidence-scoring pipeline that
//! locates candidate license files, scores how well their content
//! matches a canonical reference text, and selects the best
//! candidate while accumulating quality-failure signals.
pub mod bundle;
pub mod check;
pub mod discovery;
pub mod display;
pub mod license;
pub mod list;
pub mod options;
pub mod package;
pub mod parse;
pub mod scoring;
pub mod selection;
pub mod templates;
