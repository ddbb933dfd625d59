//! Safety-oriented bulk text editing: pattern replacement, token renaming,
//! marker-delimited block replacement and unified-diff patches, each computed
//! as a candidate new text that can be previewed before it is written.
//!
//! The library computes and decides; it reads and writes no file. A caller
//! hands it the bytes of a file and gets back the decoded text, the candidate
//! change, its diff and the decision of what to do next.

pub mod batch;
pub mod block;
pub mod casing;
pub mod chars;
pub mod commands;
pub mod diff;
pub mod distance;
pub mod encoding;
pub mod files;
pub mod lineending;
pub mod lineindex;
pub mod lines;
pub mod logging;
pub mod matcher;
pub mod normalize;
pub mod numbers;
pub mod offsets;
pub mod options;
pub mod pager;
pub mod patch;
pub mod pipeline;
pub mod render;
pub mod report;
pub mod review;
pub mod suggest;
pub mod summary;
pub mod text;
pub mod transform;
