//! Builds a single "contact sheet" image (a grid of thumbnail frames) for each
//! video file in a directory tree.
//!
//! The verified library holds the logic of the pipeline: deciding when in a
//! video to sample frames, planning the decode/filter/scale chain that an
//! external media engine executes, compositing the sampled frames into one
//! mosaic image, and the per-file bookkeeping that decides which videos need a
//! new sheet.  The surrounding binary performs the actual file, terminal and
//! codec-engine I/O and feeds the results back in as plain values.

pub mod error;
pub mod files;
pub mod filters;
pub mod process;
pub mod screencaps;
pub mod settings;
pub mod util;
pub mod video;

pub use error::Error;
