//! The core of an audio spectrum visualizer: binning a spectrum onto a
//! frequency axis, the ordered chains of spatial and temporal filters with
//! their manager, loudness scaling, the configuration that holds them
//! together, and the playhead that says which window of a recording to
//! analyze.
//!
//! Sample values stay abstract. The library walks the buffers, keeps the
//! order, the edges and the per-bin history, and says exactly when it asks
//! the caller for the arithmetic of one value; the caller supplies that
//! arithmetic in the number type of its choice.

pub mod audio;
pub mod binning;
pub mod filters;
pub mod frontend;
pub mod normalizer;
pub mod visualizer;

pub use filters::{SpatialFilter, TemporalFilter};
pub use frontend::{FrontendKind, VisualizerFrontend};
pub use visualizer::{Visualizer, VisualizerConfig};
