//! The two filter interfaces, the tags that name the kinds of filter, the
//! manager that owns the two ordered chains, and the per-bin algorithms that
//! the filters are built from: convolution with a kernel, weighting by a
//! table, and smoothing against a per-bin history.

pub mod eq_curve;
pub mod gaussian;
pub mod kind;
pub mod manager;
pub mod registry;
pub mod spatial;
pub mod temporal;
pub mod weighting;

pub use eq_curve::EqCurveFilter;
pub use kind::FilterKind;
pub use manager::{FilterEntry, FilterManager};
pub use spatial::{BinLayout, SpatialFilter};
pub use temporal::TemporalFilter;
