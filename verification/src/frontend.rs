use vstd::prelude::*;

verus! {

/// Something that can show the visualization until the user closes it.
pub trait VisualizerFrontend {
    /// Shows the visualization; returns when the display is closed.
    fn run(&self);
}

/// The displays a visualizer can be shown in.
#[derive(Clone, Copy, Debug, PartialEq, Eq, Structural)]
pub enum FrontendKind {
    /// The immediate-mode window with the bar chart and the controls.
    Egui,
}

} // verus!
