use vstd::prelude::*;

verus! {

/// The engine's session state. It names what a context pointer points
/// to; no value of it is ever made on this side.
#[allow(non_camel_case_types)]
pub enum GVC_t {
    Opaque,
}

/// A graph parsed by the engine. It names what a graph pointer points
/// to; no value of it is ever made on this side.
#[allow(non_camel_case_types)]
pub enum Agraph_t {
    Opaque,
}

/// The plugin libraries a render registers with its context.
#[derive(Debug, Clone, Copy, PartialEq, Eq, Structural)]
pub enum GraphvizPluginLibrary {
    /// Core capabilities, among them the vector-image encoder.
    Core,
    /// The hierarchical layout engine.
    DotLayout,
}

/// The layout engine every render uses.
pub const LAYOUT_ENGINE: &'static str = "dot";

/// The output format every render produces.
pub const OUTPUT_FORMAT: &'static str = "svg";

} // verus!
