//! Rendering a textual graph description through a native layout engine:
//! the decisions of a render (which native call comes next, what is released
//! and in which order) and the error channel, with their contracts.

pub mod error;
pub mod source;
pub mod bridge;
pub mod native;
pub mod count;
pub mod session;
pub mod report;
pub mod memory;

pub use native::{Agraph_t, GVC_t};
