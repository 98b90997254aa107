//! A scrollable list of items of varying height for text-mode interfaces.
//!
//! The crate computes, for a viewport of a given height, which items are
//! drawn and on which rows, and keeps the selected item in view while the
//! selection moves. Drawing itself is left to the caller.

pub mod error;
pub mod geometry;
pub mod guarantees;
pub mod layout;
pub mod list;
pub mod state;
pub mod traits;

pub use crate::error::ListError;
pub use crate::geometry::ViewportEntry;
pub use crate::layout::Layout;
pub use crate::list::{Frame, List};
pub use crate::state::{SelectionState, Step};
pub use crate::traits::Listable;
