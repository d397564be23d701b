//! A generic undo/redo history engine.
//!
//! The engine records caller-defined entries on a past stack, moves them to a
//! future stack on `undo` and back on `redo`, treats marker-delimited groups
//! as single traversal steps, and stages continuous interactions in a
//! single-slot transient buffer.

pub mod undoable;
pub mod model;
pub mod stack;
pub mod laws;

pub use model::Slot;
pub use stack::UndoStack;
pub use undoable::Undoable;
