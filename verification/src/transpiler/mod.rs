//! Transformations of circuits, applied one after the other.

pub mod pass;
