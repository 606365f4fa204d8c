//! The containment resolver and the note store built on it.

pub mod error;
pub mod model;
pub mod probe;
pub mod vault;
