//! A sandboxed note store: a vault of text notes addressed by caller-supplied
//! paths, every one of which is resolved to a location inside the configured
//! root directory or rejected.

pub mod app_error;
pub mod vault;
