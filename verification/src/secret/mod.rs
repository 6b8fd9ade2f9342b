//! Sandbox secrets: configuration, version tokens, listing and rotation.

pub mod backend;
pub mod builder;
pub mod cloud;
pub mod domain;
pub mod flow;
pub mod rotation;
pub mod version;
pub mod zeroed;
