//! Sandbox secrets: their version tokens, their rotation, and the proxy that
//! carries them.

pub mod error;
pub mod proxy;
pub mod secret;
pub mod text;
