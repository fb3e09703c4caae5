//! A shared pixel canvas that many clients paint on at once: the canvas
//! store, the paint-command codec, a fan-out hub and the per-connection
//! session state machine.
pub mod codec;
pub mod raster;
pub mod canvas;
pub mod hub;
pub mod session;
