//! Core of a remotely driven image viewer: the wire codec for requests and
//! responses, the ordered path cursor with wrap-around and removal, the
//! navigator that tracks the displayed item, the auto-advance timer, and the
//! command-dispatch state machine that turns each request into exactly one
//! response.

pub mod client;
pub mod codec;
pub mod controller;
pub mod cursor;
pub mod image;
pub mod model;
pub mod navigator;
pub mod order;
pub mod pageant;
pub mod paths;
