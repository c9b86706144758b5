//! Capture lifecycle and frame distribution for screen capture.
//!
//! Consumers ask for the capture of a display and withdraw their requests
//! again; the registry in [`display`] counts them and decides when the capture
//! engine has to start and to stop. The frames that the engine delivers for all
//! displays travel over one bus; a subscription in [`subscription`] lets the
//! frames of one display through to one consumer, until the capture of that
//! display ends. Nothing here calls the engine or touches a channel: every
//! operation returns what is to be done, and the caller does it.
//!
//! [`session`] holds the model of the sessions that the contracts are stated
//! over, and what is proved of sequences of requests. [`text`] writes the
//! numbers of a frame's description.

pub mod display;
pub mod session;
pub mod subscription;
pub mod text;
