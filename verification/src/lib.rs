//! Subprocess-isolated rendering pipeline: the wire format spoken between the
//! parent and its worker, and the per-request lifecycle that turns one request
//! into exactly one outcome.
//!
//! - [`count`], [`text`], [`frame`], [`codec`]: the frame and its wire format;
//!   [`laws`] states what holds of it for every frame and every stream.
//! - [`producer`]: how the worker builds the frame it writes.
//! - [`orchestrator`]: the states of a request and the transition between
//!   them; [`runs`] states what holds of every sequence of events.
//! - [`auth`], [`interaction`], [`delivery`]: what comes before and after a
//!   request: the check of its signature, the immediate reply, and what is
//!   shown for its outcome.
//! - [`clock`], [`streak`]: small helpers.

pub mod auth;
pub mod clock;
pub mod codec;
pub mod count;
pub mod delivery;
pub mod frame;
pub mod interaction;
pub mod laws;
pub mod orchestrator;
pub mod producer;
pub mod runs;
pub mod streak;
pub mod text;
