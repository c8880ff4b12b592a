//! Typed key/value tooling for digital-servo nodes on a Cyphal CAN bus.
//!
//! The crate covers the logic of a parameter CLI: a typed value codec over
//! twelve primitive kinds, a command dispatcher that turns one resolved
//! command into transport actions, a single-shot request/reply exchange, and
//! a row-ordered batch planner. The transport itself (frames, addressing,
//! timing) is an outside collaborator; this crate only decides what to send.

pub mod text;
pub mod kinds;
pub mod numlit;
pub mod errors;
pub mod value;
pub mod codec;
pub mod dispatch;
pub mod exchange;
pub mod batch;
pub mod laws;
