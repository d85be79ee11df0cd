//! Connection handling for a TCP echo service and its interactive client.
//!
//! The library decides; the caller performs the I/O. Each session or flow is
//! a small state machine that takes what a receive, a send or the console
//! produced and answers with the next action to perform.
pub mod text;
pub mod echo;
pub mod client;
