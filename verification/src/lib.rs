//! A time-weighted average market maker (TWAMM) settlement engine.
//!
//! Participants submit large trades that execute gradually over a time
//! window.  The engine periodically catches a pool up by computing how much
//! of each pending order should have executed since the last update,
//! performing a notional fee-adjusted swap for the elapsed interval, and
//! crediting the result to outstanding orders.
//!
//! All state lives in [`state::TWAMMState`]; the host environment supplies
//! the clock (`current_time`) and the caller identity (`sender`) as plain
//! arguments to every operation.

pub mod errors;
pub mod hooks;
pub mod keymap;
pub mod laws;
pub mod orders;
pub mod state;
pub mod types;
pub mod utils;
