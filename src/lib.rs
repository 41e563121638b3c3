//! A simulated automated teller: a pure transition function over machine
//! snapshots, driven by card swipes and keypad presses.

pub mod atm;
pub mod traits;
