//! Colourises log lines read from a serial port, token by token, and decides
//! which serial port a run should use.
//!
//! The crate holds the rules only: splitting a line into tokens, classifying
//! each token, deriving a colour from a token's first characters, assembling
//! the painted output, and the steps of selecting a port. Reading from the
//! port, the console and the configuration store is left to the caller.

pub mod classify;
pub mod colour;
pub mod line;
pub mod number;
pub mod paint;
pub mod port;
pub mod tail;
pub mod text;
pub mod token;
