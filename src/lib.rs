//! Dice rolling and roll-under checks for tabletop-style simulations.
//!
//! Every random operation draws from an explicit [`source::Source`], whose
//! log of drawn values lets each contract say exactly which draws a result
//! was made of. Each operation also has a verified counterpart that takes the
//! drawn values as arguments and computes the outcome from them, so fixed
//! sequences of samples can be fed in directly.
pub mod source;
pub mod dice;
pub mod chance;
pub mod parity;
