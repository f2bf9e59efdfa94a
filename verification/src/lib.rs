//! The core of a meter adapter that exchanges 32-bit process values with one
//! device, each value as a pair of consecutive 16-bit holding registers.
//!
//! The core performs no I/O. It decides which transactions a cycle consists
//! of and what their answers mean; its caller owns the connection, performs
//! each transaction and hands the answer back:
//!
//! - [`meter::MeterGeneric`] keeps the configured registers and knows whether
//!   a connection is present.
//! - [`meter::MeterGeneric::read`] starts a [`read::ReadCycle`]: one
//!   transaction over the span of all read registers, whose answer is
//!   decoded into one [`registers::Reading`] for each register.
//! - [`meter::MeterGeneric::write`] starts a [`write::WriteCycle`]: one
//!   transaction for each write register, each with an outcome of its own.
//!
//! Values travel as IEEE-754 bit patterns, high word first; see [`words`].

pub mod error;
pub mod meter;
pub mod read;
pub mod registers;
pub mod span;
pub mod words;
pub mod write;
