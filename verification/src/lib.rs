//! A dual-port serial line bridge.
//!
//! Two serial ports feed bytes into fixed-capacity line accumulators. Port A
//! is the console side: its input is echoed back byte by byte, and every
//! completed line — from either port — is written to it. Port B is the
//! device side: it receives only lines completed on port A. A line that
//! would exceed the accumulator's capacity is dropped and a diagnostic
//! notice is written to the console.
//!
//! The hardware itself (register access, blocking reads and writes) is not
//! part of this crate's logic: callers poll their ports and hand each
//! received byte to [`bridge::Bridge::on_byte`], which returns the bytes to
//! write out on each port.

pub mod accumulator;
pub mod bridge;
pub mod stream;

