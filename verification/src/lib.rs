//! Arbitrary-radix base conversion: digits in any source radix are folded into
//! one unbounded number, which is written out as canonical big-endian bytes.

pub mod alphabet;
pub mod base;
pub mod bigint;
pub mod error;
pub mod numeral;
pub mod plugin;
