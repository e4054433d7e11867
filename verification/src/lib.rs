//! Compile-time generator for BIOS-call trampolines on a 32-bit ARM target.
//!
//! A function destined for the platform's BIOS interface is split into two
//! artifacts: a renamed copy holding the real logic, and a thin trampoline
//! that keeps the original external name, whose body is a fixed raw
//! instruction sequence jumping through a shared safety-check entry point.
//! A companion facility builds call expressions that dispatch through a
//! numbered table of such trampolines.

pub mod ast;
pub mod intlit;
pub mod naming;
pub mod options;
pub mod shim;
pub mod text;
pub mod trampoline;
