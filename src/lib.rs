//! A virtual machine for a 16-bit instruction set with three compatibility
//! modes: an instruction decoder, a monochrome framebuffer model and an
//! execution engine, each with its behaviour stated as Verus contracts.

pub mod cpu;
pub mod display;
pub mod fault;
pub mod instruction;
pub mod theorems;
