//! An LC-3 virtual machine whose instruction decoding, memory and
//! register semantics are verified.

pub mod command;
pub mod enums;
pub mod error;
pub mod laws;
pub mod mem;
pub mod memory;
pub mod regs;
pub mod text;
pub mod trap;
pub mod types;
pub mod vm;

pub use error::{Result, VmError};
pub use vm::Vm;

