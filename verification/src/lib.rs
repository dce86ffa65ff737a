//! A verified decoder core for x86 machine instructions.
//!
//! The library turns raw bytes into structured instruction records for the
//! three x86 processor operating modes: 16-bit real mode, 32-bit protected
//! mode, and 64-bit long mode. One mode-parametrized engine performs prefix
//! accumulation, opcode identification, ModRM/SIB addressing resolution and
//! immediate collection; the per-mode modules bind it to a mode tag. On top
//! of the decoded record sit the derived semantic queries: operand width,
//! effective memory access size, and per-operand segment resolution.

use vstd::prelude::*;

pub mod common;
pub mod decode;
pub mod inst;
pub mod laws;
pub mod long_mode;
pub mod opcode;
pub mod operand;
pub mod protected_mode;
pub mod reader;
pub mod real_mode;
pub mod regs;

pub use inst::MemoryAccessSize;
pub use reader::DecodeError;
pub use reader::Reader;

verus! {

/// The processor operating mode an instruction was decoded for. The mode
/// fixes the default operand and address sizes and decides whether a REX
/// prefix byte is recognized at all.
#[derive(Clone, Copy, Debug, PartialEq, Eq)]
pub enum DecodeMode {
    /// 16-bit real/legacy mode.
    Real,
    /// 32-bit protected mode.
    Protected,
    /// 64-bit long mode.
    Long,
}

/// Mode tag for 16-bit real mode.
#[allow(non_camel_case_types)]
pub struct x86_16;

/// Mode tag for 32-bit protected mode.
#[allow(non_camel_case_types)]
pub struct x86_32;

/// Mode tag for 64-bit long mode.
#[allow(non_camel_case_types)]
pub struct x86_64;

} // verus!
