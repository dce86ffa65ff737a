//! The operand model: the tagged forms an instruction's operand can take,
//! and the width query derived from them.

use vstd::prelude::*;

use crate::regs::RegSpec;

verus! {

/// A memory reference: `base + index * scale + disp`. Either register may be
/// absent (absolute or displacement-only forms); the displacement is kept
/// sign-extended. The segment the access goes through is not stored here: it
/// is derived per operand position from the instruction's opcode and prefix
/// state, so the record holds a single source of truth.
#[derive(Clone, Copy, Debug, PartialEq, Eq)]
pub struct MemOperand {
    pub base: Option<RegSpec>,
    pub index: Option<RegSpec>,
    /// Multiplier applied to the index register: 1, 2, 4 or 8.
    pub scale: u8,
    /// Displacement, sign-extended from its encoded size.
    pub disp: i64,
}

/// One operand of a decoded instruction.
#[derive(Clone, Copy, Debug, PartialEq, Eq)]
pub enum Operand {
    /// An empty slot: no operand.
    Nothing,
    /// A direct register operand.
    Register(RegSpec),
    /// An immediate value. `width` is the operand's effective byte width and
    /// `value` the encoded immediate, sign-extended from its encoded size.
    Immediate { width: u8, value: i64 },
    /// A control-flow target relative to the end of the instruction.
    /// `width` is the encoded offset's byte size; the offset is kept
    /// sign-extended. A branch target carries no data width.
    RelativeBranch { width: u8, offset: i64 },
    /// A memory reference. Its access width is not a property of the operand:
    /// it is the instruction's effective operand size, answered by the
    /// instruction-level memory access size query.
    Memory(MemOperand),
}

impl Operand {
    /// The operand's data width in bytes, where it has one of its own:
    /// registers report their architectural width, immediates the width they
    /// were decoded at; memory references and branch targets report none.
    pub open spec fn spec_width(self) -> Option<u8> {
        match self {
            Operand::Nothing => None,
            Operand::Register(r) => Some(r.spec_width()),
            Operand::Immediate { width, value } => Some(width),
            Operand::RelativeBranch { width, offset } => None,
            Operand::Memory(m) => None,
        }
    }

    /// The operand's own data width in bytes, if it has one.
    pub fn width(&self) -> (r: Option<u8>)
        ensures
            r == self.spec_width(),
    {
        match self {
            Operand::Nothing => None,
            Operand::Register(reg) => Some(reg.width()),
            Operand::Immediate { width, value } => Some(*width),
            Operand::RelativeBranch { width, offset } => None,
            Operand::Memory(m) => None,
        }
    }
}

} // verus!
