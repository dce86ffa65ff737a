//! 32-bit protected mode: the mode's instruction record and decode engine.

use vstd::prelude::*;

use crate::decode::{decode_core, spec_decode};
use crate::inst::{core_wf, spec_default_core, spec_mem_size, spec_segment_override, InstCore,
    MemoryAccessSize};
use crate::opcode::Opcode;
use crate::reader::{DecodeError, Reader};
use crate::regs::Segment;
use crate::DecodeMode;

pub use crate::operand::Operand;
pub use crate::regs::RegSpec;

verus! {

/// One decoded protected-mode instruction. The record is allocated once and
/// overwritten in place by every decode call that targets it; after a failed
/// decode its contents are unspecified but never violate the record bounds.
#[derive(Clone, Copy, Debug, PartialEq, Eq)]
pub struct Instruction {
    pub core: InstCore,
}

/// What every exposed protected-mode instruction satisfies: the shared record
/// bounds, in this module's mode.
pub open spec fn inst_wf(i: Instruction) -> bool {
    &&& core_wf(i.core)
    &&& i.core.mode is Protected
}

impl Instruction {
    /// The mnemonic of this instruction.
    pub fn opcode(&self) -> (r: Opcode)
        ensures
            r == self.core.opcode,
    {
        self.core.opcode()
    }

    /// The operand at slot `i` of the fixed four. An index at or past four
    /// is a contract violation, not a recoverable failure.
    pub fn operand(&self, i: u8) -> (r: Operand)
        requires
            i < 4,
        ensures
            r == self.core.operands.spec_get(i as int),
    {
        self.core.operand(i)
    }

    /// How many operands the instruction meaningfully has; never above four.
    pub fn operand_count(&self) -> (r: u8)
        ensures
            r == self.core.operand_count,
    {
        self.core.operand_count()
    }

    /// The segment actually used for the access through operand `op`, or
    /// `None` where the default segment rules stand. The string instructions
    /// name fixed segments for fixed operand positions whatever the prefixes
    /// say.
    pub fn segment_override_for_op(&self, op: u8) -> (r: Option<Segment>)
        ensures
            r == spec_segment_override(self.core, op),
    {
        self.core.segment_override_for_op(op)
    }

    /// The effective memory access size of this instruction, if it accesses
    /// memory.
    pub fn mem_size(&self) -> (r: Option<MemoryAccessSize>)
        requires
            inst_wf(*self),
        ensures
            match r {
                Some(m) => spec_mem_size(self.core) == Some(m.size),
                None => spec_mem_size(self.core) == None::<u8>,
            },
    {
        self.core.mem_size()
    }

    /// How many bytes the instruction's encoding consumed.
    pub fn length(&self) -> (r: u8)
        ensures
            r == self.core.length,
    {
        self.core.length
    }
}

impl Default for Instruction {
    /// A freshly reset record: stale reads of it are safe.
    fn default() -> (r: Self)
        ensures
            r.core == spec_default_core(DecodeMode::Protected),
            inst_wf(r),
    {
        Instruction {
            core: InstCore {
                mode: DecodeMode::Protected,
                opcode: Opcode::NOP,
                operands: crate::inst::OperandList {
                    slot0: Operand::Nothing,
                    slot1: Operand::Nothing,
                    slot2: Operand::Nothing,
                    slot3: Operand::Nothing,
                },
                operand_count: 0,
                prefixes: crate::inst::Prefixes::none(),
                explicit_width: false,
                operand_width: 4,
                length: 0,
            },
        }
    }
}

/// The protected-mode decode engine. It is immutable configuration and keeps no
/// state between calls: one instance may serve any number of independent
/// decodes.
#[derive(Clone, Copy, Debug, PartialEq, Eq)]
pub struct InstDecoder;

impl Default for InstDecoder {
    fn default() -> (r: Self)
        ensures
            r == InstDecoder,
    {
        InstDecoder
    }
}

impl InstDecoder {
    /// Decode one protected-mode instruction from `words` into the caller-owned
    /// record, avoiding allocation. On success the record is exactly the
    /// mathematical decoder's answer for the unconsumed bytes and the cursor
    /// advanced by exactly the reported encoded length; on failure the
    /// failure is exactly the mathematical decoder's and the record is left
    /// reset: stale but safe.
    pub fn decode_into<'a>(&self, inst: &mut Instruction, words: &mut Reader<'a>) -> (r: Result<
        (),
        DecodeError,
    >)
        requires
            old(words).wf(),
        ensures
            final(words).spec_data() == old(words).spec_data(),
            old(words).spec_pos() <= final(words).spec_pos(),
            final(words).wf(),
            inst_wf(*final(inst)),
            match r {
                Ok(()) => {
                    &&& spec_decode(DecodeMode::Protected, old(words).remaining()) == Ok::<
                        InstCore,
                        DecodeError,
                    >(final(inst).core)
                    &&& final(words).spec_pos() == old(words).spec_pos() + final(inst).core.length
                },
                Err(e) => {
                    &&& spec_decode(DecodeMode::Protected, old(words).remaining()) == Err::<
                        InstCore,
                        DecodeError,
                    >(e)
                    &&& final(inst).core == spec_default_core(DecodeMode::Protected)
                },
            },
    {
        decode_core(DecodeMode::Protected, &mut inst.core, words)
    }

    /// Decode one protected-mode instruction from `words` into a fresh record.
    pub fn decode<'a>(&self, words: &mut Reader<'a>) -> (r: Result<Instruction, DecodeError>)
        requires
            old(words).wf(),
        ensures
            final(words).spec_data() == old(words).spec_data(),
            old(words).spec_pos() <= final(words).spec_pos(),
            final(words).wf(),
            match r {
                Ok(inst) => {
                    &&& inst_wf(inst)
                    &&& spec_decode(DecodeMode::Protected, old(words).remaining()) == Ok::<
                        InstCore,
                        DecodeError,
                    >(inst.core)
                    &&& final(words).spec_pos() == old(words).spec_pos() + inst.core.length
                },
                Err(e) => spec_decode(DecodeMode::Protected, old(words).remaining()) == Err::<
                    InstCore,
                    DecodeError,
                >(e),
            },
    {
        let mut inst = Instruction::default();
        match self.decode_into(&mut inst, words) {
            Ok(()) => Ok(inst),
            Err(e) => Err(e),
        }
    }

    /// Decode one protected-mode instruction from the start of a byte slice.
    pub fn decode_slice(&self, data: &[u8]) -> (r: Result<Instruction, DecodeError>)
        ensures
            match r {
                Ok(inst) => inst_wf(inst) && spec_decode(DecodeMode::Protected, data@) == Ok::<
                    InstCore,
                    DecodeError,
                >(inst.core),
                Err(e) => spec_decode(DecodeMode::Protected, data@) == Err::<InstCore, DecodeError>(
                    e,
                ),
            },
    {
        let mut words = Reader::new(data);
        proof {
            assert(words.remaining() =~= data@);
        }
        self.decode(&mut words)
    }
}

} // verus!
