//! The architecture abstraction layer: one capability contract binding each
//! processor mode to its instruction record and decode engine, so that
//! mode-agnostic code can decode and inspect instructions uniformly over
//! whichever mode it was handed.

use vstd::prelude::*;

use crate::decode::spec_decode;
use crate::inst::{core_wf, spec_segment_override, InstCore};
use crate::opcode::Opcode;
use crate::operand::Operand;
use crate::reader::{DecodeError, Reader};
use crate::regs::Segment;
use crate::DecodeMode;
use crate::{x86_16, x86_32, x86_64};

verus! {

/// The mode-independent view of a decoded instruction.
pub trait X86Instruction where Self: Sized {
    /// The shared record the instruction exposes.
    spec fn core_spec(&self) -> InstCore;

    /// Get the opcode of this instruction.
    fn opcode(&self) -> (r: Opcode)
        ensures
            r == self.core_spec().opcode,
    ;

    /// Get the operand at the provided index. Indices at or past 4 are a
    /// contract violation: no representable instruction has more operands.
    fn operand(&self, i: u8) -> (r: Operand)
        requires
            i < 4,
        ensures
            r == self.core_spec().operands.spec_get(i as int),
    ;

    /// Get the number of operands in this instruction, for iterating an
    /// instruction's operands generically.
    fn operand_count(&self) -> (r: u8)
        ensures
            r == self.core_spec().operand_count,
    ;

    /// Get the segment that will actually be used for accessing the operand
    /// at index `op`. The string instructions name some segments for fixed
    /// operand positions regardless of prefixes.
    fn segment_override_for_op(&self, op: u8) -> (r: Option<Segment>)
        ensures
            r == spec_segment_override(self.core_spec(), op),
    ;
}

/// A pseudo-architecture that further defines one of x86's three processor
/// modes.
pub trait X86Arch {
    /// The specific type of the mode's instruction.
    type Instruction: X86Instruction + Default;

    /// The specific type of the mode's decode engine; each mode's engine
    /// implements the decoding contract for its architecture.
    type Decoder: Default;

    /// The processor mode the architecture stands for.
    spec fn mode_spec() -> DecodeMode;
}

/// The mode-independent decoding contract over any architecture's engine.
pub trait X86Decoder<A: X86Arch + ?Sized> where Self: Sized {
    /// Decode one instruction for this architecture from the byte cursor,
    /// into a fresh record.
    fn decode<'a>(&self, words: &mut Reader<'a>) -> (r: Result<A::Instruction, DecodeError>)
        requires
            old(words).wf(),
        ensures
            final(words).spec_data() == old(words).spec_data(),
            old(words).spec_pos() <= final(words).spec_pos(),
            final(words).wf(),
            match r {
                Ok(inst) => {
                    &&& core_wf(inst.core_spec())
                    &&& spec_decode(A::mode_spec(), old(words).remaining()) == Ok::<
                        InstCore,
                        DecodeError,
                    >(inst.core_spec())
                    &&& final(words).spec_pos() == old(words).spec_pos()
                        + inst.core_spec().length
                },
                Err(e) => spec_decode(A::mode_spec(), old(words).remaining()) == Err::<
                    InstCore,
                    DecodeError,
                >(e),
            },
    ;

    /// Decode one instruction for this architecture from the byte cursor,
    /// writing into the provided `inst`. If decoding fails, the record is
    /// left stale but safe: its exposed state never violates the record
    /// bounds, but callers must not read meaning into it.
    fn decode_into<'a>(&self, inst: &mut A::Instruction, words: &mut Reader<'a>) -> (r: Result<
        (),
        DecodeError,
    >)
        requires
            old(words).wf(),
        ensures
            final(words).spec_data() == old(words).spec_data(),
            old(words).spec_pos() <= final(words).spec_pos(),
            final(words).wf(),
            core_wf(final(inst).core_spec()),
            match r {
                Ok(()) => {
                    &&& spec_decode(A::mode_spec(), old(words).remaining()) == Ok::<
                        InstCore,
                        DecodeError,
                    >(final(inst).core_spec())
                    &&& final(words).spec_pos() == old(words).spec_pos()
                        + final(inst).core_spec().length
                },
                Err(e) => spec_decode(A::mode_spec(), old(words).remaining()) == Err::<
                    InstCore,
                    DecodeError,
                >(e),
            },
    ;
}

impl X86Arch for x86_16 {
    type Instruction = crate::real_mode::Instruction;

    type Decoder = crate::real_mode::InstDecoder;

    open spec fn mode_spec() -> DecodeMode {
        DecodeMode::Real
    }
}

impl X86Arch for x86_32 {
    type Instruction = crate::protected_mode::Instruction;

    type Decoder = crate::protected_mode::InstDecoder;

    open spec fn mode_spec() -> DecodeMode {
        DecodeMode::Protected
    }
}

impl X86Arch for x86_64 {
    type Instruction = crate::long_mode::Instruction;

    type Decoder = crate::long_mode::InstDecoder;

    open spec fn mode_spec() -> DecodeMode {
        DecodeMode::Long
    }
}

impl X86Instruction for crate::long_mode::Instruction {
    open spec fn core_spec(&self) -> InstCore {
        self.core
    }

    fn opcode(&self) -> Opcode {
        self.opcode()
    }

    fn operand(&self, i: u8) -> Operand {
        self.operand(i)
    }

    fn operand_count(&self) -> u8 {
        self.operand_count()
    }

    fn segment_override_for_op(&self, op: u8) -> Option<Segment> {
        self.segment_override_for_op(op)
    }
}

impl X86Instruction for crate::protected_mode::Instruction {
    open spec fn core_spec(&self) -> InstCore {
        self.core
    }

    fn opcode(&self) -> Opcode {
        self.opcode()
    }

    fn operand(&self, i: u8) -> Operand {
        self.operand(i)
    }

    fn operand_count(&self) -> u8 {
        self.operand_count()
    }

    fn segment_override_for_op(&self, op: u8) -> Option<Segment> {
        self.segment_override_for_op(op)
    }
}

impl X86Instruction for crate::real_mode::Instruction {
    open spec fn core_spec(&self) -> InstCore {
        self.core
    }

    fn opcode(&self) -> Opcode {
        self.opcode()
    }

    fn operand(&self, i: u8) -> Operand {
        self.operand(i)
    }

    fn operand_count(&self) -> u8 {
        self.operand_count()
    }

    fn segment_override_for_op(&self, op: u8) -> Option<Segment> {
        self.segment_override_for_op(op)
    }
}

impl X86Decoder<x86_64> for crate::long_mode::InstDecoder {
    fn decode<'a>(&self, words: &mut Reader<'a>) -> Result<
        crate::long_mode::Instruction,
        DecodeError,
    > {
        self.decode(words)
    }

    fn decode_into<'a>(&self, inst: &mut crate::long_mode::Instruction, words: &mut Reader<'a>)
        -> Result<(), DecodeError> {
        self.decode_into(inst, words)
    }
}

impl X86Decoder<x86_32> for crate::protected_mode::InstDecoder {
    fn decode<'a>(&self, words: &mut Reader<'a>) -> Result<
        crate::protected_mode::Instruction,
        DecodeError,
    > {
        self.decode(words)
    }

    fn decode_into<'a>(
        &self,
        inst: &mut crate::protected_mode::Instruction,
        words: &mut Reader<'a>,
    ) -> Result<(), DecodeError> {
        self.decode_into(inst, words)
    }
}

impl X86Decoder<x86_16> for crate::real_mode::InstDecoder {
    fn decode<'a>(&self, words: &mut Reader<'a>) -> Result<
        crate::real_mode::Instruction,
        DecodeError,
    > {
        self.decode(words)
    }

    fn decode_into<'a>(&self, inst: &mut crate::real_mode::Instruction, words: &mut Reader<'a>)
        -> Result<(), DecodeError> {
        self.decode_into(inst, words)
    }
}

} // verus!
