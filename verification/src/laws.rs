//! The laws the library states of itself, proved from the public
//! specifications: register widths, memory access sizes, decode determinism
//! and exactness of the encoded length, string-instruction segments, and the
//! operand-slot bound.

use vstd::prelude::*;

use crate::decode::{lemma_decode_prefix, spec_decode};
use crate::inst::{core_wf, spec_has_explicit_mem, spec_mem_size, spec_segment_override, InstCore};
use crate::opcode::Opcode;
use crate::operand::Operand;
use crate::reader::DecodeError;
use crate::regs::{bank_width, RegSpec, Segment};
use crate::DecodeMode;

verus! {

/// For every register operand, the reported width is the register's
/// architecturally defined byte width — a function of its bank alone, never
/// of the index within the bank or of which alias or encoding produced the
/// reference.
pub proof fn lemma_register_width(r: RegSpec)
    ensures
        Operand::Register(r).spec_width() == Some(bank_width(r.bank)),
{
}

/// For every instruction outside the implied-access special cases, the
/// memory access size of an explicit memory operand is exactly the effective
/// operand width the record carries — the mode default combined with the
/// operand-size override and the REX width bit, or one for byte-sized forms.
pub proof fn lemma_explicit_mem_size(i: InstCore)
    requires
        core_wf(i),
        spec_has_explicit_mem(i),
        match i.opcode {
            Opcode::RETURN | Opcode::PUSH | Opcode::POP | Opcode::PUSHF | Opcode::POPF
                | Opcode::CALL | Opcode::JMP | Opcode::CALLF | Opcode::JMPF | Opcode::LEA
                | Opcode::NOP => false,
            _ => true,
        },
    ensures
        spec_mem_size(i) == Some(i.operand_width),
{
}

/// In long mode the stack-touching instructions access the stack's native
/// eight bytes whatever the operand-size override says: the override resizes
/// a register target's own width, never the implied stack slot, and a near
/// call or jump through memory reads a full-width target as well.
pub proof fn lemma_implied_stack_width(i: InstCore)
    requires
        i.mode is Long,
    ensures
        (i.opcode is RETURN || i.opcode is PUSHF || i.opcode is POPF) ==> spec_mem_size(i)
            == Some(8u8),
        (i.opcode is PUSH || i.opcode is POP) && !i.explicit_width ==> spec_mem_size(i) == Some(
            8u8,
        ),
        (i.opcode is PUSH || i.opcode is POP) && i.explicit_width ==> spec_mem_size(i) == Some(
            i.operand_width,
        ),
        i.opcode is CALL ==> match i.operands.spec_get(0) {
            Operand::RelativeBranch { width, offset } => spec_mem_size(i) == Some(8u8),
            Operand::Memory(m) => spec_mem_size(i) == Some(8u8),
            Operand::Register(r) => spec_mem_size(i) == Some(bank_width(r.bank)),
            _ => true,
        },
        i.opcode is JMP && i.operands.spec_get(0) is Memory ==> spec_mem_size(i) == Some(8u8),
{
}

/// Decoding is deterministic and its reported length is exact: the result is
/// a function of the first `length` bytes alone, so re-decoding exactly
/// those bytes reproduces the identical instruction, and decoding any strict
/// prefix of them fails with exhausted input.
pub proof fn lemma_decode_exact_length(mode: DecodeMode, s: Seq<u8>, m: int)
    requires
        0 <= m <= s.len(),
    ensures
        match spec_decode(mode, s) {
            Ok(inst) => {
                &&& inst.length <= s.len()
                &&& (inst.length <= m ==> spec_decode(mode, s.take(m)) == spec_decode(mode, s))
                &&& (m < inst.length ==> spec_decode(mode, s.take(m)) == Err::<
                    InstCore,
                    DecodeError,
                >(DecodeError::ExhaustedInput))
            },
            Err(e) => true,
        },
{
    lemma_decode_prefix(mode, s, m);
}

/// A string instruction's segments are fixed by operand position, present
/// override prefix or none: the `rdi`-side access always goes through `ES`,
/// while only the `rsi`-side access takes an override and otherwise defaults
/// to `DS`.
pub proof fn lemma_string_segments(i: InstCore)
    ensures
        i.opcode is MOVS ==> {
            &&& spec_segment_override(i, 0) == Some(Segment::ES)
            &&& spec_segment_override(i, 1) == Some(
                match i.prefixes.seg {
                    Some(seg) => seg,
                    None => Segment::DS,
                },
            )
        },
        i.opcode is CMPS ==> {
            &&& spec_segment_override(i, 1) == Some(Segment::ES)
            &&& spec_segment_override(i, 0) == Some(
                match i.prefixes.seg {
                    Some(seg) => seg,
                    None => Segment::DS,
                },
            )
        },
        i.opcode is STOS ==> spec_segment_override(i, 0) == Some(Segment::ES),
        i.opcode is SCAS ==> spec_segment_override(i, 1) == Some(Segment::ES),
        i.opcode is LODS ==> spec_segment_override(i, 1) == Some(
            match i.prefixes.seg {
                Some(seg) => seg,
                None => Segment::DS,
            },
        ),
{
}

/// Operand storage is exactly four slots wide: every well-formed record
/// reports at most four operands, and every slot at or past the count is
/// empty, so an index below four — even one at or past the operand count —
/// reads a defined slot and never leaves the bound.
pub proof fn lemma_operand_slot_bound(i: InstCore)
    requires
        core_wf(i),
    ensures
        i.operand_count <= 4,
        forall|k: int|
            i.operand_count <= k < 4 ==> i.operands.spec_get(k) == Operand::Nothing,
{
}

} // verus!
