//! The mode-parametrized decode engine.
//!
//! The specification functions in this module define, byte for byte, what a
//! well-formed encoding means: `spec_decode` is the mathematical decoder, a
//! total function from a byte sequence to an instruction record or a precise
//! failure. The executable engine below is proved to return exactly
//! `spec_decode` of the bytes it was handed.

use vstd::prelude::*;

use crate::inst::{core_wf, spec_default_core, InstCore, OperandList, Prefixes};
use crate::opcode::Opcode;
use crate::operand::{MemOperand, Operand};
use crate::reader::{DecodeError, Reader};
use crate::regs::{RegSpec, RegisterBank, Segment};
use crate::DecodeMode;

verus! {

/// The architectural cap on an instruction encoding's total byte length.
pub const MAX_INSN_LEN: u8 = 15;

/// One byte of the stream, or the exhausted-input failure past its end.
pub open spec fn sread(s: Seq<u8>, i: int) -> Result<u8, DecodeError> {
    if 0 <= i < s.len() {
        Ok(s[i])
    } else {
        Err(DecodeError::ExhaustedInput)
    }
}

/// Two bytes read little-endian starting at `i`: the value and the position
/// after them.
#[verifier::opaque]
pub open spec fn spec_le2(s: Seq<u8>, i: int) -> Result<(int, int), DecodeError> {
    match sread(s, i) {
        Err(e) => Err(e),
        Ok(b0) => match sread(s, i + 1) {
            Err(e) => Err(e),
            Ok(b1) => Ok((b0 + 0x100 * b1, i + 2)),
        },
    }
}

/// Four bytes read little-endian starting at `i`.
#[verifier::opaque]
pub open spec fn spec_le4(s: Seq<u8>, i: int) -> Result<(int, int), DecodeError> {
    match spec_le2(s, i) {
        Err(e) => Err(e),
        Ok((lo, j)) => match spec_le2(s, j) {
            Err(e) => Err(e),
            Ok((hi, k)) => Ok((lo + 0x10000 * hi, k)),
        },
    }
}

/// Eight bytes read little-endian starting at `i`.
#[verifier::opaque]
pub open spec fn spec_le8(s: Seq<u8>, i: int) -> Result<(int, int), DecodeError> {
    match spec_le4(s, i) {
        Err(e) => Err(e),
        Ok((lo, j)) => match spec_le4(s, j) {
            Err(e) => Err(e),
            Ok((hi, k)) => Ok((lo + 0x100000000 * hi, k)),
        },
    }
}

/// Sign extension of an unsigned `bytes`-wide value (`bytes` is 1, 2, 4 or 8).
#[verifier::opaque]
pub open spec fn spec_sext(v: int, bytes: u8) -> i64 {
    if bytes == 1 {
        if v < 0x80 {
            v as i64
        } else {
            (v - 0x100) as i64
        }
    } else if bytes == 2 {
        if v < 0x8000 {
            v as i64
        } else {
            (v - 0x10000) as i64
        }
    } else if bytes == 4 {
        if v < 0x80000000 {
            v as i64
        } else {
            (v - 0x100000000) as i64
        }
    } else {
        if v < 0x8000000000000000 {
            v as i64
        } else {
            (v - 0x10000000000000000) as i64
        }
    }
}

/// An immediate or displacement of encoded size `enc` (1, 2, 4 or 8 bytes),
/// read at `i` and sign-extended.
#[verifier::opaque]
pub open spec fn spec_imm(s: Seq<u8>, i: int, enc: u8) -> Result<(i64, int), DecodeError> {
    if enc == 1 {
        match sread(s, i) {
            Err(e) => Err(e),
            Ok(b) => Ok((spec_sext(b as int, 1), i + 1)),
        }
    } else if enc == 2 {
        match spec_le2(s, i) {
            Err(e) => Err(e),
            Ok((v, j)) => Ok((spec_sext(v, 2), j)),
        }
    } else if enc == 4 {
        match spec_le4(s, i) {
            Err(e) => Err(e),
            Ok((v, j)) => Ok((spec_sext(v, 4), j)),
        }
    } else {
        match spec_le8(s, i) {
            Err(e) => Err(e),
            Ok((v, j)) => Ok((spec_sext(v, 8), j)),
        }
    }
}

/// The legacy prefix bytes: segment overrides, operand- and address-size
/// overrides, lock, and the two repeat prefixes.
pub open spec fn spec_is_legacy_prefix(b: u8) -> bool {
    ||| b == 0x26
    ||| b == 0x2e
    ||| b == 0x36
    ||| b == 0x3e
    ||| b == 0x64
    ||| b == 0x65
    ||| b == 0x66
    ||| b == 0x67
    ||| b == 0xf0
    ||| b == 0xf2
    ||| b == 0xf3
}

/// Record one legacy prefix byte. A later prefix of the same class replaces
/// an earlier one, and any legacy prefix cancels a REX byte seen before it:
/// REX only counts when it directly precedes the opcode.
pub open spec fn spec_apply_prefix(pfx: Prefixes, b: u8) -> Prefixes {
    let base = Prefixes { rex: false, rexw: false, rexr: false, rexx: false, rexb: false, ..pfx };
    if b == 0x26 {
        Prefixes { seg: Some(Segment::ES), ..base }
    } else if b == 0x2e {
        Prefixes { seg: Some(Segment::CS), ..base }
    } else if b == 0x36 {
        Prefixes { seg: Some(Segment::SS), ..base }
    } else if b == 0x3e {
        Prefixes { seg: Some(Segment::DS), ..base }
    } else if b == 0x64 {
        Prefixes { seg: Some(Segment::FS), ..base }
    } else if b == 0x65 {
        Prefixes { seg: Some(Segment::GS), ..base }
    } else if b == 0x66 {
        Prefixes { opsize: true, ..base }
    } else if b == 0x67 {
        Prefixes { adsize: true, ..base }
    } else if b == 0xf0 {
        Prefixes { lock: true, ..base }
    } else if b == 0xf2 {
        Prefixes { repnz: true, ..base }
    } else {
        Prefixes { rep: true, ..base }
    }
}

/// Record a REX byte (`0x40` through `0x4f`): four extension bits.
pub open spec fn spec_apply_rex(pfx: Prefixes, b: u8) -> Prefixes {
    let low = (b - 0x40) as u8;
    Prefixes {
        rex: true,
        rexw: low / 8 == 1,
        rexr: (low / 4) % 2 == 1,
        rexx: (low / 2) % 2 == 1,
        rexb: low % 2 == 1,
        ..pfx
    }
}

/// Accumulate prefixes from position `i` until the first non-prefix byte,
/// which is the opcode byte: returns the prefix state, that byte, and the
/// position after it. In long mode a byte in the REX range counts as a
/// prefix; in the other modes the same byte values are ordinary opcode
/// space. A run longer than the instruction length cap is refused.
pub open spec fn spec_prefixes(
    mode: DecodeMode,
    s: Seq<u8>,
    i: int,
    pfx: Prefixes,
    fuel: nat,
) -> Result<(Prefixes, u8, int), DecodeError>
    decreases fuel,
{
    match sread(s, i) {
        Err(e) => Err(e),
        Ok(b) => {
            if spec_is_legacy_prefix(b) {
                if fuel == 0 {
                    Err(DecodeError::TooLong)
                } else {
                    spec_prefixes(mode, s, i + 1, spec_apply_prefix(pfx, b), (fuel - 1) as nat)
                }
            } else if mode is Long && 0x40 <= b < 0x50 {
                if fuel == 0 {
                    Err(DecodeError::TooLong)
                } else {
                    spec_prefixes(mode, s, i + 1, spec_apply_rex(pfx, b), (fuel - 1) as nat)
                }
            } else {
                Ok((pfx, b, i + 1))
            }
        },
    }
}

/// The effective operand size of ordinary data operations, in bytes: the
/// mode's default, flipped by the operand-size override, with the REX width
/// bit taking precedence in long mode.
pub open spec fn spec_op_size(mode: DecodeMode, pfx: Prefixes) -> u8 {
    match mode {
        DecodeMode::Real => if pfx.opsize {
            4
        } else {
            2
        },
        DecodeMode::Protected => if pfx.opsize {
            2
        } else {
            4
        },
        DecodeMode::Long => if pfx.rexw {
            8
        } else if pfx.opsize {
            2
        } else {
            4
        },
    }
}

/// The effective operand size of near branches and stack operations: in long
/// mode these default to the full 8 bytes and only the operand-size override
/// narrows them; elsewhere they follow the ordinary operand size.
pub open spec fn spec_branch_size(mode: DecodeMode, pfx: Prefixes) -> u8 {
    match mode {
        DecodeMode::Long => if pfx.rexw {
            8
        } else if pfx.opsize {
            2
        } else {
            8
        },
        _ => spec_op_size(mode, pfx),
    }
}

/// The encoded size of a relative branch displacement.
pub open spec fn spec_rel_size(mode: DecodeMode, pfx: Prefixes) -> u8 {
    match mode {
        DecodeMode::Real => if pfx.opsize {
            4
        } else {
            2
        },
        DecodeMode::Protected => if pfx.opsize {
            2
        } else {
            4
        },
        DecodeMode::Long => 4,
    }
}

/// The effective address size, in bytes: the mode's default flipped by the
/// address-size override.
pub open spec fn spec_addr_size(mode: DecodeMode, pfx: Prefixes) -> u8 {
    match mode {
        DecodeMode::Real => if pfx.adsize {
            4
        } else {
            2
        },
        DecodeMode::Protected => if pfx.adsize {
            2
        } else {
            4
        },
        DecodeMode::Long => if pfx.adsize {
            4
        } else {
            8
        },
    }
}

/// The encoded size of an immediate for an operand of width `w`: immediates
/// above four bytes are encoded as four and sign-extended.
pub open spec fn spec_imm_enc(w: u8) -> u8 {
    if w == 8 {
        4
    } else {
        w
    }
}

/// The general-purpose register of width `w` at extended index `num`. Byte
/// registers split by REX presence: without it, indices 4 through 7 name the
/// legacy high bytes; with it, the low bytes of `rsp` through `rdi`.
pub open spec fn spec_gpreg(pfx: Prefixes, w: u8, num: u8) -> RegSpec {
    let bank = if w == 1 {
        if pfx.rex {
            RegisterBank::ByteRex
        } else {
            RegisterBank::ByteLegacy
        }
    } else if w == 2 {
        RegisterBank::Word
    } else if w == 4 {
        RegisterBank::Double
    } else {
        RegisterBank::Quad
    };
    RegSpec { bank, num }
}

/// The register bank addresses of size `asz` are formed over.
pub open spec fn spec_addr_bank(asz: u8) -> RegisterBank {
    if asz == 8 {
        RegisterBank::Quad
    } else if asz == 4 {
        RegisterBank::Double
    } else {
        RegisterBank::Word
    }
}

/// The ModRM rm field before an operand width is chosen: either a direct
/// register's extended index, or a fully resolved memory reference.
#[derive(Clone, Copy, Debug, PartialEq, Eq)]
pub enum RmRef {
    Direct(u8),
    Mem(MemOperand),
}

/// The rm field as an operand of width `w`.
pub open spec fn spec_rm_operand(pfx: Prefixes, w: u8, rm: RmRef) -> Operand {
    match rm {
        RmRef::Direct(num) => Operand::Register(spec_gpreg(pfx, w, num)),
        RmRef::Mem(m) => Operand::Memory(m),
    }
}

/// Resolve a memory-form ModRM under 16-bit addressing: the fixed base/index
/// pair table, with a 16-bit absolute form at mod 0, rm 6.
#[verifier::opaque]
pub open spec fn spec_mem16(
    s: Seq<u8>,
    i: int,
    modbits: u8,
    rm: u8,
) -> Result<(MemOperand, int), DecodeError> {
    let bank = RegisterBank::Word;
    let base: Option<RegSpec> = if rm == 0 || rm == 1 || rm == 7 {
        Some(RegSpec { bank, num: 3 })
    } else if rm == 2 || rm == 3 || rm == 6 {
        Some(RegSpec { bank, num: 5 })
    } else if rm == 4 {
        Some(RegSpec { bank, num: 6 })
    } else {
        Some(RegSpec { bank, num: 7 })
    };
    let index: Option<RegSpec> = if rm == 0 || rm == 2 {
        Some(RegSpec { bank, num: 6 })
    } else if rm == 1 || rm == 3 {
        Some(RegSpec { bank, num: 7 })
    } else {
        None
    };
    if modbits == 0 && rm == 6 {
        match spec_imm(s, i, 2) {
            Err(e) => Err(e),
            Ok((d, j)) => Ok((MemOperand { base: None, index: None, scale: 1, disp: d }, j)),
        }
    } else if modbits == 0 {
        Ok((MemOperand { base, index, scale: 1, disp: 0 }, i))
    } else {
        let enc: u8 = if modbits == 1 {
            1
        } else {
            2
        };
        match spec_imm(s, i, enc) {
            Err(e) => Err(e),
            Ok((d, j)) => Ok((MemOperand { base, index, scale: 1, disp: d }, j)),
        }
    }
}

/// Resolve a memory-form ModRM under 32- or 64-bit addressing, including the
/// SIB byte, the no-base disp32 special cases, and RIP-relative addressing
/// in long mode.
#[verifier::opaque]
pub open spec fn spec_mem_sib(
    mode: DecodeMode,
    pfx: Prefixes,
    s: Seq<u8>,
    i: int,
    modbits: u8,
    rm: u8,
    bank: RegisterBank,
) -> Result<(MemOperand, int), DecodeError> {
    if rm == 4 {
        match sread(s, i) {
            Err(e) => Err(e),
            Ok(sib) => {
                let ss = sib / 64;
                let scale: u8 = if ss == 0 {
                    1
                } else if ss == 1 {
                    2
                } else if ss == 2 {
                    4
                } else {
                    8
                };
                let idx = ((sib / 8) % 8 + if pfx.rexx {
                    8u8
                } else {
                    0u8
                }) as u8;
                let index: Option<RegSpec> = if idx == 4 {
                    None
                } else {
                    Some(RegSpec { bank, num: idx })
                };
                let base_field = sib % 8;
                if base_field == 5 && modbits == 0 {
                    match spec_imm(s, i + 1, 4) {
                        Err(e) => Err(e),
                        Ok((d, j)) => Ok((MemOperand { base: None, index, scale, disp: d }, j)),
                    }
                } else {
                    let base = Some(
                        RegSpec {
                            bank,
                            num: (base_field + if pfx.rexb {
                                8u8
                            } else {
                                0u8
                            }) as u8,
                        },
                    );
                    if modbits == 0 {
                        Ok((MemOperand { base, index, scale, disp: 0 }, i + 1))
                    } else {
                        let enc: u8 = if modbits == 1 {
                            1
                        } else {
                            4
                        };
                        match spec_imm(s, i + 1, enc) {
                            Err(e) => Err(e),
                            Ok((d, j)) => Ok((MemOperand { base, index, scale, disp: d }, j)),
                        }
                    }
                }
            },
        }
    } else if modbits == 0 && rm == 5 {
        match spec_imm(s, i, 4) {
            Err(e) => Err(e),
            Ok((d, j)) => {
                let base: Option<RegSpec> = if mode is Long {
                    Some(RegSpec { bank: RegisterBank::InstPtr, num: 0 })
                } else {
                    None
                };
                Ok((MemOperand { base, index: None, scale: 1, disp: d }, j))
            },
        }
    } else {
        let base = Some(
            RegSpec {
                bank,
                num: (rm + if pfx.rexb {
                    8u8
                } else {
                    0u8
                }) as u8,
            },
        );
        if modbits == 0 {
            Ok((MemOperand { base, index: None, scale: 1, disp: 0 }, i))
        } else {
            let enc: u8 = if modbits == 1 {
                1
            } else {
                4
            };
            match spec_imm(s, i, enc) {
                Err(e) => Err(e),
                Ok((d, j)) => Ok((MemOperand { base, index: None, scale: 1, disp: d }, j)),
            }
        }
    }
}

/// Read and resolve a ModRM byte at `i`: the (REX-extended) reg field, the
/// rm side as a register index or resolved memory reference, and the
/// position after all addressing bytes.
#[verifier::opaque]
pub open spec fn spec_modrm(
    mode: DecodeMode,
    pfx: Prefixes,
    s: Seq<u8>,
    i: int,
) -> Result<((u8, RmRef), int), DecodeError> {
    match sread(s, i) {
        Err(e) => Err(e),
        Ok(m) => {
            let modbits = m / 64;
            let reg = ((m / 8) % 8 + if pfx.rexr {
                8u8
            } else {
                0u8
            }) as u8;
            let rm = m % 8;
            if modbits == 3 {
                let num = (rm + if pfx.rexb {
                    8u8
                } else {
                    0u8
                }) as u8;
                Ok(((reg, RmRef::Direct(num)), i + 1))
            } else {
                let asz = spec_addr_size(mode, pfx);
                if asz == 2 {
                    match spec_mem16(s, i + 1, modbits, rm) {
                        Err(e) => Err(e),
                        Ok((mem, j)) => Ok(((reg, RmRef::Mem(mem)), j)),
                    }
                } else {
                    match spec_mem_sib(mode, pfx, s, i + 1, modbits, rm, spec_addr_bank(asz)) {
                        Err(e) => Err(e),
                        Ok((mem, j)) => Ok(((reg, RmRef::Mem(mem)), j)),
                    }
                }
            }
        },
    }
}

/// The eight one-byte-map arithmetic/logic mnemonics, in opcode-map order;
/// also the group-1 immediate forms' selection by the ModRM reg field.
pub open spec fn spec_alu_op(k: u8) -> Opcode {
    if k == 0 {
        Opcode::ADD
    } else if k == 1 {
        Opcode::OR
    } else if k == 2 {
        Opcode::ADC
    } else if k == 3 {
        Opcode::SBB
    } else if k == 4 {
        Opcode::AND
    } else if k == 5 {
        Opcode::SUB
    } else if k == 6 {
        Opcode::XOR
    } else {
        Opcode::CMP
    }
}

/// The sixteen conditional branch mnemonics, by condition code.
pub open spec fn spec_jcc_op(k: u8) -> Opcode {
    if k == 0 {
        Opcode::JO
    } else if k == 1 {
        Opcode::JNO
    } else if k == 2 {
        Opcode::JB
    } else if k == 3 {
        Opcode::JNB
    } else if k == 4 {
        Opcode::JZ
    } else if k == 5 {
        Opcode::JNZ
    } else if k == 6 {
        Opcode::JNA
    } else if k == 7 {
        Opcode::JA
    } else if k == 8 {
        Opcode::JS
    } else if k == 9 {
        Opcode::JNS
    } else if k == 10 {
        Opcode::JP
    } else if k == 11 {
        Opcode::JNP
    } else if k == 12 {
        Opcode::JL
    } else if k == 13 {
        Opcode::JGE
    } else if k == 14 {
        Opcode::JLE
    } else {
        Opcode::JG
    }
}

/// A memory reference through a string instruction's implied pointer
/// register (`si`/`esi`/`rsi` at index 6, `di`/`edi`/`rdi` at index 7, by
/// the effective address size).
pub open spec fn spec_str_mem(mode: DecodeMode, pfx: Prefixes, num: u8) -> MemOperand {
    MemOperand {
        base: Some(RegSpec { bank: spec_addr_bank(spec_addr_size(mode, pfx)), num }),
        index: None,
        scale: 1,
        disp: 0,
    }
}

/// Everything the opcode stage determines besides the consumed length:
/// mnemonic, up to three operands, their count, and the effective operand
/// width of the instruction's data operands.
#[derive(Clone, Copy, Debug, PartialEq, Eq)]
pub struct Body {
    pub opc: Opcode,
    pub op0: Operand,
    pub op1: Operand,
    pub op2: Operand,
    pub count: u8,
    pub width: u8,
    /// The operand came from a ModRM r/m field: its access width is
    /// explicit.
    pub explicit_width: bool,
}

/// The bounds the opcode stage guarantees of its result.
pub open spec fn body_wf(b: Body) -> bool {
    &&& b.count <= 3
    &&& (b.width == 1 || b.width == 2 || b.width == 4 || b.width == 8)
    &&& (b.count <= 0 ==> b.op0 == Operand::Nothing)
    &&& (b.count <= 1 ==> b.op1 == Operand::Nothing)
    &&& (b.count <= 2 ==> b.op2 == Operand::Nothing)
}

/// A body with no operands.
pub open spec fn body0(opc: Opcode, width: u8) -> Body {
    Body {
        opc,
        op0: Operand::Nothing,
        op1: Operand::Nothing,
        op2: Operand::Nothing,
        count: 0,
        width,
        explicit_width: false,
    }
}

/// A body with one operand.
pub open spec fn body1(opc: Opcode, op0: Operand, width: u8) -> Body {
    Body { opc, op0, op1: Operand::Nothing, op2: Operand::Nothing, count: 1, width, explicit_width: false }
}

/// A body with two operands.
pub open spec fn body2(opc: Opcode, op0: Operand, op1: Operand, width: u8) -> Body {
    Body { opc, op0, op1, op2: Operand::Nothing, count: 2, width, explicit_width: false }
}

/// A body with one operand that came from a ModRM r/m field: its access
/// width is explicit.
pub open spec fn body1e(opc: Opcode, op0: Operand, width: u8) -> Body {
    Body {
        opc,
        op0,
        op1: Operand::Nothing,
        op2: Operand::Nothing,
        count: 1,
        width,
        explicit_width: true,
    }
}

/// The ALU block's ModRM forms (opcode-map bytes `0x00`-`0x3f`, column 0-3):
/// register/memory against register, direction and width selected by the low
/// opcode bits.
#[verifier::opaque]
pub open spec fn spec_body_alu_modrm(
    mode: DecodeMode,
    pfx: Prefixes,
    s: Seq<u8>,
    i: int,
    opc: Opcode,
    form: u8,
    w: u8,
) -> Result<(Body, int), DecodeError> {
    match spec_modrm(mode, pfx, s, i) {
        Err(e) => Err(e),
        Ok(((reg, rm), j)) => {
            let rm_op = spec_rm_operand(pfx, w, rm);
            let reg_op = Operand::Register(spec_gpreg(pfx, w, reg));
            if form == 0 || form == 1 {
                Ok((body2(opc, rm_op, reg_op, w), j))
            } else {
                Ok((body2(opc, reg_op, rm_op, w), j))
            }
        },
    }
}

/// An accumulator-against-immediate form: `op acc, imm`.
#[verifier::opaque]
pub open spec fn spec_body_acc_imm(
    pfx: Prefixes,
    s: Seq<u8>,
    i: int,
    opc: Opcode,
    w: u8,
) -> Result<(Body, int), DecodeError> {
    match spec_imm(s, i, spec_imm_enc(w)) {
        Err(e) => Err(e),
        Ok((v, j)) => Ok(
            (
                body2(
                    opc,
                    Operand::Register(spec_gpreg(pfx, w, 0)),
                    Operand::Immediate { width: w, value: v },
                    w,
                ),
                j,
            ),
        ),
    }
}

/// The two-byte opcode map reached through the `0x0f` escape byte.
#[verifier::opaque]
pub open spec fn spec_body_0f(
    mode: DecodeMode,
    pfx: Prefixes,
    s: Seq<u8>,
    i: int,
) -> Result<(Body, int), DecodeError> {
    let w = spec_op_size(mode, pfx);
    match sread(s, i) {
        Err(e) => Err(e),
        Ok(b) => {
            let j = i + 1;
            if b == 0x05 {
                if mode is Long {
                    Ok((body0(Opcode::SYSCALL, w), j))
                } else {
                    Err(DecodeError::InvalidOpcode)
                }
            } else if b == 0x0b {
                Ok((body0(Opcode::UD2, w), j))
            } else if b == 0x1f {
                match spec_modrm(mode, pfx, s, j) {
                    Err(e) => Err(e),
                    Ok(((reg, rm), k)) => {
                        if reg % 8 == 0 {
                            Ok((body1(Opcode::NOP, spec_rm_operand(pfx, w, rm), w), k))
                        } else {
                            Err(DecodeError::InvalidOpcode)
                        }
                    },
                }
            } else if 0x80 <= b < 0x90 {
                let enc = spec_rel_size(mode, pfx);
                match spec_imm(s, j, enc) {
                    Err(e) => Err(e),
                    Ok((v, k)) => Ok(
                        (
                            body1(
                                spec_jcc_op((b - 0x80) as u8),
                                Operand::RelativeBranch { width: enc, offset: v },
                                w,
                            ),
                            k,
                        ),
                    ),
                }
            } else if b == 0xa2 {
                Ok((body0(Opcode::CPUID, w), j))
            } else if b == 0xaf {
                match spec_modrm(mode, pfx, s, j) {
                    Err(e) => Err(e),
                    Ok(((reg, rm), k)) => Ok(
                        (
                            body2(
                                Opcode::IMUL,
                                Operand::Register(spec_gpreg(pfx, w, reg)),
                                spec_rm_operand(pfx, w, rm),
                                w,
                            ),
                            k,
                        ),
                    ),
                }
            } else {
                Err(DecodeError::InvalidOpcode)
            }
        },
    }
}

/// A string instruction's body: the `rdi`-side and `rsi`-side references and
/// the accumulator, arranged per mnemonic.
#[verifier::opaque]
pub open spec fn spec_body_string(
    mode: DecodeMode,
    pfx: Prefixes,
    opc: Opcode,
    w: u8,
    i: int,
) -> Result<(Body, int), DecodeError> {
    let si = Operand::Memory(spec_str_mem(mode, pfx, 6));
    let di = Operand::Memory(spec_str_mem(mode, pfx, 7));
    let acc = Operand::Register(spec_gpreg(pfx, w, 0));
    match opc {
        Opcode::MOVS => Ok((body2(opc, di, si, w), i)),
        Opcode::CMPS => Ok((body2(opc, si, di, w), i)),
        Opcode::STOS => Ok((body2(opc, di, acc, w), i)),
        Opcode::LODS => Ok((body2(opc, acc, si, w), i)),
        _ => Ok((body2(Opcode::SCAS, acc, di, w), i)),
    }
}

/// A group-1 immediate form (`0x80`, `0x81`, `0x83`, and `0x82` outside long
/// mode): the ModRM reg field selects the ALU mnemonic.
#[verifier::opaque]
pub open spec fn spec_body_group1(
    mode: DecodeMode,
    pfx: Prefixes,
    s: Seq<u8>,
    i: int,
    w: u8,
    enc: u8,
) -> Result<(Body, int), DecodeError> {
    match spec_modrm(mode, pfx, s, i) {
        Err(e) => Err(e),
        Ok(((reg, rm), j)) => match spec_imm(s, j, enc) {
            Err(e) => Err(e),
            Ok((v, k)) => Ok(
                (
                    body2(
                        spec_alu_op((reg % 8) as u8),
                        spec_rm_operand(pfx, w, rm),
                        Operand::Immediate { width: w, value: v },
                        w,
                    ),
                    k,
                ),
            ),
        },
    }
}

/// The `0xff` group: increment/decrement, near and far indirect branches,
/// and push, selected by the ModRM reg field. The far forms exist only with
/// a memory operand.
#[verifier::opaque]
pub open spec fn spec_body_ff(
    mode: DecodeMode,
    pfx: Prefixes,
    s: Seq<u8>,
    i: int,
) -> Result<(Body, int), DecodeError> {
    match spec_modrm(mode, pfx, s, i) {
        Err(e) => Err(e),
        Ok(((reg, rm), j)) => {
            let sel = reg % 8;
            let w = spec_op_size(mode, pfx);
            let bw = spec_branch_size(mode, pfx);
            if sel == 0 {
                Ok((body1e(Opcode::INC, spec_rm_operand(pfx, w, rm), w), j))
            } else if sel == 1 {
                Ok((body1e(Opcode::DEC, spec_rm_operand(pfx, w, rm), w), j))
            } else if sel == 2 {
                Ok((body1e(Opcode::CALL, spec_rm_operand(pfx, bw, rm), bw), j))
            } else if sel == 3 {
                match rm {
                    RmRef::Mem(m) => Ok((body1e(Opcode::CALLF, Operand::Memory(m), w), j)),
                    RmRef::Direct(n) => Err(DecodeError::InvalidOperand),
                }
            } else if sel == 4 {
                Ok((body1e(Opcode::JMP, spec_rm_operand(pfx, bw, rm), bw), j))
            } else if sel == 5 {
                match rm {
                    RmRef::Mem(m) => Ok((body1e(Opcode::JMPF, Operand::Memory(m), w), j)),
                    RmRef::Direct(n) => Err(DecodeError::InvalidOperand),
                }
            } else if sel == 6 {
                Ok((body1e(Opcode::PUSH, spec_rm_operand(pfx, bw, rm), bw), j))
            } else {
                Err(DecodeError::InvalidOpcode)
            }
        },
    }
}

/// The `0xf6`/`0xf7` group: test-immediate and the unary arithmetic forms,
/// selected by the ModRM reg field.
#[verifier::opaque]
pub open spec fn spec_body_group3(
    mode: DecodeMode,
    pfx: Prefixes,
    s: Seq<u8>,
    i: int,
    w: u8,
) -> Result<(Body, int), DecodeError> {
    match spec_modrm(mode, pfx, s, i) {
        Err(e) => Err(e),
        Ok(((reg, rm), j)) => {
            let sel = reg % 8;
            let rm_op = spec_rm_operand(pfx, w, rm);
            if sel == 0 || sel == 1 {
                match spec_imm(s, j, spec_imm_enc(w)) {
                    Err(e) => Err(e),
                    Ok((v, k)) => Ok(
                        (body2(Opcode::TEST, rm_op, Operand::Immediate { width: w, value: v }, w), k),
                    ),
                }
            } else {
                let opc = if sel == 2 {
                    Opcode::NOT
                } else if sel == 3 {
                    Opcode::NEG
                } else if sel == 4 {
                    Opcode::MUL
                } else if sel == 5 {
                    Opcode::IMUL
                } else if sel == 6 {
                    Opcode::DIV
                } else {
                    Opcode::IDIV
                };
                Ok((body1(opc, rm_op, w), j))
            }
        },
    }
}

/// The opcode stage's lower range: the ALU block, segment push/pop, the
/// escape byte, the decimal-adjust forms, and the short increment/decrement
/// and push/pop rows.
#[verifier::opaque]
pub open spec fn spec_body_lo(
    mode: DecodeMode,
    pfx: Prefixes,
    s: Seq<u8>,
    i: int,
    b: u8,
) -> Result<(Body, int), DecodeError> {
    let w = spec_op_size(mode, pfx);
    let bw = spec_branch_size(mode, pfx);
    let rexb8: u8 = if pfx.rexb {
        8
    } else {
        0
    };
    if b < 0x40 && b % 8 < 4 && !(b == 0x0f || b == 0x26 || b == 0x2e || b == 0x36 || b == 0x3e) {
        let width = if b % 2 == 0 {
            1u8
        } else {
            w
        };
        spec_body_alu_modrm(mode, pfx, s, i, spec_alu_op(b / 8), b % 8, width)
    } else if b < 0x40 && b % 8 == 4 {
        spec_body_acc_imm(pfx, s, i, spec_alu_op(b / 8), 1)
    } else if b < 0x40 && b % 8 == 5 {
        spec_body_acc_imm(pfx, s, i, spec_alu_op(b / 8), w)
    } else if b == 0x06 || b == 0x07 || b == 0x0e || b == 0x16 || b == 0x17 || b == 0x1e || b
        == 0x1f {
        if mode is Long {
            Err(DecodeError::InvalidOpcode)
        } else {
            let opc = if b == 0x07 || b == 0x17 || b == 0x1f {
                Opcode::POP
            } else {
                Opcode::PUSH
            };
            let num: u8 = if b == 0x06 || b == 0x07 {
                0
            } else if b == 0x0e {
                1
            } else if b == 0x16 || b == 0x17 {
                2
            } else {
                3
            };
            Ok(
                (
                    body1(opc, Operand::Register(RegSpec { bank: RegisterBank::Seg, num }), bw),
                    i,
                ),
            )
        }
    } else if b == 0x0f {
        spec_body_0f(mode, pfx, s, i)
    } else if b == 0x27 || b == 0x2f || b == 0x37 || b == 0x3f {
        if mode is Long {
            Err(DecodeError::InvalidOpcode)
        } else {
            let opc = if b == 0x27 {
                Opcode::DAA
            } else if b == 0x2f {
                Opcode::DAS
            } else if b == 0x37 {
                Opcode::AAA
            } else {
                Opcode::AAS
            };
            Ok((body0(opc, w), i))
        }
    } else if 0x40 <= b < 0x50 {
        // long mode never reaches here: these bytes are REX prefixes there
        let opc = if b < 0x48 {
            Opcode::INC
        } else {
            Opcode::DEC
        };
        Ok((body1(opc, Operand::Register(spec_gpreg(pfx, w, b % 8)), w), i))
    } else if 0x50 <= b < 0x60 {
        let opc = if b < 0x58 {
            Opcode::PUSH
        } else {
            Opcode::POP
        };
        Ok(
            (
                body1(opc, Operand::Register(spec_gpreg(pfx, bw, (b % 8 + rexb8) as u8)), bw),
                i,
            ),
        )
    } else {
        Err(DecodeError::InvalidOpcode)
    }
}

/// The opcode stage's `0x68`-`0x7f` range: push-immediate, three-operand
/// multiply, and the short conditional branches.
#[verifier::opaque]
pub open spec fn spec_body_mid(
    mode: DecodeMode,
    pfx: Prefixes,
    s: Seq<u8>,
    i: int,
    b: u8,
) -> Result<(Body, int), DecodeError> {
    let w = spec_op_size(mode, pfx);
    let bw = spec_branch_size(mode, pfx);
    if b == 0x68 {
        let enc: u8 = if bw == 2 {
            2
        } else {
            4
        };
        match spec_imm(s, i, enc) {
            Err(e) => Err(e),
            Ok((v, j)) => Ok((body1(Opcode::PUSH, Operand::Immediate { width: bw, value: v }, bw), j)),
        }
    } else if b == 0x69 || b == 0x6b {
        match spec_modrm(mode, pfx, s, i) {
            Err(e) => Err(e),
            Ok(((reg, rm), j)) => {
                let enc: u8 = if b == 0x6b {
                    1
                } else {
                    spec_imm_enc(w)
                };
                match spec_imm(s, j, enc) {
                    Err(e) => Err(e),
                    Ok((v, k)) => Ok(
                        (
                            Body {
                                opc: Opcode::IMUL,
                                op0: Operand::Register(spec_gpreg(pfx, w, reg)),
                                op1: spec_rm_operand(pfx, w, rm),
                                op2: Operand::Immediate { width: w, value: v },
                                count: 3,
                                width: w,
                                explicit_width: false,
                            },
                            k,
                        ),
                    ),
                }
            },
        }
    } else if b == 0x6a {
        match spec_imm(s, i, 1) {
            Err(e) => Err(e),
            Ok((v, j)) => Ok((body1(Opcode::PUSH, Operand::Immediate { width: 1, value: v }, bw), j)),
        }
    } else if 0x70 <= b < 0x80 {
        match spec_imm(s, i, 1) {
            Err(e) => Err(e),
            Ok((v, j)) => Ok(
                (
                    body1(
                        spec_jcc_op((b - 0x70) as u8),
                        Operand::RelativeBranch { width: 1, offset: v },
                        w,
                    ),
                    j,
                ),
            ),
        }
    } else {
        Err(DecodeError::InvalidOpcode)
    }
}

/// The opcode stage's `0x80`-`0xaf` range: group-1 immediate forms, the
/// test/exchange/move block, load-effective-address, exchange with the
/// accumulator, flag push/pop, and the string instructions.
#[verifier::opaque]
pub open spec fn spec_body_mov_string(
    mode: DecodeMode,
    pfx: Prefixes,
    s: Seq<u8>,
    i: int,
    b: u8,
) -> Result<(Body, int), DecodeError> {
    let w = spec_op_size(mode, pfx);
    let bw = spec_branch_size(mode, pfx);
    let rexb8: u8 = if pfx.rexb {
        8
    } else {
        0
    };
    if b == 0x80 {
        spec_body_group1(mode, pfx, s, i, 1, 1)
    } else if b == 0x81 {
        spec_body_group1(mode, pfx, s, i, w, spec_imm_enc(w))
    } else if b == 0x82 {
        if mode is Long {
            Err(DecodeError::InvalidOpcode)
        } else {
            spec_body_group1(mode, pfx, s, i, 1, 1)
        }
    } else if b == 0x83 {
        spec_body_group1(mode, pfx, s, i, w, 1)
    } else if 0x84 <= b < 0x8c {
        let width = if b % 2 == 0 {
            1u8
        } else {
            w
        };
        let opc = if b < 0x86 {
            Opcode::TEST
        } else if b < 0x88 {
            Opcode::XCHG
        } else {
            Opcode::MOV
        };
        match spec_modrm(mode, pfx, s, i) {
            Err(e) => Err(e),
            Ok(((reg, rm), j)) => {
                let rm_op = spec_rm_operand(pfx, width, rm);
                let reg_op = Operand::Register(spec_gpreg(pfx, width, reg));
                if b == 0x8a || b == 0x8b {
                    Ok((body2(opc, reg_op, rm_op, width), j))
                } else {
                    Ok((body2(opc, rm_op, reg_op, width), j))
                }
            },
        }
    } else if b == 0x8d {
        match spec_modrm(mode, pfx, s, i) {
            Err(e) => Err(e),
            Ok(((reg, rm), j)) => match rm {
                RmRef::Mem(m) => Ok(
                    (
                        body2(
                            Opcode::LEA,
                            Operand::Register(spec_gpreg(pfx, w, reg)),
                            Operand::Memory(m),
                            w,
                        ),
                        j,
                    ),
                ),
                RmRef::Direct(n) => Err(DecodeError::InvalidOperand),
            },
        }
    } else if b == 0x8f {
        match spec_modrm(mode, pfx, s, i) {
            Err(e) => Err(e),
            Ok(((reg, rm), j)) => {
                if reg % 8 == 0 {
                    Ok((body1e(Opcode::POP, spec_rm_operand(pfx, bw, rm), bw), j))
                } else {
                    Err(DecodeError::InvalidOpcode)
                }
            },
        }
    } else if b == 0x90 {
        Ok((body0(Opcode::NOP, w), i))
    } else if 0x91 <= b < 0x98 {
        Ok(
            (
                body2(
                    Opcode::XCHG,
                    Operand::Register(spec_gpreg(pfx, w, 0)),
                    Operand::Register(spec_gpreg(pfx, w, (b % 8 + rexb8) as u8)),
                    w,
                ),
                i,
            ),
        )
    } else if b == 0x9c {
        Ok((body0(Opcode::PUSHF, bw), i))
    } else if b == 0x9d {
        Ok((body0(Opcode::POPF, bw), i))
    } else if 0xa4 <= b < 0xb0 && b != 0xa8 && b != 0xa9 {
        let width = if b % 2 == 0 {
            1u8
        } else {
            w
        };
        let opc = if b < 0xa6 {
            Opcode::MOVS
        } else if b < 0xa8 {
            Opcode::CMPS
        } else if b < 0xac {
            Opcode::STOS
        } else if b < 0xae {
            Opcode::LODS
        } else {
            Opcode::SCAS
        };
        spec_body_string(mode, pfx, opc, width, i)
    } else if b == 0xa8 {
        spec_body_acc_imm(pfx, s, i, Opcode::TEST, 1)
    } else if b == 0xa9 {
        spec_body_acc_imm(pfx, s, i, Opcode::TEST, w)
    } else {
        Err(DecodeError::InvalidOpcode)
    }
}

/// The opcode stage's `0xb0`-`0xdf` range: the move-immediate rows, the
/// returns, the move-to-r/m immediate forms, and the interrupt forms.
#[verifier::opaque]
pub open spec fn spec_body_hi(
    mode: DecodeMode,
    pfx: Prefixes,
    s: Seq<u8>,
    i: int,
    b: u8,
) -> Result<(Body, int), DecodeError> {
    let w = spec_op_size(mode, pfx);
    let bw = spec_branch_size(mode, pfx);
    let rexb8: u8 = if pfx.rexb {
        8
    } else {
        0
    };
    if 0xb0 <= b < 0xb8 {
        match spec_imm(s, i, 1) {
            Err(e) => Err(e),
            Ok((v, j)) => Ok(
                (
                    body2(
                        Opcode::MOV,
                        Operand::Register(spec_gpreg(pfx, 1, (b % 8 + rexb8) as u8)),
                        Operand::Immediate { width: 1, value: v },
                        1,
                    ),
                    j,
                ),
            ),
        }
    } else if 0xb8 <= b < 0xc0 {
        match spec_imm(s, i, w) {
            Err(e) => Err(e),
            Ok((v, j)) => Ok(
                (
                    body2(
                        Opcode::MOV,
                        Operand::Register(spec_gpreg(pfx, w, (b % 8 + rexb8) as u8)),
                        Operand::Immediate { width: w, value: v },
                        w,
                    ),
                    j,
                ),
            ),
        }
    } else if b == 0xc2 {
        match spec_imm(s, i, 2) {
            Err(e) => Err(e),
            Ok((v, j)) => Ok(
                (body1(Opcode::RETURN, Operand::Immediate { width: 2, value: v }, bw), j),
            ),
        }
    } else if b == 0xc3 {
        Ok((body0(Opcode::RETURN, bw), i))
    } else if b == 0xc6 || b == 0xc7 {
        let width = if b == 0xc6 {
            1u8
        } else {
            w
        };
        match spec_modrm(mode, pfx, s, i) {
            Err(e) => Err(e),
            Ok(((reg, rm), j)) => {
                if reg % 8 == 0 {
                    match spec_imm(s, j, spec_imm_enc(width)) {
                        Err(e) => Err(e),
                        Ok((v, k)) => Ok(
                            (
                                body2(
                                    Opcode::MOV,
                                    spec_rm_operand(pfx, width, rm),
                                    Operand::Immediate { width, value: v },
                                    width,
                                ),
                                k,
                            ),
                        ),
                    }
                } else {
                    Err(DecodeError::InvalidOpcode)
                }
            },
        }
    } else if b == 0xcc {
        Ok((body0(Opcode::INT3, w), i))
    } else if b == 0xcd {
        match spec_imm(s, i, 1) {
            Err(e) => Err(e),
            Ok((v, j)) => Ok((body1(Opcode::INT, Operand::Immediate { width: 1, value: v }, w), j)),
        }
    } else {
        Err(DecodeError::InvalidOpcode)
    }
}

/// The opcode stage's `0xe0`-`0xff` range: relative call and jump, halt and
/// flag operations, and the unary and indirect groups.
#[verifier::opaque]
pub open spec fn spec_body_branch_groups(
    mode: DecodeMode,
    pfx: Prefixes,
    s: Seq<u8>,
    i: int,
    b: u8,
) -> Result<(Body, int), DecodeError> {
    let w = spec_op_size(mode, pfx);
    let bw = spec_branch_size(mode, pfx);
    if b == 0xe8 || b == 0xe9 {
        let enc = spec_rel_size(mode, pfx);
        let opc = if b == 0xe8 {
            Opcode::CALL
        } else {
            Opcode::JMP
        };
        match spec_imm(s, i, enc) {
            Err(e) => Err(e),
            Ok((v, j)) => Ok(
                (body1(opc, Operand::RelativeBranch { width: enc, offset: v }, bw), j),
            ),
        }
    } else if b == 0xeb {
        match spec_imm(s, i, 1) {
            Err(e) => Err(e),
            Ok((v, j)) => Ok(
                (body1(Opcode::JMP, Operand::RelativeBranch { width: 1, offset: v }, bw), j),
            ),
        }
    } else if b == 0xf4 {
        Ok((body0(Opcode::HLT, w), i))
    } else if b == 0xf5 {
        Ok((body0(Opcode::CMC, w), i))
    } else if b == 0xf6 {
        spec_body_group3(mode, pfx, s, i, 1)
    } else if b == 0xf7 {
        spec_body_group3(mode, pfx, s, i, w)
    } else if 0xf8 <= b {
        if b == 0xf8 {
            Ok((body0(Opcode::CLC, w), i))
        } else if b == 0xf9 {
            Ok((body0(Opcode::STC, w), i))
        } else if b == 0xfa {
            Ok((body0(Opcode::CLI, w), i))
        } else if b == 0xfb {
            Ok((body0(Opcode::STI, w), i))
        } else if b == 0xfc {
            Ok((body0(Opcode::CLD, w), i))
        } else if b == 0xfd {
            Ok((body0(Opcode::STD, w), i))
        } else if b == 0xfe {
            match spec_modrm(mode, pfx, s, i) {
                Err(e) => Err(e),
                Ok(((reg, rm), j)) => {
                    if reg % 8 == 0 {
                        Ok((body1(Opcode::INC, spec_rm_operand(pfx, 1, rm), 1), j))
                    } else if reg % 8 == 1 {
                        Ok((body1(Opcode::DEC, spec_rm_operand(pfx, 1, rm), 1), j))
                    } else {
                        Err(DecodeError::InvalidOpcode)
                    }
                },
            }
        } else {
            spec_body_ff(mode, pfx, s, i)
        }
    } else {
        Err(DecodeError::InvalidOpcode)
    }
}

/// The opcode stage: dispatch on the opcode byte `b` (read just before `i`),
/// consume whatever ModRM, SIB, displacement and immediate bytes the form
/// requires, and deliver the instruction's body and the position after it.
pub open spec fn spec_body(
    mode: DecodeMode,
    pfx: Prefixes,
    s: Seq<u8>,
    i: int,
    b: u8,
) -> Result<(Body, int), DecodeError> {
    if b < 0x68 {
        spec_body_lo(mode, pfx, s, i, b)
    } else if b < 0x80 {
        spec_body_mid(mode, pfx, s, i, b)
    } else if b < 0xb0 {
        spec_body_mov_string(mode, pfx, s, i, b)
    } else if b < 0xe0 {
        spec_body_hi(mode, pfx, s, i, b)
    } else {
        spec_body_branch_groups(mode, pfx, s, i, b)
    }
}

/// Whether the lock prefix is architecturally permitted: only on the
/// read-modify-write instructions, and only with a memory destination.
pub open spec fn spec_lockable(b: Body) -> bool {
    &&& match b.opc {
        Opcode::ADD => true,
        Opcode::OR => true,
        Opcode::ADC => true,
        Opcode::SBB => true,
        Opcode::AND => true,
        Opcode::SUB => true,
        Opcode::XOR => true,
        Opcode::INC => true,
        Opcode::DEC => true,
        Opcode::NOT => true,
        Opcode::NEG => true,
        Opcode::XCHG => true,
        _ => false,
    }
    &&& b.op0 is Memory
}

/// The mathematical decoder: what one instruction at the head of `s` means,
/// or the precise failure. Prefix accumulation, the opcode stage, the lock
/// legality rule, and the architectural length cap, in that order.
pub open spec fn spec_decode(mode: DecodeMode, s: Seq<u8>) -> Result<InstCore, DecodeError> {
    match spec_prefixes(mode, s, 0, Prefixes::spec_none(), MAX_INSN_LEN as nat) {
        Err(e) => Err(e),
        Ok((pfx, b, i)) => match spec_body(mode, pfx, s, i, b) {
            Err(e) => Err(e),
            Ok((body, j)) => {
                if pfx.lock && !spec_lockable(body) {
                    Err(DecodeError::InvalidPrefixes)
                } else if j > MAX_INSN_LEN as int {
                    Err(DecodeError::TooLong)
                } else {
                    Ok(
                        InstCore {
                            mode,
                            opcode: body.opc,
                            operands: OperandList {
                                slot0: body.op0,
                                slot1: body.op1,
                                slot2: body.op2,
                                slot3: Operand::Nothing,
                            },
                            operand_count: body.count,
                            prefixes: pfx,
                            operand_width: body.width,
                            explicit_width: body.explicit_width,
                            length: j as u8,
                        },
                    )
                }
            },
        },
    }
}

/// The executable engine's cursor stands at position `i` of the spec-level
/// byte sequence `s` (the bytes from the start of the instruction being
/// decoded).
pub open spec fn tracks<'a>(r: Reader<'a>, s: Seq<u8>, i: int) -> bool {
    &&& r.wf()
    &&& 0 <= i <= s.len()
    &&& s.len() - i == r.spec_data().len() - r.spec_pos()
    &&& forall|j: int| i <= j < s.len() ==> s[j] == r.spec_data()[r.spec_pos() + (j - i)]
}

/// Consume one byte, mirroring `sread` at tracked position `i`.
fn read_byte<'a>(words: &mut Reader<'a>, Ghost(s): Ghost<Seq<u8>>, Ghost(i): Ghost<int>) -> (r:
    Result<u8, DecodeError>)
    requires
        tracks(*old(words), s, i),
    ensures
        final(words).spec_data() == old(words).spec_data(),
        old(words).spec_pos() <= final(words).spec_pos(),
        final(words).wf(),
        match r {
            Ok(b) => {
                &&& tracks(*final(words), s, i + 1)
                &&& sread(s, i) == Ok::<u8, DecodeError>(b)
                &&& final(words).spec_pos() == old(words).spec_pos() + 1
            },
            Err(e) => sread(s, i) == Err::<u8, DecodeError>(e),
        },
{
    words.next()
}

/// Consume two bytes little-endian, mirroring `spec_le2`.
fn read_le2<'a>(words: &mut Reader<'a>, Ghost(s): Ghost<Seq<u8>>, Ghost(i): Ghost<int>) -> (r:
    Result<u16, DecodeError>)
    requires
        tracks(*old(words), s, i),
    ensures
        final(words).spec_data() == old(words).spec_data(),
        old(words).spec_pos() <= final(words).spec_pos(),
        final(words).wf(),
        match r {
            Ok(v) => {
                &&& tracks(*final(words), s, i + 2)
                &&& spec_le2(s, i) == Ok::<(int, int), DecodeError>((v as int, i + 2))
                &&& final(words).spec_pos() == old(words).spec_pos() + 2
            },
            Err(e) => spec_le2(s, i) == Err::<(int, int), DecodeError>(e),
        },
{
    proof {
        reveal(spec_le2);
    }
    let b0 = match read_byte(words, Ghost(s), Ghost(i)) {
        Ok(b) => b,
        Err(e) => {
            return Err(e);
        },
    };
    let b1 = match read_byte(words, Ghost(s), Ghost(i + 1)) {
        Ok(b) => b,
        Err(e) => {
            return Err(e);
        },
    };
    Ok(b0 as u16 + 0x100 * (b1 as u16))
}

/// Consume four bytes little-endian, mirroring `spec_le4`.
fn read_le4<'a>(words: &mut Reader<'a>, Ghost(s): Ghost<Seq<u8>>, Ghost(i): Ghost<int>) -> (r:
    Result<u32, DecodeError>)
    requires
        tracks(*old(words), s, i),
    ensures
        final(words).spec_data() == old(words).spec_data(),
        old(words).spec_pos() <= final(words).spec_pos(),
        final(words).wf(),
        match r {
            Ok(v) => {
                &&& tracks(*final(words), s, i + 4)
                &&& spec_le4(s, i) == Ok::<(int, int), DecodeError>((v as int, i + 4))
                &&& final(words).spec_pos() == old(words).spec_pos() + 4
            },
            Err(e) => spec_le4(s, i) == Err::<(int, int), DecodeError>(e),
        },
{
    proof {
        reveal(spec_le4);
    }
    let lo = match read_le2(words, Ghost(s), Ghost(i)) {
        Ok(v) => v,
        Err(e) => {
            return Err(e);
        },
    };
    let hi = match read_le2(words, Ghost(s), Ghost(i + 2)) {
        Ok(v) => v,
        Err(e) => {
            return Err(e);
        },
    };
    Ok(lo as u32 + 0x10000 * (hi as u32))
}

/// Consume eight bytes little-endian, mirroring `spec_le8`.
fn read_le8<'a>(words: &mut Reader<'a>, Ghost(s): Ghost<Seq<u8>>, Ghost(i): Ghost<int>) -> (r:
    Result<u64, DecodeError>)
    requires
        tracks(*old(words), s, i),
    ensures
        final(words).spec_data() == old(words).spec_data(),
        old(words).spec_pos() <= final(words).spec_pos(),
        final(words).wf(),
        match r {
            Ok(v) => {
                &&& tracks(*final(words), s, i + 8)
                &&& spec_le8(s, i) == Ok::<(int, int), DecodeError>((v as int, i + 8))
                &&& final(words).spec_pos() == old(words).spec_pos() + 8
            },
            Err(e) => spec_le8(s, i) == Err::<(int, int), DecodeError>(e),
        },
{
    proof {
        reveal(spec_le8);
    }
    let lo = match read_le4(words, Ghost(s), Ghost(i)) {
        Ok(v) => v,
        Err(e) => {
            return Err(e);
        },
    };
    let hi = match read_le4(words, Ghost(s), Ghost(i + 4)) {
        Ok(v) => v,
        Err(e) => {
            return Err(e);
        },
    };
    Ok(lo as u64 + 0x100000000 * (hi as u64))
}

/// Consume a sign-extended immediate of encoded size `enc`, mirroring
/// `spec_imm`.
fn read_imm<'a>(
    words: &mut Reader<'a>,
    Ghost(s): Ghost<Seq<u8>>,
    Ghost(i): Ghost<int>,
    enc: u8,
) -> (r: Result<i64, DecodeError>)
    requires
        tracks(*old(words), s, i),
        enc == 1 || enc == 2 || enc == 4 || enc == 8,
    ensures
        final(words).spec_data() == old(words).spec_data(),
        old(words).spec_pos() <= final(words).spec_pos(),
        final(words).wf(),
        match r {
            Ok(v) => {
                &&& tracks(*final(words), s, i + enc)
                &&& spec_imm(s, i, enc) == Ok::<(i64, int), DecodeError>((v, i + enc))
                &&& final(words).spec_pos() == old(words).spec_pos() + enc
            },
            Err(e) => spec_imm(s, i, enc) == Err::<(i64, int), DecodeError>(e),
        },
{
    proof {
        reveal(spec_imm);
        reveal(spec_sext);
    }
    if enc == 1 {
        let b = match read_byte(words, Ghost(s), Ghost(i)) {
            Ok(b) => b,
            Err(e) => {
                return Err(e);
            },
        };
        if b < 0x80 {
            Ok(b as i64)
        } else {
            Ok(b as i64 - 0x100)
        }
    } else if enc == 2 {
        let v = match read_le2(words, Ghost(s), Ghost(i)) {
            Ok(v) => v,
            Err(e) => {
                return Err(e);
            },
        };
        if v < 0x8000 {
            Ok(v as i64)
        } else {
            Ok(v as i64 - 0x10000)
        }
    } else if enc == 4 {
        let v = match read_le4(words, Ghost(s), Ghost(i)) {
            Ok(v) => v,
            Err(e) => {
                return Err(e);
            },
        };
        if v < 0x80000000 {
            Ok(v as i64)
        } else {
            Ok(v as i64 - 0x100000000)
        }
    } else {
        let v = match read_le8(words, Ghost(s), Ghost(i)) {
            Ok(v) => v,
            Err(e) => {
                return Err(e);
            },
        };
        if v < 0x8000000000000000 {
            Ok(v as i64)
        } else {
            let w = v - 0x8000000000000000;
            Ok((w as i64) - 0x4000000000000000 - 0x4000000000000000)
        }
    }
}

/// Executable mirror of `spec_op_size`.
fn op_size(mode: DecodeMode, pfx: &Prefixes) -> (r: u8)
    ensures
        r == spec_op_size(mode, *pfx),
{
    match mode {
        DecodeMode::Real => if pfx.opsize {
            4
        } else {
            2
        },
        DecodeMode::Protected => if pfx.opsize {
            2
        } else {
            4
        },
        DecodeMode::Long => if pfx.rexw {
            8
        } else if pfx.opsize {
            2
        } else {
            4
        },
    }
}

/// Executable mirror of `spec_branch_size`.
fn branch_size(mode: DecodeMode, pfx: &Prefixes) -> (r: u8)
    ensures
        r == spec_branch_size(mode, *pfx),
{
    match mode {
        DecodeMode::Long => if pfx.rexw {
            8
        } else if pfx.opsize {
            2
        } else {
            8
        },
        _ => op_size(mode, pfx),
    }
}

/// Executable mirror of `spec_rel_size`.
fn rel_size(mode: DecodeMode, pfx: &Prefixes) -> (r: u8)
    ensures
        r == spec_rel_size(mode, *pfx),
{
    match mode {
        DecodeMode::Real => if pfx.opsize {
            4
        } else {
            2
        },
        DecodeMode::Protected => if pfx.opsize {
            2
        } else {
            4
        },
        DecodeMode::Long => 4,
    }
}

/// Executable mirror of `spec_addr_size`.
fn addr_size(mode: DecodeMode, pfx: &Prefixes) -> (r: u8)
    ensures
        r == spec_addr_size(mode, *pfx),
{
    match mode {
        DecodeMode::Real => if pfx.adsize {
            4
        } else {
            2
        },
        DecodeMode::Protected => if pfx.adsize {
            2
        } else {
            4
        },
        DecodeMode::Long => if pfx.adsize {
            4
        } else {
            8
        },
    }
}

/// Executable mirror of `spec_imm_enc`.
fn imm_enc(w: u8) -> (r: u8)
    ensures
        r == spec_imm_enc(w),
{
    if w == 8 {
        4
    } else {
        w
    }
}

/// Executable mirror of `spec_gpreg`.
fn gpreg(pfx: &Prefixes, w: u8, num: u8) -> (r: RegSpec)
    ensures
        r == spec_gpreg(*pfx, w, num),
{
    let bank = if w == 1 {
        if pfx.rex {
            RegisterBank::ByteRex
        } else {
            RegisterBank::ByteLegacy
        }
    } else if w == 2 {
        RegisterBank::Word
    } else if w == 4 {
        RegisterBank::Double
    } else {
        RegisterBank::Quad
    };
    RegSpec { bank, num }
}

/// Executable mirror of `spec_addr_bank`.
fn addr_bank(asz: u8) -> (r: RegisterBank)
    ensures
        r == spec_addr_bank(asz),
{
    if asz == 8 {
        RegisterBank::Quad
    } else if asz == 4 {
        RegisterBank::Double
    } else {
        RegisterBank::Word
    }
}

/// Executable mirror of `spec_rm_operand`.
fn rm_operand(pfx: &Prefixes, w: u8, rm: &RmRef) -> (r: Operand)
    ensures
        r == spec_rm_operand(*pfx, w, *rm),
{
    match rm {
        RmRef::Direct(num) => Operand::Register(gpreg(pfx, w, *num)),
        RmRef::Mem(m) => Operand::Memory(*m),
    }
}

/// Executable mirror of `spec_alu_op`.
fn alu_op(k: u8) -> (r: Opcode)
    ensures
        r == spec_alu_op(k),
{
    if k == 0 {
        Opcode::ADD
    } else if k == 1 {
        Opcode::OR
    } else if k == 2 {
        Opcode::ADC
    } else if k == 3 {
        Opcode::SBB
    } else if k == 4 {
        Opcode::AND
    } else if k == 5 {
        Opcode::SUB
    } else if k == 6 {
        Opcode::XOR
    } else {
        Opcode::CMP
    }
}

/// Executable mirror of `spec_jcc_op`.
fn jcc_op(k: u8) -> (r: Opcode)
    ensures
        r == spec_jcc_op(k),
{
    if k == 0 {
        Opcode::JO
    } else if k == 1 {
        Opcode::JNO
    } else if k == 2 {
        Opcode::JB
    } else if k == 3 {
        Opcode::JNB
    } else if k == 4 {
        Opcode::JZ
    } else if k == 5 {
        Opcode::JNZ
    } else if k == 6 {
        Opcode::JNA
    } else if k == 7 {
        Opcode::JA
    } else if k == 8 {
        Opcode::JS
    } else if k == 9 {
        Opcode::JNS
    } else if k == 10 {
        Opcode::JP
    } else if k == 11 {
        Opcode::JNP
    } else if k == 12 {
        Opcode::JL
    } else if k == 13 {
        Opcode::JGE
    } else if k == 14 {
        Opcode::JLE
    } else {
        Opcode::JG
    }
}

/// Executable mirror of `spec_str_mem`.
fn str_mem(mode: DecodeMode, pfx: &Prefixes, num: u8) -> (r: MemOperand)
    ensures
        r == spec_str_mem(mode, *pfx, num),
{
    MemOperand {
        base: Some(RegSpec { bank: addr_bank(addr_size(mode, pfx)), num }),
        index: None,
        scale: 1,
        disp: 0,
    }
}

/// Resolve a memory-form ModRM under 16-bit addressing, mirroring
/// `spec_mem16`.
fn read_mem16<'a>(
    words: &mut Reader<'a>,
    Ghost(s): Ghost<Seq<u8>>,
    Ghost(i): Ghost<int>,
    modbits: u8,
    rm: u8,
) -> (r: Result<MemOperand, DecodeError>)
    requires
        tracks(*old(words), s, i),
        rm < 8,
    ensures
        final(words).spec_data() == old(words).spec_data(),
        old(words).spec_pos() <= final(words).spec_pos(),
        final(words).wf(),
        match r {
            Ok(m) => {
                &&& tracks(
                    *final(words),
                    s,
                    i + final(words).spec_pos() - old(words).spec_pos(),
                )
                &&& spec_mem16(s, i, modbits, rm) == Ok::<(MemOperand, int), DecodeError>(
                    (m, i + final(words).spec_pos() - old(words).spec_pos()),
                )
            },
            Err(e) => spec_mem16(s, i, modbits, rm) == Err::<(MemOperand, int), DecodeError>(e),
        },
{
    proof {
        reveal(spec_mem16);
    }
    let bank = RegisterBank::Word;
    let base: Option<RegSpec> = if rm == 0 || rm == 1 || rm == 7 {
        Some(RegSpec { bank, num: 3 })
    } else if rm == 2 || rm == 3 || rm == 6 {
        Some(RegSpec { bank, num: 5 })
    } else if rm == 4 {
        Some(RegSpec { bank, num: 6 })
    } else {
        Some(RegSpec { bank, num: 7 })
    };
    let index: Option<RegSpec> = if rm == 0 || rm == 2 {
        Some(RegSpec { bank, num: 6 })
    } else if rm == 1 || rm == 3 {
        Some(RegSpec { bank, num: 7 })
    } else {
        None
    };
    if modbits == 0 && rm == 6 {
        let d = match read_imm(words, Ghost(s), Ghost(i), 2) {
            Ok(d) => d,
            Err(e) => {
                return Err(e);
            },
        };
        Ok(MemOperand { base: None, index: None, scale: 1, disp: d })
    } else if modbits == 0 {
        Ok(MemOperand { base, index, scale: 1, disp: 0 })
    } else {
        let enc: u8 = if modbits == 1 {
            1
        } else {
            2
        };
        let d = match read_imm(words, Ghost(s), Ghost(i), enc) {
            Ok(d) => d,
            Err(e) => {
                return Err(e);
            },
        };
        Ok(MemOperand { base, index, scale: 1, disp: d })
    }
}

/// Resolve a memory-form ModRM under 32- or 64-bit addressing, mirroring
/// `spec_mem_sib`.
fn read_mem_sib<'a>(
    mode: DecodeMode,
    pfx: &Prefixes,
    words: &mut Reader<'a>,
    Ghost(s): Ghost<Seq<u8>>,
    Ghost(i): Ghost<int>,
    modbits: u8,
    rm: u8,
    bank: RegisterBank,
) -> (r: Result<MemOperand, DecodeError>)
    requires
        tracks(*old(words), s, i),
        rm < 8,
    ensures
        final(words).spec_data() == old(words).spec_data(),
        old(words).spec_pos() <= final(words).spec_pos(),
        final(words).wf(),
        match r {
            Ok(m) => {
                &&& tracks(
                    *final(words),
                    s,
                    i + final(words).spec_pos() - old(words).spec_pos(),
                )
                &&& spec_mem_sib(mode, *pfx, s, i, modbits, rm, bank) == Ok::<
                    (MemOperand, int),
                    DecodeError,
                >((m, i + final(words).spec_pos() - old(words).spec_pos()))
            },
            Err(e) => spec_mem_sib(mode, *pfx, s, i, modbits, rm, bank) == Err::<
                (MemOperand, int),
                DecodeError,
            >(e),
        },
{
    proof {
        reveal(spec_mem_sib);
    }
    if rm == 4 {
        let sib = match read_byte(words, Ghost(s), Ghost(i)) {
            Ok(b) => b,
            Err(e) => {
                return Err(e);
            },
        };
        let ss = sib / 64;
        let scale: u8 = if ss == 0 {
            1
        } else if ss == 1 {
            2
        } else if ss == 2 {
            4
        } else {
            8
        };
        let idx = (sib / 8) % 8 + if pfx.rexx {
            8
        } else {
            0
        };
        let index: Option<RegSpec> = if idx == 4 {
            None
        } else {
            Some(RegSpec { bank, num: idx })
        };
        let base_field = sib % 8;
        if base_field == 5 && modbits == 0 {
            let d = match read_imm(words, Ghost(s), Ghost(i + 1), 4) {
                Ok(d) => d,
                Err(e) => {
                    return Err(e);
                },
            };
            Ok(MemOperand { base: None, index, scale, disp: d })
        } else {
            let base = Some(
                RegSpec {
                    bank,
                    num: base_field + if pfx.rexb {
                        8
                    } else {
                        0
                    },
                },
            );
            if modbits == 0 {
                Ok(MemOperand { base, index, scale, disp: 0 })
            } else {
                let enc: u8 = if modbits == 1 {
                    1
                } else {
                    4
                };
                let d = match read_imm(words, Ghost(s), Ghost(i + 1), enc) {
                    Ok(d) => d,
                    Err(e) => {
                        return Err(e);
                    },
                };
                Ok(MemOperand { base, index, scale, disp: d })
            }
        }
    } else if modbits == 0 && rm == 5 {
        let d = match read_imm(words, Ghost(s), Ghost(i), 4) {
            Ok(d) => d,
            Err(e) => {
                return Err(e);
            },
        };
        let base: Option<RegSpec> = if matches!(mode, DecodeMode::Long) {
            Some(RegSpec { bank: RegisterBank::InstPtr, num: 0 })
        } else {
            None
        };
        Ok(MemOperand { base, index: None, scale: 1, disp: d })
    } else {
        let base = Some(
            RegSpec {
                bank,
                num: rm + if pfx.rexb {
                    8
                } else {
                    0
                },
            },
        );
        if modbits == 0 {
            Ok(MemOperand { base, index: None, scale: 1, disp: 0 })
        } else {
            let enc: u8 = if modbits == 1 {
                1
            } else {
                4
            };
            let d = match read_imm(words, Ghost(s), Ghost(i), enc) {
                Ok(d) => d,
                Err(e) => {
                    return Err(e);
                },
            };
            Ok(MemOperand { base, index: None, scale: 1, disp: d })
        }
    }
}

/// Read and resolve a ModRM byte, mirroring `spec_modrm`.
fn read_modrm<'a>(
    mode: DecodeMode,
    pfx: &Prefixes,
    words: &mut Reader<'a>,
    Ghost(s): Ghost<Seq<u8>>,
    Ghost(i): Ghost<int>,
) -> (r: Result<(u8, RmRef), DecodeError>)
    requires
        tracks(*old(words), s, i),
    ensures
        final(words).spec_data() == old(words).spec_data(),
        old(words).spec_pos() <= final(words).spec_pos(),
        final(words).wf(),
        match r {
            Ok((reg, rm)) => {
                &&& tracks(
                    *final(words),
                    s,
                    i + final(words).spec_pos() - old(words).spec_pos(),
                )
                &&& spec_modrm(mode, *pfx, s, i) == Ok::<((u8, RmRef), int), DecodeError>(
                    ((reg, rm), i + final(words).spec_pos() - old(words).spec_pos()),
                )
            },
            Err(e) => spec_modrm(mode, *pfx, s, i) == Err::<((u8, RmRef), int), DecodeError>(e),
        },
{
    proof {
        reveal(spec_modrm);
    }
    let m = match read_byte(words, Ghost(s), Ghost(i)) {
        Ok(b) => b,
        Err(e) => {
            return Err(e);
        },
    };
    let modbits = m / 64;
    let reg = (m / 8) % 8 + if pfx.rexr {
        8
    } else {
        0
    };
    let rm = m % 8;
    if modbits == 3 {
        let num = rm + if pfx.rexb {
            8
        } else {
            0
        };
        Ok((reg, RmRef::Direct(num)))
    } else {
        let asz = addr_size(mode, pfx);
        if asz == 2 {
            match read_mem16(words, Ghost(s), Ghost(i + 1), modbits, rm) {
                Ok(mem) => Ok((reg, RmRef::Mem(mem))),
                Err(e) => Err(e),
            }
        } else {
            match read_mem_sib(mode, pfx, words, Ghost(s), Ghost(i + 1), modbits, rm, addr_bank(asz)) {
                Ok(mem) => Ok((reg, RmRef::Mem(mem))),
                Err(e) => Err(e),
            }
        }
    }
}

/// Executable mirror of `spec_body_alu_modrm`.
fn body_alu_modrm<'a>(
    mode: DecodeMode,
    pfx: &Prefixes,
    words: &mut Reader<'a>,
    Ghost(s): Ghost<Seq<u8>>,
    Ghost(i): Ghost<int>,
    opc: Opcode,
    form: u8,
    w: u8,
) -> (r: Result<Body, DecodeError>)
    requires
        tracks(*old(words), s, i),
        w == 1 || w == 2 || w == 4 || w == 8,
    ensures
        final(words).spec_data() == old(words).spec_data(),
        old(words).spec_pos() <= final(words).spec_pos(),
        final(words).wf(),
        match r {
            Ok(body) => {
                &&& body_wf(body)
                &&& tracks(
                    *final(words),
                    s,
                    i + final(words).spec_pos() - old(words).spec_pos(),
                )
                &&& spec_body_alu_modrm(mode, *pfx, s, i, opc, form, w) == Ok::<
                    (Body, int),
                    DecodeError,
                >((body, i + final(words).spec_pos() - old(words).spec_pos()))
            },
            Err(e) => spec_body_alu_modrm(mode, *pfx, s, i, opc, form, w) == Err::<
                (Body, int),
                DecodeError,
            >(e),
        },
{
    proof {
        reveal(spec_body_alu_modrm);
    }
    let (reg, rm) = match read_modrm(mode, pfx, words, Ghost(s), Ghost(i)) {
        Ok(v) => v,
        Err(e) => {
            return Err(e);
        },
    };
    let rm_op = rm_operand(pfx, w, &rm);
    let reg_op = Operand::Register(gpreg(pfx, w, reg));
    if form == 0 || form == 1 {
        Ok(
            Body {
                opc,
                op0: rm_op,
                op1: reg_op,
                op2: Operand::Nothing,
                count: 2,
                width: w,
                explicit_width: false,
            },
        )
    } else {
        Ok(
            Body {
                opc,
                op0: reg_op,
                op1: rm_op,
                op2: Operand::Nothing,
                count: 2,
                width: w,
                explicit_width: false,
            },
        )
    }
}

/// Executable mirror of `spec_body_acc_imm`.
fn body_acc_imm<'a>(
    pfx: &Prefixes,
    words: &mut Reader<'a>,
    Ghost(s): Ghost<Seq<u8>>,
    Ghost(i): Ghost<int>,
    opc: Opcode,
    w: u8,
) -> (r: Result<Body, DecodeError>)
    requires
        tracks(*old(words), s, i),
        w == 1 || w == 2 || w == 4 || w == 8,
    ensures
        final(words).spec_data() == old(words).spec_data(),
        old(words).spec_pos() <= final(words).spec_pos(),
        final(words).wf(),
        match r {
            Ok(body) => {
                &&& body_wf(body)
                &&& tracks(
                    *final(words),
                    s,
                    i + final(words).spec_pos() - old(words).spec_pos(),
                )
                &&& spec_body_acc_imm(*pfx, s, i, opc, w) == Ok::<(Body, int), DecodeError>(
                    (body, i + final(words).spec_pos() - old(words).spec_pos()),
                )
            },
            Err(e) => spec_body_acc_imm(*pfx, s, i, opc, w) == Err::<(Body, int), DecodeError>(e),
        },
{
    proof {
        reveal(spec_body_acc_imm);
    }
    let v = match read_imm(words, Ghost(s), Ghost(i), imm_enc(w)) {
        Ok(v) => v,
        Err(e) => {
            return Err(e);
        },
    };
    Ok(
        Body {
            opc,
            op0: Operand::Register(gpreg(pfx, w, 0)),
            op1: Operand::Immediate { width: w, value: v },
            op2: Operand::Nothing,
            count: 2,
            width: w,
            explicit_width: false,
        },
    )
}

/// Executable mirror of `spec_body_0f`.
#[verifier::rlimit(100)]
fn body_0f<'a>(
    mode: DecodeMode,
    pfx: &Prefixes,
    words: &mut Reader<'a>,
    Ghost(s): Ghost<Seq<u8>>,
    Ghost(i): Ghost<int>,
) -> (r: Result<Body, DecodeError>)
    requires
        tracks(*old(words), s, i),
    ensures
        final(words).spec_data() == old(words).spec_data(),
        old(words).spec_pos() <= final(words).spec_pos(),
        final(words).wf(),
        match r {
            Ok(body) => {
                &&& body_wf(body)
                &&& tracks(
                    *final(words),
                    s,
                    i + final(words).spec_pos() - old(words).spec_pos(),
                )
                &&& spec_body_0f(mode, *pfx, s, i) == Ok::<(Body, int), DecodeError>(
                    (body, i + final(words).spec_pos() - old(words).spec_pos()),
                )
            },
            Err(e) => spec_body_0f(mode, *pfx, s, i) == Err::<(Body, int), DecodeError>(e),
        },
{
    proof {
        reveal(spec_body_0f);
    }
    let w = op_size(mode, pfx);
    let b = match read_byte(words, Ghost(s), Ghost(i)) {
        Ok(b) => b,
        Err(e) => {
            return Err(e);
        },
    };
    if b == 0x05 {
        if matches!(mode, DecodeMode::Long) {
            Ok(body0_x(Opcode::SYSCALL, w))
        } else {
            Err(DecodeError::InvalidOpcode)
        }
    } else if b == 0x0b {
        Ok(body0_x(Opcode::UD2, w))
    } else if b == 0x1f {
        let (reg, rm) = match read_modrm(mode, pfx, words, Ghost(s), Ghost(i + 1)) {
            Ok(v) => v,
            Err(e) => {
                return Err(e);
            },
        };
        if reg % 8 == 0 {
            Ok(body1_x(Opcode::NOP, rm_operand(pfx, w, &rm), w))
        } else {
            Err(DecodeError::InvalidOpcode)
        }
    } else if 0x80 <= b && b < 0x90 {
        let enc = rel_size(mode, pfx);
        let v = match read_imm(words, Ghost(s), Ghost(i + 1), enc) {
            Ok(v) => v,
            Err(e) => {
                return Err(e);
            },
        };
        Ok(body1_x(jcc_op(b - 0x80), Operand::RelativeBranch { width: enc, offset: v }, w))
    } else if b == 0xa2 {
        Ok(body0_x(Opcode::CPUID, w))
    } else if b == 0xaf {
        let (reg, rm) = match read_modrm(mode, pfx, words, Ghost(s), Ghost(i + 1)) {
            Ok(v) => v,
            Err(e) => {
                return Err(e);
            },
        };
        Ok(body2_x(Opcode::IMUL, Operand::Register(gpreg(pfx, w, reg)), rm_operand(pfx, w, &rm), w))
    } else {
        Err(DecodeError::InvalidOpcode)
    }
}

/// Executable mirror of `body0`.
fn body0_x(opc: Opcode, width: u8) -> (r: Body)
    ensures
        r == body0(opc, width),
{
    Body {
        opc,
        op0: Operand::Nothing,
        op1: Operand::Nothing,
        op2: Operand::Nothing,
        count: 0,
        width,
        explicit_width: false,
    }
}

/// Executable mirror of `body1`.
fn body1_x(opc: Opcode, op0: Operand, width: u8) -> (r: Body)
    ensures
        r == body1(opc, op0, width),
{
    Body { opc, op0, op1: Operand::Nothing, op2: Operand::Nothing, count: 1, width, explicit_width: false }
}

/// Executable mirror of `body1e`.
fn body1e_x(opc: Opcode, op0: Operand, width: u8) -> (r: Body)
    ensures
        r == body1e(opc, op0, width),
{
    Body {
        opc,
        op0,
        op1: Operand::Nothing,
        op2: Operand::Nothing,
        count: 1,
        width,
        explicit_width: true,
    }
}

/// Executable mirror of `body2`.
fn body2_x(opc: Opcode, op0: Operand, op1: Operand, width: u8) -> (r: Body)
    ensures
        r == body2(opc, op0, op1, width),
{
    Body { opc, op0, op1, op2: Operand::Nothing, count: 2, width, explicit_width: false }
}

/// Executable mirror of `spec_body_string`.
fn body_string(mode: DecodeMode, pfx: &Prefixes, opc: Opcode, w: u8, Ghost(i): Ghost<int>) -> (r:
    Result<Body, DecodeError>)
    requires
        w == 1 || w == 2 || w == 4 || w == 8,
    ensures
        match r {
            Ok(body) => spec_body_string(mode, *pfx, opc, w, i) == Ok::<(Body, int), DecodeError>(
                (body, i),
            ) && body_wf(body),
            Err(e) => spec_body_string(mode, *pfx, opc, w, i) == Err::<(Body, int), DecodeError>(e),
        },
{
    proof {
        reveal(spec_body_string);
    }
    let si = Operand::Memory(str_mem(mode, pfx, 6));
    let di = Operand::Memory(str_mem(mode, pfx, 7));
    let acc = Operand::Register(gpreg(pfx, w, 0));
    match opc {
        Opcode::MOVS => Ok(body2_x(opc, di, si, w)),
        Opcode::CMPS => Ok(body2_x(opc, si, di, w)),
        Opcode::STOS => Ok(body2_x(opc, di, acc, w)),
        Opcode::LODS => Ok(body2_x(opc, acc, si, w)),
        _ => Ok(body2_x(Opcode::SCAS, acc, di, w)),
    }
}

/// Executable mirror of `spec_body_group1`.
#[verifier::rlimit(100)]
fn body_group1<'a>(
    mode: DecodeMode,
    pfx: &Prefixes,
    words: &mut Reader<'a>,
    Ghost(s): Ghost<Seq<u8>>,
    Ghost(i): Ghost<int>,
    w: u8,
    enc: u8,
) -> (r: Result<Body, DecodeError>)
    requires
        tracks(*old(words), s, i),
        w == 1 || w == 2 || w == 4 || w == 8,
        enc == 1 || enc == 2 || enc == 4 || enc == 8,
    ensures
        final(words).spec_data() == old(words).spec_data(),
        old(words).spec_pos() <= final(words).spec_pos(),
        final(words).wf(),
        match r {
            Ok(body) => {
                &&& body_wf(body)
                &&& tracks(
                    *final(words),
                    s,
                    i + final(words).spec_pos() - old(words).spec_pos(),
                )
                &&& spec_body_group1(mode, *pfx, s, i, w, enc) == Ok::<(Body, int), DecodeError>(
                    (body, i + final(words).spec_pos() - old(words).spec_pos()),
                )
            },
            Err(e) => spec_body_group1(mode, *pfx, s, i, w, enc) == Err::<
                (Body, int),
                DecodeError,
            >(e),
        },
{
    proof {
        reveal(spec_body_group1);
    }
    let (reg, rm) = match read_modrm(mode, pfx, words, Ghost(s), Ghost(i)) {
        Ok(v) => v,
        Err(e) => {
            return Err(e);
        },
    };
    let ghost mid = i + words.spec_pos() - old(words).spec_pos();
    proof {
        assert(spec_modrm(mode, *pfx, s, i) == Ok::<((u8, RmRef), int), DecodeError>(
            ((reg, rm), mid),
        ));
    }
    let v = match read_imm(words, Ghost(s), Ghost(mid), enc) {
        Ok(v) => v,
        Err(e) => {
            return Err(e);
        },
    };
    proof {
        assert(spec_imm(s, mid, enc) == Ok::<(i64, int), DecodeError>((v, mid + enc)));
    }
    Ok(
        body2_x(
            alu_op(reg % 8),
            rm_operand(pfx, w, &rm),
            Operand::Immediate { width: w, value: v },
            w,
        ),
    )
}

/// Executable mirror of `spec_body_ff`.
fn body_ff<'a>(
    mode: DecodeMode,
    pfx: &Prefixes,
    words: &mut Reader<'a>,
    Ghost(s): Ghost<Seq<u8>>,
    Ghost(i): Ghost<int>,
) -> (r: Result<Body, DecodeError>)
    requires
        tracks(*old(words), s, i),
    ensures
        final(words).spec_data() == old(words).spec_data(),
        old(words).spec_pos() <= final(words).spec_pos(),
        final(words).wf(),
        match r {
            Ok(body) => {
                &&& body_wf(body)
                &&& tracks(
                    *final(words),
                    s,
                    i + final(words).spec_pos() - old(words).spec_pos(),
                )
                &&& spec_body_ff(mode, *pfx, s, i) == Ok::<(Body, int), DecodeError>(
                    (body, i + final(words).spec_pos() - old(words).spec_pos()),
                )
            },
            Err(e) => spec_body_ff(mode, *pfx, s, i) == Err::<(Body, int), DecodeError>(e),
        },
{
    proof {
        reveal(spec_body_ff);
    }
    let (reg, rm) = match read_modrm(mode, pfx, words, Ghost(s), Ghost(i)) {
        Ok(v) => v,
        Err(e) => {
            return Err(e);
        },
    };
    let sel = reg % 8;
    let w = op_size(mode, pfx);
    let bw = branch_size(mode, pfx);
    if sel == 0 {
        Ok(body1e_x(Opcode::INC, rm_operand(pfx, w, &rm), w))
    } else if sel == 1 {
        Ok(body1e_x(Opcode::DEC, rm_operand(pfx, w, &rm), w))
    } else if sel == 2 {
        Ok(body1e_x(Opcode::CALL, rm_operand(pfx, bw, &rm), bw))
    } else if sel == 3 {
        match rm {
            RmRef::Mem(m) => Ok(body1e_x(Opcode::CALLF, Operand::Memory(m), w)),
            RmRef::Direct(n) => Err(DecodeError::InvalidOperand),
        }
    } else if sel == 4 {
        Ok(body1e_x(Opcode::JMP, rm_operand(pfx, bw, &rm), bw))
    } else if sel == 5 {
        match rm {
            RmRef::Mem(m) => Ok(body1e_x(Opcode::JMPF, Operand::Memory(m), w)),
            RmRef::Direct(n) => Err(DecodeError::InvalidOperand),
        }
    } else if sel == 6 {
        Ok(body1e_x(Opcode::PUSH, rm_operand(pfx, bw, &rm), bw))
    } else {
        Err(DecodeError::InvalidOpcode)
    }
}

/// Executable mirror of `spec_body_group3`.
#[verifier::rlimit(100)]
fn body_group3<'a>(
    mode: DecodeMode,
    pfx: &Prefixes,
    words: &mut Reader<'a>,
    Ghost(s): Ghost<Seq<u8>>,
    Ghost(i): Ghost<int>,
    w: u8,
) -> (r: Result<Body, DecodeError>)
    requires
        tracks(*old(words), s, i),
        w == 1 || w == 2 || w == 4 || w == 8,
    ensures
        final(words).spec_data() == old(words).spec_data(),
        old(words).spec_pos() <= final(words).spec_pos(),
        final(words).wf(),
        match r {
            Ok(body) => {
                &&& body_wf(body)
                &&& tracks(
                    *final(words),
                    s,
                    i + final(words).spec_pos() - old(words).spec_pos(),
                )
                &&& spec_body_group3(mode, *pfx, s, i, w) == Ok::<(Body, int), DecodeError>(
                    (body, i + final(words).spec_pos() - old(words).spec_pos()),
                )
            },
            Err(e) => spec_body_group3(mode, *pfx, s, i, w) == Err::<(Body, int), DecodeError>(e),
        },
{
    proof {
        reveal(spec_body_group3);
    }
    let (reg, rm) = match read_modrm(mode, pfx, words, Ghost(s), Ghost(i)) {
        Ok(v) => v,
        Err(e) => {
            return Err(e);
        },
    };
    let sel = reg % 8;
    let rm_op = rm_operand(pfx, w, &rm);
    if sel == 0 || sel == 1 {
        let ghost mid = i + words.spec_pos() - old(words).spec_pos();
        let v = match read_imm(words, Ghost(s), Ghost(mid), imm_enc(w)) {
            Ok(v) => v,
            Err(e) => {
                return Err(e);
            },
        };
        Ok(body2_x(Opcode::TEST, rm_op, Operand::Immediate { width: w, value: v }, w))
    } else {
        let opc = if sel == 2 {
            Opcode::NOT
        } else if sel == 3 {
            Opcode::NEG
        } else if sel == 4 {
            Opcode::MUL
        } else if sel == 5 {
            Opcode::IMUL
        } else if sel == 6 {
            Opcode::DIV
        } else {
            Opcode::IDIV
        };
        Ok(body1_x(opc, rm_op, w))
    }
}

/// Executable mirror of `spec_is_legacy_prefix`.
fn is_legacy_prefix(b: u8) -> (r: bool)
    ensures
        r == spec_is_legacy_prefix(b),
{
    b == 0x26 || b == 0x2e || b == 0x36 || b == 0x3e || b == 0x64 || b == 0x65 || b == 0x66 || b
        == 0x67 || b == 0xf0 || b == 0xf2 || b == 0xf3
}

/// Executable mirror of `spec_apply_prefix`.
fn apply_prefix(pfx: &Prefixes, b: u8) -> (r: Prefixes)
    requires
        spec_is_legacy_prefix(b),
    ensures
        r == spec_apply_prefix(*pfx, b),
{
    let base = Prefixes { rex: false, rexw: false, rexr: false, rexx: false, rexb: false, ..*pfx };
    if b == 0x26 {
        Prefixes { seg: Some(Segment::ES), ..base }
    } else if b == 0x2e {
        Prefixes { seg: Some(Segment::CS), ..base }
    } else if b == 0x36 {
        Prefixes { seg: Some(Segment::SS), ..base }
    } else if b == 0x3e {
        Prefixes { seg: Some(Segment::DS), ..base }
    } else if b == 0x64 {
        Prefixes { seg: Some(Segment::FS), ..base }
    } else if b == 0x65 {
        Prefixes { seg: Some(Segment::GS), ..base }
    } else if b == 0x66 {
        Prefixes { opsize: true, ..base }
    } else if b == 0x67 {
        Prefixes { adsize: true, ..base }
    } else if b == 0xf0 {
        Prefixes { lock: true, ..base }
    } else if b == 0xf2 {
        Prefixes { repnz: true, ..base }
    } else {
        Prefixes { rep: true, ..base }
    }
}

/// Executable mirror of `spec_apply_rex`.
fn apply_rex(pfx: &Prefixes, b: u8) -> (r: Prefixes)
    requires
        0x40 <= b < 0x50,
    ensures
        r == spec_apply_rex(*pfx, b),
{
    let low = b - 0x40;
    Prefixes {
        rex: true,
        rexw: low / 8 == 1,
        rexr: (low / 4) % 2 == 1,
        rexx: (low / 2) % 2 == 1,
        rexb: low % 2 == 1,
        ..*pfx
    }
}

/// The prefix stage: accumulate prefix bytes until the opcode byte,
/// mirroring `spec_prefixes` started on fresh state with the architectural
/// length cap as its bound.
fn read_prefixes<'a>(mode: DecodeMode, words: &mut Reader<'a>, Ghost(s): Ghost<Seq<u8>>) -> (r:
    Result<(Prefixes, u8), DecodeError>)
    requires
        tracks(*old(words), s, 0),
    ensures
        final(words).spec_data() == old(words).spec_data(),
        old(words).spec_pos() <= final(words).spec_pos(),
        final(words).wf(),
        match r {
            Ok((pfx, b)) => {
                &&& tracks(*final(words), s, final(words).spec_pos() - old(words).spec_pos())
                &&& spec_prefixes(mode, s, 0, Prefixes::spec_none(), MAX_INSN_LEN as nat) == Ok::<
                    (Prefixes, u8, int),
                    DecodeError,
                >((pfx, b, final(words).spec_pos() - old(words).spec_pos()))
            },
            Err(e) => spec_prefixes(mode, s, 0, Prefixes::spec_none(), MAX_INSN_LEN as nat)
                == Err::<(Prefixes, u8, int), DecodeError>(e),
        },
{
    let mut pfx = Prefixes::none();
    let mut fuel: u8 = MAX_INSN_LEN;
    let ghost mut cur: int = 0;
    loop
        invariant
            tracks(*words, s, cur),
            words.spec_data() == old(words).spec_data(),
            old(words).spec_pos() <= words.spec_pos(),
            cur == words.spec_pos() - old(words).spec_pos(),
            spec_prefixes(mode, s, 0, Prefixes::spec_none(), MAX_INSN_LEN as nat) == spec_prefixes(
                mode,
                s,
                cur,
                pfx,
                fuel as nat,
            ),
        decreases s.len() - cur,
    {
        let b = match read_byte(words, Ghost(s), Ghost(cur)) {
            Ok(b) => b,
            Err(e) => {
                return Err(e);
            },
        };
        let legacy = is_legacy_prefix(b);
        let rexish = matches!(mode, DecodeMode::Long) && 0x40 <= b && b < 0x50;
        if legacy || rexish {
            if fuel == 0 {
                return Err(DecodeError::TooLong);
            }
            if legacy {
                pfx = apply_prefix(&pfx, b);
            } else {
                pfx = apply_rex(&pfx, b);
            }
            fuel = fuel - 1;
            proof {
                cur = cur + 1;
            }
        } else {
            return Ok((pfx, b));
        }
    }
}

/// Executable mirror of `spec_body_lo`.
#[verifier::rlimit(100)]
fn decode_body_lo<'a>(
    mode: DecodeMode,
    pfx: &Prefixes,
    words: &mut Reader<'a>,
    Ghost(s): Ghost<Seq<u8>>,
    Ghost(i): Ghost<int>,
    b: u8,
) -> (r: Result<Body, DecodeError>)
    requires
        tracks(*old(words), s, i),
    ensures
        final(words).spec_data() == old(words).spec_data(),
        old(words).spec_pos() <= final(words).spec_pos(),
        final(words).wf(),
        match r {
            Ok(body) => {
                &&& body_wf(body)
                &&& tracks(
                    *final(words),
                    s,
                    i + final(words).spec_pos() - old(words).spec_pos(),
                )
                &&& spec_body_lo(mode, *pfx, s, i, b) == Ok::<(Body, int), DecodeError>(
                    (body, i + final(words).spec_pos() - old(words).spec_pos()),
                )
            },
            Err(e) => spec_body_lo(mode, *pfx, s, i, b) == Err::<(Body, int), DecodeError>(e),
        },
{
    proof {
        reveal(spec_body_lo);
    }
    let w = op_size(mode, pfx);
    let bw = branch_size(mode, pfx);
    let rexb8: u8 = if pfx.rexb {
        8
    } else {
        0
    };
    if b < 0x40 && b % 8 < 4 && !(b == 0x0f || b == 0x26 || b == 0x2e || b == 0x36 || b == 0x3e) {
        let width = if b % 2 == 0 {
            1u8
        } else {
            w
        };
        body_alu_modrm(mode, pfx, words, Ghost(s), Ghost(i), alu_op(b / 8), b % 8, width)
    } else if b < 0x40 && b % 8 == 4 {
        body_acc_imm(pfx, words, Ghost(s), Ghost(i), alu_op(b / 8), 1)
    } else if b < 0x40 && b % 8 == 5 {
        body_acc_imm(pfx, words, Ghost(s), Ghost(i), alu_op(b / 8), w)
    } else if b == 0x06 || b == 0x07 || b == 0x0e || b == 0x16 || b == 0x17 || b == 0x1e || b
        == 0x1f {
        if matches!(mode, DecodeMode::Long) {
            Err(DecodeError::InvalidOpcode)
        } else {
            let opc = if b == 0x07 || b == 0x17 || b == 0x1f {
                Opcode::POP
            } else {
                Opcode::PUSH
            };
            let num: u8 = if b == 0x06 || b == 0x07 {
                0
            } else if b == 0x0e {
                1
            } else if b == 0x16 || b == 0x17 {
                2
            } else {
                3
            };
            Ok(body1_x(opc, Operand::Register(RegSpec { bank: RegisterBank::Seg, num }), bw))
        }
    } else if b == 0x0f {
        body_0f(mode, pfx, words, Ghost(s), Ghost(i))
    } else if b == 0x27 || b == 0x2f || b == 0x37 || b == 0x3f {
        if matches!(mode, DecodeMode::Long) {
            Err(DecodeError::InvalidOpcode)
        } else {
            let opc = if b == 0x27 {
                Opcode::DAA
            } else if b == 0x2f {
                Opcode::DAS
            } else if b == 0x37 {
                Opcode::AAA
            } else {
                Opcode::AAS
            };
            Ok(body0_x(opc, w))
        }
    } else if 0x40 <= b && b < 0x50 {
        let opc = if b < 0x48 {
            Opcode::INC
        } else {
            Opcode::DEC
        };
        Ok(body1_x(opc, Operand::Register(gpreg(pfx, w, b % 8)), w))
    } else if 0x50 <= b && b < 0x60 {
        let opc = if b < 0x58 {
            Opcode::PUSH
        } else {
            Opcode::POP
        };
        Ok(body1_x(opc, Operand::Register(gpreg(pfx, bw, b % 8 + rexb8)), bw))
    } else {
        Err(DecodeError::InvalidOpcode)
    }
}

/// Executable mirror of `spec_body_mid`.
#[verifier::rlimit(100)]
fn decode_body_mid<'a>(
    mode: DecodeMode,
    pfx: &Prefixes,
    words: &mut Reader<'a>,
    Ghost(s): Ghost<Seq<u8>>,
    Ghost(i): Ghost<int>,
    b: u8,
) -> (r: Result<Body, DecodeError>)
    requires
        tracks(*old(words), s, i),
    ensures
        final(words).spec_data() == old(words).spec_data(),
        old(words).spec_pos() <= final(words).spec_pos(),
        final(words).wf(),
        match r {
            Ok(body) => {
                &&& body_wf(body)
                &&& tracks(
                    *final(words),
                    s,
                    i + final(words).spec_pos() - old(words).spec_pos(),
                )
                &&& spec_body_mid(mode, *pfx, s, i, b) == Ok::<(Body, int), DecodeError>(
                    (body, i + final(words).spec_pos() - old(words).spec_pos()),
                )
            },
            Err(e) => spec_body_mid(mode, *pfx, s, i, b) == Err::<(Body, int), DecodeError>(e),
        },
{
    proof {
        reveal(spec_body_mid);
    }
    let w = op_size(mode, pfx);
    let bw = branch_size(mode, pfx);
    if b == 0x68 {
        let enc: u8 = if bw == 2 {
            2
        } else {
            4
        };
        let v = match read_imm(words, Ghost(s), Ghost(i), enc) {
            Ok(v) => v,
            Err(e) => {
                return Err(e);
            },
        };
        Ok(body1_x(Opcode::PUSH, Operand::Immediate { width: bw, value: v }, bw))
    } else if b == 0x69 || b == 0x6b {
        let (reg, rm) = match read_modrm(mode, pfx, words, Ghost(s), Ghost(i)) {
            Ok(v) => v,
            Err(e) => {
                return Err(e);
            },
        };
        let ghost mid = i + words.spec_pos() - old(words).spec_pos();
        proof {
            assert(spec_modrm(mode, *pfx, s, i) == Ok::<((u8, RmRef), int), DecodeError>(
                ((reg, rm), mid),
            ));
        }
        let enc: u8 = if b == 0x6b {
            1
        } else {
            imm_enc(w)
        };
        let v = match read_imm(words, Ghost(s), Ghost(mid), enc) {
            Ok(v) => v,
            Err(e) => {
                return Err(e);
            },
        };
        Ok(
            Body {
                opc: Opcode::IMUL,
                op0: Operand::Register(gpreg(pfx, w, reg)),
                op1: rm_operand(pfx, w, &rm),
                op2: Operand::Immediate { width: w, value: v },
                count: 3,
                width: w,
                explicit_width: false,
            },
        )
    } else if b == 0x6a {
        let v = match read_imm(words, Ghost(s), Ghost(i), 1) {
            Ok(v) => v,
            Err(e) => {
                return Err(e);
            },
        };
        Ok(body1_x(Opcode::PUSH, Operand::Immediate { width: 1, value: v }, bw))
    } else if 0x70 <= b && b < 0x80 {
        let v = match read_imm(words, Ghost(s), Ghost(i), 1) {
            Ok(v) => v,
            Err(e) => {
                return Err(e);
            },
        };
        Ok(body1_x(jcc_op(b - 0x70), Operand::RelativeBranch { width: 1, offset: v }, w))
    } else {
        Err(DecodeError::InvalidOpcode)
    }
}

/// Executable mirror of `spec_body_mov_string`.
#[verifier::rlimit(100)]
fn decode_body_mov_string<'a>(
    mode: DecodeMode,
    pfx: &Prefixes,
    words: &mut Reader<'a>,
    Ghost(s): Ghost<Seq<u8>>,
    Ghost(i): Ghost<int>,
    b: u8,
) -> (r: Result<Body, DecodeError>)
    requires
        tracks(*old(words), s, i),
    ensures
        final(words).spec_data() == old(words).spec_data(),
        old(words).spec_pos() <= final(words).spec_pos(),
        final(words).wf(),
        match r {
            Ok(body) => {
                &&& body_wf(body)
                &&& tracks(
                    *final(words),
                    s,
                    i + final(words).spec_pos() - old(words).spec_pos(),
                )
                &&& spec_body_mov_string(mode, *pfx, s, i, b) == Ok::<(Body, int), DecodeError>(
                    (body, i + final(words).spec_pos() - old(words).spec_pos()),
                )
            },
            Err(e) => spec_body_mov_string(mode, *pfx, s, i, b) == Err::<(Body, int), DecodeError>(e),
        },
{
    proof {
        reveal(spec_body_mov_string);
    }
    let w = op_size(mode, pfx);
    let bw = branch_size(mode, pfx);
    let rexb8: u8 = if pfx.rexb {
        8
    } else {
        0
    };
    if b == 0x80 {
        body_group1(mode, pfx, words, Ghost(s), Ghost(i), 1, 1)
    } else if b == 0x81 {
        body_group1(mode, pfx, words, Ghost(s), Ghost(i), w, imm_enc(w))
    } else if b == 0x82 {
        if matches!(mode, DecodeMode::Long) {
            Err(DecodeError::InvalidOpcode)
        } else {
            body_group1(mode, pfx, words, Ghost(s), Ghost(i), 1, 1)
        }
    } else if b == 0x83 {
        body_group1(mode, pfx, words, Ghost(s), Ghost(i), w, 1)
    } else if 0x84 <= b && b < 0x8c {
        let width = if b % 2 == 0 {
            1u8
        } else {
            w
        };
        let opc = if b < 0x86 {
            Opcode::TEST
        } else if b < 0x88 {
            Opcode::XCHG
        } else {
            Opcode::MOV
        };
        let (reg, rm) = match read_modrm(mode, pfx, words, Ghost(s), Ghost(i)) {
            Ok(v) => v,
            Err(e) => {
                return Err(e);
            },
        };
        let rm_op = rm_operand(pfx, width, &rm);
        let reg_op = Operand::Register(gpreg(pfx, width, reg));
        if b == 0x8a || b == 0x8b {
            Ok(body2_x(opc, reg_op, rm_op, width))
        } else {
            Ok(body2_x(opc, rm_op, reg_op, width))
        }
    } else if b == 0x8d {
        let (reg, rm) = match read_modrm(mode, pfx, words, Ghost(s), Ghost(i)) {
            Ok(v) => v,
            Err(e) => {
                return Err(e);
            },
        };
        match rm {
            RmRef::Mem(m) => Ok(
                body2_x(Opcode::LEA, Operand::Register(gpreg(pfx, w, reg)), Operand::Memory(m), w),
            ),
            RmRef::Direct(n) => Err(DecodeError::InvalidOperand),
        }
    } else if b == 0x8f {
        let (reg, rm) = match read_modrm(mode, pfx, words, Ghost(s), Ghost(i)) {
            Ok(v) => v,
            Err(e) => {
                return Err(e);
            },
        };
        if reg % 8 == 0 {
            Ok(body1e_x(Opcode::POP, rm_operand(pfx, bw, &rm), bw))
        } else {
            Err(DecodeError::InvalidOpcode)
        }
    } else if b == 0x90 {
        Ok(body0_x(Opcode::NOP, w))
    } else if 0x91 <= b && b < 0x98 {
        Ok(
            body2_x(
                Opcode::XCHG,
                Operand::Register(gpreg(pfx, w, 0)),
                Operand::Register(gpreg(pfx, w, b % 8 + rexb8)),
                w,
            ),
        )
    } else if b == 0x9c {
        Ok(body0_x(Opcode::PUSHF, bw))
    } else if b == 0x9d {
        Ok(body0_x(Opcode::POPF, bw))
    } else if 0xa4 <= b && b < 0xb0 && b != 0xa8 && b != 0xa9 {
        let width = if b % 2 == 0 {
            1u8
        } else {
            w
        };
        let opc = if b < 0xa6 {
            Opcode::MOVS
        } else if b < 0xa8 {
            Opcode::CMPS
        } else if b < 0xac {
            Opcode::STOS
        } else if b < 0xae {
            Opcode::LODS
        } else {
            Opcode::SCAS
        };
        body_string(mode, pfx, opc, width, Ghost(i))
    } else if b == 0xa8 {
        body_acc_imm(pfx, words, Ghost(s), Ghost(i), Opcode::TEST, 1)
    } else if b == 0xa9 {
        body_acc_imm(pfx, words, Ghost(s), Ghost(i), Opcode::TEST, w)
    } else {
        Err(DecodeError::InvalidOpcode)
    }
}

/// Executable mirror of `spec_body_hi`.
#[verifier::rlimit(100)]
fn decode_body_hi<'a>(
    mode: DecodeMode,
    pfx: &Prefixes,
    words: &mut Reader<'a>,
    Ghost(s): Ghost<Seq<u8>>,
    Ghost(i): Ghost<int>,
    b: u8,
) -> (r: Result<Body, DecodeError>)
    requires
        tracks(*old(words), s, i),
    ensures
        final(words).spec_data() == old(words).spec_data(),
        old(words).spec_pos() <= final(words).spec_pos(),
        final(words).wf(),
        match r {
            Ok(body) => {
                &&& body_wf(body)
                &&& tracks(
                    *final(words),
                    s,
                    i + final(words).spec_pos() - old(words).spec_pos(),
                )
                &&& spec_body_hi(mode, *pfx, s, i, b) == Ok::<(Body, int), DecodeError>(
                    (body, i + final(words).spec_pos() - old(words).spec_pos()),
                )
            },
            Err(e) => spec_body_hi(mode, *pfx, s, i, b) == Err::<(Body, int), DecodeError>(e),
        },
{
    proof {
        reveal(spec_body_hi);
    }
    let w = op_size(mode, pfx);
    let bw = branch_size(mode, pfx);
    let rexb8: u8 = if pfx.rexb {
        8
    } else {
        0
    };
    if 0xb0 <= b && b < 0xb8 {
        let v = match read_imm(words, Ghost(s), Ghost(i), 1) {
            Ok(v) => v,
            Err(e) => {
                return Err(e);
            },
        };
        Ok(
            body2_x(
                Opcode::MOV,
                Operand::Register(gpreg(pfx, 1, b % 8 + rexb8)),
                Operand::Immediate { width: 1, value: v },
                1,
            ),
        )
    } else if 0xb8 <= b && b < 0xc0 {
        let v = match read_imm(words, Ghost(s), Ghost(i), w) {
            Ok(v) => v,
            Err(e) => {
                return Err(e);
            },
        };
        Ok(
            body2_x(
                Opcode::MOV,
                Operand::Register(gpreg(pfx, w, b % 8 + rexb8)),
                Operand::Immediate { width: w, value: v },
                w,
            ),
        )
    } else if b == 0xc2 {
        let v = match read_imm(words, Ghost(s), Ghost(i), 2) {
            Ok(v) => v,
            Err(e) => {
                return Err(e);
            },
        };
        Ok(body1_x(Opcode::RETURN, Operand::Immediate { width: 2, value: v }, bw))
    } else if b == 0xc3 {
        Ok(body0_x(Opcode::RETURN, bw))
    } else if b == 0xc6 || b == 0xc7 {
        let width = if b == 0xc6 {
            1u8
        } else {
            w
        };
        let (reg, rm) = match read_modrm(mode, pfx, words, Ghost(s), Ghost(i)) {
            Ok(v) => v,
            Err(e) => {
                return Err(e);
            },
        };
        if reg % 8 == 0 {
            let ghost mid = i + words.spec_pos() - old(words).spec_pos();
            proof {
                assert(spec_modrm(mode, *pfx, s, i) == Ok::<((u8, RmRef), int), DecodeError>(
                    ((reg, rm), mid),
                ));
            }
            let v = match read_imm(words, Ghost(s), Ghost(mid), imm_enc(width)) {
                Ok(v) => v,
                Err(e) => {
                    return Err(e);
                },
            };
            Ok(
                body2_x(
                    Opcode::MOV,
                    rm_operand(pfx, width, &rm),
                    Operand::Immediate { width, value: v },
                    width,
                ),
            )
        } else {
            Err(DecodeError::InvalidOpcode)
        }
    } else if b == 0xcc {
        Ok(body0_x(Opcode::INT3, w))
    } else if b == 0xcd {
        let v = match read_imm(words, Ghost(s), Ghost(i), 1) {
            Ok(v) => v,
            Err(e) => {
                return Err(e);
            },
        };
        Ok(body1_x(Opcode::INT, Operand::Immediate { width: 1, value: v }, w))
    } else {
        Err(DecodeError::InvalidOpcode)
    }
}

/// Executable mirror of `spec_body_branch_groups`.
#[verifier::rlimit(100)]
fn decode_body_branch_groups<'a>(
    mode: DecodeMode,
    pfx: &Prefixes,
    words: &mut Reader<'a>,
    Ghost(s): Ghost<Seq<u8>>,
    Ghost(i): Ghost<int>,
    b: u8,
) -> (r: Result<Body, DecodeError>)
    requires
        tracks(*old(words), s, i),
    ensures
        final(words).spec_data() == old(words).spec_data(),
        old(words).spec_pos() <= final(words).spec_pos(),
        final(words).wf(),
        match r {
            Ok(body) => {
                &&& body_wf(body)
                &&& tracks(
                    *final(words),
                    s,
                    i + final(words).spec_pos() - old(words).spec_pos(),
                )
                &&& spec_body_branch_groups(mode, *pfx, s, i, b) == Ok::<(Body, int), DecodeError>(
                    (body, i + final(words).spec_pos() - old(words).spec_pos()),
                )
            },
            Err(e) => spec_body_branch_groups(mode, *pfx, s, i, b) == Err::<(Body, int), DecodeError>(e),
        },
{
    proof {
        reveal(spec_body_branch_groups);
    }
    let w = op_size(mode, pfx);
    let bw = branch_size(mode, pfx);
    if b == 0xe8 || b == 0xe9 {
        let enc = rel_size(mode, pfx);
        let opc = if b == 0xe8 {
            Opcode::CALL
        } else {
            Opcode::JMP
        };
        let v = match read_imm(words, Ghost(s), Ghost(i), enc) {
            Ok(v) => v,
            Err(e) => {
                return Err(e);
            },
        };
        Ok(body1_x(opc, Operand::RelativeBranch { width: enc, offset: v }, bw))
    } else if b == 0xeb {
        let v = match read_imm(words, Ghost(s), Ghost(i), 1) {
            Ok(v) => v,
            Err(e) => {
                return Err(e);
            },
        };
        Ok(body1_x(Opcode::JMP, Operand::RelativeBranch { width: 1, offset: v }, bw))
    } else if b == 0xf4 {
        Ok(body0_x(Opcode::HLT, w))
    } else if b == 0xf5 {
        Ok(body0_x(Opcode::CMC, w))
    } else if b == 0xf6 {
        body_group3(mode, pfx, words, Ghost(s), Ghost(i), 1)
    } else if b == 0xf7 {
        body_group3(mode, pfx, words, Ghost(s), Ghost(i), w)
    } else if 0xf8 <= b {
        if b == 0xf8 {
            Ok(body0_x(Opcode::CLC, w))
        } else if b == 0xf9 {
            Ok(body0_x(Opcode::STC, w))
        } else if b == 0xfa {
            Ok(body0_x(Opcode::CLI, w))
        } else if b == 0xfb {
            Ok(body0_x(Opcode::STI, w))
        } else if b == 0xfc {
            Ok(body0_x(Opcode::CLD, w))
        } else if b == 0xfd {
            Ok(body0_x(Opcode::STD, w))
        } else if b == 0xfe {
            let (reg, rm) = match read_modrm(mode, pfx, words, Ghost(s), Ghost(i)) {
                Ok(v) => v,
                Err(e) => {
                    return Err(e);
                },
            };
            if reg % 8 == 0 {
                Ok(body1_x(Opcode::INC, rm_operand(pfx, 1, &rm), 1))
            } else if reg % 8 == 1 {
                Ok(body1_x(Opcode::DEC, rm_operand(pfx, 1, &rm), 1))
            } else {
                Err(DecodeError::InvalidOpcode)
            }
        } else {
            body_ff(mode, pfx, words, Ghost(s), Ghost(i))
        }
    } else {
        Err(DecodeError::InvalidOpcode)
    }
}

/// The opcode stage: dispatch on the opcode byte and consume the form's
/// remaining bytes, mirroring `spec_body`.
fn decode_body<'a>(
    mode: DecodeMode,
    pfx: &Prefixes,
    words: &mut Reader<'a>,
    Ghost(s): Ghost<Seq<u8>>,
    Ghost(i): Ghost<int>,
    b: u8,
) -> (r: Result<Body, DecodeError>)
    requires
        tracks(*old(words), s, i),
    ensures
        final(words).spec_data() == old(words).spec_data(),
        old(words).spec_pos() <= final(words).spec_pos(),
        final(words).wf(),
        match r {
            Ok(body) => {
                &&& body_wf(body)
                &&& tracks(
                    *final(words),
                    s,
                    i + final(words).spec_pos() - old(words).spec_pos(),
                )
                &&& spec_body(mode, *pfx, s, i, b) == Ok::<(Body, int), DecodeError>(
                    (body, i + final(words).spec_pos() - old(words).spec_pos()),
                )
            },
            Err(e) => spec_body(mode, *pfx, s, i, b) == Err::<(Body, int), DecodeError>(e),
        },
{
    if b < 0x68 {
        decode_body_lo(mode, pfx, words, Ghost(s), Ghost(i), b)
    } else if b < 0x80 {
        decode_body_mid(mode, pfx, words, Ghost(s), Ghost(i), b)
    } else if b < 0xb0 {
        decode_body_mov_string(mode, pfx, words, Ghost(s), Ghost(i), b)
    } else if b < 0xe0 {
        decode_body_hi(mode, pfx, words, Ghost(s), Ghost(i), b)
    } else {
        decode_body_branch_groups(mode, pfx, words, Ghost(s), Ghost(i), b)
    }
}


/// Executable mirror of `spec_default_core`.
fn default_core(mode: DecodeMode) -> (r: InstCore)
    ensures
        r == spec_default_core(mode),
        core_wf(r),
{
    InstCore {
        mode,
        opcode: Opcode::NOP,
        operands: OperandList {
            slot0: Operand::Nothing,
            slot1: Operand::Nothing,
            slot2: Operand::Nothing,
            slot3: Operand::Nothing,
        },
        operand_count: 0,
        prefixes: Prefixes::none(),
        operand_width: match mode {
            DecodeMode::Real => 2,
            DecodeMode::Protected => 4,
            DecodeMode::Long => 4,
        },
        explicit_width: false,
        length: 0,
    }
}

/// Executable mirror of `spec_lockable`.
fn lockable(b: &Body) -> (r: bool)
    ensures
        r == spec_lockable(*b),
{
    let rmw = match b.opc {
        Opcode::ADD | Opcode::OR | Opcode::ADC | Opcode::SBB | Opcode::AND | Opcode::SUB
            | Opcode::XOR | Opcode::INC | Opcode::DEC | Opcode::NOT | Opcode::NEG
            | Opcode::XCHG => true,
        _ => false,
    };
    rmw && matches!(b.op0, Operand::Memory(_))
}

/// Decode one instruction for `mode` from `words` into `inst`, overwriting
/// it in place. On success the record is exactly the mathematical decoder's
/// answer for the unconsumed bytes, and the cursor has advanced by exactly
/// the encoded length the record reports. On failure the failure is exactly
/// the mathematical decoder's, and the record is left freshly reset: stale
/// but safe, never violating the record bounds.
pub fn decode_core<'a>(mode: DecodeMode, inst: &mut InstCore, words: &mut Reader<'a>) -> (r:
    Result<(), DecodeError>)
    requires
        old(words).wf(),
    ensures
        final(words).spec_data() == old(words).spec_data(),
        old(words).spec_pos() <= final(words).spec_pos(),
        final(words).wf(),
        core_wf(*final(inst)),
        final(inst).mode == mode,
        match r {
            Ok(()) => {
                &&& spec_decode(mode, old(words).remaining()) == Ok::<InstCore, DecodeError>(
                    *final(inst),
                )
                &&& final(words).spec_pos() == old(words).spec_pos() + final(inst).length
            },
            Err(e) => {
                &&& spec_decode(mode, old(words).remaining()) == Err::<InstCore, DecodeError>(e)
                &&& *final(inst) == spec_default_core(mode)
            },
        },
{
    *inst = default_core(mode);
    let start_off = words.offset();
    let ghost s = old(words).remaining();
    proof {
        assert forall|j: int| 0 <= j < s.len() implies s[j] == old(words).spec_data()[old(
            words,
        ).spec_pos() + j] by {
            assert(s[j] == old(words).spec_data().skip(old(words).spec_pos())[j]);
        }
        assert(tracks(*words, s, 0));
    }
    let (pfx, b) = match read_prefixes(mode, words, Ghost(s)) {
        Ok(v) => v,
        Err(e) => {
            return Err(e);
        },
    };
    let ghost i1 = words.spec_pos() - old(words).spec_pos();
    let body = match decode_body(mode, &pfx, words, Ghost(s), Ghost(i1), b) {
        Ok(v) => v,
        Err(e) => {
            return Err(e);
        },
    };
    if pfx.lock && !lockable(&body) {
        return Err(DecodeError::InvalidPrefixes);
    }
    let consumed = words.offset() - start_off;
    if consumed > MAX_INSN_LEN as usize {
        return Err(DecodeError::TooLong);
    }
    *inst = InstCore {
        mode,
        opcode: body.opc,
        operands: OperandList {
            slot0: body.op0,
            slot1: body.op1,
            slot2: body.op2,
            slot3: Operand::Nothing,
        },
        operand_count: body.count,
        prefixes: pfx,
        operand_width: body.width,
        explicit_width: body.explicit_width,
        length: consumed as u8,
    };
    Ok(())
}


/// Reading at `j` from a truncation of `s` answers as `s` does below the cut
/// and is exhausted at or past it.
pub(crate) proof fn lemma_sread_prefix(s: Seq<u8>, m: int, j: int)
    requires
        0 <= m <= s.len(),
    ensures
        sread(s.take(m), j) == (if j < m {
            sread(s, j)
        } else {
            Err::<u8, DecodeError>(DecodeError::ExhaustedInput)
        }),
{
    if 0 <= j < m {
        assert(s.take(m)[j] == s[j]);
    }
}

/// A little-endian read is unchanged by truncation at or past its end, and
/// exhausted by truncation before it.
pub(crate) proof fn lemma_le2_prefix(s: Seq<u8>, m: int, i: int)
    requires
        0 <= i <= m <= s.len(),
    ensures
        match spec_le2(s, i) {
            Ok((v, j)) => {
                &&& i <= j <= s.len()
                &&& j == i + 2
                &&& (j <= m ==> spec_le2(s.take(m), i) == spec_le2(s, i))
                &&& (m < j ==> spec_le2(s.take(m), i) == Err::<(int, int), DecodeError>(
                    DecodeError::ExhaustedInput,
                ))
            },
            Err(e) => true,
        },
{
    reveal(spec_le2);
    lemma_sread_prefix(s, m, i);
    lemma_sread_prefix(s, m, i + 1);
}

/// As `lemma_le2_prefix`, for the four-byte read.
pub(crate) proof fn lemma_le4_prefix(s: Seq<u8>, m: int, i: int)
    requires
        0 <= i <= m <= s.len(),
    ensures
        match spec_le4(s, i) {
            Ok((v, j)) => {
                &&& i <= j <= s.len()
                &&& j == i + 4
                &&& (j <= m ==> spec_le4(s.take(m), i) == spec_le4(s, i))
                &&& (m < j ==> spec_le4(s.take(m), i) == Err::<(int, int), DecodeError>(
                    DecodeError::ExhaustedInput,
                ))
            },
            Err(e) => true,
        },
{
    reveal(spec_le4);
    lemma_le2_prefix(s, m, i);
    match spec_le2(s, i) {
        Ok((v1, j1)) => {
            if i + 2 <= m {
                lemma_le2_prefix(s, m, i + 2);
            } else {
                lemma_le2_prefix(s, s.len() as int, i + 2);
            }
        },
        Err(e) => {},
    }
}

/// As `lemma_le2_prefix`, for the eight-byte read.
pub(crate) proof fn lemma_le8_prefix(s: Seq<u8>, m: int, i: int)
    requires
        0 <= i <= m <= s.len(),
    ensures
        match spec_le8(s, i) {
            Ok((v, j)) => {
                &&& i <= j <= s.len()
                &&& j == i + 8
                &&& (j <= m ==> spec_le8(s.take(m), i) == spec_le8(s, i))
                &&& (m < j ==> spec_le8(s.take(m), i) == Err::<(int, int), DecodeError>(
                    DecodeError::ExhaustedInput,
                ))
            },
            Err(e) => true,
        },
{
    reveal(spec_le8);
    lemma_le4_prefix(s, m, i);
    match spec_le4(s, i) {
        Ok((v1, j1)) => {
            if i + 4 <= m {
                lemma_le4_prefix(s, m, i + 4);
            } else {
                lemma_le4_prefix(s, s.len() as int, i + 4);
            }
        },
        Err(e) => {},
    }
}

/// As `lemma_le2_prefix`, for a sign-extended immediate of any encoded size.
pub(crate) proof fn lemma_imm_prefix(s: Seq<u8>, m: int, i: int, enc: u8)
    requires
        0 <= i <= m <= s.len(),
        enc == 1 || enc == 2 || enc == 4 || enc == 8,
    ensures
        match spec_imm(s, i, enc) {
            Ok((v, j)) => {
                &&& i <= j <= s.len()
                &&& j == i + enc
                &&& (j <= m ==> spec_imm(s.take(m), i, enc) == spec_imm(s, i, enc))
                &&& (m < j ==> spec_imm(s.take(m), i, enc) == Err::<(i64, int), DecodeError>(
                    DecodeError::ExhaustedInput,
                ))
            },
            Err(e) => true,
        },
{
    reveal(spec_imm);
    lemma_sread_prefix(s, m, i);
    lemma_le2_prefix(s, m, i);
    lemma_le4_prefix(s, m, i);
    lemma_le8_prefix(s, m, i);
}

/// As `lemma_le2_prefix`, for 16-bit-addressing ModRM memory resolution.
pub(crate) proof fn lemma_mem16_prefix(s: Seq<u8>, m: int, i: int, modbits: u8, rm: u8)
    requires
        0 <= i <= m <= s.len(),
    ensures
        match spec_mem16(s, i, modbits, rm) {
            Ok((v, j)) => {
                &&& i <= j <= s.len()
                &&& (j <= m ==> spec_mem16(s.take(m), i, modbits, rm) == spec_mem16(
                    s,
                    i,
                    modbits,
                    rm,
                ))
                &&& (m < j ==> spec_mem16(s.take(m), i, modbits, rm) == Err::<
                    (MemOperand, int),
                    DecodeError,
                >(DecodeError::ExhaustedInput))
            },
            Err(e) => true,
        },
{
    reveal(spec_mem16);
    lemma_imm_prefix(s, m, i, 1);
    lemma_imm_prefix(s, m, i, 2);
}

/// As `lemma_le2_prefix`, for 32/64-bit-addressing ModRM memory resolution.
pub(crate) proof fn lemma_mem_sib_prefix(
    mode: DecodeMode,
    pfx: Prefixes,
    s: Seq<u8>,
    m: int,
    i: int,
    modbits: u8,
    rm: u8,
    bank: RegisterBank,
)
    requires
        0 <= i <= m <= s.len(),
    ensures
        match spec_mem_sib(mode, pfx, s, i, modbits, rm, bank) {
            Ok((v, j)) => {
                &&& i <= j <= s.len()
                &&& (j <= m ==> spec_mem_sib(mode, pfx, s.take(m), i, modbits, rm, bank)
                    == spec_mem_sib(mode, pfx, s, i, modbits, rm, bank))
                &&& (m < j ==> spec_mem_sib(mode, pfx, s.take(m), i, modbits, rm, bank) == Err::<
                    (MemOperand, int),
                    DecodeError,
                >(DecodeError::ExhaustedInput))
            },
            Err(e) => true,
        },
{
    reveal(spec_mem_sib);
    lemma_sread_prefix(s, m, i);
    lemma_imm_prefix(s, m, i, 4);
    lemma_imm_prefix(s, m, i, 1);
    match sread(s, i) {
        Ok(sib) => {
            if i + 1 <= m {
                lemma_imm_prefix(s, m, i + 1, 1);
                lemma_imm_prefix(s, m, i + 1, 4);
            } else {
                lemma_imm_prefix(s, s.len() as int, i + 1, 1);
                lemma_imm_prefix(s, s.len() as int, i + 1, 4);
            }
        },
        Err(e) => {},
    }
}

/// As `lemma_le2_prefix`, for the whole ModRM/addressing stage.
pub(crate) proof fn lemma_modrm_prefix(mode: DecodeMode, pfx: Prefixes, s: Seq<u8>, m: int, i: int)
    requires
        0 <= i <= m <= s.len(),
    ensures
        match spec_modrm(mode, pfx, s, i) {
            Ok((v, j)) => {
                &&& i <= j <= s.len()
                &&& (j <= m ==> spec_modrm(mode, pfx, s.take(m), i) == spec_modrm(mode, pfx, s, i))
                &&& (m < j ==> spec_modrm(mode, pfx, s.take(m), i) == Err::<
                    ((u8, RmRef), int),
                    DecodeError,
                >(DecodeError::ExhaustedInput))
            },
            Err(e) => true,
        },
{
    reveal(spec_modrm);
    lemma_sread_prefix(s, m, i);
    if 0 <= i < s.len() {
        let mb = s[i] / 64;
        let rm = s[i] % 8;
        let bank = spec_addr_bank(spec_addr_size(mode, pfx));
        if i + 1 <= m {
            lemma_mem16_prefix(s, m, i + 1, mb, rm);
            lemma_mem_sib_prefix(mode, pfx, s, m, i + 1, mb, rm, bank);
        } else {
            lemma_mem16_prefix(s, s.len() as int, i + 1, mb, rm);
            lemma_mem_sib_prefix(mode, pfx, s, s.len() as int, i + 1, mb, rm, bank);
        }
    }
}

/// Prefix accumulation is unchanged by truncation at or past the byte after
/// the opcode byte, and exhausted by truncation before it.
pub(crate) proof fn lemma_prefixes_prefix(
    mode: DecodeMode,
    s: Seq<u8>,
    m: int,
    i: int,
    pfx: Prefixes,
    fuel: nat,
)
    requires
        0 <= i <= m <= s.len(),
    ensures
        match spec_prefixes(mode, s, i, pfx, fuel) {
            Ok((p, b, j)) => {
                &&& i < j <= s.len()
                &&& (j <= m ==> spec_prefixes(mode, s.take(m), i, pfx, fuel) == spec_prefixes(
                    mode,
                    s,
                    i,
                    pfx,
                    fuel,
                ))
                &&& (m < j ==> spec_prefixes(mode, s.take(m), i, pfx, fuel) == Err::<
                    (Prefixes, u8, int),
                    DecodeError,
                >(DecodeError::ExhaustedInput))
            },
            Err(e) => true,
        },
    decreases fuel,
{
    lemma_sread_prefix(s, m, i);
    if 0 <= i < s.len() {
        let b = s[i];
        if spec_is_legacy_prefix(b) {
            if fuel > 0 {
                if i + 1 <= m {
                    lemma_prefixes_prefix(mode, s, m, i + 1, spec_apply_prefix(pfx, b), (fuel
                        - 1) as nat);
                } else {
                    match spec_prefixes(mode, s, i + 1, spec_apply_prefix(pfx, b), (fuel
                        - 1) as nat) {
                        Ok((p2, b2, j2)) => {
                            lemma_prefixes_monotone(mode, s, i + 1, spec_apply_prefix(pfx, b), (
                            fuel - 1) as nat);
                        },
                        Err(e) => {},
                    }
                }
            }
        } else if mode is Long && 0x40 <= b < 0x50 {
            if fuel > 0 {
                if i + 1 <= m {
                    lemma_prefixes_prefix(mode, s, m, i + 1, spec_apply_rex(pfx, b), (fuel
                        - 1) as nat);
                } else {
                    match spec_prefixes(mode, s, i + 1, spec_apply_rex(pfx, b), (fuel - 1) as nat) {
                        Ok((p2, b2, j2)) => {
                            lemma_prefixes_monotone(mode, s, i + 1, spec_apply_rex(pfx, b), (fuel
                                - 1) as nat);
                        },
                        Err(e) => {},
                    }
                }
            }
        }
    }
}

/// A successful prefix stage always moves forward and stays inside the
/// stream.
pub(crate) proof fn lemma_prefixes_monotone(
    mode: DecodeMode,
    s: Seq<u8>,
    i: int,
    pfx: Prefixes,
    fuel: nat,
)
    requires
        0 <= i,
    ensures
        match spec_prefixes(mode, s, i, pfx, fuel) {
            Ok((p, b, j)) => i < j <= s.len(),
            Err(e) => true,
        },
    decreases fuel,
{
    if 0 <= i < s.len() {
        let b = s[i];
        if spec_is_legacy_prefix(b) {
            if fuel > 0 {
                lemma_prefixes_monotone(mode, s, i + 1, spec_apply_prefix(pfx, b), (fuel
                    - 1) as nat);
            }
        } else if mode is Long && 0x40 <= b < 0x50 {
            if fuel > 0 {
                lemma_prefixes_monotone(mode, s, i + 1, spec_apply_rex(pfx, b), (fuel - 1) as nat);
            }
        }
    }
}


/// As `lemma_le2_prefix`, for the ALU ModRM forms.
pub(crate) proof fn lemma_body_alu_modrm_prefix(
    mode: DecodeMode,
    pfx: Prefixes,
    s: Seq<u8>,
    m: int,
    i: int,
    opc: Opcode,
    form: u8,
    w: u8,
)
    requires
        0 <= i <= m <= s.len(),
    ensures
        match spec_body_alu_modrm(mode, pfx, s, i, opc, form, w) {
            Ok((body, j)) => {
                &&& i <= j <= s.len()
                &&& (j <= m ==> spec_body_alu_modrm(mode, pfx, s.take(m), i, opc, form, w)
                    == spec_body_alu_modrm(mode, pfx, s, i, opc, form, w))
                &&& (m < j ==> spec_body_alu_modrm(mode, pfx, s.take(m), i, opc, form, w) == Err::<
                    (Body, int),
                    DecodeError,
                >(DecodeError::ExhaustedInput))
            },
            Err(e) => true,
        },
{
    reveal(spec_body_alu_modrm);
    lemma_modrm_prefix(mode, pfx, s, m, i);
}

/// As `lemma_le2_prefix`, for the accumulator-immediate forms.
pub(crate) proof fn lemma_body_acc_imm_prefix(
    pfx: Prefixes,
    s: Seq<u8>,
    m: int,
    i: int,
    opc: Opcode,
    w: u8,
)
    requires
        0 <= i <= m <= s.len(),
        w == 1 || w == 2 || w == 4 || w == 8,
    ensures
        match spec_body_acc_imm(pfx, s, i, opc, w) {
            Ok((body, j)) => {
                &&& i <= j <= s.len()
                &&& (j <= m ==> spec_body_acc_imm(pfx, s.take(m), i, opc, w) == spec_body_acc_imm(
                    pfx,
                    s,
                    i,
                    opc,
                    w,
                ))
                &&& (m < j ==> spec_body_acc_imm(pfx, s.take(m), i, opc, w) == Err::<
                    (Body, int),
                    DecodeError,
                >(DecodeError::ExhaustedInput))
            },
            Err(e) => true,
        },
{
    reveal(spec_body_acc_imm);
    lemma_imm_prefix(s, m, i, spec_imm_enc(w));
}

/// As `lemma_le2_prefix`, for the two-byte opcode map.
#[verifier::rlimit(100)]
pub(crate) proof fn lemma_body_0f_prefix(mode: DecodeMode, pfx: Prefixes, s: Seq<u8>, m: int, i: int)
    requires
        0 <= i <= m <= s.len(),
    ensures
        match spec_body_0f(mode, pfx, s, i) {
            Ok((body, j)) => {
                &&& i <= j <= s.len()
                &&& (j <= m ==> spec_body_0f(mode, pfx, s.take(m), i) == spec_body_0f(
                    mode,
                    pfx,
                    s,
                    i,
                ))
                &&& (m < j ==> spec_body_0f(mode, pfx, s.take(m), i) == Err::<
                    (Body, int),
                    DecodeError,
                >(DecodeError::ExhaustedInput))
            },
            Err(e) => true,
        },
{
    reveal(spec_body_0f);
    lemma_sread_prefix(s, m, i);
    if 0 <= i < s.len() {
        let enc = spec_rel_size(mode, pfx);
        if i + 1 <= m {
            lemma_modrm_prefix(mode, pfx, s, m, i + 1);
            lemma_imm_prefix(s, m, i + 1, enc);
        } else {
            lemma_modrm_prefix(mode, pfx, s, s.len() as int, i + 1);
            lemma_imm_prefix(s, s.len() as int, i + 1, enc);
        }
    }
}

/// As `lemma_le2_prefix`, for the group-1 immediate forms.
#[verifier::rlimit(100)]
pub(crate) proof fn lemma_body_group1_prefix(
    mode: DecodeMode,
    pfx: Prefixes,
    s: Seq<u8>,
    m: int,
    i: int,
    w: u8,
    enc: u8,
)
    requires
        0 <= i <= m <= s.len(),
        enc == 1 || enc == 2 || enc == 4 || enc == 8,
    ensures
        match spec_body_group1(mode, pfx, s, i, w, enc) {
            Ok((body, j)) => {
                &&& i <= j <= s.len()
                &&& (j <= m ==> spec_body_group1(mode, pfx, s.take(m), i, w, enc)
                    == spec_body_group1(mode, pfx, s, i, w, enc))
                &&& (m < j ==> spec_body_group1(mode, pfx, s.take(m), i, w, enc) == Err::<
                    (Body, int),
                    DecodeError,
                >(DecodeError::ExhaustedInput))
            },
            Err(e) => true,
        },
{
    reveal(spec_body_group1);
    lemma_modrm_prefix(mode, pfx, s, m, i);
    match spec_modrm(mode, pfx, s, i) {
        Ok(((reg, rm), j1)) => {
            if j1 <= m {
                lemma_imm_prefix(s, m, j1, enc);
            } else {
                lemma_imm_prefix(s, s.len() as int, j1, enc);
            }
        },
        Err(e) => {},
    }
}

/// As `lemma_le2_prefix`, for the `0xff` group.
pub(crate) proof fn lemma_body_ff_prefix(mode: DecodeMode, pfx: Prefixes, s: Seq<u8>, m: int, i: int)
    requires
        0 <= i <= m <= s.len(),
    ensures
        match spec_body_ff(mode, pfx, s, i) {
            Ok((body, j)) => {
                &&& i <= j <= s.len()
                &&& (j <= m ==> spec_body_ff(mode, pfx, s.take(m), i) == spec_body_ff(
                    mode,
                    pfx,
                    s,
                    i,
                ))
                &&& (m < j ==> spec_body_ff(mode, pfx, s.take(m), i) == Err::<
                    (Body, int),
                    DecodeError,
                >(DecodeError::ExhaustedInput))
            },
            Err(e) => true,
        },
{
    reveal(spec_body_ff);
    lemma_modrm_prefix(mode, pfx, s, m, i);
}

/// As `lemma_le2_prefix`, for the `0xf6`/`0xf7` group.
#[verifier::rlimit(100)]
pub(crate) proof fn lemma_body_group3_prefix(
    mode: DecodeMode,
    pfx: Prefixes,
    s: Seq<u8>,
    m: int,
    i: int,
    w: u8,
)
    requires
        0 <= i <= m <= s.len(),
        w == 1 || w == 2 || w == 4 || w == 8,
    ensures
        match spec_body_group3(mode, pfx, s, i, w) {
            Ok((body, j)) => {
                &&& i <= j <= s.len()
                &&& (j <= m ==> spec_body_group3(mode, pfx, s.take(m), i, w) == spec_body_group3(
                    mode,
                    pfx,
                    s,
                    i,
                    w,
                ))
                &&& (m < j ==> spec_body_group3(mode, pfx, s.take(m), i, w) == Err::<
                    (Body, int),
                    DecodeError,
                >(DecodeError::ExhaustedInput))
            },
            Err(e) => true,
        },
{
    reveal(spec_body_group3);
    lemma_modrm_prefix(mode, pfx, s, m, i);
    match spec_modrm(mode, pfx, s, i) {
        Ok(((reg, rm), j1)) => {
            if j1 <= m {
                lemma_imm_prefix(s, m, j1, spec_imm_enc(w));
            } else {
                lemma_imm_prefix(s, s.len() as int, j1, spec_imm_enc(w));
            }
        },
        Err(e) => {},
    }
}


/// As `lemma_le2_prefix`, for this opcode-byte range of the opcode stage.
#[verifier::rlimit(100)]
pub(crate) proof fn lemma_body_lo_prefix(mode: DecodeMode, pfx: Prefixes, s: Seq<u8>, m: int, i: int, b: u8)
    requires
        0 <= i <= m <= s.len(),
    ensures
        match spec_body_lo(mode, pfx, s, i, b) {
            Ok((body, j)) => {
                &&& i <= j <= s.len()
                &&& (j <= m ==> spec_body_lo(mode, pfx, s.take(m), i, b) == spec_body_lo(mode, pfx, s, i, b))
                &&& (m < j ==> spec_body_lo(mode, pfx, s.take(m), i, b) == Err::<
                    (Body, int),
                    DecodeError,
                >(DecodeError::ExhaustedInput))
            },
            Err(e) => true,
        },
{
    reveal(spec_body_lo);
    let w = spec_op_size(mode, pfx);
    if b < 0x40 && b % 8 < 4 && !(b == 0x0f || b == 0x26 || b == 0x2e || b == 0x36 || b == 0x3e) {
        let width = if b % 2 == 0 {
            1u8
        } else {
            w
        };
        lemma_body_alu_modrm_prefix(mode, pfx, s, m, i, spec_alu_op(b / 8), b % 8, width);
    } else if b < 0x40 && b % 8 == 4 {
        lemma_body_acc_imm_prefix(pfx, s, m, i, spec_alu_op(b / 8), 1);
    } else if b < 0x40 && b % 8 == 5 {
        lemma_body_acc_imm_prefix(pfx, s, m, i, spec_alu_op(b / 8), w);
    } else if b == 0x0f {
        lemma_body_0f_prefix(mode, pfx, s, m, i);
    }
}

/// As `lemma_le2_prefix`, for this opcode-byte range of the opcode stage.
#[verifier::rlimit(100)]
pub(crate) proof fn lemma_body_mid_prefix(mode: DecodeMode, pfx: Prefixes, s: Seq<u8>, m: int, i: int, b: u8)
    requires
        0 <= i <= m <= s.len(),
    ensures
        match spec_body_mid(mode, pfx, s, i, b) {
            Ok((body, j)) => {
                &&& i <= j <= s.len()
                &&& (j <= m ==> spec_body_mid(mode, pfx, s.take(m), i, b) == spec_body_mid(mode, pfx, s, i, b))
                &&& (m < j ==> spec_body_mid(mode, pfx, s.take(m), i, b) == Err::<
                    (Body, int),
                    DecodeError,
                >(DecodeError::ExhaustedInput))
            },
            Err(e) => true,
        },
{
    reveal(spec_body_mid);
    let w = spec_op_size(mode, pfx);
    let bw = spec_branch_size(mode, pfx);
    if b == 0x68 {
        let enc: u8 = if bw == 2 {
            2
        } else {
            4
        };
        lemma_imm_prefix(s, m, i, enc);
    } else if b == 0x69 || b == 0x6b {
        lemma_modrm_prefix(mode, pfx, s, m, i);
        let enc: u8 = if b == 0x6b {
            1
        } else {
            spec_imm_enc(w)
        };
        match spec_modrm(mode, pfx, s, i) {
            Ok(((reg, rm), j1)) => {
                if j1 <= m {
                    lemma_imm_prefix(s, m, j1, enc);
                } else {
                    lemma_imm_prefix(s, s.len() as int, j1, enc);
                }
            },
            Err(e) => {},
        }
    } else if b == 0x6a || (0x70 <= b && b < 0x80) {
        lemma_imm_prefix(s, m, i, 1);
    }
}

/// As `lemma_le2_prefix`, for this opcode-byte range of the opcode stage.
#[verifier::rlimit(100)]
pub(crate) proof fn lemma_body_mov_string_prefix(mode: DecodeMode, pfx: Prefixes, s: Seq<u8>, m: int, i: int, b: u8)
    requires
        0 <= i <= m <= s.len(),
    ensures
        match spec_body_mov_string(mode, pfx, s, i, b) {
            Ok((body, j)) => {
                &&& i <= j <= s.len()
                &&& (j <= m ==> spec_body_mov_string(mode, pfx, s.take(m), i, b) == spec_body_mov_string(mode, pfx, s, i, b))
                &&& (m < j ==> spec_body_mov_string(mode, pfx, s.take(m), i, b) == Err::<
                    (Body, int),
                    DecodeError,
                >(DecodeError::ExhaustedInput))
            },
            Err(e) => true,
        },
{
    reveal(spec_body_mov_string);
    reveal(spec_body_string);
    let w = spec_op_size(mode, pfx);
    if b == 0x80 || b == 0x82 {
        lemma_body_group1_prefix(mode, pfx, s, m, i, 1, 1);
    } else if b == 0x81 {
        lemma_body_group1_prefix(mode, pfx, s, m, i, w, spec_imm_enc(w));
    } else if b == 0x83 {
        lemma_body_group1_prefix(mode, pfx, s, m, i, w, 1);
    } else if (0x84 <= b && b < 0x8c) || b == 0x8d || b == 0x8f {
        lemma_modrm_prefix(mode, pfx, s, m, i);
    } else if b == 0xa8 {
        lemma_body_acc_imm_prefix(pfx, s, m, i, Opcode::TEST, 1);
    } else if b == 0xa9 {
        lemma_body_acc_imm_prefix(pfx, s, m, i, Opcode::TEST, w);
    }
}

/// As `lemma_le2_prefix`, for this opcode-byte range of the opcode stage.
#[verifier::rlimit(100)]
pub(crate) proof fn lemma_body_hi_prefix(mode: DecodeMode, pfx: Prefixes, s: Seq<u8>, m: int, i: int, b: u8)
    requires
        0 <= i <= m <= s.len(),
    ensures
        match spec_body_hi(mode, pfx, s, i, b) {
            Ok((body, j)) => {
                &&& i <= j <= s.len()
                &&& (j <= m ==> spec_body_hi(mode, pfx, s.take(m), i, b) == spec_body_hi(mode, pfx, s, i, b))
                &&& (m < j ==> spec_body_hi(mode, pfx, s.take(m), i, b) == Err::<
                    (Body, int),
                    DecodeError,
                >(DecodeError::ExhaustedInput))
            },
            Err(e) => true,
        },
{
    reveal(spec_body_hi);
    let w = spec_op_size(mode, pfx);
    if 0xb0 <= b && b < 0xb8 {
        lemma_imm_prefix(s, m, i, 1);
    } else if 0xb8 <= b && b < 0xc0 {
        lemma_imm_prefix(s, m, i, w);
    } else if b == 0xc2 {
        lemma_imm_prefix(s, m, i, 2);
    } else if b == 0xc6 || b == 0xc7 {
        let width = if b == 0xc6 {
            1u8
        } else {
            w
        };
        lemma_modrm_prefix(mode, pfx, s, m, i);
        match spec_modrm(mode, pfx, s, i) {
            Ok(((reg, rm), j1)) => {
                if j1 <= m {
                    lemma_imm_prefix(s, m, j1, spec_imm_enc(width));
                } else {
                    lemma_imm_prefix(s, s.len() as int, j1, spec_imm_enc(width));
                }
            },
            Err(e) => {},
        }
    } else if b == 0xcd {
        lemma_imm_prefix(s, m, i, 1);
    }
}

/// As `lemma_le2_prefix`, for this opcode-byte range of the opcode stage.
#[verifier::rlimit(100)]
pub(crate) proof fn lemma_body_branch_groups_prefix(mode: DecodeMode, pfx: Prefixes, s: Seq<u8>, m: int, i: int, b: u8)
    requires
        0 <= i <= m <= s.len(),
    ensures
        match spec_body_branch_groups(mode, pfx, s, i, b) {
            Ok((body, j)) => {
                &&& i <= j <= s.len()
                &&& (j <= m ==> spec_body_branch_groups(mode, pfx, s.take(m), i, b) == spec_body_branch_groups(mode, pfx, s, i, b))
                &&& (m < j ==> spec_body_branch_groups(mode, pfx, s.take(m), i, b) == Err::<
                    (Body, int),
                    DecodeError,
                >(DecodeError::ExhaustedInput))
            },
            Err(e) => true,
        },
{
    reveal(spec_body_branch_groups);
    let w = spec_op_size(mode, pfx);
    if b == 0xe8 || b == 0xe9 {
        lemma_imm_prefix(s, m, i, spec_rel_size(mode, pfx));
    } else if b == 0xeb {
        lemma_imm_prefix(s, m, i, 1);
    } else if b == 0xf6 {
        lemma_body_group3_prefix(mode, pfx, s, m, i, 1);
    } else if b == 0xf7 {
        lemma_body_group3_prefix(mode, pfx, s, m, i, w);
    } else if b == 0xfe {
        lemma_modrm_prefix(mode, pfx, s, m, i);
    } else if b == 0xff {
        lemma_body_ff_prefix(mode, pfx, s, m, i);
    }
}

/// As `lemma_le2_prefix`, for the whole opcode stage.
pub(crate) proof fn lemma_body_prefix(mode: DecodeMode, pfx: Prefixes, s: Seq<u8>, m: int, i: int, b: u8)
    requires
        0 <= i <= m <= s.len(),
    ensures
        match spec_body(mode, pfx, s, i, b) {
            Ok((body, j)) => {
                &&& i <= j <= s.len()
                &&& (j <= m ==> spec_body(mode, pfx, s.take(m), i, b) == spec_body(
                    mode,
                    pfx,
                    s,
                    i,
                    b,
                ))
                &&& (m < j ==> spec_body(mode, pfx, s.take(m), i, b) == Err::<
                    (Body, int),
                    DecodeError,
                >(DecodeError::ExhaustedInput))
            },
            Err(e) => true,
        },
{
    if b < 0x68 {
        lemma_body_lo_prefix(mode, pfx, s, m, i, b);
    } else if b < 0x80 {
        lemma_body_mid_prefix(mode, pfx, s, m, i, b);
    } else if b < 0xb0 {
        lemma_body_mov_string_prefix(mode, pfx, s, m, i, b);
    } else if b < 0xe0 {
        lemma_body_hi_prefix(mode, pfx, s, m, i, b);
    } else {
        lemma_body_branch_groups_prefix(mode, pfx, s, m, i, b);
    }
}

/// Decoding depends only on the bytes it consumes: truncating the stream at
/// or past a successful decode's encoded length leaves the result unchanged,
/// and truncating strictly inside it exhausts the input.
pub(crate) proof fn lemma_decode_prefix(mode: DecodeMode, s: Seq<u8>, m: int)
    requires
        0 <= m <= s.len(),
    ensures
        match spec_decode(mode, s) {
            Ok(inst) => {
                &&& inst.length <= s.len()
                &&& (inst.length <= m ==> spec_decode(mode, s.take(m)) == spec_decode(mode, s))
                &&& (m < inst.length ==> spec_decode(mode, s.take(m)) == Err::<
                    InstCore,
                    DecodeError,
                >(DecodeError::ExhaustedInput))
            },
            Err(e) => true,
        },
{
    lemma_prefixes_prefix(mode, s, m, 0, Prefixes::spec_none(), MAX_INSN_LEN as nat);
    match spec_prefixes(mode, s, 0, Prefixes::spec_none(), MAX_INSN_LEN as nat) {
        Ok((pfx, b, i1)) => {
            if i1 <= m {
                lemma_body_prefix(mode, pfx, s, m, i1, b);
            } else {
                lemma_body_prefix(mode, pfx, s, s.len() as int, i1, b);
            }
        },
        Err(e) => {},
    }
}

} // verus!
