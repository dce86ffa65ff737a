//! Instruction mnemonics. One member per distinct instruction semantic:
//! several encodings (register-direct, memory, immediate forms) map to the
//! same member.

use vstd::prelude::*;

verus! {

/// The mnemonic identity of a decoded instruction.
#[derive(Clone, Copy, Debug, PartialEq, Eq)]
pub enum Opcode {
    ADD,
    OR,
    ADC,
    SBB,
    AND,
    SUB,
    XOR,
    CMP,
    PUSH,
    POP,
    INC,
    DEC,
    IMUL,
    JO,
    JNO,
    JB,
    JNB,
    JZ,
    JNZ,
    JNA,
    JA,
    JS,
    JNS,
    JP,
    JNP,
    JL,
    JGE,
    JLE,
    JG,
    TEST,
    XCHG,
    MOV,
    LEA,
    NOP,
    MOVS,
    CMPS,
    STOS,
    LODS,
    SCAS,
    RETURN,
    CALL,
    CALLF,
    JMP,
    JMPF,
    INT,
    INT3,
    HLT,
    CMC,
    CLC,
    STC,
    CLI,
    STI,
    CLD,
    STD,
    NOT,
    NEG,
    MUL,
    DIV,
    IDIV,
    PUSHF,
    POPF,
    DAA,
    DAS,
    AAA,
    AAS,
    SYSCALL,
    UD2,
    CPUID,
}

} // verus!
