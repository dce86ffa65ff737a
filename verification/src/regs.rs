//! Registers and segments: the value types a decoded operand refers to.

use vstd::prelude::*;

verus! {

/// A bank of architecturally alike registers. A concrete register is a bank
/// together with an index; the bank alone fixes the register's byte width.
///
/// Two distinct byte registers can share an index: index 5 in `ByteLegacy`
/// names `ch` (the high byte of `rcx`), while index 5 in `ByteRex` names
/// `bpl` (the low byte of `rbp`). Which bank applies depends on whether the
/// encoding carried a REX prefix, so a register reference must keep the bank.
#[derive(Clone, Copy, Debug, PartialEq, Eq)]
pub enum RegisterBank {
    /// 64-bit general-purpose registers (`rax` .. `r15`).
    Quad,
    /// 32-bit general-purpose registers (`eax` .. `r15d`).
    Double,
    /// 16-bit general-purpose registers (`ax` .. `r15w`).
    Word,
    /// Legacy byte registers (`al`, `cl`, `dl`, `bl`, `ah`, `ch`, `dh`, `bh`);
    /// indices 4 through 7 name the high bytes of the first four registers.
    ByteLegacy,
    /// Byte registers as selected under a REX prefix (`al` .. `r15b`, with
    /// `spl`, `bpl`, `sil`, `dil` at indices 4 through 7).
    ByteRex,
    /// Segment registers (`es`, `cs`, `ss`, `ds`, `fs`, `gs`).
    Seg,
    /// The instruction pointer, as the base of RIP-relative addressing.
    InstPtr,
}

/// The architecturally defined byte width of every register in a bank.
pub open spec fn bank_width(b: RegisterBank) -> u8 {
    match b {
        RegisterBank::Quad => 8,
        RegisterBank::Double => 4,
        RegisterBank::Word => 2,
        RegisterBank::ByteLegacy => 1,
        RegisterBank::ByteRex => 1,
        RegisterBank::Seg => 2,
        RegisterBank::InstPtr => 8,
    }
}

/// A reference to one concrete register: a bank and an index within it.
#[derive(Clone, Copy, Debug, PartialEq, Eq)]
pub struct RegSpec {
    pub bank: RegisterBank,
    pub num: u8,
}

impl RegSpec {
    /// The register's byte width: a function of the bank alone, never of the
    /// index or of which encoding produced the reference.
    pub open spec fn spec_width(self) -> u8 {
        bank_width(self.bank)
    }

    /// A register index that actually exists within its bank.
    pub open spec fn wf(self) -> bool {
        match self.bank {
            RegisterBank::Quad => self.num < 16,
            RegisterBank::Double => self.num < 16,
            RegisterBank::Word => self.num < 16,
            RegisterBank::ByteLegacy => self.num < 8,
            RegisterBank::ByteRex => self.num < 16,
            RegisterBank::Seg => self.num < 6,
            RegisterBank::InstPtr => self.num == 0,
        }
    }

    /// The architecturally defined byte width of this register.
    pub fn width(&self) -> (r: u8)
        ensures
            r == self.spec_width(),
    {
        match self.bank {
            RegisterBank::Quad => 8,
            RegisterBank::Double => 4,
            RegisterBank::Word => 2,
            RegisterBank::ByteLegacy => 1,
            RegisterBank::ByteRex => 1,
            RegisterBank::Seg => 2,
            RegisterBank::InstPtr => 8,
        }
    }

    /// The 64-bit stack pointer, `rsp`.
    pub fn rsp() -> (r: RegSpec)
        ensures
            r == (RegSpec { bank: RegisterBank::Quad, num: 4 }),
    {
        RegSpec { bank: RegisterBank::Quad, num: 4 }
    }

    /// The 32-bit stack pointer alias, `esp`.
    pub fn esp() -> (r: RegSpec)
        ensures
            r == (RegSpec { bank: RegisterBank::Double, num: 4 }),
    {
        RegSpec { bank: RegisterBank::Double, num: 4 }
    }

    /// The 16-bit stack pointer alias, `sp`.
    pub fn sp() -> (r: RegSpec)
        ensures
            r == (RegSpec { bank: RegisterBank::Word, num: 4 }),
    {
        RegSpec { bank: RegisterBank::Word, num: 4 }
    }

    /// The low byte of `rcx`, `cl`.
    pub fn cl() -> (r: RegSpec)
        ensures
            r == (RegSpec { bank: RegisterBank::ByteLegacy, num: 1 }),
    {
        RegSpec { bank: RegisterBank::ByteLegacy, num: 1 }
    }

    /// The high byte of `rcx`, `ch`: same width as `cl`, reached through the
    /// high-byte index of the legacy byte bank.
    pub fn ch() -> (r: RegSpec)
        ensures
            r == (RegSpec { bank: RegisterBank::ByteLegacy, num: 5 }),
    {
        RegSpec { bank: RegisterBank::ByteLegacy, num: 5 }
    }

    /// The segment register `gs`.
    pub fn gs() -> (r: RegSpec)
        ensures
            r == (RegSpec { bank: RegisterBank::Seg, num: 5 }),
    {
        RegSpec { bank: RegisterBank::Seg, num: 5 }
    }
}

/// One of the six x86 segment registers. A segment appears both as an
/// explicit override prefix on an instruction and as the implicit segment
/// an operand's memory access goes through.
#[derive(Clone, Copy, Debug, PartialEq, Eq)]
pub enum Segment {
    ES,
    CS,
    SS,
    DS,
    FS,
    GS,
}


impl RegSpec {
    /// The register's canonical assembly name.
    pub open spec fn spec_name(self) -> Seq<char>
        recommends
            self.wf(),
    {
        match self.bank {
        RegisterBank::Quad => {
            if self.num == 0 {
                "rax"@
            } else if self.num == 1 {
                "rcx"@
            } else if self.num == 2 {
                "rdx"@
            } else if self.num == 3 {
                "rbx"@
            } else if self.num == 4 {
                "rsp"@
            } else if self.num == 5 {
                "rbp"@
            } else if self.num == 6 {
                "rsi"@
            } else if self.num == 7 {
                "rdi"@
            } else if self.num == 8 {
                "r8"@
            } else if self.num == 9 {
                "r9"@
            } else if self.num == 10 {
                "r10"@
            } else if self.num == 11 {
                "r11"@
            } else if self.num == 12 {
                "r12"@
            } else if self.num == 13 {
                "r13"@
            } else if self.num == 14 {
                "r14"@
            } else {
                "r15"@
            }
        },
        RegisterBank::Double => {
            if self.num == 0 {
                "eax"@
            } else if self.num == 1 {
                "ecx"@
            } else if self.num == 2 {
                "edx"@
            } else if self.num == 3 {
                "ebx"@
            } else if self.num == 4 {
                "esp"@
            } else if self.num == 5 {
                "ebp"@
            } else if self.num == 6 {
                "esi"@
            } else if self.num == 7 {
                "edi"@
            } else if self.num == 8 {
                "r8d"@
            } else if self.num == 9 {
                "r9d"@
            } else if self.num == 10 {
                "r10d"@
            } else if self.num == 11 {
                "r11d"@
            } else if self.num == 12 {
                "r12d"@
            } else if self.num == 13 {
                "r13d"@
            } else if self.num == 14 {
                "r14d"@
            } else {
                "r15d"@
            }
        },
        RegisterBank::Word => {
            if self.num == 0 {
                "ax"@
            } else if self.num == 1 {
                "cx"@
            } else if self.num == 2 {
                "dx"@
            } else if self.num == 3 {
                "bx"@
            } else if self.num == 4 {
                "sp"@
            } else if self.num == 5 {
                "bp"@
            } else if self.num == 6 {
                "si"@
            } else if self.num == 7 {
                "di"@
            } else if self.num == 8 {
                "r8w"@
            } else if self.num == 9 {
                "r9w"@
            } else if self.num == 10 {
                "r10w"@
            } else if self.num == 11 {
                "r11w"@
            } else if self.num == 12 {
                "r12w"@
            } else if self.num == 13 {
                "r13w"@
            } else if self.num == 14 {
                "r14w"@
            } else {
                "r15w"@
            }
        },
        RegisterBank::ByteLegacy => {
            if self.num == 0 {
                "al"@
            } else if self.num == 1 {
                "cl"@
            } else if self.num == 2 {
                "dl"@
            } else if self.num == 3 {
                "bl"@
            } else if self.num == 4 {
                "ah"@
            } else if self.num == 5 {
                "ch"@
            } else if self.num == 6 {
                "dh"@
            } else {
                "bh"@
            }
        },
        RegisterBank::ByteRex => {
            if self.num == 0 {
                "al"@
            } else if self.num == 1 {
                "cl"@
            } else if self.num == 2 {
                "dl"@
            } else if self.num == 3 {
                "bl"@
            } else if self.num == 4 {
                "spl"@
            } else if self.num == 5 {
                "bpl"@
            } else if self.num == 6 {
                "sil"@
            } else if self.num == 7 {
                "dil"@
            } else if self.num == 8 {
                "r8b"@
            } else if self.num == 9 {
                "r9b"@
            } else if self.num == 10 {
                "r10b"@
            } else if self.num == 11 {
                "r11b"@
            } else if self.num == 12 {
                "r12b"@
            } else if self.num == 13 {
                "r13b"@
            } else if self.num == 14 {
                "r14b"@
            } else {
                "r15b"@
            }
        },
        RegisterBank::Seg => {
            if self.num == 0 {
                "es"@
            } else if self.num == 1 {
                "cs"@
            } else if self.num == 2 {
                "ss"@
            } else if self.num == 3 {
                "ds"@
            } else if self.num == 4 {
                "fs"@
            } else {
                "gs"@
            }
        },
        RegisterBank::InstPtr => "rip"@,
        }
    }

    /// The register's canonical assembly name.
    pub fn name(&self) -> (r: &'static str)
        requires
            self.wf(),
        ensures
            r@ == self.spec_name(),
    {
        match self.bank {
        RegisterBank::Quad => {
            if self.num == 0 {
                "rax"
            } else if self.num == 1 {
                "rcx"
            } else if self.num == 2 {
                "rdx"
            } else if self.num == 3 {
                "rbx"
            } else if self.num == 4 {
                "rsp"
            } else if self.num == 5 {
                "rbp"
            } else if self.num == 6 {
                "rsi"
            } else if self.num == 7 {
                "rdi"
            } else if self.num == 8 {
                "r8"
            } else if self.num == 9 {
                "r9"
            } else if self.num == 10 {
                "r10"
            } else if self.num == 11 {
                "r11"
            } else if self.num == 12 {
                "r12"
            } else if self.num == 13 {
                "r13"
            } else if self.num == 14 {
                "r14"
            } else {
                "r15"
            }
        },
        RegisterBank::Double => {
            if self.num == 0 {
                "eax"
            } else if self.num == 1 {
                "ecx"
            } else if self.num == 2 {
                "edx"
            } else if self.num == 3 {
                "ebx"
            } else if self.num == 4 {
                "esp"
            } else if self.num == 5 {
                "ebp"
            } else if self.num == 6 {
                "esi"
            } else if self.num == 7 {
                "edi"
            } else if self.num == 8 {
                "r8d"
            } else if self.num == 9 {
                "r9d"
            } else if self.num == 10 {
                "r10d"
            } else if self.num == 11 {
                "r11d"
            } else if self.num == 12 {
                "r12d"
            } else if self.num == 13 {
                "r13d"
            } else if self.num == 14 {
                "r14d"
            } else {
                "r15d"
            }
        },
        RegisterBank::Word => {
            if self.num == 0 {
                "ax"
            } else if self.num == 1 {
                "cx"
            } else if self.num == 2 {
                "dx"
            } else if self.num == 3 {
                "bx"
            } else if self.num == 4 {
                "sp"
            } else if self.num == 5 {
                "bp"
            } else if self.num == 6 {
                "si"
            } else if self.num == 7 {
                "di"
            } else if self.num == 8 {
                "r8w"
            } else if self.num == 9 {
                "r9w"
            } else if self.num == 10 {
                "r10w"
            } else if self.num == 11 {
                "r11w"
            } else if self.num == 12 {
                "r12w"
            } else if self.num == 13 {
                "r13w"
            } else if self.num == 14 {
                "r14w"
            } else {
                "r15w"
            }
        },
        RegisterBank::ByteLegacy => {
            if self.num == 0 {
                "al"
            } else if self.num == 1 {
                "cl"
            } else if self.num == 2 {
                "dl"
            } else if self.num == 3 {
                "bl"
            } else if self.num == 4 {
                "ah"
            } else if self.num == 5 {
                "ch"
            } else if self.num == 6 {
                "dh"
            } else {
                "bh"
            }
        },
        RegisterBank::ByteRex => {
            if self.num == 0 {
                "al"
            } else if self.num == 1 {
                "cl"
            } else if self.num == 2 {
                "dl"
            } else if self.num == 3 {
                "bl"
            } else if self.num == 4 {
                "spl"
            } else if self.num == 5 {
                "bpl"
            } else if self.num == 6 {
                "sil"
            } else if self.num == 7 {
                "dil"
            } else if self.num == 8 {
                "r8b"
            } else if self.num == 9 {
                "r9b"
            } else if self.num == 10 {
                "r10b"
            } else if self.num == 11 {
                "r11b"
            } else if self.num == 12 {
                "r12b"
            } else if self.num == 13 {
                "r13b"
            } else if self.num == 14 {
                "r14b"
            } else {
                "r15b"
            }
        },
        RegisterBank::Seg => {
            if self.num == 0 {
                "es"
            } else if self.num == 1 {
                "cs"
            } else if self.num == 2 {
                "ss"
            } else if self.num == 3 {
                "ds"
            } else if self.num == 4 {
                "fs"
            } else {
                "gs"
            }
        },
        RegisterBank::InstPtr => "rip",
        }
    }
}

impl Segment {
    /// The segment register's canonical assembly name.
    pub open spec fn spec_name(self) -> Seq<char> {
        match self {
            Segment::ES => "es"@,
            Segment::CS => "cs"@,
            Segment::SS => "ss"@,
            Segment::DS => "ds"@,
            Segment::FS => "fs"@,
            Segment::GS => "gs"@,
        }
    }

    /// The segment register's canonical assembly name.
    pub fn name(&self) -> (r: &'static str)
        ensures
            r@ == self.spec_name(),
    {
        match self {
            Segment::ES => "es",
            Segment::CS => "cs",
            Segment::SS => "ss",
            Segment::DS => "ds",
            Segment::FS => "fs",
            Segment::GS => "gs",
        }
    }
}

} // verus!
