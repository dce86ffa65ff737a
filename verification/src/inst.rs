//! The instruction record all three modes share the shape of, and the
//! semantic queries derived from it: effective memory access size and the
//! segment actually used by each operand.

use vstd::prelude::*;

use crate::opcode::Opcode;
use crate::operand::Operand;
use crate::regs::Segment;
use crate::DecodeMode;

verus! {

/// The prefix and extension state accumulated in front of the opcode.
#[derive(Clone, Copy, Debug, PartialEq, Eq)]
pub struct Prefixes {
    /// Explicit segment-override prefix, if one was present.
    pub seg: Option<Segment>,
    /// Operand-size override prefix.
    pub opsize: bool,
    /// Address-size override prefix.
    pub adsize: bool,
    /// Lock prefix.
    pub lock: bool,
    /// Repeat prefix.
    pub rep: bool,
    /// Repeat-while-not-equal prefix.
    pub repnz: bool,
    /// A REX prefix byte was in effect (long mode only).
    pub rex: bool,
    /// REX operand-width bit.
    pub rexw: bool,
    /// REX extension bit for the ModRM reg field.
    pub rexr: bool,
    /// REX extension bit for the SIB index field.
    pub rexx: bool,
    /// REX extension bit for the ModRM rm / SIB base field.
    pub rexb: bool,
}

impl Prefixes {
    /// The state before any prefix byte has been seen.
    pub open spec fn spec_none() -> Prefixes {
        Prefixes {
            seg: None,
            opsize: false,
            adsize: false,
            lock: false,
            rep: false,
            repnz: false,
            rex: false,
            rexw: false,
            rexr: false,
            rexx: false,
            rexb: false,
        }
    }

    /// The state before any prefix byte has been seen.
    pub fn none() -> (r: Prefixes)
        ensures
            r == Prefixes::spec_none(),
    {
        Prefixes {
            seg: None,
            opsize: false,
            adsize: false,
            lock: false,
            rep: false,
            repnz: false,
            rex: false,
            rexw: false,
            rexr: false,
            rexx: false,
            rexb: false,
        }
    }
}

/// The fixed four-slot operand store. No representable instruction has more
/// than four operands, so the record holds exactly four inline slots plus a
/// count; slots at or past the count hold `Operand::Nothing`.
#[derive(Clone, Copy, Debug, PartialEq, Eq)]
pub struct OperandList {
    pub slot0: Operand,
    pub slot1: Operand,
    pub slot2: Operand,
    pub slot3: Operand,
}

impl OperandList {
    /// The operand in slot `i` of the four.
    pub open spec fn spec_get(self, i: int) -> Operand {
        if i == 0 {
            self.slot0
        } else if i == 1 {
            self.slot1
        } else if i == 2 {
            self.slot2
        } else {
            self.slot3
        }
    }

    /// All four slots empty.
    pub open spec fn spec_empty() -> OperandList {
        OperandList {
            slot0: Operand::Nothing,
            slot1: Operand::Nothing,
            slot2: Operand::Nothing,
            slot3: Operand::Nothing,
        }
    }

    /// Read slot `i`. The store is exactly four slots wide; any index below
    /// four reads within it, whatever the operand count says.
    pub fn get(&self, i: u8) -> (r: Operand)
        requires
            i < 4,
        ensures
            r == self.spec_get(i as int),
    {
        match i {
            0 => self.slot0,
            1 => self.slot1,
            2 => self.slot2,
            _ => self.slot3,
        }
    }
}

/// One decoded instruction, in the shape all three modes share: mnemonic,
/// bounded operand list, accumulated prefix state, the operand width in
/// effect, and the encoded length. The per-mode instruction types wrap this
/// record and fix the mode.
#[derive(Clone, Copy, Debug, PartialEq, Eq)]
pub struct InstCore {
    /// The mode the instruction was decoded for.
    pub mode: DecodeMode,
    /// The mnemonic.
    pub opcode: Opcode,
    /// The four operand slots.
    pub operands: OperandList,
    /// How many leading slots are meaningful; never above four.
    pub operand_count: u8,
    /// The prefix and REX state that was in effect.
    pub prefixes: Prefixes,
    /// The effective operand width of the instruction's data operands, in
    /// bytes: the mode's default combined with the operand-size override and
    /// the REX width bit, or 1 for byte-sized forms.
    pub operand_width: u8,
    /// Whether the instruction's operand came from a ModRM r/m field. Such a
    /// form's access width is explicit — it follows the operand width — even
    /// for the stack-touching instructions, where the short forms access an
    /// implied fixed-width stack slot instead.
    pub explicit_width: bool,
    /// How many bytes the encoding consumed.
    pub length: u8,
}

/// The bounds every exposed record obeys, whether or not the decode that
/// produced it succeeded.
pub open spec fn core_wf(i: InstCore) -> bool {
    &&& i.operand_count <= 4
    &&& (i.operand_width == 1 || i.operand_width == 2 || i.operand_width == 4 || i.operand_width
        == 8)
    &&& i.length <= 15
    &&& forall|k: int| i.operand_count <= k < 4 ==> i.operands.spec_get(k) == Operand::Nothing
}

/// A record in its freshly initialized state for `mode`: a zero-length `NOP`
/// with no operands. Decoding overwrites it in place; initializing to this
/// keeps stale reads of a never-written record safe.
pub open spec fn spec_default_core(mode: DecodeMode) -> InstCore {
    InstCore {
        mode,
        opcode: Opcode::NOP,
        operands: OperandList::spec_empty(),
        operand_count: 0,
        prefixes: Prefixes::spec_none(),
        operand_width: match mode {
            DecodeMode::Real => 2,
            DecodeMode::Protected => 4,
            DecodeMode::Long => 4,
        },
        explicit_width: false,
        length: 0,
    }
}

/// The byte count of a memory access, as reported by the access size query.
#[derive(Clone, Copy, Debug, PartialEq, Eq)]
pub struct MemoryAccessSize {
    /// The access width in bytes.
    pub size: u8,
}

/// The conventional assembly name of an access width.
pub open spec fn spec_size_name(sz: u8) -> Seq<char> {
    if sz == 1 {
        "byte"@
    } else if sz == 2 {
        "word"@
    } else if sz == 4 {
        "dword"@
    } else if sz == 6 {
        "fword"@
    } else if sz == 8 {
        "qword"@
    } else if sz == 10 {
        "tbyte"@
    } else {
        "unknown"@
    }
}

impl MemoryAccessSize {
    /// The access width in bytes.
    pub fn bytes_size(&self) -> (r: Option<u8>)
        ensures
            r == Some(self.size),
    {
        Some(self.size)
    }

    /// The conventional assembly name of the access width.
    pub fn size_name(&self) -> (r: &'static str)
        ensures
            r@ == spec_size_name(self.size),
    {
        if self.size == 1 {
            "byte"
        } else if self.size == 2 {
            "word"
        } else if self.size == 4 {
            "dword"
        } else if self.size == 6 {
            "fword"
        } else if self.size == 8 {
            "qword"
        } else if self.size == 10 {
            "tbyte"
        } else {
            "unknown"
        }
    }
}

/// Whether one of the meaningful operand slots is a memory reference.
pub open spec fn spec_has_explicit_mem(i: InstCore) -> bool {
    exists|k: int| 0 <= k < i.operand_count && i.operands.spec_get(k) is Memory
}

/// The effective memory access size of the instruction, in bytes, or `None`
/// where it touches no memory.
///
/// For an explicit memory operand the access has the instruction's effective
/// operand width. The stack-touching instructions (`push`, `pop`, `pushf`,
/// `popf`, `call`, `ret`) access an implied stack slot instead: in long mode
/// that slot is the stack's native eight bytes whatever the operand-size
/// override says, while in the 16- and 32-bit modes the override does resize
/// it. A near `call` or `jmp` through a memory operand reads a full-width
/// target in long mode, override or not; through a register, the reported
/// size is that explicit register's own width. `lea` and `nop` take a memory
/// form without ever accessing memory.
pub open spec fn spec_mem_size(i: InstCore) -> Option<u8> {
    let w = i.operand_width;
    let stack_w: u8 = if i.mode is Long {
        8
    } else {
        w
    };
    let branch_ptr_w: u8 = if i.mode is Long {
        8
    } else {
        w
    };
    match i.opcode {
        Opcode::RETURN => Some(stack_w),
        Opcode::PUSH => if i.explicit_width {
            Some(w)
        } else {
            Some(stack_w)
        },
        Opcode::POP => if i.explicit_width {
            Some(w)
        } else {
            Some(stack_w)
        },
        Opcode::PUSHF => Some(stack_w),
        Opcode::POPF => Some(stack_w),
        Opcode::CALL => match i.operands.spec_get(0) {
            Operand::RelativeBranch { width, offset } => Some(stack_w),
            Operand::Register(r) => Some(r.spec_width()),
            Operand::Memory(m) => Some(branch_ptr_w),
            _ => None,
        },
        Opcode::JMP => match i.operands.spec_get(0) {
            Operand::Memory(m) => Some(branch_ptr_w),
            _ => None,
        },
        Opcode::CALLF => match i.operands.spec_get(0) {
            Operand::Memory(m) => Some((w + 2) as u8),
            _ => None,
        },
        Opcode::JMPF => match i.operands.spec_get(0) {
            Operand::Memory(m) => Some((w + 2) as u8),
            _ => None,
        },
        Opcode::LEA => None,
        Opcode::NOP => None,
        _ => if spec_has_explicit_mem(i) {
            Some(w)
        } else {
            None
        },
    }
}

/// The segment an access through operand `op` actually goes to, or `None`
/// where the default segment rules apply.
///
/// The string instructions fix segments by operand position: the `rdi`-side
/// access (`movs`/`stos` destination, `cmps`/`scas` second operand) is always
/// `ES`, never overridable; the `rsi`-side access takes the override prefix
/// and otherwise defaults to `DS`. For every other instruction, an explicit
/// override prefix is reported for its memory operands and nothing else.
pub open spec fn spec_segment_override(i: InstCore, op: u8) -> Option<Segment> {
    let source_seg = match i.prefixes.seg {
        Some(s) => s,
        None => Segment::DS,
    };
    match i.opcode {
        Opcode::MOVS => if op == 0 {
            Some(Segment::ES)
        } else if op == 1 {
            Some(source_seg)
        } else {
            None
        },
        Opcode::CMPS => if op == 0 {
            Some(source_seg)
        } else if op == 1 {
            Some(Segment::ES)
        } else {
            None
        },
        Opcode::STOS => if op == 0 {
            Some(Segment::ES)
        } else {
            None
        },
        Opcode::LODS => if op == 1 {
            Some(source_seg)
        } else {
            None
        },
        Opcode::SCAS => if op == 1 {
            Some(Segment::ES)
        } else {
            None
        },
        _ => if op < i.operand_count && op < 4 && i.operands.spec_get(op as int) is Memory {
            i.prefixes.seg
        } else {
            None
        },
    }
}

impl InstCore {
    /// The mnemonic of this instruction.
    pub fn opcode(&self) -> (r: Opcode)
        ensures
            r == self.opcode,
    {
        self.opcode
    }

    /// The operand at slot `i` of the fixed four. Slots at or past the
    /// operand count hold `Operand::Nothing`; an index at or past four is a
    /// contract violation, not a recoverable failure.
    pub fn operand(&self, i: u8) -> (r: Operand)
        requires
            i < 4,
        ensures
            r == self.operands.spec_get(i as int),
    {
        self.operands.get(i)
    }

    /// How many operands the instruction meaningfully has.
    pub fn operand_count(&self) -> (r: u8)
        ensures
            r == self.operand_count,
    {
        self.operand_count
    }

    /// The effective memory access size of this instruction, if it accesses
    /// memory.
    pub fn mem_size(&self) -> (r: Option<MemoryAccessSize>)
        requires
            core_wf(*self),
        ensures
            match r {
                Some(m) => spec_mem_size(*self) == Some(m.size),
                None => spec_mem_size(*self) == None::<u8>,
            },
    {
        let w = self.operand_width;
        let stack_w: u8 = if matches!(self.mode, DecodeMode::Long) {
            8
        } else {
            w
        };
        match self.opcode {
            Opcode::RETURN | Opcode::PUSHF | Opcode::POPF => Some(
                MemoryAccessSize { size: stack_w },
            ),
            Opcode::PUSH | Opcode::POP => if self.explicit_width {
                Some(MemoryAccessSize { size: w })
            } else {
                Some(MemoryAccessSize { size: stack_w })
            },
            Opcode::CALL => match self.operands.get(0) {
                Operand::RelativeBranch { width, offset } => Some(
                    MemoryAccessSize { size: stack_w },
                ),
                Operand::Register(r) => Some(MemoryAccessSize { size: r.width() }),
                Operand::Memory(m) => Some(MemoryAccessSize { size: stack_w }),
                _ => None,
            },
            Opcode::JMP => match self.operands.get(0) {
                Operand::Memory(m) => Some(MemoryAccessSize { size: stack_w }),
                _ => None,
            },
            Opcode::CALLF | Opcode::JMPF => match self.operands.get(0) {
                Operand::Memory(m) => Some(MemoryAccessSize { size: w + 2 }),
                _ => None,
            },
            Opcode::LEA | Opcode::NOP => None,
            _ => {
                if self.has_explicit_mem() {
                    Some(MemoryAccessSize { size: w })
                } else {
                    None
                }
            },
        }
    }

    /// Whether one of the meaningful operand slots is a memory reference.
    fn has_explicit_mem(&self) -> (r: bool)
        requires
            core_wf(*self),
        ensures
            r == spec_has_explicit_mem(*self),
    {
        let mut k: u8 = 0;
        while k < self.operand_count
            invariant
                core_wf(*self),
                0 <= k <= self.operand_count,
                forall|j: int| 0 <= j < k ==> !(self.operands.spec_get(j) is Memory),
            decreases self.operand_count - k,
        {
            if matches!(self.operands.get(k), Operand::Memory(_)) {
                assert(self.operands.spec_get(k as int) is Memory);
                return true;
            }
            k = k + 1;
        }
        false
    }

    /// The segment actually used for the access through operand `op`, or
    /// `None` where the default segment rules stand.
    pub fn segment_override_for_op(&self, op: u8) -> (r: Option<Segment>)
        ensures
            r == spec_segment_override(*self, op),
    {
        let source_seg = match self.prefixes.seg {
            Some(s) => s,
            None => Segment::DS,
        };
        match self.opcode {
            Opcode::MOVS => {
                if op == 0 {
                    Some(Segment::ES)
                } else if op == 1 {
                    Some(source_seg)
                } else {
                    None
                }
            },
            Opcode::CMPS => {
                if op == 0 {
                    Some(source_seg)
                } else if op == 1 {
                    Some(Segment::ES)
                } else {
                    None
                }
            },
            Opcode::STOS => {
                if op == 0 {
                    Some(Segment::ES)
                } else {
                    None
                }
            },
            Opcode::LODS => {
                if op == 1 {
                    Some(source_seg)
                } else {
                    None
                }
            },
            Opcode::SCAS => {
                if op == 1 {
                    Some(Segment::ES)
                } else {
                    None
                }
            },
            _ => {
                if op < self.operand_count && op < 4 && matches!(
                    self.operands.get(op),
                    Operand::Memory(_),
                ) {
                    self.prefixes.seg
                } else {
                    None
                }
            },
        }
    }
}

} // verus!
