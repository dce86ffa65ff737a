use x86_decode::common::{X86Arch, X86Decoder, X86Instruction};
use x86_decode::long_mode;
use x86_decode::opcode::Opcode;
use x86_decode::operand::{MemOperand, Operand};
use x86_decode::protected_mode;
use x86_decode::real_mode;
use x86_decode::regs::{RegSpec, RegisterBank, Segment};
use x86_decode::DecodeError;
use x86_decode::Reader;

fn long(data: &[u8]) -> Result<long_mode::Instruction, DecodeError> {
    long_mode::InstDecoder::default().decode_slice(data)
}

#[test]
fn exhausted_input() {
    assert_eq!(long(&[]).unwrap_err(), DecodeError::ExhaustedInput);
    assert_eq!(long(&[0x66]).unwrap_err(), DecodeError::ExhaustedInput);
    assert_eq!(long(&[0x48]).unwrap_err(), DecodeError::ExhaustedInput);
    assert_eq!(long(&[0x33]).unwrap_err(), DecodeError::ExhaustedInput);
    assert_eq!(long(&[0xe8, 0x11, 0x22]).unwrap_err(), DecodeError::ExhaustedInput);
}

#[test]
fn invalid_opcode() {
    assert_eq!(long(&[0x0f, 0xff]).unwrap_err(), DecodeError::InvalidOpcode);
    // push es exists only outside long mode
    assert_eq!(long(&[0x06]).unwrap_err(), DecodeError::InvalidOpcode);
    let es_push = real_mode::InstDecoder::default().decode_slice(&[0x06]).unwrap();
    assert_eq!(es_push.opcode(), Opcode::PUSH);
    assert_eq!(
        es_push.operand(0),
        Operand::Register(RegSpec { bank: RegisterBank::Seg, num: 0 })
    );
    // an unassigned ModRM reg selection in the 0xfe group
    assert_eq!(long(&[0xfe, 0xd0]).unwrap_err(), DecodeError::InvalidOpcode);
}

#[test]
fn invalid_operand_encoding() {
    // lea requires a memory form
    assert_eq!(long(&[0x8d, 0xc0]).unwrap_err(), DecodeError::InvalidOperand);
    // far call through a register does not exist
    assert_eq!(long(&[0xff, 0xd8]).unwrap_err(), DecodeError::InvalidOperand);
}

#[test]
fn invalid_prefix_combination() {
    // lock is only legal on a read-modify-write with a memory destination
    assert_eq!(long(&[0xf0, 0x39, 0x00]).unwrap_err(), DecodeError::InvalidPrefixes);
    assert_eq!(long(&[0xf0, 0x90]).unwrap_err(), DecodeError::InvalidPrefixes);
    let locked_add = long(&[0xf0, 0x00, 0x00]).unwrap();
    assert_eq!(locked_add.opcode(), Opcode::ADD);
}

#[test]
fn too_long() {
    assert_eq!(
        long(&[0x66, 0x66, 0x66, 0x66, 0x66, 0x66, 0x66, 0x66, 0x66, 0x66, 0x66, 0x66, 0x66,
            0x66, 0x66, 0x90]).unwrap_err(),
        DecodeError::TooLong,
    );
    assert_eq!(
        long(&[0x66, 0x66, 0x66, 0x66, 0x66, 0x66, 0x66, 0x66, 0x66, 0x66, 0x66, 0x66, 0x66,
            0x66, 0x66, 0x66, 0x90]).unwrap_err(),
        DecodeError::TooLong,
    );
    let fourteen = long(&[0x66, 0x66, 0x66, 0x66, 0x66, 0x66, 0x66, 0x66, 0x66, 0x66, 0x66,
        0x66, 0x66, 0x66, 0x90]).unwrap();
    assert_eq!(fourteen.opcode(), Opcode::NOP);
    assert_eq!(fourteen.length(), 15);
}

#[test]
fn length_exact_and_deterministic() {
    let bytes = [0x66, 0x48, 0x8b, 0x44, 0x24, 0x08, 0x90, 0x91];
    let first = long(&bytes).unwrap();
    let n = first.length() as usize;
    assert_eq!(n, 6);
    let again = long(&bytes[..n]).unwrap();
    assert_eq!(first, again);
    assert_eq!(long(&bytes[..n - 1]).unwrap_err(), DecodeError::ExhaustedInput);
    assert_eq!(long(&bytes[..1]).unwrap_err(), DecodeError::ExhaustedInput);
    assert_eq!(long(&bytes[..0]).unwrap_err(), DecodeError::ExhaustedInput);
}

#[test]
fn reader_advances_by_length() {
    let data = [0x50, 0x58, 0xc3];
    let mut words = Reader::new(&data);
    let decoder = long_mode::InstDecoder::default();
    let first = decoder.decode(&mut words).unwrap();
    assert_eq!(first.opcode(), Opcode::PUSH);
    assert_eq!(words.offset(), 1);
    let second = decoder.decode(&mut words).unwrap();
    assert_eq!(second.opcode(), Opcode::POP);
    assert_eq!(words.offset(), 2);
    let third = decoder.decode(&mut words).unwrap();
    assert_eq!(third.opcode(), Opcode::RETURN);
    assert_eq!(words.offset(), 3);
    assert_eq!(decoder.decode(&mut words).unwrap_err(), DecodeError::ExhaustedInput);
}

#[test]
fn decode_into_reuses_record() {
    let decoder = long_mode::InstDecoder::default();
    let mut inst = long_mode::Instruction::default();
    let data = [0x48, 0x31, 0xc0];
    let mut words = Reader::new(&data);
    decoder.decode_into(&mut inst, &mut words).unwrap();
    assert_eq!(inst.opcode(), Opcode::XOR);
    assert_eq!(inst.length(), 3);
    // a failed decode leaves the record stale but within bounds
    let bad = [0x0f, 0xff];
    let mut bad_words = Reader::new(&bad);
    assert!(decoder.decode_into(&mut inst, &mut bad_words).is_err());
    assert!(inst.operand_count() <= 4);
    assert_eq!(inst.operand(3), Operand::Nothing);
}

#[test]
fn string_instruction_segments() {
    let movs = long(&[0xa4]).unwrap();
    assert_eq!(movs.opcode(), Opcode::MOVS);
    assert_eq!(movs.operand_count(), 2);
    assert_eq!(movs.segment_override_for_op(0), Some(Segment::ES));
    assert_eq!(movs.segment_override_for_op(1), Some(Segment::DS));
    assert_eq!(movs.segment_override_for_op(2), None);
    // an override prefix moves only the source side; the ES side is fixed
    let movs_cs = long(&[0x2e, 0xa4]).unwrap();
    assert_eq!(movs_cs.segment_override_for_op(0), Some(Segment::ES));
    assert_eq!(movs_cs.segment_override_for_op(1), Some(Segment::CS));
    let stos = long(&[0xaa]).unwrap();
    assert_eq!(stos.opcode(), Opcode::STOS);
    assert_eq!(stos.segment_override_for_op(0), Some(Segment::ES));
    assert_eq!(stos.segment_override_for_op(1), None);
    let lods = long(&[0x36, 0xac]).unwrap();
    assert_eq!(lods.opcode(), Opcode::LODS);
    assert_eq!(lods.segment_override_for_op(1), Some(Segment::SS));
    let cmps = long(&[0xa6]).unwrap();
    assert_eq!(cmps.segment_override_for_op(0), Some(Segment::DS));
    assert_eq!(cmps.segment_override_for_op(1), Some(Segment::ES));
}

#[test]
fn non_string_segment_override() {
    // the override is reported for memory operands only
    let xor = long(&[0x64, 0x33, 0x00]).unwrap();
    assert_eq!(xor.segment_override_for_op(0), None);
    assert_eq!(xor.segment_override_for_op(1), Some(Segment::FS));
    let plain = long(&[0x33, 0x00]).unwrap();
    assert_eq!(plain.segment_override_for_op(1), None);
}

#[test]
fn operand_slots_bounded() {
    let nop = long(&[0x90]).unwrap();
    assert_eq!(nop.operand_count(), 0);
    assert_eq!(nop.operand(0), Operand::Nothing);
    assert_eq!(nop.operand(1), Operand::Nothing);
    assert_eq!(nop.operand(2), Operand::Nothing);
    assert_eq!(nop.operand(3), Operand::Nothing);
    let push = long(&[0x50]).unwrap();
    assert_eq!(push.operand_count(), 1);
    assert_eq!(
        push.operand(0),
        Operand::Register(RegSpec { bank: RegisterBank::Quad, num: 0 })
    );
    assert_eq!(push.operand(1), Operand::Nothing);
    assert_eq!(push.operand(3), Operand::Nothing);
}

#[test]
fn modrm_sib_addressing() {
    let mov = long(&[0x48, 0x8b, 0x44, 0x24, 0x08]).unwrap();
    assert_eq!(mov.opcode(), Opcode::MOV);
    assert_eq!(mov.length(), 5);
    assert_eq!(
        mov.operand(0),
        Operand::Register(RegSpec { bank: RegisterBank::Quad, num: 0 })
    );
    assert_eq!(
        mov.operand(1),
        Operand::Memory(
            MemOperand {
                base: Some(RegSpec { bank: RegisterBank::Quad, num: 4 }),
                index: None,
                scale: 1,
                disp: 8,
            }
        )
    );
    let rip = long(&[0x8b, 0x05, 0x10, 0x00, 0x00, 0x00]).unwrap();
    assert_eq!(
        rip.operand(1),
        Operand::Memory(
            MemOperand {
                base: Some(RegSpec { bank: RegisterBank::InstPtr, num: 0 }),
                index: None,
                scale: 1,
                disp: 16,
            }
        )
    );
    let scaled = long(&[0x8b, 0x44, 0x88, 0xfc]).unwrap();
    assert_eq!(
        scaled.operand(1),
        Operand::Memory(
            MemOperand {
                base: Some(RegSpec { bank: RegisterBank::Quad, num: 0 }),
                index: Some(RegSpec { bank: RegisterBank::Quad, num: 1 }),
                scale: 4,
                disp: -4,
            }
        )
    );
}

#[test]
fn rex_byte_registers() {
    // the same index names ah without REX and spl with it; both are one byte
    let without = long(&[0xb4, 0x01]).unwrap();
    assert_eq!(
        without.operand(0),
        Operand::Register(RegSpec { bank: RegisterBank::ByteLegacy, num: 4 })
    );
    assert_eq!(without.operand(0).width(), Some(1));
    let with = long(&[0x40, 0xb4, 0x01]).unwrap();
    assert_eq!(
        with.operand(0),
        Operand::Register(RegSpec { bank: RegisterBank::ByteRex, num: 4 })
    );
    assert_eq!(with.operand(0).width(), Some(1));
    // rex.b extends the register index: push r8
    let extended = long(&[0x41, 0x50]).unwrap();
    assert_eq!(
        extended.operand(0),
        Operand::Register(RegSpec { bank: RegisterBank::Quad, num: 8 })
    );
}

#[test]
fn immediates_sign_extended() {
    let mov = long(&[0xb8, 0x78, 0x56, 0x34, 0x12]).unwrap();
    assert_eq!(mov.operand(1), Operand::Immediate { width: 4, value: 0x12345678 });
    let add = long(&[0x83, 0xc0, 0xff]).unwrap();
    assert_eq!(add.opcode(), Opcode::ADD);
    assert_eq!(add.operand(1), Operand::Immediate { width: 4, value: -1 });
    let movabs = long(&[0x48, 0xb8, 0x01, 0x02, 0x03, 0x04, 0x05, 0x06, 0x07, 0x80]).unwrap();
    assert_eq!(
        movabs.operand(1),
        Operand::Immediate { width: 8, value: 0x8007060504030201u64 as i64 }
    );
    let jmp = long(&[0xeb, 0xfe]).unwrap();
    assert_eq!(jmp.operand(0), Operand::RelativeBranch { width: 1, offset: -2 });
}

#[test]
fn modes_differ() {
    let in_long = long(&[0x33, 0x00]).unwrap();
    assert_eq!(in_long.mem_size().unwrap().bytes_size(), Some(4));
    let in_protected = protected_mode::InstDecoder::default().decode_slice(&[0x33, 0x00]).unwrap();
    assert_eq!(in_protected.mem_size().unwrap().bytes_size(), Some(4));
    assert_eq!(
        in_protected.operand(1),
        Operand::Memory(
            MemOperand {
                base: Some(RegSpec { bank: RegisterBank::Double, num: 0 }),
                index: None,
                scale: 1,
                disp: 0,
            }
        )
    );
    // 16-bit addressing has its own base/index table: [bx + si]
    let in_real = real_mode::InstDecoder::default().decode_slice(&[0x33, 0x00]).unwrap();
    assert_eq!(in_real.mem_size().unwrap().bytes_size(), Some(2));
    assert_eq!(
        in_real.operand(1),
        Operand::Memory(
            MemOperand {
                base: Some(RegSpec { bank: RegisterBank::Word, num: 3 }),
                index: Some(RegSpec { bank: RegisterBank::Word, num: 6 }),
                scale: 1,
                disp: 0,
            }
        )
    );
    // a REX-range byte is an ordinary increment outside long mode
    let inc = protected_mode::InstDecoder::default().decode_slice(&[0x40]).unwrap();
    assert_eq!(inc.opcode(), Opcode::INC);
    // outside long mode the override does resize the stack access
    let overridden = real_mode::InstDecoder::default().decode_slice(&[0x66, 0x50]).unwrap();
    assert_eq!(overridden.mem_size().unwrap().bytes_size(), Some(4));
    let plain = real_mode::InstDecoder::default().decode_slice(&[0x50]).unwrap();
    assert_eq!(plain.mem_size().unwrap().bytes_size(), Some(2));
}

fn decode_one<A: X86Arch>(decoder: &A::Decoder, data: &[u8]) -> A::Instruction where
    A::Decoder: X86Decoder<A> {
    let mut words = Reader::new(data);
    X86Decoder::decode(decoder, &mut words).unwrap()
}

#[test]
fn arch_abstraction() {
    let in_long = decode_one::<x86_decode::x86_64>(&long_mode::InstDecoder::default(), &[0x50]);
    assert_eq!(X86Instruction::opcode(&in_long), Opcode::PUSH);
    assert_eq!(X86Instruction::operand_count(&in_long), 1);
    assert_eq!(X86Instruction::segment_override_for_op(&in_long, 0), None);
    let in_real = decode_one::<x86_decode::x86_16>(&real_mode::InstDecoder::default(), &[0xa4]);
    assert_eq!(X86Instruction::opcode(&in_real), Opcode::MOVS);
    assert_eq!(X86Instruction::segment_override_for_op(&in_real, 0), Some(Segment::ES));
    let in_protected = decode_one::<x86_decode::x86_32>(
        &protected_mode::InstDecoder::default(),
        &[0x90],
    );
    assert_eq!(X86Instruction::opcode(&in_protected), Opcode::NOP);
}

#[test]
fn canonical_names() {
    assert_eq!(RegSpec::rsp().name(), "rsp");
    assert_eq!(RegSpec::esp().name(), "esp");
    assert_eq!(RegSpec::ch().name(), "ch");
    assert_eq!(RegSpec::cl().name(), "cl");
    assert_eq!(Segment::GS.name(), "gs");
    let extended = long(&[0x41, 0x50]).unwrap();
    match extended.operand(0) {
        Operand::Register(r) => assert_eq!(r.name(), "r8"),
        other => panic!("expected a register operand, got {:?}", other),
    }
}
