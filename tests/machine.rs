use pineapple::instruction::{
    DecodeError, Instruction, InstructionTypeI, InstructionTypeR, InstructionTypeS,
    InstructionTypeU,
};
use pineapple::memory::MemoryError;
use pineapple::{Pineapple, StepError};

/// Loads `word` into slot 0 and runs it; the program counter stays at 0.
fn run(machine: &mut Pineapple, word: i32) -> Result<Instruction, StepError> {
    machine.set_program(&[word], 0);
    machine.step()
}

#[test]
fn empty_test() {
    println!("Test");
    let mut pineapple = Pineapple::new();
    for _ in 0..5 {
        let instruction = pineapple.step();
        println!("{:?}", instruction)
    }
}

#[test]
fn nop_changes_nothing() {
    let mut machine = Pineapple::new();
    machine.set_program(&[0x0000_0013], 0);
    let before = machine.get_registers();
    let instr = machine.step().unwrap();
    assert_eq!(instr, Instruction::ADDI(InstructionTypeI { imm: 0, rs1: 0, rd: 0 }));
    assert_eq!(machine.get_program_counter(), 0);
    assert_eq!(machine.get_registers(), before);
    assert_eq!(machine.get_registers(), vec![0; 32]);
}

#[test]
fn addi_minus_one_wraps_to_all_ones() {
    let mut machine = Pineapple::new();
    // ADDI x1, x16, -1 (x16 is zero); bit 20 is shared by the immediate and the source field.
    let instr = run(&mut machine, 0xfff0_0113u32 as i32).unwrap();
    assert_eq!(instr, Instruction::ADDI(InstructionTypeI { imm: -1, rs1: 16, rd: 1 }));
    let regs = machine.get_registers();
    assert_eq!(regs[1], -1);
    assert_eq!(regs[1] as u32, 0xffff_ffff);
}

#[test]
fn add_and_sub_wrap_on_overflow() {
    let mut machine = Pineapple::new();
    // LUI x3, 0x80000000
    run(&mut machine, 0x8000_0337u32 as i32).unwrap();
    assert_eq!(machine.get_registers()[3], i32::MIN);
    // ADD x4, x3, x3
    let instr = run(&mut machine, 0x0003_0433).unwrap();
    assert_eq!(instr, Instruction::ADD(InstructionTypeR { rs2: 3, rs1: 3, rd: 4 }));
    assert_eq!(machine.get_registers()[4], 0);
    // SUB x4, x3, x3
    let instr = run(&mut machine, 0x8003_0433u32 as i32).unwrap();
    assert_eq!(instr, Instruction::SUB(InstructionTypeR { rs2: 3, rs1: 3, rd: 4 }));
    assert_eq!(machine.get_registers()[4], 0);
    let mut machine = Pineapple::new();
    machine
        .process_instruction(&Instruction::ADDI(InstructionTypeI { imm: 0x7ff, rs1: 0, rd: 5 }))
        .unwrap();
    machine
        .process_instruction(&Instruction::ADD(InstructionTypeR { rs2: 5, rs1: 6, rd: 6 }))
        .unwrap();
    assert_eq!(machine.get_registers()[6], 0x7ff);
}

#[test]
fn store_word_then_dump() {
    let mut machine = Pineapple::new();
    // ADDI x1, x0, 0x100
    run(&mut machine, 0x1000_0113).unwrap();
    // ADDI x2, x0, 0x2a
    run(&mut machine, 0x02a0_0213).unwrap();
    assert_eq!(machine.get_registers()[1], 0x100);
    assert_eq!(machine.get_registers()[2], 0x2a);
    // Both source fields read the same bits, so the stored register is also
    // the base: SW x2, 0xd6(x2) stores 0x2a at 0x2a + 0xd6 = 0x100.
    let instr = run(&mut machine, 0x0c02_2b23).unwrap();
    assert_eq!(instr, Instruction::SW(InstructionTypeS { imm: 0xd6, rs2: 2, rs1: 2 }));
    assert_eq!(machine.get_data_range(0x100, 0x104), Ok(vec![0x2a]));
    assert_eq!(machine.get_program_counter(), 0);
}

#[test]
fn register_zero_ignores_writes() {
    let mut machine = Pineapple::new();
    for instr in [
        Instruction::LUI(InstructionTypeU { imm: 0x1000, rd: 0 }),
        Instruction::ADDI(InstructionTypeI { imm: 5, rs1: 0, rd: 0 }),
        Instruction::SLL(InstructionTypeR { rs2: 0, rs1: 0, rd: 0 }),
        Instruction::LW(InstructionTypeI { imm: 0, rs1: 0, rd: 0 }),
        Instruction::JAL(InstructionTypeU { imm: 0, rd: 0 }),
    ] {
        machine.process_instruction(&instr).unwrap();
        assert_eq!(machine.get_registers(), vec![0; 32]);
    }
}

#[test]
fn loads_extend_by_width() {
    let mut machine = Pineapple::new();
    machine
        .process_instruction(&Instruction::LUI(InstructionTypeU { imm: 0x8000_8000u32 as i32, rd: 1 }))
        .unwrap();
    machine
        .process_instruction(&Instruction::ADDI(InstructionTypeI { imm: 0xff, rs1: 1, rd: 1 }))
        .unwrap();
    // x1 = 0x800080ff, stored at address 0x40 (x2 = 0x40).
    machine
        .process_instruction(&Instruction::ADDI(InstructionTypeI { imm: 0x40, rs1: 0, rd: 2 }))
        .unwrap();
    machine
        .process_instruction(&Instruction::SW(InstructionTypeS { imm: 0, rs2: 1, rs1: 2 }))
        .unwrap();
    let load = |machine: &mut Pineapple, instr: fn(InstructionTypeI) -> Instruction| {
        machine.process_instruction(&instr(InstructionTypeI { imm: 0, rs1: 2, rd: 3 })).unwrap();
        machine.get_registers()[3]
    };
    assert_eq!(load(&mut machine, Instruction::LW), 0x8000_80ffu32 as i32);
    assert_eq!(load(&mut machine, Instruction::LB), -1);
    assert_eq!(load(&mut machine, Instruction::LBU), 0xff);
    assert_eq!(load(&mut machine, Instruction::LH), 0x80ffu32 as i16 as i32);
    assert_eq!(load(&mut machine, Instruction::LHU), 0x80ff);
}

#[test]
fn byte_store_writes_masked_word() {
    let mut machine = Pineapple::new();
    machine
        .process_instruction(&Instruction::ADDI(InstructionTypeI { imm: -2, rs1: 0, rd: 1 }))
        .unwrap();
    machine
        .process_instruction(&Instruction::SB(InstructionTypeS { imm: 0x10, rs2: 1, rs1: 0 }))
        .unwrap();
    machine
        .process_instruction(&Instruction::SH(InstructionTypeS { imm: 0x14, rs2: 1, rs1: 0 }))
        .unwrap();
    assert_eq!(machine.get_data_range(0x10, 0x18), Ok(vec![0xfe, 0xfffe]));
}

#[test]
fn shifts_and_comparisons() {
    let mut m = Pineapple::new();
    let exec = |m: &mut Pineapple, i: Instruction| m.process_instruction(&i).unwrap();
    exec(&mut m, Instruction::ADDI(InstructionTypeI { imm: -16, rs1: 0, rd: 1 }));
    exec(&mut m, Instruction::ADDI(InstructionTypeI { imm: 34, rs1: 0, rd: 2 }));
    exec(&mut m, Instruction::SRAI(InstructionTypeI { imm: 2, rs1: 1, rd: 3 }));
    assert_eq!(m.get_registers()[3], -4);
    exec(&mut m, Instruction::SRLI(InstructionTypeI { imm: 28, rs1: 1, rd: 3 }));
    assert_eq!(m.get_registers()[3], 0xf);
    exec(&mut m, Instruction::SLLI(InstructionTypeI { imm: 4, rs1: 2, rd: 3 }));
    assert_eq!(m.get_registers()[3], 34 << 4);
    // A register-sourced shift amount keeps its low five bits: 34 & 0x1f == 2.
    exec(&mut m, Instruction::SLL(InstructionTypeR { rs2: 2, rs1: 2, rd: 3 }));
    assert_eq!(m.get_registers()[3], 34 << 2);
    exec(&mut m, Instruction::SRA(InstructionTypeR { rs2: 2, rs1: 1, rd: 3 }));
    assert_eq!(m.get_registers()[3], -4);
    exec(&mut m, Instruction::SRL(InstructionTypeR { rs2: 2, rs1: 1, rd: 3 }));
    assert_eq!(m.get_registers()[3], ((-16i32 as u32) >> 2) as i32);
    exec(&mut m, Instruction::SLT(InstructionTypeR { rs2: 2, rs1: 1, rd: 3 }));
    assert_eq!(m.get_registers()[3], 1);
    exec(&mut m, Instruction::SLTU(InstructionTypeR { rs2: 2, rs1: 1, rd: 3 }));
    assert_eq!(m.get_registers()[3], 0);
    exec(&mut m, Instruction::SLTI(InstructionTypeI { imm: -20, rs1: 1, rd: 3 }));
    assert_eq!(m.get_registers()[3], 0);
    exec(&mut m, Instruction::SLTIU(InstructionTypeI { imm: -1, rs1: 1, rd: 3 }));
    assert_eq!(m.get_registers()[3], 1);
    exec(&mut m, Instruction::XORI(InstructionTypeI { imm: 0xff, rs1: 2, rd: 3 }));
    assert_eq!(m.get_registers()[3], 34 ^ 0xff);
    exec(&mut m, Instruction::ORI(InstructionTypeI { imm: 0x100, rs1: 2, rd: 3 }));
    assert_eq!(m.get_registers()[3], 34 | 0x100);
    exec(&mut m, Instruction::ANDI(InstructionTypeI { imm: 0x2, rs1: 2, rd: 3 }));
    assert_eq!(m.get_registers()[3], 2);
    exec(&mut m, Instruction::XOR(InstructionTypeR { rs2: 2, rs1: 1, rd: 3 }));
    assert_eq!(m.get_registers()[3], -16 ^ 34);
    exec(&mut m, Instruction::OR(InstructionTypeR { rs2: 2, rs1: 1, rd: 3 }));
    assert_eq!(m.get_registers()[3], -16 | 34);
    exec(&mut m, Instruction::AND(InstructionTypeR { rs2: 2, rs1: 1, rd: 3 }));
    assert_eq!(m.get_registers()[3], -16 & 34);
}

#[test]
fn jumps_and_branches_move_the_slot_index() {
    let mut m = Pineapple::new();
    let exec = |m: &mut Pineapple, i: Instruction| m.process_instruction(&i).unwrap();
    exec(&mut m, Instruction::JAL(InstructionTypeU { imm: 10, rd: 1 }));
    assert_eq!(m.get_program_counter(), 10);
    assert_eq!(m.get_registers()[1], 1);
    exec(&mut m, Instruction::AUIPC(InstructionTypeU { imm: 0x1000, rd: 2 }));
    assert_eq!(m.get_registers()[2], 0x100a);
    exec(&mut m, Instruction::BEQ(pineapple::instruction::InstructionTypeB { imm: -4, rs2: 0, rs1: 0 }));
    assert_eq!(m.get_program_counter(), 6);
    exec(&mut m, Instruction::BNE(pineapple::instruction::InstructionTypeB { imm: -4, rs2: 0, rs1: 0 }));
    assert_eq!(m.get_program_counter(), 6);
    exec(&mut m, Instruction::BLT(pineapple::instruction::InstructionTypeB { imm: 3, rs2: 1, rs1: 0 }));
    assert_eq!(m.get_program_counter(), 9);
    exec(&mut m, Instruction::BGE(pineapple::instruction::InstructionTypeB { imm: 3, rs2: 1, rs1: 0 }));
    assert_eq!(m.get_program_counter(), 9);
    exec(&mut m, Instruction::ADDI(InstructionTypeI { imm: -1, rs1: 0, rd: 4 }));
    exec(&mut m, Instruction::BLTU(pineapple::instruction::InstructionTypeB { imm: 1, rs2: 4, rs1: 1 }));
    assert_eq!(m.get_program_counter(), 10);
    exec(&mut m, Instruction::BGEU(pineapple::instruction::InstructionTypeB { imm: 2, rs2: 1, rs1: 4 }));
    assert_eq!(m.get_program_counter(), 12);
    // JALR clears bit 0 of the target and links to the next slot.
    exec(&mut m, Instruction::JALR(InstructionTypeI { imm: 4, rs1: 1, rd: 5 }));
    assert_eq!(m.get_program_counter(), 4);
    assert_eq!(m.get_registers()[5], 13);
}

#[test]
fn undecodable_word_is_an_error() {
    let mut m = Pineapple::new();
    m.set_program(&[0x7f], 0);
    assert_eq!(m.step(), Err(StepError::Decode(DecodeError::UnsupportedInstruction)));
    assert_eq!(m.get_program_counter(), 0);
}

#[test]
fn unimplemented_instructions_are_errors() {
    let mut m = Pineapple::new();
    assert_eq!(m.process_instruction(&Instruction::ECALL), Err(StepError::Unimplemented));
    assert_eq!(m.process_instruction(&Instruction::EBREAK), Err(StepError::Unimplemented));
    let fence = Instruction::FENCE { fm: 0, pred: 0, succ: 0, rs1: 0, rd: 0 };
    assert_eq!(m.process_instruction(&fence), Err(StepError::Unimplemented));
}

#[test]
fn reserved_address_faults_without_effect() {
    let mut m = Pineapple::new();
    // x1 = 0x20000, just past RAM.
    m.process_instruction(&Instruction::LUI(InstructionTypeU { imm: 0x20000, rd: 1 })).unwrap();
    let load = Instruction::LW(InstructionTypeI { imm: 0, rs1: 1, rd: 2 });
    assert_eq!(m.process_instruction(&load), Err(StepError::Memory(MemoryError::Fault)));
    assert_eq!(m.get_registers()[2], 0);
    let store = Instruction::SW(InstructionTypeS { imm: 0, rs2: 1, rs1: 1 });
    assert_eq!(m.process_instruction(&store), Err(StepError::Memory(MemoryError::Fault)));
}

#[test]
fn fetch_beyond_instruction_memory_is_an_error() {
    let mut m = Pineapple::new();
    m.process_instruction(&Instruction::JAL(InstructionTypeU { imm: -1, rd: 0 })).unwrap();
    assert_eq!(m.get_program_counter(), 0xffff_ffff);
    assert_eq!(m.step(), Err(StepError::FetchOutOfBounds));
}

#[test]
fn program_loading_and_instruction_range() {
    let mut m = Pineapple::new();
    m.set_program(&[1, 2, 3], 10);
    assert_eq!(m.get_instruction_range(9, 14), Ok(vec![0x13, 1, 2, 3, 0x13]));
    assert_eq!(m.get_instruction_range(524_287, 524_288), Ok(vec![0x13]));
    assert_eq!(m.get_instruction_range(0, 524_289), Err(MemoryError::OutOfRange));
    assert_eq!(m.get_instruction_range(5, 4), Err(MemoryError::OutOfRange));
    m.set_program(&[7], 524_287);
    assert_eq!(m.get_instruction_range(524_287, 524_288), Ok(vec![7]));
}

#[test]
fn video_memory_dump() {
    let mut m = Pineapple::new();
    m.process_instruction(&Instruction::LUI(InstructionTypeU { imm: 0x4000_0000, rd: 1 })).unwrap();
    m.process_instruction(&Instruction::ADDI(InstructionTypeI { imm: 9, rs1: 0, rd: 2 })).unwrap();
    m.process_instruction(&Instruction::SW(InstructionTypeS { imm: 4, rs2: 2, rs1: 1 })).unwrap();
    let video = m.get_video_memory().unwrap();
    assert_eq!(video.len(), 512);
    assert_eq!(video[0], 0);
    assert_eq!(video[1], 9);
}
