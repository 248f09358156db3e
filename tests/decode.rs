use pineapple::instruction::{DecodeError, Instruction, InstructionTypeB, InstructionTypeU};

const ENCODINGS: [(&str, u32, u32, u32); 37] = [
    ("LUI", 0b0110111, 0, 0),
    ("AUIPC", 0b0010111, 0, 0),
    ("JAL", 0b1101111, 0, 0),
    ("JALR", 0b1100111, 0, 0),
    ("BEQ", 0b1100011, 0b000, 0),
    ("BNE", 0b1100011, 0b001, 0),
    ("BLT", 0b1100011, 0b100, 0),
    ("BGE", 0b1100011, 0b101, 0),
    ("BLTU", 0b1100011, 0b110, 0),
    ("BGEU", 0b1100011, 0b111, 0),
    ("LB", 0b0000011, 0b000, 0),
    ("LH", 0b0000011, 0b001, 0),
    ("LW", 0b0000011, 0b010, 0),
    ("LBU", 0b0000011, 0b100, 0),
    ("LHU", 0b0000011, 0b101, 0),
    ("SB", 0b0100011, 0b000, 0),
    ("SH", 0b0100011, 0b001, 0),
    ("SW", 0b0100011, 0b010, 0),
    ("ADDI", 0b0010011, 0b000, 0),
    ("SLTI", 0b0010011, 0b010, 0),
    ("SLTIU", 0b0010011, 0b011, 0),
    ("XORI", 0b0010011, 0b100, 0),
    ("ORI", 0b0010011, 0b110, 0),
    ("ANDI", 0b0010011, 0b111, 0),
    ("SLLI", 0b0010011, 0b001, 0),
    ("SRLI", 0b0010011, 0b101, 0),
    ("SRAI", 0b0010011, 0b101, 1),
    ("ADD", 0b0110011, 0b000, 0),
    ("SUB", 0b0110011, 0b000, 1),
    ("SLL", 0b0110011, 0b001, 0),
    ("SLT", 0b0110011, 0b010, 0),
    ("SLTU", 0b0110011, 0b011, 0),
    ("XOR", 0b0110011, 0b100, 0),
    ("SRL", 0b0110011, 0b101, 0),
    ("SRA", 0b0110011, 0b101, 1),
    ("OR", 0b0110011, 0b110, 0),
    ("AND", 0b0110011, 0b111, 0),
];

#[test]
fn decode_each_documented_encoding() {
    for (name, opcode, funct3, top) in ENCODINGS {
        let word = (top << 31) | (5 << 16) | (funct3 << 12) | (0b01001 << 8) | opcode;
        let instr = Instruction::from_i32(word as i32)
            .unwrap_or_else(|_| panic!("{name} did not decode"));
        let text = format!("{instr:?}");
        assert!(text.starts_with(&format!("{name}(")), "{name} decoded as {text}");
    }
}

#[test]
fn decode_register_fields() {
    // BEQ with both source fields at bits 20..16 reading register 7.
    let word = (7 << 16) | 0b1100011;
    assert_eq!(
        Instruction::from_i32(word),
        Ok(Instruction::BEQ(InstructionTypeB { imm: 0, rs2: 7, rs1: 7 }))
    );
    // LUI x9, 0x12344000: the destination is bits 12..8, and bit 12 also
    // belongs to the upper immediate.
    let word = 0x1234_4000 | (9 << 8) | 0b0110111;
    assert_eq!(
        Instruction::from_i32(word),
        Ok(Instruction::LUI(InstructionTypeU { imm: 0x1234_4000, rd: 9 }))
    );
    let word = 0x1234_5000 | (9 << 8) | 0b0110111;
    assert_eq!(
        Instruction::from_i32(word),
        Ok(Instruction::LUI(InstructionTypeU { imm: 0x1234_5000, rd: 25 }))
    );
}

#[test]
fn undocumented_encodings_do_not_decode() {
    let unsupported = Err(DecodeError::UnsupportedInstruction);
    // Unknown opcodes.
    for opcode in [0b0000000, 0b1111111, 0b0101111, 0b1010011] {
        assert_eq!(Instruction::from_i32(opcode), unsupported);
    }
    // Fence and environment calls are recognised but not executed.
    assert_eq!(Instruction::from_i32(0b0001111), unsupported);
    assert_eq!(Instruction::from_i32(0b1110011), unsupported);
    assert_eq!(Instruction::from_i32((1 << 21) | 0b1110011), unsupported);
    // Undefined secondary selectors.
    assert_eq!(Instruction::from_i32((0b010 << 12) | 0b1100011), unsupported);
    assert_eq!(Instruction::from_i32((0b011 << 12) | 0b1100011), unsupported);
    assert_eq!(Instruction::from_i32((0b011 << 12) | 0b0000011), unsupported);
    assert_eq!(Instruction::from_i32((0b110 << 12) | 0b0000011), unsupported);
    assert_eq!(Instruction::from_i32((0b011 << 12) | 0b0100011), unsupported);
    assert_eq!(Instruction::from_i32((0b100 << 12) | 0b0100011), unsupported);
}
