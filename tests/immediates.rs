use pineapple::instruction::Immediate;

#[test]
#[allow(overflowing_literals)]
fn immediate_i() {
    // I-Type
    let inst_31 = 0b1111111111111111111111_00000_0000_0;
    let inst_30_25 = 0b0000000000000000000000_11111_0000_0;
    let inst_24_21 = 0b0000000000000000000000_00000_1111_0;
    let inst_20 = 0b0000000000000000000000_00000_0000_1;

    let imm_11_0 = 0b111111111111_00000_000_00000_0000000;
    let rs1 = 0b000000000000_11111_000_00000_0000000;
    let funct3 = 0b000000000000_00000_111_00000_0000000;
    let rd = 0b000000000000_00000_000_11111_0000000;
    let opcode = 0b000000000000_00000_000_00000_1111111;

    let non_imm = rs1 | funct3 | rd | opcode;
    assert_eq!(Immediate::from_i32(Immediate::I, non_imm), 0);

    assert_eq!(
        Immediate::from_i32(Immediate::I, imm_11_0),
        (inst_31 | inst_30_25 | inst_24_21 | inst_20)
    );
}

#[test]
#[allow(overflowing_literals)]
fn immediate_s() {
    // S-Type
    let inst_31 = 0b1111111111111111111111_00000_0000_0;
    let inst_30_25 = 0b0000000000000000000000_11111_0000_0;
    let inst_11_18 = 0b0000000000000000000000_00000_1111_0;
    let inst_7 = 0b0000000000000000000000_00000_0000_1;
    let imm_11_0 = 0b1111111_00000_00000_000_00000_0000000;
    let rs2 = 0b0000000_11111_00000_000_00000_0000000;
    let rs1 = 0b0000000_00000_11111_000_00000_0000000;
    let funct3 = 0b0000000_00000_00000_111_00000_0000000;
    let imm_4_0 = 0b0000000_00000_00000_000_11111_0000000;
    let opcode = 0b0000000_00000_00000_000_00000_1111111;

    let non_imm = rs2 | rs1 | funct3 | opcode;
    assert_eq!(Immediate::from_i32(Immediate::S, non_imm), 0);

    assert_eq!(
        Immediate::from_i32(Immediate::S, imm_11_0 | imm_4_0),
        (inst_31 | inst_30_25 | inst_11_18 | inst_7)
    );
}

#[test]
#[allow(overflowing_literals)]
fn immediate_b() {
    // B-Type
    let inst_31 = 0b111111111111111111111_00000_0000_0_0;
    let inst_30_25 = 0b000000000000000000000_11111_0000_0_0;
    let inst_11_18 = 0b000000000000000000000_00000_1111_0_0;
    let inst_7 = 0b000000000000000000000_00000_0000_1_0;
    let imm_12 = 0b1_000000_00000_00000_000_0000_0_0000000;
    let imm_10_5 = 0b0_111111_00000_00000_000_0000_0_0000000;
    let rs2 = 0b0_000000_11111_00000_000_0000_0_0000000;
    let rs1 = 0b0_000000_00000_11111_000_0000_0_0000000;
    let funct3 = 0b0_000000_00000_00000_111_0000_0_0000000;
    let imm_4_0 = 0b0_000000_00000_00000_000_1111_0_0000000;
    let imm_11 = 0b0_000000_00000_00000_000_0000_1_0000000;
    let opcode = 0b0_000000_00000_00000_000_0000_0_1111111;

    let non_imm = rs2 as i32 | rs1 as i32 | funct3 | opcode;
    assert_eq!(Immediate::from_i32(Immediate::B, non_imm), 0);

    assert_eq!(
        Immediate::from_i32(Immediate::B, imm_12 | imm_10_5 | imm_4_0 | imm_11),
        (inst_31 | inst_30_25 | inst_11_18 | inst_7)
    );
}

#[test]
#[allow(overflowing_literals)]
fn immediate_u() {
    let inst_31 = 0b1_00000000000_00000000_000000000000;
    let inst_30_20 = 0b0_11111111111_00000000_000000000000;
    let inst_19_12 = 0b0_00000000000_11111111_000000000000;

    let imm_31_12 = 0b11111111111111111111_00000_0000000;
    let rd = 0b00000000000000000000_11111_0000000;
    let opcode = 0b00000000000000000000_00000_1111111;

    let non_imm = rd | opcode;
    assert_eq!(Immediate::from_i32(Immediate::U, non_imm), 0);

    assert_eq!(
        Immediate::from_i32(Immediate::U, imm_31_12),
        (inst_31 | inst_30_20 | inst_19_12)
    )
}

#[test]
fn immediate_values_exact() {
    // I: bits 31..20 hold 0x7ff.
    assert_eq!(Immediate::from_i32(Immediate::I, 0x7ff0_0000), 0x7ff);
    // I: 0x800 is the most negative 12-bit value.
    assert_eq!(Immediate::from_i32(Immediate::I, 0x8000_0000u32 as i32), -2048);
    // S: offset 0xd6 split over bits 30..25, 11..8 and 7.
    assert_eq!(Immediate::from_i32(Immediate::S, 0x0c02_2b23), 0xd6);
    // B: bit 7 carries bit 11 of the displacement.
    assert_eq!(Immediate::from_i32(Immediate::B, 0x80), 0x800);
    // U: the low twelve bits are cleared.
    assert_eq!(Immediate::from_i32(Immediate::U, 0x1234_5fff), 0x1234_5000);
}

#[test]
fn clear_immediate_bits_give_zero() {
    let all = -1i32;
    assert_eq!(Immediate::from_i32(Immediate::I, all & !(0xfff0_0000u32 as i32)), 0);
    assert_eq!(Immediate::from_i32(Immediate::S, all & !(0xfe00_0f80u32 as i32)), 0);
    assert_eq!(Immediate::from_i32(Immediate::B, all & !(0xfe00_0f80u32 as i32)), 0);
    assert_eq!(Immediate::from_i32(Immediate::U, all & !(0xffff_f000u32 as i32)), 0);
}
