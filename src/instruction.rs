//! The instruction set: operand shapes, immediate reconstruction and decoding
//! of packed 32-bit instruction words.

use crate::bits::{
    bit, extend_range, field, lemma_field_mask, low_mask, range, sign_extend, signed_field,
};
use vstd::arithmetic::power2::{lemma2_to64, lemma_pow2_pos, pow2};
use vstd::prelude::*;

verus! {

/// Operands of a register-register instruction.
#[derive(Clone, Copy, Debug, PartialEq, Eq, Structural)]
pub struct InstructionTypeR {
    pub rs2: usize,
    pub rs1: usize,
    pub rd: usize,
}

/// Operands of an instruction with a register source, an immediate and a destination.
#[derive(Clone, Copy, Debug, PartialEq, Eq, Structural)]
pub struct InstructionTypeI {
    pub imm: i32,
    pub rs1: usize,
    pub rd: usize,
}

/// Operands of a store: base register, value register and offset.
#[derive(Clone, Copy, Debug, PartialEq, Eq, Structural)]
pub struct InstructionTypeS {
    pub imm: i32,
    pub rs2: usize,
    pub rs1: usize,
}

/// Operands of a conditional branch: two compared registers and a displacement.
#[derive(Clone, Copy, Debug, PartialEq, Eq, Structural)]
pub struct InstructionTypeB {
    pub imm: i32,
    pub rs2: usize,
    pub rs1: usize,
}

/// Operands of an instruction with an upper immediate and a destination.
#[derive(Clone, Copy, Debug, PartialEq, Eq, Structural)]
pub struct InstructionTypeU {
    pub imm: i32,
    pub rd: usize,
}

/// A decoded instruction.
#[allow(clippy::upper_case_acronyms)]
#[derive(Clone, Copy, Debug, PartialEq, Eq, Structural)]
pub enum Instruction {
    LUI(InstructionTypeU),
    AUIPC(InstructionTypeU),
    JAL(InstructionTypeU),
    JALR(InstructionTypeI),
    BEQ(InstructionTypeB),
    BNE(InstructionTypeB),
    BLT(InstructionTypeB),
    BGE(InstructionTypeB),
    BLTU(InstructionTypeB),
    BGEU(InstructionTypeB),
    LB(InstructionTypeI),
    LH(InstructionTypeI),
    LW(InstructionTypeI),
    LBU(InstructionTypeI),
    LHU(InstructionTypeI),
    SB(InstructionTypeS),
    SH(InstructionTypeS),
    SW(InstructionTypeS),
    ADDI(InstructionTypeI),
    SLTI(InstructionTypeI),
    SLTIU(InstructionTypeI),
    XORI(InstructionTypeI),
    ORI(InstructionTypeI),
    ANDI(InstructionTypeI),
    SLLI(InstructionTypeI),
    SRLI(InstructionTypeI),
    SRAI(InstructionTypeI),
    ADD(InstructionTypeR),
    SUB(InstructionTypeR),
    SLL(InstructionTypeR),
    SLT(InstructionTypeR),
    SLTU(InstructionTypeR),
    XOR(InstructionTypeR),
    SRL(InstructionTypeR),
    SRA(InstructionTypeR),
    OR(InstructionTypeR),
    AND(InstructionTypeR),
    FENCE { fm: i32, pred: i32, succ: i32, rs1: usize, rd: usize },
    ECALL,
    EBREAK,
}

/// Why a word could not be decoded.
#[derive(Clone, Copy, Debug, PartialEq, Eq, Structural)]
pub enum DecodeError {
    /// The opcode, or its secondary or tertiary selector, is not one this
    /// processor executes.
    UnsupportedInstruction,
}

/// The layouts in which an immediate is scattered over an instruction word.
#[derive(Clone, Copy, Debug, PartialEq, Eq, Structural)]
pub enum Immediate {
    I,
    S,
    B,
    U,
}

/// The immediate that `word` carries in the layout `imm`.
pub open spec fn immediate_value(imm: Immediate, word: i32) -> int {
    let top = field(word, 31, 31) as int;
    match imm {
        Immediate::I => signed_field(field(word, 31, 20) as int, 12),
        Immediate::S => signed_field(
            top * 2048 + field(word, 30, 25) * 32 + field(word, 11, 8) * 2 + field(word, 7, 7),
            12,
        ),
        Immediate::B => signed_field(
            top * 4096 + field(word, 7, 7) * 2048 + field(word, 30, 25) * 32 + field(word, 11, 8) * 2,
            13,
        ),
        Immediate::U => signed_field(
            top * 0x8000_0000 + field(word, 30, 20) * 0x10_0000 + field(word, 19, 12) * 0x1000,
            32,
        ),
    }
}

proof fn lemma_join_s(b31: u32, f30: u32, f11: u32, b7: u32)
    by (bit_vector)
    requires
        b31 < 2,
        f30 < 64,
        f11 < 16,
        b7 < 2,
    ensures
        ((b31 << 11u32) | (f30 << 5u32) | (f11 << 1u32) | b7) as int == b31 * 2048 + f30 * 32 + f11
            * 2 + b7,
{
}

proof fn lemma_join_b(b31: u32, b7: u32, f30: u32, f11: u32)
    by (bit_vector)
    requires
        b31 < 2,
        b7 < 2,
        f30 < 64,
        f11 < 16,
    ensures
        ((b31 << 12u32) | (b7 << 11u32) | (f30 << 5u32) | (f11 << 1u32)) as int == b31 * 4096 + b7
            * 2048 + f30 * 32 + f11 * 2,
{
}

proof fn lemma_join_u(b31: u32, f30: u32, f19: u32)
    by (bit_vector)
    requires
        b31 < 2,
        f30 < 2048,
        f19 < 256,
    ensures
        ((b31 << 31u32) | (f30 << 20u32) | (f19 << 12u32)) as int == b31 * 0x8000_0000 + f30
            * 0x10_0000 + f19 * 0x1000,
{
}

/// A word of at most `width` bits is its own low field of that width.
proof fn lemma_low_field(v: u32, width: nat)
    requires
        1 <= width <= 32,
        v < pow2(width),
    ensures
        field(v as i32, (width - 1) as nat, 0) == v,
{
    assert(((v as i32) as u32) == v) by (bit_vector);
    lemma2_to64();
    assert((v as nat) / pow2(0) == v as nat);
    vstd::arithmetic::div_mod::lemma_small_mod(v as nat, pow2(width));
}

impl Immediate {
    /// Reassembles the immediate that `data` carries in the layout `imm`.
    pub fn from_i32(imm: Immediate, data: i32) -> (r: i32)
        ensures
            r as int == immediate_value(imm, data),
    {
        proof {
            lemma2_to64();
        }
        match imm {
            Immediate::I => extend_range(data, 31, 20),
            Immediate::S => {
                let inst_31 = bit(data, 31);
                let inst_30_25 = range(data, 30, 25);
                let inst_11_8 = range(data, 11, 8);
                let inst_7 = bit(data, 7);
                let joined = (inst_31 << 11) | (inst_30_25 << 5) | (inst_11_8 << 1) | inst_7;
                proof {
                    lemma_join_s(inst_31, inst_30_25, inst_11_8, inst_7);
                    lemma_low_field(joined, 12);
                }
                sign_extend(#[verifier::truncate] (joined as i32), 12)
            },
            Immediate::B => {
                let inst_31 = bit(data, 31);
                let inst_7 = bit(data, 7);
                let inst_30_25 = range(data, 30, 25);
                let inst_11_8 = range(data, 11, 8);
                let joined = (inst_31 << 12) | (inst_7 << 11) | (inst_30_25 << 5) | (inst_11_8 << 1);
                proof {
                    lemma_join_b(inst_31, inst_7, inst_30_25, inst_11_8);
                    lemma_low_field(joined, 13);
                }
                sign_extend(#[verifier::truncate] (joined as i32), 13)
            },
            Immediate::U => {
                let inst_31 = bit(data, 31);
                let inst_30_20 = range(data, 30, 20);
                let inst_19_12 = range(data, 19, 12);
                let joined = (inst_31 << 31) | (inst_30_20 << 20) | (inst_19_12 << 12);
                proof {
                    lemma_join_u(inst_31, inst_30_20, inst_19_12);
                    lemma_low_field(joined, 32);
                }
                sign_extend(#[verifier::truncate] (joined as i32), 32)
            },
        }
    }
}

/// The bits of an instruction word that carry its immediate in the layout `imm`.
pub open spec fn immediate_bits(imm: Immediate) -> u32 {
    match imm {
        Immediate::I => 0xfff0_0000,
        Immediate::S => 0xfe00_0f80,
        Immediate::B => 0xfe00_0f80,
        Immediate::U => 0xffff_f000,
    }
}

/// A word whose immediate-carrying bits are all clear carries the immediate 0,
/// whatever its register, selector and opcode bits hold.
pub proof fn lemma_clear_immediate_bits(imm: Immediate, word: i32)
    requires
        (word as u32) & immediate_bits(imm) == 0,
    ensures
        immediate_value(imm, word) == 0,
{
    let x = word as u32;
    lemma_field_mask(word, 31, 31);
    lemma_field_mask(word, 31, 20);
    lemma_field_mask(word, 30, 25);
    lemma_field_mask(word, 30, 20);
    lemma_field_mask(word, 19, 12);
    lemma_field_mask(word, 11, 8);
    lemma_field_mask(word, 7, 7);
    lemma_pow2_pos(11);
    lemma_pow2_pos(12);
    lemma_pow2_pos(31);
    match imm {
        Immediate::I => {
            assert((x >> 20u32) & low_mask(12) == 0) by (bit_vector)
                requires
                    x & 0xfff0_0000u32 == 0,
            ;
        },
        Immediate::S | Immediate::B => {
            assert((x >> 31u32) & low_mask(1) == 0 && (x >> 25u32) & low_mask(6) == 0 && (x >> 8u32)
                & low_mask(4) == 0 && (x >> 7u32) & low_mask(1) == 0) by (bit_vector)
                requires
                    x & 0xfe00_0f80u32 == 0,
            ;
        },
        Immediate::U => {
            assert((x >> 31u32) & low_mask(1) == 0 && (x >> 20u32) & low_mask(11) == 0 && (x >> 12u32)
                & low_mask(8) == 0) by (bit_vector)
                requires
                    x & 0xffff_f000u32 == 0,
            ;
        },
    }
}

/// The primary opcode, bits 6..=0.
pub open spec fn opcode(word: i32) -> nat {
    field(word, 6, 0)
}

/// The secondary selector, bits 14..=12.
pub open spec fn funct3(word: i32) -> nat {
    field(word, 14, 12)
}

/// The tertiary selector, bit 31.
pub open spec fn tertiary(word: i32) -> nat {
    field(word, 31, 31)
}

/// The destination register index, bits 12..=8.
pub open spec fn rd_field(word: i32) -> usize {
    field(word, 12, 8) as usize
}

/// The source register index, bits 20..=16; both source positions read it.
pub open spec fn rs_field(word: i32) -> usize {
    field(word, 20, 16) as usize
}

/// The operands of a register-register instruction encoded in `word`.
pub open spec fn spec_type_r(word: i32) -> InstructionTypeR {
    InstructionTypeR { rs2: rs_field(word), rs1: rs_field(word), rd: rd_field(word) }
}

/// The operands of an instruction with a 12-bit immediate encoded in `word`.
pub open spec fn spec_type_i(word: i32) -> InstructionTypeI {
    InstructionTypeI {
        imm: immediate_value(Immediate::I, word) as i32,
        rs1: rs_field(word),
        rd: rd_field(word),
    }
}

/// An immediate shift: the shift amount is read from the source register field.
/// The operands of a store encoded in `word`.
pub open spec fn spec_type_shift(word: i32) -> InstructionTypeI {
    InstructionTypeI { imm: rs_field(word) as i32, rs1: rs_field(word), rd: rd_field(word) }
}

/// The operands of a store encoded in `word`.
pub open spec fn spec_type_s(word: i32) -> InstructionTypeS {
    InstructionTypeS {
        imm: immediate_value(Immediate::S, word) as i32,
        rs2: rs_field(word),
        rs1: rs_field(word),
    }
}

/// The operands of a branch encoded in `word`.
pub open spec fn spec_type_b(word: i32) -> InstructionTypeB {
    InstructionTypeB {
        imm: immediate_value(Immediate::B, word) as i32,
        rs2: rs_field(word),
        rs1: rs_field(word),
    }
}

/// The operands of an instruction with an upper immediate encoded in `word`.
pub open spec fn spec_type_u(word: i32) -> InstructionTypeU {
    InstructionTypeU { imm: immediate_value(Immediate::U, word) as i32, rd: rd_field(word) }
}

/// The instruction that `word` encodes, if it encodes one this processor executes.
pub open spec fn decode(word: i32) -> Option<Instruction> {
    let op = opcode(word);
    let f3 = funct3(word);
    let top = tertiary(word);
    if op == 0b0110111 {
        Some(Instruction::LUI(spec_type_u(word)))
    } else if op == 0b0010111 {
        Some(Instruction::AUIPC(spec_type_u(word)))
    } else if op == 0b1101111 {
        Some(Instruction::JAL(spec_type_u(word)))
    } else if op == 0b1100111 {
        Some(Instruction::JALR(spec_type_i(word)))
    } else if op == 0b1100011 {
        let b = spec_type_b(word);
        if f3 == 0b000 {
            Some(Instruction::BEQ(b))
        } else if f3 == 0b001 {
            Some(Instruction::BNE(b))
        } else if f3 == 0b100 {
            Some(Instruction::BLT(b))
        } else if f3 == 0b101 {
            Some(Instruction::BGE(b))
        } else if f3 == 0b110 {
            Some(Instruction::BLTU(b))
        } else if f3 == 0b111 {
            Some(Instruction::BGEU(b))
        } else {
            None
        }
    } else if op == 0b0000011 {
        let i = spec_type_i(word);
        if f3 == 0b000 {
            Some(Instruction::LB(i))
        } else if f3 == 0b001 {
            Some(Instruction::LH(i))
        } else if f3 == 0b010 {
            Some(Instruction::LW(i))
        } else if f3 == 0b100 {
            Some(Instruction::LBU(i))
        } else if f3 == 0b101 {
            Some(Instruction::LHU(i))
        } else {
            None
        }
    } else if op == 0b0100011 {
        let s = spec_type_s(word);
        if f3 == 0b000 {
            Some(Instruction::SB(s))
        } else if f3 == 0b001 {
            Some(Instruction::SH(s))
        } else if f3 == 0b010 {
            Some(Instruction::SW(s))
        } else {
            None
        }
    } else if op == 0b0010011 {
        let i = spec_type_i(word);
        let sh = spec_type_shift(word);
        if f3 == 0b000 {
            Some(Instruction::ADDI(i))
        } else if f3 == 0b010 {
            Some(Instruction::SLTI(i))
        } else if f3 == 0b011 {
            Some(Instruction::SLTIU(i))
        } else if f3 == 0b100 {
            Some(Instruction::XORI(i))
        } else if f3 == 0b110 {
            Some(Instruction::ORI(i))
        } else if f3 == 0b111 {
            Some(Instruction::ANDI(i))
        } else if f3 == 0b001 {
            Some(Instruction::SLLI(sh))
        } else if top == 0 {
            Some(Instruction::SRLI(sh))
        } else {
            Some(Instruction::SRAI(sh))
        }
    } else if op == 0b0110011 {
        let r = spec_type_r(word);
        if f3 == 0b000 {
            if top == 0 {
                Some(Instruction::ADD(r))
            } else {
                Some(Instruction::SUB(r))
            }
        } else if f3 == 0b001 {
            Some(Instruction::SLL(r))
        } else if f3 == 0b010 {
            Some(Instruction::SLT(r))
        } else if f3 == 0b011 {
            Some(Instruction::SLTU(r))
        } else if f3 == 0b100 {
            Some(Instruction::XOR(r))
        } else if f3 == 0b101 {
            if top == 0 {
                Some(Instruction::SRL(r))
            } else {
                Some(Instruction::SRA(r))
            }
        } else if f3 == 0b110 {
            Some(Instruction::OR(r))
        } else {
            Some(Instruction::AND(r))
        }
    } else {
        None
    }
}

impl Instruction {
    /// Decodes a packed instruction word.
    pub fn from_i32(data: i32) -> (r: Result<Instruction, DecodeError>)
        ensures
            r == match decode(data) {
                Some(i) => Ok::<Instruction, DecodeError>(i),
                None => Err(DecodeError::UnsupportedInstruction),
            },
            r matches Ok(i) ==> well_formed(i),
    {
        proof {
            lemma2_to64();
        }
        let opcode = range(data, 6, 0);
        match opcode {
            0b0110111 => Ok(Instruction::LUI(Instruction::type_u(data))),
            0b0010111 => Ok(Instruction::AUIPC(Instruction::type_u(data))),
            0b1101111 => Ok(Instruction::JAL(Instruction::type_u(data))),
            0b1100111 => Ok(Instruction::JALR(Instruction::type_i(data))),
            0b1100011 => {
                let b = Instruction::type_b(data);
                match range(data, 14, 12) {
                    0b000 => Ok(Instruction::BEQ(b)),
                    0b001 => Ok(Instruction::BNE(b)),
                    0b100 => Ok(Instruction::BLT(b)),
                    0b101 => Ok(Instruction::BGE(b)),
                    0b110 => Ok(Instruction::BLTU(b)),
                    0b111 => Ok(Instruction::BGEU(b)),
                    _ => Err(DecodeError::UnsupportedInstruction),
                }
            },
            0b0000011 => {
                let i = Instruction::type_i(data);
                match range(data, 14, 12) {
                    0b000 => Ok(Instruction::LB(i)),
                    0b001 => Ok(Instruction::LH(i)),
                    0b010 => Ok(Instruction::LW(i)),
                    0b100 => Ok(Instruction::LBU(i)),
                    0b101 => Ok(Instruction::LHU(i)),
                    _ => Err(DecodeError::UnsupportedInstruction),
                }
            },
            0b0100011 => {
                let s = Instruction::type_s(data);
                match range(data, 14, 12) {
                    0b000 => Ok(Instruction::SB(s)),
                    0b001 => Ok(Instruction::SH(s)),
                    0b010 => Ok(Instruction::SW(s)),
                    _ => Err(DecodeError::UnsupportedInstruction),
                }
            },
            0b0010011 => {
                let secondary = range(data, 14, 12);
                if secondary == 0b001 || secondary == 0b101 {
                    let shift = InstructionTypeI {
                        imm: Instruction::get_shamt(data),
                        rs1: Instruction::get_rs1(data),
                        rd: Instruction::get_rd(data),
                    };
                    if secondary == 0b001 {
                        Ok(Instruction::SLLI(shift))
                    } else if bit(data, 31) == 0 {
                        Ok(Instruction::SRLI(shift))
                    } else {
                        Ok(Instruction::SRAI(shift))
                    }
                } else {
                    let i = Instruction::type_i(data);
                    match secondary {
                        0b000 => Ok(Instruction::ADDI(i)),
                        0b010 => Ok(Instruction::SLTI(i)),
                        0b011 => Ok(Instruction::SLTIU(i)),
                        0b100 => Ok(Instruction::XORI(i)),
                        0b110 => Ok(Instruction::ORI(i)),
                        _ => Ok(Instruction::ANDI(i)),
                    }
                }
            },
            0b0110011 => {
                let r = InstructionTypeR {
                    rs1: Instruction::get_rs1(data),
                    rs2: Instruction::get_rs2(data),
                    rd: Instruction::get_rd(data),
                };
                match range(data, 14, 12) {
                    0b000 => if bit(data, 31) == 0 {
                        Ok(Instruction::ADD(r))
                    } else {
                        Ok(Instruction::SUB(r))
                    },
                    0b001 => Ok(Instruction::SLL(r)),
                    0b010 => Ok(Instruction::SLT(r)),
                    0b011 => Ok(Instruction::SLTU(r)),
                    0b100 => Ok(Instruction::XOR(r)),
                    0b101 => if bit(data, 31) == 0 {
                        Ok(Instruction::SRL(r))
                    } else {
                        Ok(Instruction::SRA(r))
                    },
                    0b110 => Ok(Instruction::OR(r)),
                    _ => Ok(Instruction::AND(r)),
                }
            },
            _ => Err(DecodeError::UnsupportedInstruction),
        }
    }

    fn type_i(data: i32) -> (r: InstructionTypeI)
        ensures
            r == spec_type_i(data),
    {
        InstructionTypeI {
            imm: Immediate::from_i32(Immediate::I, data),
            rs1: Instruction::get_rs1(data),
            rd: Instruction::get_rd(data),
        }
    }

    fn type_s(data: i32) -> (r: InstructionTypeS)
        ensures
            r == spec_type_s(data),
    {
        InstructionTypeS {
            imm: Immediate::from_i32(Immediate::S, data),
            rs1: Instruction::get_rs1(data),
            rs2: Instruction::get_rs2(data),
        }
    }

    fn type_b(data: i32) -> (r: InstructionTypeB)
        ensures
            r == spec_type_b(data),
    {
        InstructionTypeB {
            imm: Immediate::from_i32(Immediate::B, data),
            rs1: Instruction::get_rs1(data),
            rs2: Instruction::get_rs2(data),
        }
    }

    fn type_u(data: i32) -> (r: InstructionTypeU)
        ensures
            r == spec_type_u(data),
    {
        InstructionTypeU { imm: Immediate::from_i32(Immediate::U, data), rd: Instruction::get_rd(data) }
    }

    fn get_rs1(data: i32) -> (r: usize)
        ensures
            r == rs_field(data),
            r < 32,
    {
        proof {
            lemma2_to64();
        }
        range(data, 20, 16) as usize
    }

    fn get_rs2(data: i32) -> (r: usize)
        ensures
            r == rs_field(data),
            r < 32,
    {
        proof {
            lemma2_to64();
        }
        range(data, 20, 16) as usize
    }

    fn get_rd(data: i32) -> (r: usize)
        ensures
            r == rd_field(data),
            r < 32,
    {
        proof {
            lemma2_to64();
        }
        range(data, 12, 8) as usize
    }

    fn get_shamt(data: i32) -> (r: i32)
        ensures
            r == rs_field(data) as i32,
            0 <= r < 32,
    {
        Instruction::get_rs2(data) as i32
    }
}

/// The documented encoding of each mnemonic: its opcode, its secondary selector
/// and its tertiary bit, with -1 where the encoding leaves that selector free.
pub open spec fn encoding(i: Instruction) -> (int, int, int) {
    match i {
        Instruction::LUI(_) => (0b0110111, -1, -1),
        Instruction::AUIPC(_) => (0b0010111, -1, -1),
        Instruction::JAL(_) => (0b1101111, -1, -1),
        Instruction::JALR(_) => (0b1100111, -1, -1),
        Instruction::BEQ(_) => (0b1100011, 0b000, -1),
        Instruction::BNE(_) => (0b1100011, 0b001, -1),
        Instruction::BLT(_) => (0b1100011, 0b100, -1),
        Instruction::BGE(_) => (0b1100011, 0b101, -1),
        Instruction::BLTU(_) => (0b1100011, 0b110, -1),
        Instruction::BGEU(_) => (0b1100011, 0b111, -1),
        Instruction::LB(_) => (0b0000011, 0b000, -1),
        Instruction::LH(_) => (0b0000011, 0b001, -1),
        Instruction::LW(_) => (0b0000011, 0b010, -1),
        Instruction::LBU(_) => (0b0000011, 0b100, -1),
        Instruction::LHU(_) => (0b0000011, 0b101, -1),
        Instruction::SB(_) => (0b0100011, 0b000, -1),
        Instruction::SH(_) => (0b0100011, 0b001, -1),
        Instruction::SW(_) => (0b0100011, 0b010, -1),
        Instruction::ADDI(_) => (0b0010011, 0b000, -1),
        Instruction::SLTI(_) => (0b0010011, 0b010, -1),
        Instruction::SLTIU(_) => (0b0010011, 0b011, -1),
        Instruction::XORI(_) => (0b0010011, 0b100, -1),
        Instruction::ORI(_) => (0b0010011, 0b110, -1),
        Instruction::ANDI(_) => (0b0010011, 0b111, -1),
        Instruction::SLLI(_) => (0b0010011, 0b001, -1),
        Instruction::SRLI(_) => (0b0010011, 0b101, 0),
        Instruction::SRAI(_) => (0b0010011, 0b101, 1),
        Instruction::ADD(_) => (0b0110011, 0b000, 0),
        Instruction::SUB(_) => (0b0110011, 0b000, 1),
        Instruction::SLL(_) => (0b0110011, 0b001, -1),
        Instruction::SLT(_) => (0b0110011, 0b010, -1),
        Instruction::SLTU(_) => (0b0110011, 0b011, -1),
        Instruction::XOR(_) => (0b0110011, 0b100, -1),
        Instruction::SRL(_) => (0b0110011, 0b101, 0),
        Instruction::SRA(_) => (0b0110011, 0b101, 1),
        Instruction::OR(_) => (0b0110011, 0b110, -1),
        Instruction::AND(_) => (0b0110011, 0b111, -1),
        Instruction::FENCE { .. } => (0b0001111, -1, -1),
        Instruction::ECALL => (0b1110011, -1, -1),
        Instruction::EBREAK => (0b1110011, -1, -1),
    }
}

/// `word` carries the selectors of the encoding `e`.
pub open spec fn has_encoding(word: i32, e: (int, int, int)) -> bool {
    &&& opcode(word) == e.0
    &&& (e.1 == -1 || funct3(word) == e.1)
    &&& (e.2 == -1 || tertiary(word) == e.2)
}

/// The operands of `i` are those that `word` holds in their documented positions.
pub open spec fn operands_of(word: i32, i: Instruction) -> bool {
    match i {
        Instruction::LUI(u) | Instruction::AUIPC(u) | Instruction::JAL(u) => {
            &&& u.rd == rd_field(word)
            &&& u.imm == immediate_value(Immediate::U, word)
        },
        Instruction::JALR(x) | Instruction::LB(x) | Instruction::LH(x) | Instruction::LW(x)
        | Instruction::LBU(x) | Instruction::LHU(x) | Instruction::ADDI(x) | Instruction::SLTI(x)
        | Instruction::SLTIU(x) | Instruction::XORI(x) | Instruction::ORI(x) | Instruction::ANDI(x) => {
            &&& x.rd == rd_field(word)
            &&& x.rs1 == rs_field(word)
            &&& x.imm == immediate_value(Immediate::I, word)
        },
        Instruction::SLLI(x) | Instruction::SRLI(x) | Instruction::SRAI(x) => {
            &&& x.rd == rd_field(word)
            &&& x.rs1 == rs_field(word)
            &&& x.imm == rs_field(word)
        },
        Instruction::SB(x) | Instruction::SH(x) | Instruction::SW(x) => {
            &&& x.rs1 == rs_field(word)
            &&& x.rs2 == rs_field(word)
            &&& x.imm == immediate_value(Immediate::S, word)
        },
        Instruction::BEQ(x) | Instruction::BNE(x) | Instruction::BLT(x) | Instruction::BGE(x)
        | Instruction::BLTU(x) | Instruction::BGEU(x) => {
            &&& x.rs1 == rs_field(word)
            &&& x.rs2 == rs_field(word)
            &&& x.imm == immediate_value(Immediate::B, word)
        },
        Instruction::ADD(x) | Instruction::SUB(x) | Instruction::SLL(x) | Instruction::SLT(x)
        | Instruction::SLTU(x) | Instruction::XOR(x) | Instruction::SRL(x) | Instruction::SRA(x)
        | Instruction::OR(x) | Instruction::AND(x) => {
            &&& x.rd == rd_field(word)
            &&& x.rs1 == rs_field(word)
            &&& x.rs2 == rs_field(word)
        },
        _ => false,
    }
}

/// The mnemonics that the decoder produces; the fence and environment
/// instructions are recognised by their opcode but not executed.
pub open spec fn is_executable_mnemonic(i: Instruction) -> bool {
    !(i is FENCE || i is ECALL || i is EBREAK)
}

/// Decoding is complete and faithful: a word decodes exactly when it carries the
/// documented encoding of an executable mnemonic, it then decodes to that
/// mnemonic with its operands read from their documented positions, and a word
/// whose opcode is none of the documented ones does not decode.
pub proof fn lemma_decode_complete(word: i32, i: Instruction)
    ensures
        decode(word) == Some(i) ==> is_executable_mnemonic(i) && has_encoding(word, encoding(i))
            && operands_of(word, i),
        is_executable_mnemonic(i) && has_encoding(word, encoding(i)) ==> decode(word) is Some
            && encoding(decode(word)->0) == encoding(i),
        !(opcode(word) == 0b0110111 || opcode(word) == 0b0010111 || opcode(word) == 0b1101111
            || opcode(word) == 0b1100111 || opcode(word) == 0b1100011 || opcode(word) == 0b0000011
            || opcode(word) == 0b0100011 || opcode(word) == 0b0010011 || opcode(word) == 0b0110011)
            ==> decode(word) is None,
{
    lemma2_to64();
    assert(funct3(word) < 8);
    assert(tertiary(word) < 2);
}

/// The register indices of `i` name registers, and an immediate shift amount
/// is below 32.
pub open spec fn well_formed(i: Instruction) -> bool {
    match i {
        Instruction::LUI(u) | Instruction::AUIPC(u) | Instruction::JAL(u) => u.rd < 32,
        Instruction::SLLI(x) | Instruction::SRLI(x) | Instruction::SRAI(x) => x.rd < 32 && x.rs1
            < 32 && 0 <= x.imm < 32,
        Instruction::JALR(x) | Instruction::LB(x) | Instruction::LH(x) | Instruction::LW(x)
        | Instruction::LBU(x) | Instruction::LHU(x) | Instruction::ADDI(x) | Instruction::SLTI(x)
        | Instruction::SLTIU(x) | Instruction::XORI(x) | Instruction::ORI(x) | Instruction::ANDI(x) =>
            x.rd < 32 && x.rs1 < 32,
        Instruction::SB(s) | Instruction::SH(s) | Instruction::SW(s) => s.rs1 < 32 && s.rs2 < 32,
        Instruction::BEQ(b) | Instruction::BNE(b) | Instruction::BLT(b) | Instruction::BGE(b)
        | Instruction::BLTU(b) | Instruction::BGEU(b) => b.rs1 < 32 && b.rs2 < 32,
        Instruction::ADD(x) | Instruction::SUB(x) | Instruction::SLL(x) | Instruction::SLT(x)
        | Instruction::SLTU(x) | Instruction::XOR(x) | Instruction::SRL(x) | Instruction::SRA(x)
        | Instruction::OR(x) | Instruction::AND(x) => x.rd < 32 && x.rs1 < 32 && x.rs2 < 32,
        _ => true,
    }
}

} // verus!
