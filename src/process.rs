//! What each instruction does to the registers, the program counter and the
//! data memory.

use crate::bits::{extend_range, field, range, signed_field};
use crate::instruction::{well_formed, Instruction};
use crate::memory::{MemoryError, MemorySystem};
use crate::{Pineapple, StepError};
use vstd::arithmetic::power2::lemma2_to64;
use vstd::prelude::*;

verus! {

/// The register file with `value` written to register `rd`; writes to
/// register 0 are discarded.
pub open spec fn write_reg(regs: Seq<i32>, rd: usize, value: i32) -> Seq<i32> {
    if rd == 0 {
        regs
    } else {
        regs.update(rd as int, value)
    }
}

/// The program counter after a jump of `offset` slots from `pc`, with wrapping
/// 32-bit arithmetic; the result is read as an unsigned slot index.
pub open spec fn jump_target(pc: usize, offset: i32) -> usize {
    (((pc as i32).wrapping_add(offset)) as u32) as usize
}

/// The data address that a load or store with base register value `base` and
/// offset `imm` touches.
pub open spec fn effective_address(base: i32, imm: i32) -> int {
    (base.wrapping_add(imm) as u32) as int
}

/// A shift amount taken from a register: its low five bits.
pub open spec fn low_five(v: i32) -> u32 {
    (v & 0x1f) as u32
}

/// A comparison outcome as the word 1 or 0.
pub open spec fn flag(b: bool) -> i32 {
    if b {
        1
    } else {
        0
    }
}

/// The register an instruction writes, if any.
pub open spec fn destination(i: Instruction) -> Option<usize> {
    match i {
        Instruction::LUI(u) | Instruction::AUIPC(u) | Instruction::JAL(u) => Some(u.rd),
        Instruction::JALR(x) | Instruction::LB(x) | Instruction::LH(x) | Instruction::LW(x)
        | Instruction::LBU(x) | Instruction::LHU(x) | Instruction::ADDI(x) | Instruction::SLTI(x)
        | Instruction::SLTIU(x) | Instruction::XORI(x) | Instruction::ORI(x) | Instruction::ANDI(x)
        | Instruction::SLLI(x) | Instruction::SRLI(x) | Instruction::SRAI(x) => Some(x.rd),
        Instruction::ADD(x) | Instruction::SUB(x) | Instruction::SLL(x) | Instruction::SLT(x)
        | Instruction::SLTU(x) | Instruction::XOR(x) | Instruction::SRL(x) | Instruction::SRA(x)
        | Instruction::OR(x) | Instruction::AND(x) => Some(x.rd),
        _ => None,
    }
}

/// The value an instruction writes to its destination register, given the
/// registers and program counter before it and, for a load, the word read.
pub open spec fn result_value(i: Instruction, regs: Seq<i32>, pc: usize, loaded: i32) -> i32 {
    match i {
        Instruction::LUI(u) => u.imm,
        Instruction::AUIPC(u) => (pc as i32).wrapping_add(u.imm),
        Instruction::JAL(_) | Instruction::JALR(_) => (pc as i32).wrapping_add(1),
        Instruction::LB(_) => signed_field(field(loaded, 7, 0) as int, 8) as i32,
        Instruction::LH(_) => signed_field(field(loaded, 15, 0) as int, 16) as i32,
        Instruction::LW(_) => loaded,
        Instruction::LBU(_) => field(loaded, 7, 0) as i32,
        Instruction::LHU(_) => field(loaded, 15, 0) as i32,
        Instruction::ADDI(x) => regs[x.rs1 as int].wrapping_add(x.imm),
        Instruction::SLTI(x) => flag(regs[x.rs1 as int] < x.imm),
        Instruction::SLTIU(x) => flag((regs[x.rs1 as int] as u32) < (x.imm as u32)),
        Instruction::XORI(x) => regs[x.rs1 as int] ^ x.imm,
        Instruction::ORI(x) => regs[x.rs1 as int] | x.imm,
        Instruction::ANDI(x) => regs[x.rs1 as int] & x.imm,
        Instruction::SLLI(x) => regs[x.rs1 as int] << (x.imm as u32),
        Instruction::SRLI(x) => ((regs[x.rs1 as int] as u32) >> (x.imm as u32)) as i32,
        Instruction::SRAI(x) => regs[x.rs1 as int] >> (x.imm as u32),
        Instruction::ADD(x) => regs[x.rs1 as int].wrapping_add(regs[x.rs2 as int]),
        Instruction::SUB(x) => regs[x.rs1 as int].wrapping_sub(regs[x.rs2 as int]),
        Instruction::SLL(x) => regs[x.rs1 as int] << low_five(regs[x.rs2 as int]),
        Instruction::SLT(x) => flag(regs[x.rs1 as int] < regs[x.rs2 as int]),
        Instruction::SLTU(x) => flag((regs[x.rs1 as int] as u32) < (regs[x.rs2 as int] as u32)),
        Instruction::XOR(x) => regs[x.rs1 as int] ^ regs[x.rs2 as int],
        Instruction::SRL(x) => ((regs[x.rs1 as int] as u32) >> low_five(regs[x.rs2 as int])) as i32,
        Instruction::SRA(x) => regs[x.rs1 as int] >> low_five(regs[x.rs2 as int]),
        Instruction::OR(x) => regs[x.rs1 as int] | regs[x.rs2 as int],
        Instruction::AND(x) => regs[x.rs1 as int] & regs[x.rs2 as int],
        _ => 0,
    }
}

/// The register file after `i`.
pub open spec fn registers_after(i: Instruction, regs: Seq<i32>, pc: usize, loaded: i32) -> Seq<
    i32,
> {
    match destination(i) {
        Some(rd) => write_reg(regs, rd, result_value(i, regs, pc, loaded)),
        None => regs,
    }
}

/// The program counter after `i`. Only jumps and taken branches move it.
pub open spec fn pc_after(i: Instruction, regs: Seq<i32>, pc: usize) -> usize {
    match i {
        Instruction::JAL(u) => jump_target(pc, u.imm),
        Instruction::JALR(x) => ((regs[x.rs1 as int].wrapping_add(x.imm) & -2i32) as u32) as usize,
        Instruction::BEQ(b) => if regs[b.rs1 as int] == regs[b.rs2 as int] {
            jump_target(pc, b.imm)
        } else {
            pc
        },
        Instruction::BNE(b) => if regs[b.rs1 as int] != regs[b.rs2 as int] {
            jump_target(pc, b.imm)
        } else {
            pc
        },
        Instruction::BLT(b) => if regs[b.rs1 as int] < regs[b.rs2 as int] {
            jump_target(pc, b.imm)
        } else {
            pc
        },
        Instruction::BGE(b) => if regs[b.rs1 as int] >= regs[b.rs2 as int] {
            jump_target(pc, b.imm)
        } else {
            pc
        },
        Instruction::BLTU(b) => if (regs[b.rs1 as int] as u32) < (regs[b.rs2 as int] as u32) {
            jump_target(pc, b.imm)
        } else {
            pc
        },
        Instruction::BGEU(b) => if (regs[b.rs1 as int] as u32) >= (regs[b.rs2 as int] as u32) {
            jump_target(pc, b.imm)
        } else {
            pc
        },
        _ => pc,
    }
}

/// For a load, the address it reads.
pub open spec fn load_address(i: Instruction, regs: Seq<i32>) -> Option<int> {
    match i {
        Instruction::LB(x) | Instruction::LH(x) | Instruction::LW(x) | Instruction::LBU(x)
        | Instruction::LHU(x) => Some(effective_address(regs[x.rs1 as int], x.imm)),
        _ => None,
    }
}

/// For a store, the address it writes and the word written there: the low 8,
/// 16 or 32 bits of the value register, zero-extended.
pub open spec fn store_of(i: Instruction, regs: Seq<i32>) -> Option<(int, i32)> {
    match i {
        Instruction::SB(s) => Some(
            (effective_address(regs[s.rs1 as int], s.imm), regs[s.rs2 as int] & 0xff),
        ),
        Instruction::SH(s) => Some(
            (effective_address(regs[s.rs1 as int], s.imm), regs[s.rs2 as int] & 0xffff),
        ),
        Instruction::SW(s) => Some((effective_address(regs[s.rs1 as int], s.imm), regs[s.rs2 as int])),
        _ => None,
    }
}

/// The instructions that are recognised but not implemented.
pub open spec fn unimplemented(i: Instruction) -> bool {
    i is FENCE || i is ECALL || i is EBREAK
}

/// `after` is `before` once `i` has executed, and `r` is what execution
/// returned. A load or store that faults, and an unimplemented instruction,
/// change nothing.
pub open spec fn executed(
    before: Pineapple,
    after: Pineapple,
    i: Instruction,
    r: Result<(), StepError>,
) -> bool {
    let regs = before.registers();
    let pc = before.pc();
    let mem = before.memory();
    if unimplemented(i) {
        r == Err::<(), StepError>(StepError::Unimplemented) && after == before
    } else {
        match load_address(i, regs) {
            Some(addr) => match mem.word_at(addr) {
                Ok(w) => {
                    &&& r is Ok
                    &&& after.registers() == registers_after(i, regs, pc, w)
                    &&& after.pc() == pc
                    &&& after.memory() == mem
                    &&& after.program() == before.program()
                },
                Err(e) => r == Err::<(), StepError>(StepError::Memory(e)) && after == before,
            },
            None => match store_of(i, regs) {
                Some((addr, v)) => match MemorySystem::write_outcome(addr) {
                    Ok(_) => {
                        &&& r is Ok
                        &&& mem.wrote(after.memory(), addr, v)
                        &&& after.registers() == regs
                        &&& after.pc() == pc
                        &&& after.program() == before.program()
                    },
                    Err(e) => r == Err::<(), StepError>(StepError::Memory(e)) && after == before,
                },
                None => {
                    &&& r is Ok
                    &&& after.registers() == registers_after(i, regs, pc, 0)
                    &&& after.pc() == pc_after(i, regs, pc)
                    &&& after.memory() == mem
                    &&& after.program() == before.program()
                },
            },
        }
    }
}

/// Register 0 is invariant: executing an instruction whose destination is
/// register 0 leaves the register file exactly as it was.
pub proof fn lemma_register_zero_unchanged(
    before: Pineapple,
    after: Pineapple,
    i: Instruction,
    r: Result<(), StepError>,
)
    requires
        executed(before, after, i, r),
        destination(i) == Some(0usize),
    ensures
        after.registers() == before.registers(),
{
}

/// Addition and subtraction wrap: `ADD`, `ADDI` and `SUB` never fail, and the
/// value they write is the exact sum or difference brought into the signed
/// 32-bit range by adding or subtracting 2^32.
pub proof fn lemma_wrapping_arithmetic(
    before: Pineapple,
    after: Pineapple,
    i: Instruction,
    r: Result<(), StepError>,
)
    requires
        before.wf(),
        well_formed(i),
        executed(before, after, i, r),
        i is ADDI || i is ADD || i is SUB,
    ensures
        r is Ok,
        ({
            let regs = before.registers();
            let (rd, exact) = match i {
                Instruction::ADDI(x) => (x.rd, regs[x.rs1 as int] + x.imm),
                Instruction::ADD(x) => (x.rd, regs[x.rs1 as int] + regs[x.rs2 as int]),
                Instruction::SUB(x) => (x.rd, regs[x.rs1 as int] - regs[x.rs2 as int]),
                _ => (0usize, 0int),
            };
            let v = after.registers()[rd as int] as int;
            rd != 0 ==> (v == exact || v == exact - 0x1_0000_0000 || v == exact + 0x1_0000_0000)
        }),
{
}

fn jump(pc: usize, offset: i32) -> (r: usize)
    ensures
        r == jump_target(pc, offset),
{
    let here = #[verifier::truncate] (pc as i32);
    (#[verifier::truncate] (here.wrapping_add(offset) as u32)) as usize
}

fn address(base: i32, imm: i32) -> (r: usize)
    ensures
        r as int == effective_address(base, imm),
{
    (#[verifier::truncate] (base.wrapping_add(imm) as u32)) as usize
}

fn shift_amount(v: i32) -> (r: u32)
    ensures
        r == low_five(v),
        r < 32,
{
    assert(0 <= v & 0x1f < 32) by (bit_vector);
    (v & 0x1f) as u32
}

impl Pineapple {
    fn set_register(&mut self, rd: usize, value: i32)
        requires
            old(self).wf(),
            rd < 32,
        ensures
            final(self).wf(),
            final(self).registers() == write_reg(old(self).registers(), rd, value),
            final(self).pc() == old(self).pc(),
            final(self).program() == old(self).program(),
            final(self).memory() == old(self).memory(),
    {
        if rd != 0 {
            self.general_register.set(rd, value);
        }
    }

    fn register(&self, index: usize) -> (r: i32)
        requires
            self.wf(),
            index < 32,
        ensures
            r == self.registers()[index as int],
    {
        self.general_register[index]
    }

    fn load(&self, base: usize, imm: i32) -> (r: Result<i32, StepError>)
        requires
            self.wf(),
            base < 32,
        ensures
            r == match self.memory().word_at(effective_address(self.registers()[base as int], imm)) {
                Ok(w) => Ok::<i32, StepError>(w),
                Err(e) => Err(StepError::Memory(e)),
            },
    {
        match self.data_memory.read_i32(address(self.register(base), imm)) {
            Ok(w) => Ok(w),
            Err(e) => Err(StepError::Memory(e)),
        }
    }

    fn store(&mut self, base: usize, imm: i32, value: i32) -> (r: Result<(), StepError>)
        requires
            old(self).wf(),
            base < 32,
        ensures
            final(self).wf(),
            ({
                let addr = effective_address(old(self).registers()[base as int], imm);
                &&& r == match MemorySystem::write_outcome(addr) {
                    Ok(_) => Ok::<(), StepError>(()),
                    Err(e) => Err(StepError::Memory(e)),
                }
                &&& old(self).memory().wrote(final(self).memory(), addr, value)
            }),
            r is Err ==> *final(self) == *old(self),
            final(self).registers() == old(self).registers(),
            final(self).pc() == old(self).pc(),
            final(self).program() == old(self).program(),
    {
        let addr = address(self.register(base), imm);
        match self.data_memory.write_i32(addr, value) {
            Ok(()) => Ok(()),
            Err(e) => Err(StepError::Memory(e)),
        }
    }

    /// Applies one decoded instruction to the registers, the program counter
    /// and the data memory.
    pub fn process_instruction(&mut self, instruction: &Instruction) -> (r: Result<(), StepError>)
        requires
            old(self).wf(),
            well_formed(*instruction),
        ensures
            final(self).wf(),
            executed(*old(self), *final(self), *instruction, r),
    {
        let pc = self.program_counter;
        let pc_word = #[verifier::truncate] (pc as i32);
        match instruction {
            Instruction::LUI(i) => self.set_register(i.rd, i.imm),
            Instruction::AUIPC(i) => self.set_register(i.rd, pc_word.wrapping_add(i.imm)),
            Instruction::JAL(i) => {
                let target = jump(pc, i.imm);
                self.set_register(i.rd, pc_word.wrapping_add(1));
                self.program_counter = target;
            },
            Instruction::JALR(i) => {
                let target = self.register(i.rs1).wrapping_add(i.imm) & -2;
                self.set_register(i.rd, pc_word.wrapping_add(1));
                self.program_counter = (#[verifier::truncate] (target as u32)) as usize;
            },
            Instruction::BEQ(b) => {
                if self.register(b.rs1) == self.register(b.rs2) {
                    self.program_counter = jump(pc, b.imm);
                }
            },
            Instruction::BNE(b) => {
                if self.register(b.rs1) != self.register(b.rs2) {
                    self.program_counter = jump(pc, b.imm);
                }
            },
            Instruction::BLT(b) => {
                if self.register(b.rs1) < self.register(b.rs2) {
                    self.program_counter = jump(pc, b.imm);
                }
            },
            Instruction::BGE(b) => {
                if self.register(b.rs1) >= self.register(b.rs2) {
                    self.program_counter = jump(pc, b.imm);
                }
            },
            Instruction::BLTU(b) => {
                if (#[verifier::truncate] (self.register(b.rs1) as u32)) < (#[verifier::truncate] (
                self.register(b.rs2) as u32)) {
                    self.program_counter = jump(pc, b.imm);
                }
            },
            Instruction::BGEU(b) => {
                if (#[verifier::truncate] (self.register(b.rs1) as u32)) >= (#[verifier::truncate] (
                self.register(b.rs2) as u32)) {
                    self.program_counter = jump(pc, b.imm);
                }
            },
            Instruction::LB(i) => {
                let data = match self.load(i.rs1, i.imm) {
                    Ok(w) => w,
                    Err(e) => return Err(e),
                };
                self.set_register(i.rd, extend_range(data, 7, 0));
            },
            Instruction::LH(i) => {
                let data = match self.load(i.rs1, i.imm) {
                    Ok(w) => w,
                    Err(e) => return Err(e),
                };
                self.set_register(i.rd, extend_range(data, 15, 0));
            },
            Instruction::LW(i) => {
                let data = match self.load(i.rs1, i.imm) {
                    Ok(w) => w,
                    Err(e) => return Err(e),
                };
                self.set_register(i.rd, data);
            },
            Instruction::LBU(i) => {
                let data = match self.load(i.rs1, i.imm) {
                    Ok(w) => w,
                    Err(e) => return Err(e),
                };
                proof {
                    lemma2_to64();
                }
                self.set_register(i.rd, range(data, 7, 0) as i32);
            },
            Instruction::LHU(i) => {
                let data = match self.load(i.rs1, i.imm) {
                    Ok(w) => w,
                    Err(e) => return Err(e),
                };
                proof {
                    lemma2_to64();
                }
                self.set_register(i.rd, range(data, 15, 0) as i32);
            },
            Instruction::SB(s) => {
                let value = self.register(s.rs2) & 0xff;
                return self.store(s.rs1, s.imm, value);
            },
            Instruction::SH(s) => {
                let value = self.register(s.rs2) & 0xffff;
                return self.store(s.rs1, s.imm, value);
            },
            Instruction::SW(s) => {
                let value = self.register(s.rs2);
                return self.store(s.rs1, s.imm, value);
            },
            Instruction::ADDI(i) => {
                let v = self.register(i.rs1).wrapping_add(i.imm);
                self.set_register(i.rd, v);
            },
            Instruction::SLTI(i) => {
                let v = if self.register(i.rs1) < i.imm {
                    1
                } else {
                    0
                };
                self.set_register(i.rd, v);
            },
            Instruction::SLTIU(i) => {
                let v = if (#[verifier::truncate] (self.register(i.rs1) as u32)) < (
                #[verifier::truncate] (i.imm as u32)) {
                    1
                } else {
                    0
                };
                self.set_register(i.rd, v);
            },
            Instruction::XORI(i) => {
                let v = self.register(i.rs1) ^ i.imm;
                self.set_register(i.rd, v);
            },
            Instruction::ORI(i) => {
                let v = self.register(i.rs1) | i.imm;
                self.set_register(i.rd, v);
            },
            Instruction::ANDI(i) => {
                let v = self.register(i.rs1) & i.imm;
                self.set_register(i.rd, v);
            },
            Instruction::SLLI(i) => {
                let v = self.register(i.rs1) << (i.imm as u32);
                self.set_register(i.rd, v);
            },
            Instruction::SRLI(i) => {
                let v = (#[verifier::truncate] (self.register(i.rs1) as u32)) >> (i.imm as u32);
                self.set_register(i.rd, #[verifier::truncate] (v as i32));
            },
            Instruction::SRAI(i) => {
                let v = self.register(i.rs1) >> (i.imm as u32);
                self.set_register(i.rd, v);
            },
            Instruction::ADD(i) => {
                let v = self.register(i.rs1).wrapping_add(self.register(i.rs2));
                self.set_register(i.rd, v);
            },
            Instruction::SUB(i) => {
                let v = self.register(i.rs1).wrapping_sub(self.register(i.rs2));
                self.set_register(i.rd, v);
            },
            Instruction::SLL(i) => {
                let v = self.register(i.rs1) << shift_amount(self.register(i.rs2));
                self.set_register(i.rd, v);
            },
            Instruction::SLT(i) => {
                let v = if self.register(i.rs1) < self.register(i.rs2) {
                    1
                } else {
                    0
                };
                self.set_register(i.rd, v);
            },
            Instruction::SLTU(i) => {
                let v = if (#[verifier::truncate] (self.register(i.rs1) as u32)) < (
                #[verifier::truncate] (self.register(i.rs2) as u32)) {
                    1
                } else {
                    0
                };
                self.set_register(i.rd, v);
            },
            Instruction::XOR(i) => {
                let v = self.register(i.rs1) ^ self.register(i.rs2);
                self.set_register(i.rd, v);
            },
            Instruction::SRL(i) => {
                let v = (#[verifier::truncate] (self.register(i.rs1) as u32)) >> shift_amount(
                    self.register(i.rs2),
                );
                self.set_register(i.rd, #[verifier::truncate] (v as i32));
            },
            Instruction::SRA(i) => {
                let v = self.register(i.rs1) >> shift_amount(self.register(i.rs2));
                self.set_register(i.rd, v);
            },
            Instruction::OR(i) => {
                let v = self.register(i.rs1) | self.register(i.rs2);
                self.set_register(i.rd, v);
            },
            Instruction::AND(i) => {
                let v = self.register(i.rs1) & self.register(i.rs2);
                self.set_register(i.rd, v);
            },
            Instruction::FENCE { .. } | Instruction::ECALL | Instruction::EBREAK => {
                return Err(StepError::Unimplemented);
            },
        }
        Ok(())
    }
}

} // verus!
