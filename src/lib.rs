//! A simulator for a small 32-bit RISC-style processor: instruction decoding,
//! execution against a register file, and a region-mapped data memory.
//!
//! The program counter counts instruction slots, not bytes, and only jumps and
//! taken branches move it: a caller that wants straight-line execution steps
//! the counter itself.

pub mod bits;
pub mod instruction;
pub mod memory;
pub mod process;

use crate::instruction::{decode, well_formed, DecodeError, Instruction};
use crate::memory::{MemoryError, MemorySystem};
use crate::process::executed;
use vstd::prelude::*;

verus! {

/// Number of general registers.
pub const REGISTER_COUNT: usize = 32;

/// Number of instruction slots in instruction memory.
pub const INSTRUCTION_WORDS: usize = 524_288;

/// The word `ADDI x0, x0, 0`, which does nothing.
pub const NOP: i32 = 0x13;

/// Why a step could not complete. A failed step leaves the machine unchanged.
#[derive(Clone, Copy, Debug, PartialEq, Eq, Structural)]
pub enum StepError {
    /// The word at the program counter does not decode.
    Decode(DecodeError),
    /// A load or store touched an address without storage.
    Memory(MemoryError),
    /// A fence or environment instruction, which this processor does not implement.
    Unimplemented,
    /// The program counter lies beyond instruction memory.
    FetchOutOfBounds,
}

/// The processor: registers, program counter, instruction memory and data memory.
pub struct Pineapple {
    general_register: Vec<i32>,
    program_counter: usize,
    instruction_memory: Vec<i32>,
    data_memory: MemorySystem,
}

impl Pineapple {
    /// The general registers, by index.
    pub closed spec fn registers(&self) -> Seq<i32> {
        self.general_register@
    }

    /// The program counter, as an instruction slot index.
    pub closed spec fn pc(&self) -> usize {
        self.program_counter
    }

    /// The words of instruction memory.
    pub closed spec fn program(&self) -> Seq<i32> {
        self.instruction_memory@
    }

    /// The data memory.
    pub closed spec fn memory(&self) -> MemorySystem {
        self.data_memory
    }

    /// The register file has its 32 registers with register 0 reading zero,
    /// and both memories have their fixed sizes.
    pub open spec fn wf(&self) -> bool {
        &&& self.registers().len() == REGISTER_COUNT
        &&& self.registers()[0] == 0
        &&& self.program().len() == INSTRUCTION_WORDS
        &&& self.memory().wf()
    }

    /// A machine with zeroed registers and memory, the program counter at slot
    /// 0 and every instruction slot holding `NOP`.
    pub fn new() -> (r: Self)
        ensures
            r.wf(),
            r.pc() == 0,
            forall|i: int| 0 <= i < REGISTER_COUNT ==> r.registers()[i] == 0,
            forall|i: int| 0 <= i < INSTRUCTION_WORDS ==> r.program()[i] == NOP,
            forall|i: int| 0 <= i < memory::RAM_BYTES ==> r.memory().ram()[i] == 0,
            forall|i: int| 0 <= i < memory::VIDEO_BYTES ==> r.memory().video()[i] == 0,
    {
        Pineapple {
            program_counter: 0,
            instruction_memory: vec![NOP; INSTRUCTION_WORDS],
            general_register: vec![0i32; REGISTER_COUNT],
            data_memory: MemorySystem::new(),
        }
    }

    /// Copies `memory` into instruction memory from slot `start` on; the other
    /// slots and the rest of the machine are left as they were.
    pub fn set_program(&mut self, memory: &[i32], start: usize)
        requires
            old(self).wf(),
            start + memory@.len() <= INSTRUCTION_WORDS,
        ensures
            final(self).wf(),
            final(self).program() == old(self).program().subrange(0, start as int) + memory@
                + old(self).program().subrange(start + memory@.len(), INSTRUCTION_WORDS as int),
            final(self).registers() == old(self).registers(),
            final(self).pc() == old(self).pc(),
            final(self).memory() == old(self).memory(),
    {
        let mut idx: usize = 0;
        while idx < memory.len()
            invariant
                self.wf(),
                idx <= memory@.len(),
                start + memory@.len() <= INSTRUCTION_WORDS,
                self.registers() == old(self).registers(),
                self.pc() == old(self).pc(),
                self.memory() == old(self).memory(),
                forall|j: int|
                    0 <= j < INSTRUCTION_WORDS && !(start <= j < start + idx) ==> #[trigger] self.program()[j]
                        == old(self).program()[j],
                forall|j: int| start <= j < start + idx ==> #[trigger] self.program()[j] == memory@[j - start],
            decreases memory@.len() - idx,
        {
            self.instruction_memory.set(start + idx, memory[idx]);
            idx = idx + 1;
        }
        assert(self.program() =~= old(self).program().subrange(0, start as int) + memory@
            + old(self).program().subrange(start + memory@.len(), INSTRUCTION_WORDS as int));
    }

    /// The program counter.
    pub fn get_program_counter(&self) -> (r: usize)
        ensures
            r == self.pc(),
    {
        self.program_counter
    }

    /// A copy of the register file.
    pub fn get_registers(&self) -> (r: Vec<i32>)
        ensures
            r@ == self.registers(),
    {
        let mut out: Vec<i32> = Vec::new();
        let mut i: usize = 0;
        while i < self.general_register.len()
            invariant
                i <= self.registers().len(),
                out@ == self.registers().subrange(0, i as int),
            decreases self.registers().len() - i,
        {
            out.push(self.general_register[i]);
            i = i + 1;
            assert(out@ =~= self.registers().subrange(0, i as int));
        }
        assert(out@ =~= self.registers());
        out
    }

    /// The words of data memory at `start`, `start + 4`, ... below `stop`; the
    /// range must lie wholly within RAM or wholly within video RAM.
    pub fn get_data_range(&self, start: usize, stop: usize) -> (r: Result<Vec<i32>, MemoryError>)
        requires
            self.wf(),
        ensures
            r is Ok <==> MemorySystem::dumpable(start as int, stop as int),
            r is Err ==> r == Err::<Vec<i32>, MemoryError>(MemoryError::OutOfRange),
            r matches Ok(v) ==> {
                &&& v@.len() == (stop - start + 3) / 4
                &&& forall|k: int|
                    0 <= k < v@.len() ==> Ok::<i32, MemoryError>(#[trigger] v@[k])
                        == self.memory().word_at(start + 4 * k)
            },
    {
        self.data_memory.dump_memory_range(start, stop)
    }

    /// The words of video RAM, from its first address up to, not including,
    /// its last.
    pub fn get_video_memory(&self) -> (r: Result<Vec<i32>, MemoryError>)
        requires
            self.wf(),
        ensures
            r matches Ok(v) && v@.len() == 512 && forall|k: int|
                0 <= k < 512 ==> Ok::<i32, MemoryError>(#[trigger] v@[k]) == self.memory().word_at(
                    memory::VIDEO_START + 4 * k,
                ),
    {
        self.data_memory.dump_memory_range(memory::VIDEO_START, memory::VIDEO_END)
    }

    /// The words of instruction memory in slots `start..stop`; fails unless
    /// `start <= stop` and every slot exists.
    pub fn get_instruction_range(&self, start: usize, stop: usize) -> (r: Result<
        Vec<i32>,
        MemoryError,
    >)
        requires
            self.wf(),
        ensures
            r is Ok <==> start <= stop <= INSTRUCTION_WORDS,
            r is Err ==> r == Err::<Vec<i32>, MemoryError>(MemoryError::OutOfRange),
            r matches Ok(v) ==> v@ == self.program().subrange(start as int, stop as int),
    {
        if start > stop || stop > self.instruction_memory.len() {
            return Err(MemoryError::OutOfRange);
        }
        let mut result: Vec<i32> = Vec::new();
        let mut n: usize = start;
        while n < stop
            invariant
                start <= n <= stop <= self.program().len(),
                result@ == self.program().subrange(start as int, n as int),
            decreases stop - n,
        {
            result.push(self.instruction_memory[n]);
            n = n + 1;
            assert(result@ =~= self.program().subrange(start as int, n as int));
        }
        Ok(result)
    }

    /// Executes one instruction: fetches the word at the program counter,
    /// decodes it and applies it. Returns the instruction executed.
    pub fn step(&mut self) -> (r: Result<Instruction, StepError>)
        requires
            old(self).wf(),
        ensures
            final(self).wf(),
            old(self).pc() >= INSTRUCTION_WORDS ==> r == Err::<Instruction, StepError>(
                StepError::FetchOutOfBounds,
            ) && *final(self) == *old(self),
            old(self).pc() < INSTRUCTION_WORDS ==> match decode(
                old(self).program()[old(self).pc() as int],
            ) {
                None => r == Err::<Instruction, StepError>(
                    StepError::Decode(DecodeError::UnsupportedInstruction),
                ) && *final(self) == *old(self),
                Some(i) => {
                    &&& r is Ok ==> r == Ok::<Instruction, StepError>(i)
                    &&& executed(
                        *old(self),
                        *final(self),
                        i,
                        match r {
                            Ok(_) => Ok(()),
                            Err(e) => Err(e),
                        },
                    )
                },
            },
    {
        let addr = self.program_counter;
        if addr >= self.instruction_memory.len() {
            return Err(StepError::FetchOutOfBounds);
        }
        match Instruction::from_i32(self.instruction_memory[addr]) {
            Ok(instr) => {
                match self.process_instruction(&instr) {
                    Ok(()) => Ok(instr),
                    Err(e) => Err(e),
                }
            },
            Err(e) => Err(StepError::Decode(e)),
        }
    }
}

} // verus!
