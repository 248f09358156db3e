//! The data memory: a byte store split into address regions, accessed by
//! 32-bit little-endian words.

use byteorder::{ByteOrder, LittleEndian};
use vstd::prelude::*;

verus! {

/// First address of RAM.
pub const RAM_START: usize = 0x0000_0000;

/// Last address of RAM.
pub const RAM_END: usize = 0x0001_FFFF;

/// First address of video RAM.
pub const VIDEO_START: usize = 0x4000_0000;

/// Last address of video RAM.
pub const VIDEO_END: usize = 0x4000_07FF;

/// Bytes held for RAM.
pub const RAM_BYTES: usize = 2_097_152;

/// Bytes held for video RAM.
pub const VIDEO_BYTES: usize = 8192;

/// What an address maps to.
#[derive(Clone, Copy, Debug, PartialEq, Eq, Structural)]
pub enum Region {
    Ram,
    VideoRam,
    /// Special registers: mapped but not implemented, so every access faults.
    SpecialRegisters,
    /// Unmapped space: every access faults.
    Reserved,
}

/// Why a memory access failed.
#[derive(Clone, Copy, Debug, PartialEq, Eq, Structural)]
pub enum MemoryError {
    /// The address lies in a region that holds no storage.
    Fault,
    /// A requested range does not lie within a single storage region.
    OutOfRange,
}

/// The region that `addr` belongs to.
pub open spec fn region_of(addr: int) -> Region {
    if 0 <= addr <= 0x0001_FFFF {
        Region::Ram
    } else if 0x4000_0000 <= addr <= 0x4000_07FF {
        Region::VideoRam
    } else if 0x8000_0000 <= addr <= 0x8000_000F {
        Region::SpecialRegisters
    } else {
        Region::Reserved
    }
}

/// Classifies an address against the memory map.
pub fn classify(addr: usize) -> (r: Region)
    ensures
        r == region_of(addr as int),
{
    if addr <= RAM_END {
        Region::Ram
    } else if VIDEO_START <= addr && addr <= VIDEO_END {
        Region::VideoRam
    } else if 0x8000_0000 <= addr && addr <= 0x8000_000F {
        Region::SpecialRegisters
    } else {
        Region::Reserved
    }
}

/// The word stored little-endian in `bytes` at offset `at`.
pub open spec fn le_word(bytes: Seq<u8>, at: int) -> i32 {
    ((bytes[at] as u32) | ((bytes[at + 1] as u32) << 8u32) | ((bytes[at + 2] as u32) << 16u32) | ((
    bytes[at + 3] as u32) << 24u32)) as i32
}

/// Byte `k` (0 is the least significant) of `value`.
pub open spec fn byte_of(value: i32, k: u32) -> u8 {
    ((value as u32) >> (8 * k)) as u8
}

/// `bytes` with `value` stored little-endian at offset `at`.
pub open spec fn put_word(bytes: Seq<u8>, at: int, value: i32) -> Seq<u8> {
    bytes.update(at, byte_of(value, 0)).update(at + 1, byte_of(value, 1)).update(
        at + 2,
        byte_of(value, 2),
    ).update(at + 3, byte_of(value, 3))
}

/// Relies on byteorder's `LittleEndian::read_i32`: it reads the first four
/// bytes of the slice, least significant first.
#[verifier::external_body]
fn read_word(bytes: &Vec<u8>, at: usize) -> (r: i32)
    requires
        at + 4 <= bytes@.len(),
    ensures
        r == le_word(bytes@, at as int),
{
    LittleEndian::read_i32(&bytes[at..])
}

/// Relies on byteorder's `LittleEndian::write_i32`: it writes the four bytes of
/// `value`, least significant first, to the start of the slice and touches no
/// other byte.
#[verifier::external_body]
fn write_word(bytes: &mut Vec<u8>, at: usize, value: i32)
    requires
        at + 4 <= old(bytes)@.len(),
    ensures
        final(bytes)@ == put_word(old(bytes)@, at as int, value),
{
    LittleEndian::write_i32(&mut bytes[at..], value)
}

/// The data memory: RAM and video RAM, each a byte store of fixed size.
pub struct MemorySystem {
    ram: Vec<u8>,
    video_memory: Vec<u8>,
}

impl MemorySystem {
    /// The bytes of RAM, from its first address on.
    pub closed spec fn ram(&self) -> Seq<u8> {
        self.ram@
    }

    /// The bytes of video RAM, from its first address on.
    pub closed spec fn video(&self) -> Seq<u8> {
        self.video_memory@
    }

    /// Both stores have their fixed sizes.
    pub open spec fn wf(&self) -> bool {
        &&& self.ram().len() == RAM_BYTES
        &&& self.video().len() == VIDEO_BYTES
    }

    /// The word that a read at `addr` yields, or the fault it raises.
    pub open spec fn word_at(&self, addr: int) -> Result<i32, MemoryError> {
        match region_of(addr) {
            Region::Ram => Ok(le_word(self.ram(), addr)),
            Region::VideoRam => Ok(le_word(self.video(), addr - VIDEO_START)),
            _ => Err(MemoryError::Fault),
        }
    }

    /// `[start, stop)` is a range that lies wholly within RAM or wholly within
    /// video RAM.
    pub open spec fn dumpable(start: int, stop: int) -> bool {
        ||| RAM_START <= start <= stop <= RAM_END + 1
        ||| VIDEO_START <= start <= stop <= VIDEO_END + 1
    }

    /// What a write at `addr` returns: it faults outside RAM and video RAM.
    pub open spec fn write_outcome(addr: int) -> Result<(), MemoryError> {
        match region_of(addr) {
            Region::Ram | Region::VideoRam => Ok(()),
            _ => Err(MemoryError::Fault),
        }
    }

    /// `after` is this memory once `value` has been written at `addr`: the word
    /// lands in the region that holds `addr`, and a faulting write changes nothing.
    pub open spec fn wrote(self, after: MemorySystem, addr: int, value: i32) -> bool {
        match region_of(addr) {
            Region::Ram => {
                &&& after.ram() == put_word(self.ram(), addr, value)
                &&& after.video() == self.video()
            },
            Region::VideoRam => {
                &&& after.video() == put_word(self.video(), addr - VIDEO_START, value)
                &&& after.ram() == self.ram()
            },
            _ => after == self,
        }
    }

    /// A memory of zeroes.
    pub fn new() -> (r: Self)
        ensures
            r.wf(),
            forall|i: int| 0 <= i < RAM_BYTES ==> r.ram()[i] == 0,
            forall|i: int| 0 <= i < VIDEO_BYTES ==> r.video()[i] == 0,
    {
        Self { ram: vec![0u8; RAM_BYTES], video_memory: vec![0u8; VIDEO_BYTES] }
    }

    /// Reads the little-endian word at `idx`; addresses outside RAM and video
    /// RAM fault.
    pub fn read_i32(&self, idx: usize) -> (r: Result<i32, MemoryError>)
        requires
            self.wf(),
        ensures
            r == self.word_at(idx as int),
    {
        match classify(idx) {
            Region::Ram => Ok(read_word(&self.ram, idx - RAM_START)),
            Region::VideoRam => Ok(read_word(&self.video_memory, idx - VIDEO_START)),
            _ => Err(MemoryError::Fault),
        }
    }

    /// Writes `data` as a little-endian word at `idx`; addresses outside RAM and
    /// video RAM fault and leave the memory as it was.
    pub fn write_i32(&mut self, idx: usize, data: i32) -> (r: Result<(), MemoryError>)
        requires
            old(self).wf(),
        ensures
            final(self).wf(),
            r == MemorySystem::write_outcome(idx as int),
            old(self).wrote(*final(self), idx as int, data),
    {
        match classify(idx) {
            Region::Ram => {
                write_word(&mut self.ram, idx - RAM_START, data);
                Ok(())
            },
            Region::VideoRam => {
                write_word(&mut self.video_memory, idx - VIDEO_START, data);
                Ok(())
            },
            _ => Err(MemoryError::Fault),
        }
    }
}

impl MemorySystem {
    /// The words at `start`, `start + 4`, ... below `stop`, for a range that lies
    /// wholly within RAM or wholly within video RAM.
    pub fn dump_memory_range(&self, start: usize, stop: usize) -> (r: Result<Vec<i32>, MemoryError>)
        requires
            self.wf(),
        ensures
            r is Ok <==> MemorySystem::dumpable(start as int, stop as int),
            r is Err ==> r == Err::<Vec<i32>, MemoryError>(MemoryError::OutOfRange),
            r matches Ok(v) ==> {
                &&& v@.len() == (stop - start + 3) / 4
                &&& forall|k: int|
                    0 <= k < v@.len() ==> Ok::<i32, MemoryError>(#[trigger] v@[k]) == self.word_at(start + 4 * k)
            },
    {
        let first: usize;
        let bytes: &Vec<u8>;
        if start <= stop && stop <= RAM_END + 1 {
            first = RAM_START;
            bytes = &self.ram;
        } else if VIDEO_START <= start && start <= stop && stop <= VIDEO_END + 1 {
            first = VIDEO_START;
            bytes = &self.video_memory;
        } else {
            return Err(MemoryError::OutOfRange);
        }
        let mut dump: Vec<i32> = Vec::new();
        let mut i: usize = start;
        while i < stop
            invariant
                first == RAM_START || first == VIDEO_START,
                first == RAM_START ==> bytes@ == self.ram() && stop <= RAM_END + 1,
                first == VIDEO_START ==> bytes@ == self.video() && VIDEO_START <= start && stop
                    <= VIDEO_END + 1,
                self.wf(),
                start <= i,
                i == start + 4 * dump@.len(),
                dump@.len() > 0 ==> i - 4 < stop,
                forall|k: int|
                    0 <= k < dump@.len() ==> Ok::<i32, MemoryError>(#[trigger] dump@[k]) == self.word_at(start + 4 * k),
            decreases stop + 3 - i,
        {
            let w = read_word(bytes, i - first);
            dump.push(w);
            i = i + 4;
        }
        Ok(dump)
    }
}

impl Default for MemorySystem {
    fn default() -> (r: Self)
        ensures
            r.wf(),
            forall|i: int| 0 <= i < RAM_BYTES ==> r.ram()[i] == 0,
            forall|i: int| 0 <= i < VIDEO_BYTES ==> r.video()[i] == 0,
    {
        Self::new()
    }
}

proof fn lemma_word_round_trip(v: i32)
    by (bit_vector)
    ensures
        ((((v as u32) >> 0u32) as u8 as u32) | (((((v as u32) >> 8u32) as u8) as u32) << 8u32) | (((((
        v as u32) >> 16u32) as u8) as u32) << 16u32) | (((((v as u32) >> 24u32) as u8) as u32)
            << 24u32)) as i32 == v,
{
}

/// A word written to RAM or video RAM reads back as written.
pub proof fn lemma_read_after_write(m: MemorySystem, after: MemorySystem, addr: int, value: i32)
    requires
        m.wf(),
        m.wrote(after, addr, value),
        MemorySystem::write_outcome(addr) is Ok,
    ensures
        after.word_at(addr) == Ok::<i32, MemoryError>(value),
{
    lemma_word_round_trip(value);
    assert(8 * 0u32 == 0u32 && 8 * 1u32 == 8u32 && 8 * 2u32 == 16u32 && 8 * 3u32 == 24u32);
}

/// The memory map: every address of `0x0000_0000..=0x0001_FFFF` is RAM, every
/// address of `0x4000_0000..=0x4000_07FF` is video RAM, and a read or write at
/// any other address faults.
pub proof fn lemma_address_classification(m: MemorySystem, addr: int)
    ensures
        0 <= addr <= 0x0001_FFFF ==> region_of(addr) == Region::Ram,
        0x4000_0000 <= addr <= 0x4000_07FF ==> region_of(addr) == Region::VideoRam,
        !(0 <= addr <= 0x0001_FFFF) && !(0x4000_0000 <= addr <= 0x4000_07FF) ==> {
            &&& region_of(addr) != Region::Ram
            &&& region_of(addr) != Region::VideoRam
            &&& m.word_at(addr) == Err::<i32, MemoryError>(MemoryError::Fault)
        },
{
}

} // verus!
