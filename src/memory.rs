use vstd::prelude::*;

use crate::error::Chip8Error;

verus! {

/// Size of the address space in bytes.
pub const MEMORY_SIZE: usize = 4096;

/// Address at which programs are loaded and execution starts.
pub const PROGRAM_START: usize = 0x200;

/// Largest program that fits between `PROGRAM_START` and the end of memory.
pub const MAX_ROM_SIZE: usize = 3584;

/// The built-in hexadecimal font: sixteen glyphs of five rows each.
pub open spec fn font() -> Seq<u8> {
    seq![
        0xF0u8, 0x90, 0x90, 0x90, 0xF0, 0x20, 0x60, 0x20, 0x20, 0x70,
        0xF0, 0x10, 0xF0, 0x80, 0xF0, 0xF0, 0x10, 0xF0, 0x10, 0xF0,
        0x90, 0x90, 0xF0, 0x10, 0x10, 0xF0, 0x80, 0xF0, 0x10, 0xF0,
        0xF0, 0x80, 0xF0, 0x90, 0xF0, 0xF0, 0x10, 0x20, 0x40, 0x40,
        0xF0, 0x90, 0xF0, 0x90, 0xF0, 0xF0, 0x90, 0xF0, 0x10, 0xF0,
        0xF0, 0x90, 0xF0, 0x90, 0x90, 0xE0, 0x90, 0xE0, 0x90, 0xE0,
        0xF0, 0x80, 0x80, 0x80, 0xF0, 0xE0, 0x90, 0x90, 0x90, 0xE0,
        0xF0, 0x80, 0xF0, 0x80, 0xF0, 0xF0, 0x80, 0xF0, 0x80, 0x80,
    ]
}

/// Contents of memory at power-on: the font at `0x000`, zero elsewhere.
pub open spec fn initial_memory() -> Seq<u8> {
    Seq::new(MEMORY_SIZE as nat, |i: int| if i < 80 { font()[i] } else { 0u8 })
}

/// Memory after a program of `rom` bytes is copied to `PROGRAM_START`.
pub open spec fn with_rom(mem: Seq<u8>, rom: Seq<u8>) -> Seq<u8> {
    Seq::new(
        mem.len(),
        |i: int|
            if PROGRAM_START <= i < PROGRAM_START + rom.len() {
                rom[i - PROGRAM_START]
            } else {
                mem[i]
            },
    )
}

fn font_table() -> (r: [u8; 80])
    ensures
        r@ == font(),
{
    let r: [u8; 80] = [
        0xF0, 0x90, 0x90, 0x90, 0xF0, 0x20, 0x60, 0x20, 0x20, 0x70,
        0xF0, 0x10, 0xF0, 0x80, 0xF0, 0xF0, 0x10, 0xF0, 0x10, 0xF0,
        0x90, 0x90, 0xF0, 0x10, 0x10, 0xF0, 0x80, 0xF0, 0x10, 0xF0,
        0xF0, 0x80, 0xF0, 0x90, 0xF0, 0xF0, 0x10, 0x20, 0x40, 0x40,
        0xF0, 0x90, 0xF0, 0x90, 0xF0, 0xF0, 0x90, 0xF0, 0x10, 0xF0,
        0xF0, 0x90, 0xF0, 0x90, 0x90, 0xE0, 0x90, 0xE0, 0x90, 0xE0,
        0xF0, 0x80, 0x80, 0x80, 0xF0, 0xE0, 0x90, 0x90, 0x90, 0xE0,
        0xF0, 0x80, 0xF0, 0x80, 0xF0, 0xF0, 0x80, 0xF0, 0x80, 0x80,
    ];
    assert(r@ =~= font());
    r
}

/// The 4 KiB flat address space.
pub struct Memory {
    ram: [u8; 4096],
}

impl View for Memory {
    type V = Seq<u8>;

    closed spec fn view(&self) -> Seq<u8> {
        self.ram@
    }
}

/// Memory always spans the whole address space.
pub broadcast proof fn lemma_memory_len(m: &Memory)
    ensures
        #[trigger] m@.len() == MEMORY_SIZE,
{
}

impl Memory {
    /// Memory with the font loaded at `0x000` and every other byte zero.
    pub fn new() -> (r: Memory)
        ensures
            r@ == initial_memory(),
    {
        let glyphs = font_table();
        let mut ram: [u8; 4096] = [0u8; 4096];
        let mut i: usize = 0;
        while i < 80
            invariant
                i <= 80,
                glyphs@ == font(),
                ram@.len() == MEMORY_SIZE,
                forall|j: int| 0 <= j < i ==> ram@[j] == font()[j],
                forall|j: int| i <= j < MEMORY_SIZE ==> ram@[j] == 0u8,
            decreases 80 - i,
        {
            ram[i] = glyphs[i];
            i = i + 1;
        }
        assert(ram@ =~= initial_memory());
        Memory { ram }
    }

    /// The byte at `addr`.
    pub fn read(&self, addr: u16) -> (r: Result<u8, Chip8Error>)
        ensures
            addr < MEMORY_SIZE ==> r == Ok::<u8, Chip8Error>(self@[addr as int]),
            addr >= MEMORY_SIZE ==> r == Err::<u8, Chip8Error>(Chip8Error::AddressOutOfRange),
    {
        if (addr as usize) < MEMORY_SIZE {
            Ok(self.ram[addr as usize])
        } else {
            Err(Chip8Error::AddressOutOfRange)
        }
    }

    /// The `len` bytes from `start` on.
    pub fn bytes(&self, start: usize, len: usize) -> (r: Vec<u8>)
        requires
            start + len <= MEMORY_SIZE,
        ensures
            r@ == self@.subrange(start as int, start + len),
    {
        let mut r: Vec<u8> = Vec::with_capacity(len);
        let mut j: usize = 0;
        while j < len
            invariant
                j <= len,
                start + len <= MEMORY_SIZE,
                r@ == self@.subrange(start as int, start + j),
            decreases len - j,
        {
            r.push(self.ram[start + j]);
            j = j + 1;
            assert(r@ =~= self@.subrange(start as int, start + j));
        }
        r
    }

    /// Stores `value` at `addr`; memory is unchanged when `addr` is out of range.
    pub fn write(&mut self, addr: u16, value: u8) -> (r: Result<(), Chip8Error>)
        ensures
            addr < MEMORY_SIZE ==> r is Ok && final(self)@ == old(self)@.update(addr as int, value),
            addr >= MEMORY_SIZE ==> r == Err::<(), Chip8Error>(Chip8Error::AddressOutOfRange)
                && final(self)@ == old(self)@,
    {
        if (addr as usize) < MEMORY_SIZE {
            self.ram[addr as usize] = value;
            Ok(())
        } else {
            Err(Chip8Error::AddressOutOfRange)
        }
    }

    /// Copies `data` to `PROGRAM_START`. A program longer than `MAX_ROM_SIZE`
    /// is refused and memory is left as it was.
    pub fn load_rom(&mut self, data: &[u8]) -> (r: Result<(), Chip8Error>)
        ensures
            data@.len() <= MAX_ROM_SIZE ==> r is Ok && final(self)@ == with_rom(old(self)@, data@),
            data@.len() > MAX_ROM_SIZE ==> r == Err::<(), Chip8Error>(Chip8Error::RomTooLarge)
                && final(self)@ == old(self)@,
    {
        if data.len() > MAX_ROM_SIZE {
            return Err(Chip8Error::RomTooLarge);
        }
        let ghost start = self@;
        let mut i: usize = 0;
        while i < data.len()
            invariant
                i <= data@.len() <= MAX_ROM_SIZE,
                self@.len() == MEMORY_SIZE,
                start.len() == MEMORY_SIZE,
                forall|j: int|
                    0 <= j < MEMORY_SIZE ==> self@[j] == (if PROGRAM_START <= j < PROGRAM_START + i {
                        data@[j - PROGRAM_START]
                    } else {
                        start[j]
                    }),
            decreases data@.len() - i,
        {
            self.ram[PROGRAM_START + i] = data[i];
            i = i + 1;
        }
        assert(self@ =~= with_rom(start, data@));
        Ok(())
    }
}

impl Default for Memory {
    fn default() -> (r: Memory)
        ensures
            r@ == initial_memory(),
    {
        Memory::new()
    }
}

} // verus!
