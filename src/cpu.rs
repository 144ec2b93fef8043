//! The processor: registers, call stack, timers, and the fetch-decode-execute
//! engine.

use vstd::prelude::*;

use crate::display::{lemma_display_shape, Display};
use crate::error::Chip8Error;
use crate::keyboard::{lemma_keyboard_len, Keyboard};
use crate::memory::{lemma_memory_len, Memory, MEMORY_SIZE, PROGRAM_START};
use crate::semantics::{
    alu_spec, bcd, cpu_wf, cycle_spec, draw_spec, execute_spec, follows, initial_cpu, misc_spec,
    set_with_flag, store_bytes, tick_spec, word_at, CpuState, KeyWait, MachineState,
};

verus! {

/// Relies on rand::random: a value drawn from the thread-local generator
/// (the engine draws one byte for `Cxkk`). Nothing is promised of it.
pub assume_specification<T>[ rand::random::<T> ]() -> (r: T)
    where
        rand::distributions::Standard: rand::distributions::Distribution<T>,
;

/// The machine made of a processor state, a memory and a screen.
pub open spec fn machine(c: CpuState, mem: Seq<u8>, disp: Seq<Seq<bool>>) -> MachineState {
    MachineState { cpu: c, memory: mem, display: disp }
}

/// The processor.
pub struct Cpu {
    /// General registers `V0` to `VF`; `VF` doubles as the flag register.
    pub v: [u8; 16],
    /// Index register.
    pub i: u16,
    /// Program counter.
    pub pc: u16,
    /// Number of return addresses on the stack.
    pub sp: u8,
    /// Return addresses of the calls in progress.
    pub stack: [u16; 16],
    /// Counts down once per tick.
    pub delay_timer: u8,
    /// Counts down once per tick; the tone sounds while it is above zero.
    pub sound_timer: u8,
    key_wait: KeyWait,
    vblank_wait: bool,
}

impl View for Cpu {
    type V = CpuState;

    closed spec fn view(&self) -> CpuState {
        CpuState {
            v: self.v@,
            i: self.i,
            pc: self.pc,
            sp: self.sp,
            stack: self.stack@,
            delay_timer: self.delay_timer,
            sound_timer: self.sound_timer,
            key_wait: self.key_wait,
            vblank_wait: self.vblank_wait,
        }
    }
}

fn read_byte(memory: &Memory, addr: u16) -> (b: u8)
    requires
        addr < MEMORY_SIZE,
    ensures
        b == memory@[addr as int],
{
    match memory.read(addr) {
        Ok(b) => b,
        Err(_) => 0,
    }
}

impl Cpu {
    /// The stack pointer is within the stack and a remembered key is on the
    /// keypad. `new` establishes this and every method keeps it.
    pub open spec fn wf(&self) -> bool {
        cpu_wf(self@)
    }

    /// A processor at power-on: registers, stack and timers zero, execution
    /// starting at `0x200`.
    pub fn new() -> (r: Cpu)
        ensures
            r@ == initial_cpu(),
            r.wf(),
    {
        let r = Cpu {
            v: [0u8; 16],
            i: 0,
            pc: PROGRAM_START as u16,
            sp: 0,
            stack: [0u16; 16],
            delay_timer: 0,
            sound_timer: 0,
            key_wait: KeyWait::Running,
            vblank_wait: false,
        };
        assert(r@.v =~= initial_cpu().v);
        assert(r@.stack =~= initial_cpu().stack);
        r
    }

    /// Whether a draw has happened since the last timer tick, so that the next
    /// draw must wait.
    pub fn is_waiting_for_vblank(&self) -> (r: bool)
        ensures
            r == self@.vblank_wait,
    {
        self.vblank_wait
    }

    /// Progress of a wait-for-key instruction.
    pub fn key_wait(&self) -> (r: KeyWait)
        ensures
            r == self@.key_wait,
    {
        self.key_wait
    }

    /// Whether the tone should sound.
    pub fn sound_active(&self) -> (r: bool)
        ensures
            r == (self@.sound_timer > 0),
    {
        self.sound_timer > 0
    }

    /// Whether the instruction at the program counter is a draw, `Dxyn`.
    pub fn next_instruction_is_draw(&self, memory: &Memory) -> (r: bool)
        ensures
            r == (self@.pc < MEMORY_SIZE && memory@[self@.pc as int] / 16 == 0xD),
    {
        match memory.read(self.pc) {
            Ok(b) => b / 16 == 0xD,
            Err(_) => false,
        }
    }

    /// Reads the big-endian instruction word at the program counter and moves
    /// the program counter past it.
    pub fn fetch(&mut self, memory: &Memory) -> (op: u16)
        requires
            old(self)@.pc + 1 < MEMORY_SIZE,
        ensures
            op == word_at(memory@, old(self)@.pc as int),
            final(self)@ == (CpuState { pc: (old(self)@.pc + 2) as u16, ..old(self)@ }),
    {
        let hi = read_byte(memory, self.pc);
        let lo = read_byte(memory, self.pc + 1);
        self.pc = self.pc + 2;
        hi as u16 * 256 + lo as u16
    }

    /// Counts both timers down by one, stopping at zero, and lets the next
    /// draw through.
    pub fn tick_timers(&mut self)
        ensures
            final(self)@ == tick_spec(old(self)@),
    {
        if self.delay_timer > 0 {
            self.delay_timer = self.delay_timer - 1;
        }
        if self.sound_timer > 0 {
            self.sound_timer = self.sound_timer - 1;
        }
        self.vblank_wait = false;
    }

    fn skip(&mut self)
        ensures
            final(self)@ == (CpuState { pc: ((old(self)@.pc + 2) % 65536) as u16, ..old(self)@ }),
    {
        self.pc = ((self.pc as u32 + 2) % 65536) as u16;
    }

    fn repeat(&mut self)
        ensures
            final(self)@ == (CpuState { pc: ((old(self)@.pc + 65534) % 65536) as u16, ..old(self)@ }),
    {
        self.pc = ((self.pc as u32 + 65534) % 65536) as u16;
    }

    /// Executes `opcode`, with `rnd` as the random byte of `Cxkk`. The program
    /// counter is expected to point past `opcode` already. On error nothing
    /// changes.
    pub fn execute_with(
        &mut self,
        opcode: u16,
        rnd: u8,
        memory: &mut Memory,
        display: &mut Display,
        keyboard: &Keyboard,
    ) -> (r: Result<(), Chip8Error>)
        requires
            old(self).wf(),
        ensures
            final(self).wf(),
            follows(
                execute_spec(machine(old(self)@, old(memory)@, old(display)@), keyboard@, opcode, rnd),
                machine(old(self)@, old(memory)@, old(display)@),
                r,
                machine(final(self)@, final(memory)@, final(display)@),
            ),
    {
        broadcast use lemma_memory_len, lemma_keyboard_len, lemma_display_shape;

        let family = opcode / 4096;
        let x = ((opcode / 256) % 16) as usize;
        let y = ((opcode / 16) % 16) as usize;
        let n = opcode % 16;
        let kk = (opcode % 256) as u8;
        let nnn = opcode % 4096;
        if family == 0 {
            if opcode == 0x00E0 {
                display.clear();
            } else if opcode == 0x00EE {
                if self.sp == 0 {
                    return Err(Chip8Error::StackUnderflow);
                }
                self.sp = self.sp - 1;
                self.pc = self.stack[self.sp as usize];
            } else {
                return Err(Chip8Error::UnknownOpcode(opcode));
            }
        } else if family == 1 {
            self.pc = nnn;
        } else if family == 2 {
            if self.sp >= 16 {
                return Err(Chip8Error::StackOverflow);
            }
            self.stack[self.sp as usize] = self.pc;
            self.sp = self.sp + 1;
            self.pc = nnn;
        } else if family == 3 {
            if self.v[x] == kk {
                self.skip();
            }
        } else if family == 4 {
            if self.v[x] != kk {
                self.skip();
            }
        } else if family == 5 {
            if n != 0 {
                return Err(Chip8Error::UnknownOpcode(opcode));
            }
            if self.v[x] == self.v[y] {
                self.skip();
            }
        } else if family == 6 {
            self.v[x] = kk;
        } else if family == 7 {
            self.v[x] = ((self.v[x] as u16 + kk as u16) % 256) as u8;
        } else if family == 8 {
            return self.execute_alu(opcode);
        } else if family == 9 {
            if n != 0 {
                return Err(Chip8Error::UnknownOpcode(opcode));
            }
            if self.v[x] != self.v[y] {
                self.skip();
            }
        } else if family == 0xA {
            self.i = nnn;
        } else if family == 0xB {
            self.pc = nnn + self.v[0] as u16;
        } else if family == 0xC {
            self.v[x] = rnd & kk;
        } else if family == 0xD {
            return self.execute_draw(opcode, memory, display);
        } else if family == 0xE {
            let key = self.v[x] % 16;
            if kk == 0x9E {
                if keyboard.is_key_pressed(key) {
                    self.skip();
                }
            } else if kk == 0xA1 {
                if !keyboard.is_key_pressed(key) {
                    self.skip();
                }
            } else {
                return Err(Chip8Error::UnknownOpcode(opcode));
            }
        } else {
            return self.execute_misc(opcode, memory, keyboard, Ghost(display@));
        }
        Ok(())
    }

    /// Executes `opcode`, drawing a random byte when it is `Cxkk`. The program
    /// counter is expected to point past `opcode` already. On error nothing
    /// changes.
    pub fn execute(
        &mut self,
        opcode: u16,
        memory: &mut Memory,
        display: &mut Display,
        keyboard: &Keyboard,
    ) -> (r: Result<(), Chip8Error>)
        requires
            old(self).wf(),
        ensures
            final(self).wf(),
            exists|rnd: u8|
                follows(
                    #[trigger] execute_spec(
                        machine(old(self)@, old(memory)@, old(display)@),
                        keyboard@,
                        opcode,
                        rnd,
                    ),
                    machine(old(self)@, old(memory)@, old(display)@),
                    r,
                    machine(final(self)@, final(memory)@, final(display)@),
                ),
    {
        let rnd: u8 = if opcode / 4096 == 0xC {
            rand::random()
        } else {
            0
        };
        self.execute_with(opcode, rnd, memory, display, keyboard)
    }

    /// One fetch-decode-execute cycle. Returns whether the instruction was a
    /// draw, so that a scheduler can end the frame there.
    pub fn cycle(&mut self, memory: &mut Memory, display: &mut Display, keyboard: &Keyboard) -> (r:
        Result<bool, Chip8Error>)
        requires
            old(self).wf(),
        ensures
            final(self).wf(),
            exists|rnd: u8|
                #[trigger] cycle_spec(machine(old(self)@, old(memory)@, old(display)@), keyboard@, rnd)
                    == (r, machine(final(self)@, final(memory)@, final(display)@)),
    {
        broadcast use lemma_memory_len;

        reveal(cycle_spec);
        if self.pc as usize + 1 >= MEMORY_SIZE {
            assert(cycle_spec(machine(self@, memory@, display@), keyboard@, 0) == (
                Err::<bool, Chip8Error>(Chip8Error::AddressOutOfRange),
                machine(self@, memory@, display@),
            ));
            return Err(Chip8Error::AddressOutOfRange);
        }
        let ghost before = machine(self@, memory@, display@);
        let opcode = self.fetch(memory);
        let ghost fetched = machine(self@, memory@, display@);
        match self.execute(opcode, memory, display, keyboard) {
            Ok(()) => {
                let ghost rnd = choose|rnd: u8|
                    follows(
                        #[trigger] execute_spec(fetched, keyboard@, opcode, rnd),
                        fetched,
                        Ok::<(), Chip8Error>(()),
                        machine(self@, memory@, display@),
                    );
                assert(cycle_spec(before, keyboard@, rnd) == (
                    Ok::<bool, Chip8Error>(opcode / 4096 == 0xD),
                    machine(self@, memory@, display@),
                ));
                Ok(opcode / 4096 == 0xD)
            },
            Err(e) => {
                let ghost rnd = choose|rnd: u8|
                    follows(
                        #[trigger] execute_spec(fetched, keyboard@, opcode, rnd),
                        fetched,
                        Err::<(), Chip8Error>(e),
                        machine(self@, memory@, display@),
                    );
                assert(cycle_spec(before, keyboard@, rnd) == (
                    Err::<bool, Chip8Error>(e),
                    machine(self@, memory@, display@),
                ));
                Err(e)
            },
        }
    }

    #[verifier::rlimit(30)]
    fn execute_alu(&mut self, opcode: u16) -> (r: Result<(), Chip8Error>)
        requires
            old(self).wf(),
        ensures
            final(self).wf(),
            match alu_spec(old(self)@, opcode) {
                Ok(c) => r is Ok && final(self)@ == c,
                Err(e) => r == Err::<(), Chip8Error>(e) && final(self)@ == old(self)@,
            },
    {
        let x = ((opcode / 256) % 16) as usize;
        let y = ((opcode / 16) % 16) as usize;
        let n = opcode % 16;
        let vx = self.v[x];
        let vy = self.v[y];
        if n == 0 {
            self.v[x] = vy;
            return Ok(());
        }
        let (val, carry): (u8, bool) = if n == 1 {
            (vx | vy, false)
        } else if n == 2 {
            (vx & vy, false)
        } else if n == 3 {
            (vx ^ vy, false)
        } else if n == 4 {
            let sum = vx as u16 + vy as u16;
            ((sum % 256) as u8, sum > 255)
        } else if n == 5 {
            assert((vx + 256 - vy) % 256 == (vx - vy) % 256);
            (((vx as u16 + 256 - vy as u16) % 256) as u8, vx >= vy)
        } else if n == 6 {
            (vy / 2, vy % 2 == 1)
        } else if n == 7 {
            assert((vy + 256 - vx) % 256 == (vy - vx) % 256);
            (((vy as u16 + 256 - vx as u16) % 256) as u8, vy >= vx)
        } else if n == 14 {
            (((vy as u16 * 2) % 256) as u8, vy >= 128)
        } else {
            return Err(Chip8Error::UnknownOpcode(opcode));
        };
        assert(alu_spec(old(self)@, opcode) == Ok::<CpuState, Chip8Error>(
            set_with_flag(old(self)@, x as int, val, carry),
        ));
        self.v[x] = val;
        self.v[15] = if carry {
            1
        } else {
            0
        };
        Ok(())
    }

    fn execute_draw(&mut self, opcode: u16, memory: &Memory, display: &mut Display) -> (r: Result<
        (),
        Chip8Error,
    >)
        requires
            old(self).wf(),
            opcode / 4096 == 0xD,
        ensures
            final(self).wf(),
            follows(
                draw_spec(machine(old(self)@, memory@, old(display)@), opcode),
                machine(old(self)@, memory@, old(display)@),
                r,
                machine(final(self)@, memory@, final(display)@),
            ),
    {
        broadcast use lemma_memory_len;

        if self.vblank_wait {
            self.repeat();
            return Ok(());
        }
        let n = (opcode % 16) as usize;
        if n > 0 && self.i as usize + n > MEMORY_SIZE {
            return Err(Chip8Error::AddressOutOfRange);
        }
        let sprite = if n == 0 {
            Vec::new()
        } else {
            memory.bytes(self.i as usize, n)
        };
        assert(sprite@ =~= Seq::new(n as nat, |j: int| memory@[self.i + j]));
        let vx = self.v[((opcode / 256) % 16) as usize];
        let vy = self.v[((opcode / 16) % 16) as usize];
        let collision = display.draw_sprite(vx, vy, sprite.as_slice());
        self.v[15] = if collision {
            1
        } else {
            0
        };
        self.vblank_wait = true;
        Ok(())
    }

    fn execute_misc(
        &mut self,
        opcode: u16,
        memory: &mut Memory,
        keyboard: &Keyboard,
        Ghost(disp): Ghost<Seq<Seq<bool>>>,
    ) -> (r: Result<(), Chip8Error>)
        requires
            old(self).wf(),
        ensures
            final(self).wf(),
            follows(
                misc_spec(machine(old(self)@, old(memory)@, disp), keyboard@, opcode),
                machine(old(self)@, old(memory)@, disp),
                r,
                machine(final(self)@, final(memory)@, disp),
            ),
    {
        broadcast use lemma_memory_len, lemma_keyboard_len;

        let x = ((opcode / 256) % 16) as usize;
        let kk = (opcode % 256) as u8;
        let vx = self.v[x];
        if kk == 0x07 {
            self.v[x] = self.delay_timer;
        } else if kk == 0x0A {
            match self.key_wait {
                KeyWait::AwaitingKeyRelease(k) => {
                    if keyboard.is_key_pressed(k) {
                        self.repeat();
                    } else {
                        self.v[x] = k;
                        self.key_wait = KeyWait::Running;
                    }
                },
                _ => {
                    match keyboard.get_pressed_key() {
                        Some(k) => {
                            self.key_wait = KeyWait::AwaitingKeyRelease(k);
                        },
                        None => {
                            self.key_wait = KeyWait::AwaitingKeyPress;
                        },
                    }
                    self.repeat();
                },
            }
        } else if kk == 0x15 {
            self.delay_timer = vx;
        } else if kk == 0x18 {
            self.sound_timer = vx;
        } else if kk == 0x1E {
            self.i = ((self.i as u32 + vx as u32) % 65536) as u16;
        } else if kk == 0x29 {
            self.i = (vx % 16) as u16 * 5;
        } else if kk == 0x33 {
            if self.i as usize + 3 > MEMORY_SIZE {
                return Err(Chip8Error::AddressOutOfRange);
            }
            let base = self.i;
            let ghost mem0 = memory@;
            let _ = memory.write(base, vx / 100);
            let _ = memory.write(base + 1, (vx / 10) % 10);
            let _ = memory.write(base + 2, vx % 10);
            assert(memory@ =~= store_bytes(
                mem0,
                base as int,
                bcd(vx),
            ));
        } else if kk == 0x55 {
            if self.i as usize + x + 1 > MEMORY_SIZE {
                return Err(Chip8Error::AddressOutOfRange);
            }
            let base = self.i;
            let ghost mem0 = memory@;
            let mut j: usize = 0;
            while j <= x
                invariant
                    j <= x + 1,
                    x < 16,
                    base + x + 1 <= MEMORY_SIZE,
                    self.wf(),
                    mem0.len() == MEMORY_SIZE,
                    memory@ == store_bytes(mem0, base as int, self@.v.take(j as int)),
                decreases x + 1 - j,
            {
                let _ = memory.write(base + j as u16, self.v[j]);
                j = j + 1;
                assert(memory@ =~= store_bytes(mem0, base as int, self@.v.take(j as int)));
            }
            self.i = base + x as u16 + 1;
        } else if kk == 0x65 {
            if self.i as usize + x + 1 > MEMORY_SIZE {
                return Err(Chip8Error::AddressOutOfRange);
            }
            let base = self.i;
            let ghost c0 = self@;
            let ghost v0 = self@.v;
            let mut j: usize = 0;
            while j <= x
                invariant
                    j <= x + 1,
                    x < 16,
                    base + x + 1 <= MEMORY_SIZE,
                    self@.v.len() == 16,
                    self@ == (CpuState { v: self@.v, ..c0 }),
                    self@.v == Seq::new(16, |k: int| if k < j { memory@[base + k] } else { v0[k] }),
                decreases x + 1 - j,
            {
                self.v[j] = read_byte(memory, base + j as u16);
                j = j + 1;
                assert(self@.v =~= Seq::new(16, |k: int| if k < j { memory@[base + k] } else { v0[k] }));
            }
            self.i = base + x as u16 + 1;
            assert(self@.v =~= Seq::new(16, |k: int| if k <= x { memory@[base + k] } else { v0[k] }));
        } else {
            return Err(Chip8Error::UnknownOpcode(opcode));
        }
        Ok(())
    }
}

impl Default for Cpu {
    fn default() -> (r: Cpu)
        ensures
            r@ == initial_cpu(),
    {
        Cpu::new()
    }
}

} // verus!
