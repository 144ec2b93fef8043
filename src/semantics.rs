//! The machine's state as mathematical values, and what each instruction
//! does to it.

use vstd::prelude::*;

use crate::display::{blank_grid, draw_collides, draw_grid, grid_shape};
use crate::error::Chip8Error;
use crate::keyboard::lowest_pressed;
use crate::memory::MEMORY_SIZE;

verus! {

/// Progress of the wait-for-key instruction `Fx0A`.
#[derive(Clone, Copy, Debug, PartialEq, Eq, Structural)]
pub enum KeyWait {
    /// No key wait is in progress.
    Running,
    /// `Fx0A` is repeating and has not yet seen a key held down.
    AwaitingKeyPress,
    /// `Fx0A` saw this key held down and repeats until it is released.
    AwaitingKeyRelease(u8),
}

/// The processor's registers, stack, timers and wait states.
pub struct CpuState {
    pub v: Seq<u8>,
    pub i: u16,
    pub pc: u16,
    pub sp: u8,
    pub stack: Seq<u16>,
    pub delay_timer: u8,
    pub sound_timer: u8,
    pub key_wait: KeyWait,
    pub vblank_wait: bool,
}

/// Processor, memory and screen together.
pub struct MachineState {
    pub cpu: CpuState,
    pub memory: Seq<u8>,
    pub display: Seq<Seq<bool>>,
}

/// Sixteen registers, sixteen stack slots, a stack pointer within them, and a
/// remembered key that is on the keypad.
pub open spec fn cpu_wf(c: CpuState) -> bool {
    &&& c.v.len() == 16
    &&& c.stack.len() == 16
    &&& c.sp <= 16
    &&& (c.key_wait matches KeyWait::AwaitingKeyRelease(k) ==> k < 16)
}

/// A well-formed processor, a full address space, and a screen of the right shape.
pub open spec fn machine_wf(m: MachineState) -> bool {
    &&& cpu_wf(m.cpu)
    &&& m.memory.len() == MEMORY_SIZE
    &&& grid_shape(m.display)
}

/// The processor at power-on.
pub open spec fn initial_cpu() -> CpuState {
    CpuState {
        v: Seq::new(16, |j: int| 0u8),
        i: 0,
        pc: 0x200,
        sp: 0,
        stack: Seq::new(16, |j: int| 0u16),
        delay_timer: 0,
        sound_timer: 0,
        key_wait: KeyWait::Running,
        vblank_wait: false,
    }
}

/// The instruction family: the top four bits of the word.
pub open spec fn op_family(op: u16) -> int {
    op as int / 4096
}

/// The low twelve bits: an address.
pub open spec fn op_nnn(op: u16) -> u16 {
    op % 4096
}

/// The low byte: an immediate value.
pub open spec fn op_kk(op: u16) -> u8 {
    (op % 256) as u8
}

/// The first register operand.
pub open spec fn op_x(op: u16) -> int {
    (op as int / 256) % 16
}

/// The second register operand.
pub open spec fn op_y(op: u16) -> int {
    (op as int / 16) % 16
}

/// The low four bits.
pub open spec fn op_n(op: u16) -> int {
    op as int % 16
}

/// Whether `op` is a sprite draw, `Dxyn`.
pub open spec fn is_draw(op: u16) -> bool {
    op_family(op) == 0xD
}

/// The program counter moved past one more instruction.
pub open spec fn pc_skip(pc: u16) -> u16 {
    ((pc + 2) % 65536) as u16
}

/// The program counter moved back so that an instruction repeats.
pub open spec fn pc_back(pc: u16) -> u16 {
    ((pc + 65534) % 65536) as u16
}

/// A condition as the value stored in `VF`.
pub open spec fn flag(b: bool) -> u8 {
    if b {
        1
    } else {
        0
    }
}

/// `m` with processor state `c`.
pub open spec fn with_cpu(m: MachineState, c: CpuState) -> MachineState {
    MachineState { cpu: c, ..m }
}

/// Skips the next instruction when `cond` holds.
pub open spec fn skip_if(c: CpuState, cond: bool) -> CpuState {
    if cond {
        CpuState { pc: pc_skip(c.pc), ..c }
    } else {
        c
    }
}

/// `Vx = val`.
pub open spec fn set_reg(c: CpuState, x: int, val: u8) -> CpuState {
    CpuState { v: c.v.update(x, val), ..c }
}

/// `Vx = val`, then `VF = f`.
pub open spec fn set_with_flag(c: CpuState, x: int, val: u8, f: bool) -> CpuState {
    CpuState { v: c.v.update(x, val).update(15, flag(f)), ..c }
}

/// The register-to-register family `8xyn`.
pub open spec fn alu_spec(c: CpuState, op: u16) -> Result<CpuState, Chip8Error> {
    let x = op_x(op);
    let vx = c.v[x];
    let vy = c.v[op_y(op)];
    let n = op_n(op);
    if n == 0 {
        Ok(set_reg(c, x, vy))
    } else if n == 1 {
        Ok(set_with_flag(c, x, vx | vy, false))
    } else if n == 2 {
        Ok(set_with_flag(c, x, vx & vy, false))
    } else if n == 3 {
        Ok(set_with_flag(c, x, vx ^ vy, false))
    } else if n == 4 {
        Ok(set_with_flag(c, x, ((vx + vy) % 256) as u8, vx + vy > 255))
    } else if n == 5 {
        Ok(set_with_flag(c, x, ((vx - vy) % 256) as u8, vx >= vy))
    } else if n == 6 {
        Ok(set_with_flag(c, x, vy / 2, vy % 2 == 1))
    } else if n == 7 {
        Ok(set_with_flag(c, x, ((vy - vx) % 256) as u8, vy >= vx))
    } else if n == 14 {
        Ok(set_with_flag(c, x, ((vy * 2) % 256) as u8, vy >= 128))
    } else {
        Err(Chip8Error::UnknownOpcode(op))
    }
}

/// `Fx0A`: wait for a key to be pressed and released, then store it in `Vx`.
pub open spec fn key_wait_spec(c: CpuState, keys: Seq<bool>, x: int) -> CpuState {
    match c.key_wait {
        KeyWait::AwaitingKeyRelease(k) => {
            if keys[k as int] {
                CpuState { pc: pc_back(c.pc), ..c }
            } else {
                CpuState { v: c.v.update(x, k), key_wait: KeyWait::Running, ..c }
            }
        },
        _ => match lowest_pressed(keys) {
            Some(k) => CpuState {
                pc: pc_back(c.pc),
                key_wait: KeyWait::AwaitingKeyRelease(k),
                ..c
            },
            None => CpuState { pc: pc_back(c.pc), key_wait: KeyWait::AwaitingKeyPress, ..c },
        },
    }
}

/// Decimal digits of `value`, most significant first.
pub open spec fn bcd(value: u8) -> Seq<u8> {
    seq![value / 100, (value / 10) % 10, value % 10]
}

/// Memory with `bytes` written from `start` on.
pub open spec fn store_bytes(mem: Seq<u8>, start: int, bytes: Seq<u8>) -> Seq<u8> {
    Seq::new(
        mem.len(),
        |a: int|
            if start <= a < start + bytes.len() {
                bytes[a - start]
            } else {
                mem[a]
            },
    )
}

/// The timer, index and memory family `Fxkk`.
pub open spec fn misc_spec(m: MachineState, keys: Seq<bool>, op: u16) -> Result<
    MachineState,
    Chip8Error,
> {
    let c = m.cpu;
    let x = op_x(op);
    let vx = c.v[x];
    let kk = op_kk(op);
    let base = c.i as int;
    if kk == 0x07 {
        Ok(with_cpu(m, set_reg(c, x, c.delay_timer)))
    } else if kk == 0x0A {
        Ok(with_cpu(m, key_wait_spec(c, keys, x)))
    } else if kk == 0x15 {
        Ok(with_cpu(m, CpuState { delay_timer: vx, ..c }))
    } else if kk == 0x18 {
        Ok(with_cpu(m, CpuState { sound_timer: vx, ..c }))
    } else if kk == 0x1E {
        Ok(with_cpu(m, CpuState { i: ((base + vx) % 65536) as u16, ..c }))
    } else if kk == 0x29 {
        Ok(with_cpu(m, CpuState { i: ((vx % 16) * 5) as u16, ..c }))
    } else if kk == 0x33 {
        if base + 3 > MEMORY_SIZE {
            Err(Chip8Error::AddressOutOfRange)
        } else {
            Ok(MachineState { memory: store_bytes(m.memory, base, bcd(vx)), ..m })
        }
    } else if kk == 0x55 {
        if base + x + 1 > MEMORY_SIZE {
            Err(Chip8Error::AddressOutOfRange)
        } else {
            Ok(
                MachineState {
                    cpu: CpuState { i: (base + x + 1) as u16, ..c },
                    memory: store_bytes(m.memory, base, c.v.take(x + 1)),
                    ..m
                },
            )
        }
    } else if kk == 0x65 {
        if base + x + 1 > MEMORY_SIZE {
            Err(Chip8Error::AddressOutOfRange)
        } else {
            Ok(
                with_cpu(
                    m,
                    CpuState {
                        v: Seq::new(
                            16,
                            |j: int|
                                if j <= x {
                                    m.memory[base + j]
                                } else {
                                    c.v[j]
                                },
                        ),
                        i: (base + x + 1) as u16,
                        ..c
                    },
                ),
            )
        }
    } else {
        Err(Chip8Error::UnknownOpcode(op))
    }
}

/// `Dxyn`: draw `n` sprite rows from memory at `I` to `(Vx, Vy)`, at most
/// once per timer tick.
pub open spec fn draw_spec(m: MachineState, op: u16) -> Result<MachineState, Chip8Error> {
    let c = m.cpu;
    let n = op_n(op);
    let base = c.i as int;
    if c.vblank_wait {
        Ok(with_cpu(m, CpuState { pc: pc_back(c.pc), ..c }))
    } else if n > 0 && base + n > MEMORY_SIZE {
        Err(Chip8Error::AddressOutOfRange)
    } else {
        let sprite = Seq::new(n as nat, |j: int| m.memory[base + j]);
        let vx = c.v[op_x(op)];
        let vy = c.v[op_y(op)];
        Ok(
            MachineState {
                cpu: CpuState {
                    v: c.v.update(15, flag(draw_collides(m.display, vx, vy, sprite))),
                    vblank_wait: true,
                    ..c
                },
                display: draw_grid(m.display, vx, vy, sprite),
                ..m
            },
        )
    }
}

/// What executing `op` does to `m` with keypad `keys`, where `rnd` is the byte
/// drawn for `Cxkk`. The program counter has already moved past `op`. An error
/// leaves the machine as it was.
pub open spec fn execute_spec(m: MachineState, keys: Seq<bool>, op: u16, rnd: u8) -> Result<
    MachineState,
    Chip8Error,
> {
    let c = m.cpu;
    let f = op_family(op);
    let x = op_x(op);
    let kk = op_kk(op);
    let nnn = op_nnn(op);
    if f == 0 {
        if op == 0x00E0 {
            Ok(MachineState { display: blank_grid(), ..m })
        } else if op == 0x00EE {
            if c.sp == 0 {
                Err(Chip8Error::StackUnderflow)
            } else {
                Ok(with_cpu(m, CpuState { sp: (c.sp - 1) as u8, pc: c.stack[c.sp - 1], ..c }))
            }
        } else {
            Err(Chip8Error::UnknownOpcode(op))
        }
    } else if f == 1 {
        Ok(with_cpu(m, CpuState { pc: nnn, ..c }))
    } else if f == 2 {
        if c.sp >= 16 {
            Err(Chip8Error::StackOverflow)
        } else {
            Ok(
                with_cpu(
                    m,
                    CpuState {
                        stack: c.stack.update(c.sp as int, c.pc),
                        sp: (c.sp + 1) as u8,
                        pc: nnn,
                        ..c
                    },
                ),
            )
        }
    } else if f == 3 {
        Ok(with_cpu(m, skip_if(c, c.v[x] == kk)))
    } else if f == 4 {
        Ok(with_cpu(m, skip_if(c, c.v[x] != kk)))
    } else if f == 5 {
        if op_n(op) == 0 {
            Ok(with_cpu(m, skip_if(c, c.v[x] == c.v[op_y(op)])))
        } else {
            Err(Chip8Error::UnknownOpcode(op))
        }
    } else if f == 6 {
        Ok(with_cpu(m, set_reg(c, x, kk)))
    } else if f == 7 {
        Ok(with_cpu(m, set_reg(c, x, ((c.v[x] + kk) % 256) as u8)))
    } else if f == 8 {
        match alu_spec(c, op) {
            Ok(c2) => Ok(with_cpu(m, c2)),
            Err(e) => Err(e),
        }
    } else if f == 9 {
        if op_n(op) == 0 {
            Ok(with_cpu(m, skip_if(c, c.v[x] != c.v[op_y(op)])))
        } else {
            Err(Chip8Error::UnknownOpcode(op))
        }
    } else if f == 0xA {
        Ok(with_cpu(m, CpuState { i: nnn, ..c }))
    } else if f == 0xB {
        Ok(with_cpu(m, CpuState { pc: (nnn + c.v[0]) as u16, ..c }))
    } else if f == 0xC {
        Ok(with_cpu(m, set_reg(c, x, rnd & kk)))
    } else if f == 0xD {
        draw_spec(m, op)
    } else if f == 0xE {
        if kk == 0x9E {
            Ok(with_cpu(m, skip_if(c, keys[(c.v[x] % 16) as int])))
        } else if kk == 0xA1 {
            Ok(with_cpu(m, skip_if(c, !keys[(c.v[x] % 16) as int])))
        } else {
            Err(Chip8Error::UnknownOpcode(op))
        }
    } else {
        misc_spec(m, keys, op)
    }
}

/// The big-endian instruction word at `addr`.
pub open spec fn word_at(mem: Seq<u8>, addr: int) -> u16 {
    (mem[addr] * 256 + mem[addr + 1]) as u16
}

/// One fetch-decode-execute cycle: the result and the machine after it. The
/// result is whether the instruction was a draw. The program counter moves
/// past the instruction before it runs, so an error in execution leaves it
/// there.
#[verifier::opaque]
pub open spec fn cycle_spec(m: MachineState, keys: Seq<bool>, rnd: u8) -> (
    Result<bool, Chip8Error>,
    MachineState,
) {
    if m.cpu.pc + 1 >= MEMORY_SIZE {
        (Err(Chip8Error::AddressOutOfRange), m)
    } else {
        let op = word_at(m.memory, m.cpu.pc as int);
        let fetched = with_cpu(m, CpuState { pc: (m.cpu.pc + 2) as u16, ..m.cpu });
        match execute_spec(fetched, keys, op, rnd) {
            Ok(next) => (Ok(is_draw(op)), next),
            Err(e) => (Err(e), fetched),
        }
    }
}

/// One timer tick: both timers count down to zero, and drawing is allowed again.
pub open spec fn tick_spec(c: CpuState) -> CpuState {
    CpuState {
        delay_timer: if c.delay_timer > 0 {
            (c.delay_timer - 1) as u8
        } else {
            0
        },
        sound_timer: if c.sound_timer > 0 {
            (c.sound_timer - 1) as u8
        } else {
            0
        },
        vblank_wait: false,
        ..c
    }
}

/// Whether an executed instruction, with result `r`, took `before` to `after`
/// as `spec_result` says: the new machine on success, no change on error.
pub open spec fn follows(
    spec_result: Result<MachineState, Chip8Error>,
    before: MachineState,
    r: Result<(), Chip8Error>,
    after: MachineState,
) -> bool {
    match spec_result {
        Ok(next) => r is Ok && after == next,
        Err(e) => r == Err::<(), Chip8Error>(e) && after == before,
    }
}

} // verus!
