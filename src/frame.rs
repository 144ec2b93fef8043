//! Pacing of one 60 Hz frame: one timer tick, then cycles until a draw, an
//! error, or the cycle budget.

use vstd::prelude::*;

use crate::cpu::{machine, Cpu};
use crate::display::Display;
use crate::error::Chip8Error;
use crate::keyboard::Keyboard;
use crate::memory::Memory;
use crate::semantics::{cycle_spec, tick_spec, MachineState};

verus! {

/// Up to `budget` cycles from `m`, ending after the first draw or error, with
/// `rnds[k]` as the random byte of cycle `k`: how many cycles ran (or the
/// error), and the machine afterwards.
pub open spec fn frame_cycles(m: MachineState, keys: Seq<bool>, budget: nat, rnds: Seq<u8>) -> (
    Result<nat, Chip8Error>,
    MachineState,
)
    decreases budget,
{
    if budget == 0 {
        (Ok(0), m)
    } else {
        let (r, next) = cycle_spec(m, keys, rnds[0]);
        match r {
            Err(e) => (Err(e), next),
            Ok(drew) => {
                if drew {
                    (Ok(1), next)
                } else {
                    let (rest, last) = frame_cycles(
                        next,
                        keys,
                        (budget - 1) as nat,
                        rnds.drop_first(),
                    );
                    (
                        match rest {
                            Ok(k) => Ok(k + 1),
                            Err(e) => Err(e),
                        },
                        last,
                    )
                }
            },
        }
    }
}

/// `outcome` with `done` more cycles counted.
pub open spec fn counted(outcome: (Result<nat, Chip8Error>, MachineState), done: nat) -> (
    Result<nat, Chip8Error>,
    MachineState,
) {
    (
        match outcome.0 {
            Ok(k) => Ok(k + done),
            Err(e) => Err(e),
        },
        outcome.1,
    )
}

/// The result of `run_frame` as a count of cycles.
pub open spec fn as_count(r: Result<u32, Chip8Error>) -> Result<nat, Chip8Error> {
    match r {
        Ok(k) => Ok(k as nat),
        Err(e) => Err(e),
    }
}

/// Runs one frame: ticks the timers once, then runs up to `budget` cycles,
/// stopping right after a draw so that drawing keeps to one sprite per frame.
/// Returns the number of cycles run.
pub fn run_frame(
    cpu: &mut Cpu,
    memory: &mut Memory,
    display: &mut Display,
    keyboard: &Keyboard,
    budget: u32,
) -> (r: Result<u32, Chip8Error>)
    requires
        old(cpu).wf(),
    ensures
        final(cpu).wf(),
        exists|rnds: Seq<u8>|
            rnds.len() == budget && #[trigger] frame_cycles(
                machine(tick_spec(old(cpu)@), old(memory)@, old(display)@),
                keyboard@,
                budget as nat,
                rnds,
            ) == (as_count(r), machine(final(cpu)@, final(memory)@, final(display)@)),
{
    cpu.tick_timers();
    let ghost start = machine(cpu@, memory@, display@);
    let ghost keys = keyboard@;
    let ghost mut prefix: Seq<u8> = Seq::empty();
    let mut done: u32 = 0;
    while done < budget
        invariant
            cpu.wf(),
            done <= budget,
            prefix.len() == done,
            keys == keyboard@,
            start == machine(tick_spec(old(cpu)@), old(memory)@, old(display)@),
            forall|tail: Seq<u8>|
                tail.len() == budget - done ==> #[trigger] frame_cycles(
                    start,
                    keys,
                    budget as nat,
                    prefix + tail,
                ) == counted(
                    frame_cycles(
                        machine(cpu@, memory@, display@),
                        keys,
                        (budget - done) as nat,
                        tail,
                    ),
                    done as nat,
                ),
        decreases budget - done,
    {
        let ghost cur = machine(cpu@, memory@, display@);
        let ghost left = (budget - done) as nat;
        let result = cpu.cycle(memory, display, keyboard);
        let ghost after = machine(cpu@, memory@, display@);
        let ghost rnd = choose|rnd: u8| #[trigger] cycle_spec(cur, keys, rnd) == (result, after);
        let ghost rest = Seq::new((left - 1) as nat, |j: int| 0u8);
        proof {
            let tail = seq![rnd] + rest;
            assert(tail.drop_first() =~= rest);
            assert(tail[0] == rnd);
            assert(prefix + tail =~= prefix.push(rnd) + rest);
        }
        match result {
            Ok(drew) => {
                if drew {
                    done = done + 1;
                    assert(frame_cycles(start, keys, budget as nat, prefix.push(rnd) + rest) == (
                        as_count(Ok::<u32, Chip8Error>(done)),
                        after,
                    )) by {
                        let tail = seq![rnd] + rest;
                        assert(frame_cycles(start, keys, budget as nat, prefix + tail) == counted(
                            frame_cycles(cur, keys, left, tail),
                            (done - 1) as nat,
                        ));
                    }
                    assert((prefix.push(rnd) + rest).len() == budget);
                    return Ok(done);
                }
                proof {
                    assert forall|t: Seq<u8>| t.len() == budget - (done + 1) implies #[trigger] frame_cycles(
                        start,
                        keys,
                        budget as nat,
                        prefix.push(rnd) + t,
                    ) == counted(
                        frame_cycles(after, keys, (budget - (done + 1)) as nat, t),
                        (done + 1) as nat,
                    ) by {
                        let tail = seq![rnd] + t;
                        assert(tail.drop_first() =~= t);
                        assert(tail[0] == rnd);
                        assert(prefix + tail =~= prefix.push(rnd) + t);
                        assert(frame_cycles(start, keys, budget as nat, prefix + tail) == counted(
                            frame_cycles(cur, keys, left, tail),
                            done as nat,
                        ));
                    }
                    prefix = prefix.push(rnd);
                }
                done = done + 1;
            },
            Err(e) => {
                assert(frame_cycles(start, keys, budget as nat, prefix.push(rnd) + rest) == (
                    as_count(Err::<u32, Chip8Error>(e)),
                    after,
                )) by {
                    let tail = seq![rnd] + rest;
                    assert(frame_cycles(start, keys, budget as nat, prefix + tail) == counted(
                        frame_cycles(cur, keys, left, tail),
                        done as nat,
                    ));
                }
                assert((prefix.push(rnd) + rest).len() == budget);
                return Err(e);
            },
        }
    }
    assert(prefix + Seq::<u8>::empty() =~= prefix);
    assert(frame_cycles(start, keys, budget as nat, prefix + Seq::<u8>::empty()) == counted(
        frame_cycles(machine(cpu@, memory@, display@), keys, 0, Seq::<u8>::empty()),
        done as nat,
    ));
    Ok(done)
}

} // verus!
