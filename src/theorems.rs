//! Properties of the instruction set, proved over the semantics.

use vstd::prelude::*;

use crate::disasm::{around_reg, mnemonic, reg_byte, reg_reg, unknown_text, with_addr};
use crate::display::{draw_collides, draw_grid, grid_shape, row_collides, sprite_bit, xor_row};
use crate::error::Chip8Error;
use crate::keyboard::{
    lemma_lowest_pressed_is_pressed, lowest_pressed, lowest_pressed_from, KEY_COUNT,
};
use crate::semantics::{
    cycle_spec, execute_spec, key_wait_spec, machine_wf, op_family, op_kk, op_n, op_nnn, op_x,
    op_y, pc_back, set_reg, tick_spec, with_cpu, word_at, CpuState, KeyWait, MachineState,
};

verus! {

/// The word with the four nibbles `f`, `x`, `y`, `n`.
pub open spec fn opcode(f: int, x: int, y: int, n: int) -> u16 {
    (f * 4096 + x * 256 + y * 16 + n) as u16
}

proof fn lemma_decode(f: int, x: int, y: int, n: int)
    requires
        0 <= f < 16,
        0 <= x < 16,
        0 <= y < 16,
        0 <= n < 16,
    ensures
        op_family(opcode(f, x, y, n)) == f,
        op_x(opcode(f, x, y, n)) == x,
        op_y(opcode(f, x, y, n)) == y,
        op_n(opcode(f, x, y, n)) == n,
        op_kk(opcode(f, x, y, n)) == y * 16 + n,
        op_nnn(opcode(f, x, y, n)) == x * 256 + y * 16 + n,
{
    let w = f * 4096 + x * 256 + y * 16 + n;
    assert(w / 4096 == f) by (nonlinear_arith)
        requires
            w == f * 4096 + x * 256 + y * 16 + n,
            0 <= x < 16,
            0 <= y < 16,
            0 <= n < 16,
    ;
    assert(w / 256 == f * 16 + x) by (nonlinear_arith)
        requires
            w == f * 4096 + x * 256 + y * 16 + n,
            0 <= y < 16,
            0 <= n < 16,
    ;
    assert(w / 16 == f * 256 + x * 16 + y) by (nonlinear_arith)
        requires
            w == f * 4096 + x * 256 + y * 16 + n,
            0 <= n < 16,
    ;
    assert((f * 16 + x) % 16 == x) by (nonlinear_arith)
        requires
            0 <= x < 16,
    ;
    assert((f * 256 + x * 16 + y) % 16 == y) by (nonlinear_arith)
        requires
            0 <= y < 16,
    ;
    assert(w % 16 == n) by (nonlinear_arith)
        requires
            w == f * 4096 + x * 256 + y * 16 + n,
            0 <= n < 16,
    ;
    assert(w % 256 == y * 16 + n) by (nonlinear_arith)
        requires
            w == f * 4096 + x * 256 + y * 16 + n,
            0 <= y < 16,
            0 <= n < 16,
    ;
    assert(w % 4096 == x * 256 + y * 16 + n) by (nonlinear_arith)
        requires
            w == f * 4096 + x * 256 + y * 16 + n,
            0 <= x < 16,
            0 <= y < 16,
            0 <= n < 16,
    ;
}

/// `8xy4` with `Vx = a` and `Vy = b` leaves `(a + b) mod 256` in `Vx`, and
/// sets `VF` to 1 exactly when `a + b` exceeds 255. (`VF` itself as `Vx`
/// would be overwritten by the carry.)
pub proof fn lemma_add_with_carry(
    m: MachineState,
    keys: Seq<bool>,
    x: int,
    y: int,
    a: u8,
    b: u8,
    rnd: u8,
)
    requires
        machine_wf(m),
        0 <= x < 15,
        0 <= y < 16,
        m.cpu.v[x] == a,
        m.cpu.v[y] == b,
    ensures
        execute_spec(m, keys, opcode(8, x, y, 4), rnd) matches Ok(next) && next.cpu.v[x] == (a + b)
            % 256 && next.cpu.v[15] == (if a + b > 255 {
            1u8
        } else {
            0u8
        }),
{
    lemma_decode(8, x, y, 4);
}

/// `8xy5` with `Vx = a` and `Vy = b` leaves `(a - b) mod 256` in `Vx`, and
/// sets `VF` to 1 exactly when `a >= b`. (`VF` itself as `Vx` would be
/// overwritten by the flag.)
pub proof fn lemma_sub_with_borrow(
    m: MachineState,
    keys: Seq<bool>,
    x: int,
    y: int,
    a: u8,
    b: u8,
    rnd: u8,
)
    requires
        machine_wf(m),
        0 <= x < 15,
        0 <= y < 16,
        m.cpu.v[x] == a,
        m.cpu.v[y] == b,
    ensures
        execute_spec(m, keys, opcode(8, x, y, 5), rnd) matches Ok(next) && next.cpu.v[x] == (a - b)
            % 256 && next.cpu.v[15] == (if a >= b {
            1u8
        } else {
            0u8
        }),
{
    lemma_decode(8, x, y, 5);
}

/// The shifts `8xy6` and `8xyE` take their operand from `Vy`: with any other
/// value `w` in `Vx` beforehand, the outcome is the same. `8xy6` leaves
/// `Vy >> 1` in `Vx` and the bit shifted out in `VF`; `8xyE` leaves the low byte
/// of `Vy << 1` in `Vx` and the bit shifted out in `VF`.
pub proof fn lemma_shift_reads_vy(m: MachineState, keys: Seq<bool>, x: int, y: int, w: u8, rnd: u8)
    requires
        machine_wf(m),
        0 <= x < 16,
        0 <= y < 16,
        x != y,
    ensures
        execute_spec(with_cpu(m, set_reg(m.cpu, x, w)), keys, opcode(8, x, y, 6), rnd)
            == execute_spec(m, keys, opcode(8, x, y, 6), rnd),
        execute_spec(with_cpu(m, set_reg(m.cpu, x, w)), keys, opcode(8, x, y, 14), rnd)
            == execute_spec(m, keys, opcode(8, x, y, 14), rnd),
        execute_spec(m, keys, opcode(8, x, y, 6), rnd) matches Ok(next) && next.cpu.v[15] == m.cpu.v[y]
            % 2 && (x != 15 ==> next.cpu.v[x] == m.cpu.v[y] / 2),
        execute_spec(m, keys, opcode(8, x, y, 14), rnd) matches Ok(next) && next.cpu.v[15]
            == m.cpu.v[y] / 128 && (x != 15 ==> next.cpu.v[x] == (m.cpu.v[y] * 2) % 256),
{
    lemma_decode(8, x, y, 6);
    lemma_decode(8, x, y, 14);
    let c = m.cpu;
    let c2 = set_reg(c, x, w);
    let vy = c.v[y];
    assert(c2.v.update(x, vy / 2).update(15, if vy % 2 == 1 { 1u8 } else { 0u8 }) =~= c.v.update(
        x,
        vy / 2,
    ).update(15, if vy % 2 == 1 { 1u8 } else { 0u8 }));
    let hi = ((vy * 2) % 256) as u8;
    assert(c2.v.update(x, hi).update(15, if vy >= 128 { 1u8 } else { 0u8 }) =~= c.v.update(
        x,
        hi,
    ).update(15, if vy >= 128 { 1u8 } else { 0u8 }));
}

proof fn lemma_lowest_pressed_from(keys: Seq<bool>, i: int)
    requires
        0 <= i <= KEY_COUNT,
    ensures
        lowest_pressed_from(keys, i) matches Some(k) ==> i <= k < KEY_COUNT,
    decreases KEY_COUNT - i,
{
    if i < KEY_COUNT && !keys[i] {
        lemma_lowest_pressed_from(keys, i + 1);
    }
}

/// The wait-for-key instruction `Fx0A`, run cycle after cycle at the program
/// counter. While no key is down it repeats and notes that it is waiting for a
/// press. When a key `k` is down it repeats and remembers `k` (the lowest one
/// held). While `k` stays down it repeats with nothing changed. Once `k` is
/// released it stores `k` in `Vx`, stops waiting, and moves past itself.
#[verifier::rlimit(30)]
pub proof fn lemma_key_wait(m: MachineState, keys: Seq<bool>, x: int, rnd: u8)
    requires
        machine_wf(m),
        keys.len() == KEY_COUNT,
        0 <= x < 16,
        m.cpu.pc + 1 < m.memory.len(),
        m.memory[m.cpu.pc as int] == 0xF0 + x,
        m.memory[m.cpu.pc + 1] == 0x0A,
    ensures
        ({
            let (r, next) = cycle_spec(m, keys, rnd);
            let waiting = m.cpu.key_wait is AwaitingKeyRelease;
            let held = m.cpu.key_wait->AwaitingKeyRelease_0;
            let first = lowest_pressed(keys)->Some_0;
            &&& r == Ok::<bool, Chip8Error>(false)
            &&& !waiting && lowest_pressed(keys) is None ==> next == with_cpu(
                m,
                CpuState { key_wait: KeyWait::AwaitingKeyPress, ..m.cpu },
            )
            &&& !waiting && lowest_pressed(keys) is Some ==> first < KEY_COUNT && keys[first as int]
                && next == with_cpu(
                m,
                CpuState { key_wait: KeyWait::AwaitingKeyRelease(first), ..m.cpu },
            )
            &&& waiting && keys[held as int] ==> next == m
            &&& waiting && !keys[held as int] ==> next == with_cpu(
                m,
                CpuState {
                    v: m.cpu.v.update(x, held),
                    pc: (m.cpu.pc + 2) as u16,
                    key_wait: KeyWait::Running,
                    ..m.cpu
                },
            )
        }),
{
    reveal(cycle_spec);
    let op = word_at(m.memory, m.cpu.pc as int);
    assert(op == opcode(15, x, 0, 10));
    lemma_decode(15, x, 0, 10);
    let fetched = with_cpu(m, CpuState { pc: (m.cpu.pc + 2) as u16, ..m.cpu });
    assert(execute_spec(fetched, keys, op, rnd) == Ok::<MachineState, Chip8Error>(
        with_cpu(fetched, key_wait_spec(fetched.cpu, keys, x)),
    ));
    assert(pc_back(fetched.cpu.pc) == m.cpu.pc);
    lemma_lowest_pressed_from(keys, 0);
    if let Some(k) = lowest_pressed(keys) {
        lemma_lowest_pressed_is_pressed(keys, 0);
    }
}

/// Executing `ops` one after another, stopping at the first error.
pub open spec fn run(m: MachineState, keys: Seq<bool>, ops: Seq<u16>, rnd: u8) -> Result<
    MachineState,
    Chip8Error,
>
    decreases ops.len(),
{
    if ops.len() == 0 {
        Ok(m)
    } else {
        match execute_spec(m, keys, ops[0], rnd) {
            Ok(next) => run(next, keys, ops.drop_first(), rnd),
            Err(e) => Err(e),
        }
    }
}

/// A call `2nnn` to each of `targets`, in order.
pub open spec fn nested_calls(targets: Seq<u16>) -> Seq<u16> {
    targets.map_values(|t: u16| (0x2000 + t) as u16)
}

/// `k` returns, `00EE`.
pub open spec fn nested_returns(k: nat) -> Seq<u16> {
    Seq::new(k, |j: int| 0x00EEu16)
}

proof fn lemma_run_append(m: MachineState, keys: Seq<bool>, a: Seq<u16>, b: Seq<u16>, rnd: u8)
    ensures
        run(m, keys, a + b, rnd) == match run(m, keys, a, rnd) {
            Ok(next) => run(next, keys, b, rnd),
            Err(e) => Err(e),
        },
    decreases a.len(),
{
    if a.len() > 0 {
        assert((a + b).drop_first() =~= a.drop_first() + b);
        assert((a + b)[0] == a[0]);
        if let Ok(next) = execute_spec(m, keys, a[0], rnd) {
            lemma_run_append(next, keys, a.drop_first(), b, rnd);
        }
    } else {
        assert(a + b =~= b);
    }
}

proof fn lemma_call_decode(t: u16)
    requires
        t < 4096,
    ensures
        op_family((0x2000 + t) as u16) == 2,
        op_nnn((0x2000 + t) as u16) == t,
{
}

proof fn lemma_return_decode()
    ensures
        op_family(0x00EEu16) == 0,
{
}

/// The machine after a call to `t`.
pub open spec fn pushed(m: MachineState, t: u16) -> MachineState {
    with_cpu(
        m,
        CpuState {
            stack: m.cpu.stack.update(m.cpu.sp as int, m.cpu.pc),
            sp: (m.cpu.sp + 1) as u8,
            pc: t,
            ..m.cpu
        },
    )
}

proof fn lemma_exec_call(m: MachineState, keys: Seq<bool>, t: u16, rnd: u8)
    requires
        machine_wf(m),
        m.cpu.sp < 16,
        t < 4096,
    ensures
        execute_spec(m, keys, (0x2000 + t) as u16, rnd) == Ok::<MachineState, Chip8Error>(
            pushed(m, t),
        ),
        machine_wf(pushed(m, t)),
{
    lemma_call_decode(t);
}

proof fn lemma_exec_return(m: MachineState, keys: Seq<bool>, rnd: u8)
    requires
        machine_wf(m),
        m.cpu.sp > 0,
    ensures
        execute_spec(m, keys, 0x00EEu16, rnd) == Ok::<MachineState, Chip8Error>(
            with_cpu(
                m,
                CpuState { sp: (m.cpu.sp - 1) as u8, pc: m.cpu.stack[m.cpu.sp - 1], ..m.cpu },
            ),
        ),
{
    lemma_return_decode();
}

proof fn lemma_run_single(m: MachineState, keys: Seq<bool>, op: u16, rnd: u8)
    ensures
        run(m, keys, seq![op], rnd) == execute_spec(m, keys, op, rnd),
{
    lemma_run_cons(m, keys, op, Seq::<u16>::empty(), rnd);
    assert(seq![op] + Seq::<u16>::empty() =~= seq![op]);
    if let Ok(next) = execute_spec(m, keys, op, rnd) {
        assert(run(next, keys, Seq::<u16>::empty(), rnd) == Ok::<MachineState, Chip8Error>(next));
    }
}

proof fn lemma_run_cons(m: MachineState, keys: Seq<bool>, op: u16, rest: Seq<u16>, rnd: u8)
    ensures
        run(m, keys, seq![op] + rest, rnd) == match execute_spec(m, keys, op, rnd) {
            Ok(next) => run(next, keys, rest, rnd),
            Err(e) => Err(e),
        },
{
    assert((seq![op] + rest).drop_first() =~= rest);
    assert((seq![op] + rest)[0] == op);
}

/// Calls nested `k` deep on top of `sp` frames, then `k` returns: the program
/// counter and stack pointer come back, and so do the frames below.
proof fn lemma_calls_then_returns(m: MachineState, keys: Seq<bool>, targets: Seq<u16>, rnd: u8)
    requires
        machine_wf(m),
        m.cpu.sp + targets.len() <= 16,
        forall|j: int| 0 <= j < targets.len() ==> targets[j] < 4096,
    ensures
        run(m, keys, nested_calls(targets) + nested_returns(targets.len()), rnd) matches Ok(next)
            && machine_wf(next) && next.cpu.pc == m.cpu.pc && next.cpu.sp == m.cpu.sp && forall|
            j: int,
        |
            0 <= j < m.cpu.sp ==> next.cpu.stack[j] == m.cpu.stack[j],
    decreases targets.len(),
{
    let k = targets.len();
    let ops = nested_calls(targets) + nested_returns(k);
    if k == 0 {
        assert(ops =~= Seq::<u16>::empty());
    } else {
        let t = targets[0];
        let call = (0x2000 + t) as u16;
        let ret = 0x00EEu16;
        let first = pushed(m, t);
        let rest = targets.drop_first();
        let inner = nested_calls(rest) + nested_returns((k - 1) as nat);
        assert(ops =~= seq![call] + (inner + seq![ret]));
        lemma_exec_call(m, keys, t, rnd);
        lemma_run_cons(m, keys, call, inner + seq![ret], rnd);
        lemma_calls_then_returns(first, keys, rest, rnd);
        lemma_run_append(first, keys, inner, seq![ret], rnd);
        let mid = run(first, keys, inner, rnd)->Ok_0;
        lemma_run_single(mid, keys, ret, rnd);
        lemma_exec_return(mid, keys, rnd);
    }
}

proof fn lemma_calls_push(m: MachineState, keys: Seq<bool>, targets: Seq<u16>, rnd: u8)
    requires
        machine_wf(m),
        m.cpu.sp + targets.len() <= 16,
        forall|j: int| 0 <= j < targets.len() ==> targets[j] < 4096,
    ensures
        run(m, keys, nested_calls(targets), rnd) matches Ok(next) && machine_wf(next)
            && next.cpu.sp == m.cpu.sp + targets.len(),
    decreases targets.len(),
{
    if targets.len() > 0 {
        let t = targets[0];
        let first = pushed(m, t);
        lemma_exec_call(m, keys, t, rnd);
        assert(nested_calls(targets) =~= seq![(0x2000 + t) as u16] + nested_calls(targets.drop_first()));
        lemma_run_cons(m, keys, (0x2000 + t) as u16, nested_calls(targets.drop_first()), rnd);
        lemma_calls_push(first, keys, targets.drop_first(), rnd);
    }
}

/// A call/return round trip: from an empty stack, calls nested one to sixteen
/// deep followed by as many returns bring the program counter back to where
/// the outermost call would resume, and the stack pointer back to zero.
pub proof fn lemma_call_return_round_trip(
    m: MachineState,
    keys: Seq<bool>,
    targets: Seq<u16>,
    rnd: u8,
)
    requires
        machine_wf(m),
        m.cpu.sp == 0,
        1 <= targets.len() <= 16,
        forall|j: int| 0 <= j < targets.len() ==> targets[j] < 4096,
    ensures
        run(m, keys, nested_calls(targets) + nested_returns(targets.len()), rnd) matches Ok(next)
            && next.cpu.pc == m.cpu.pc && next.cpu.sp == 0,
{
    lemma_calls_then_returns(m, keys, targets, rnd);
}

/// Sixteen nested calls fill the stack; a seventeenth, with no return in
/// between, fails with a stack overflow.
pub proof fn lemma_call_depth_limit(
    m: MachineState,
    keys: Seq<bool>,
    targets: Seq<u16>,
    extra: u16,
    rnd: u8,
)
    requires
        machine_wf(m),
        m.cpu.sp == 0,
        targets.len() == 16,
        forall|j: int| 0 <= j < targets.len() ==> targets[j] < 4096,
        extra < 4096,
    ensures
        run(m, keys, nested_calls(targets.push(extra)), rnd) == Err::<MachineState, Chip8Error>(
            Chip8Error::StackOverflow,
        ),
{
    lemma_calls_push(m, keys, targets, rnd);
    assert(nested_calls(targets.push(extra)) =~= nested_calls(targets) + seq![(0x2000 + extra) as u16]);
    lemma_run_append(m, keys, nested_calls(targets), seq![(0x2000 + extra) as u16], rnd);
    lemma_run_single(run(m, keys, nested_calls(targets), rnd)->Ok_0, keys, (0x2000 + extra) as u16, rnd);
    lemma_call_decode(extra);
}

proof fn lemma_full_row_draw(g: Seq<Seq<bool>>)
    requires
        grid_shape(g),
    ensures
        draw_grid(g, 0, 0, seq![0xFFu8]) == xor_row(g, 0, 0, 0xFF, 8),
        draw_collides(g, 0, 0, seq![0xFFu8]) == row_collides(g, 0, 0, 0xFF, 8),
        forall|c: int| 0 <= c < 8 ==> sprite_bit(0xFF, c),
        forall|c: int| 0 <= c < 8 ==> xor_row(g, 0, 0, 0xFF, 8)[0][c] == !g[0][c],
{
    assert(seq![0xFFu8].take(0) =~= Seq::<u8>::empty());
    assert(draw_grid(g, 0, 0, Seq::<u8>::empty()) == g);
    assert(!draw_collides(g, 0, 0, Seq::<u8>::empty()));
    assert forall|s: u8| s < 8 implies (0xFFu8 >> s) & 1u8 == 1u8 by {
        assert(s < 8 ==> (0xFFu8 >> s) & 1u8 == 1u8) by (bit_vector);
    }
    assert forall|c: int| 0 <= c < 8 implies sprite_bit(0xFF, c) by {
        let s = (7 - c) as u8;
        assert(s < 8);
    }
}

/// Drawing the one-row sprite `0xFF` at `(0, 0)` twice, with a timer tick in
/// between: the first draw lights the eight pixels and leaves `VF` at 0; the
/// second turns them off again and sets `VF` to 1. Without the tick, the
/// second draw only moves the program counter back so that it repeats, and
/// changes nothing else.
pub proof fn lemma_draw_paced_by_tick(m: MachineState, keys: Seq<bool>, x: int, y: int, rnd: u8)
    requires
        machine_wf(m),
        0 <= x < 15,
        0 <= y < 15,
        !m.cpu.vblank_wait,
        m.cpu.v[x] == 0,
        m.cpu.v[y] == 0,
        m.cpu.i < 4096,
        m.memory[m.cpu.i as int] == 0xFF,
        forall|c: int| 0 <= c < 8 ==> !m.display[0][c],
    ensures
        ({
            let op = opcode(0xD, x, y, 1);
            &&& execute_spec(m, keys, op, rnd) matches Ok(first)
            &&& first.cpu.v[15] == 0
            &&& forall|c: int| 0 <= c < 8 ==> first.display[0][c]
            &&& execute_spec(with_cpu(first, tick_spec(first.cpu)), keys, op, rnd) matches Ok(second)
            &&& second.cpu.v[15] == 1
            &&& forall|c: int| 0 <= c < 8 ==> !second.display[0][c]
            &&& execute_spec(first, keys, op, rnd) == Ok::<MachineState, Chip8Error>(
                with_cpu(first, CpuState { pc: pc_back(first.cpu.pc), ..first.cpu }),
            )
        }),
{
    let op = opcode(0xD, x, y, 1);
    lemma_decode(0xD, x, y, 1);
    let g = m.display;
    let sprite = Seq::new(1, |j: int| m.memory[m.cpu.i + j]);
    assert(sprite =~= seq![0xFFu8]);
    lemma_full_row_draw(g);
    assert(!row_collides(g, 0, 0, 0xFF, 8));
    let first = execute_spec(m, keys, op, rnd)->Ok_0;
    let g1 = xor_row(g, 0, 0, 0xFF, 8);
    assert(first.display == g1);
    assert(grid_shape(g1));
    let ticked = with_cpu(first, tick_spec(first.cpu));
    assert(ticked.memory == m.memory);
    lemma_full_row_draw(g1);
    assert(g1[0][(0u8 + 0int) % (64 as int)]);
    assert(row_collides(g1, 0, 0, 0xFF, 8));
}

/// The disassembler reads the engine's decode table: a word is shown as
/// unknown exactly when executing it fails with `UnknownOpcode`.
#[verifier::rlimit(60)]
pub proof fn lemma_disassembly_matches_decode(
    m: MachineState,
    keys: Seq<bool>,
    op: u16,
    rnd: u8,
)
    requires
        machine_wf(m),
        keys.len() == KEY_COUNT,
    ensures
        (mnemonic(op) == unknown_text(op)) <==> (execute_spec(m, keys, op, rnd) == Err::<
            MachineState,
            Chip8Error,
        >(Chip8Error::UnknownOpcode(op))),
{
    reveal_strlit("UNKNOWN 0x");
    reveal_strlit("CLS");
    reveal_strlit("RET");
    reveal_strlit("JP");
    reveal_strlit("CALL");
    reveal_strlit("SE");
    reveal_strlit("SNE");
    reveal_strlit("LD");
    reveal_strlit("ADD");
    reveal_strlit("OR");
    reveal_strlit("AND");
    reveal_strlit("XOR");
    reveal_strlit("SUB");
    reveal_strlit("SHR V");
    reveal_strlit("SUBN");
    reveal_strlit("SHL V");
    reveal_strlit("LD I,");
    reveal_strlit("JP V0,");
    reveal_strlit("RND");
    reveal_strlit("DRW");
    reveal_strlit("SKP V");
    reveal_strlit("SKNP V");
    reveal_strlit("LD V");
    reveal_strlit("LD DT, V");
    reveal_strlit("LD ST, V");
    reveal_strlit("ADD I, V");
    reveal_strlit("LD F, V");
    reveal_strlit("LD B, V");
    reveal_strlit("LD [I], V");
    let u = unknown_text(op);
    assert(u[0] == 'U');
    let t = mnemonic(op);
    if t != u {
        // Not shown as unknown: the word is in the table, so execution does
        // not report it as unknown.
        assert(execute_spec(m, keys, op, rnd) != Err::<MachineState, Chip8Error>(
            Chip8Error::UnknownOpcode(op),
        ));
    } else {
        // Every named form begins with a letter other than `U`.
        assert forall|name: Seq<char>, a: int, b: int|
            name.len() > 0 implies (#[trigger] reg_byte(name, a, b))[0] == name[0] && (
            #[trigger] reg_reg(name, a, b))[0] == name[0] && (#[trigger] with_addr(name, a))[0]
                == name[0] by {}
        assert forall|pre: Seq<char>, a: int, post: Seq<char>|
            pre.len() > 0 implies (#[trigger] around_reg(pre, a, post))[0] == pre[0] by {}
        assert(execute_spec(m, keys, op, rnd) == Err::<MachineState, Chip8Error>(
            Chip8Error::UnknownOpcode(op),
        ));
    }
}

} // verus!
