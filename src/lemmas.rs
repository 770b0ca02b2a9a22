use vstd::prelude::*;

use crate::chip8::{
    advanced, alu, blank_display, index_after_block, mem_addr, call, collides, decayed, drawn, fault, fetch, key_wait, misc,
    return_from, screen_shaped, sprite_covers, step, tick, well_formed, Chip8Error, MachineState, Quirks,
};
use crate::consts::{HEIGHT, MEMORY_SIZE, WIDTH};

verus! {

/// Storing V0..Vx with `Fx55` and loading them back with `Fx65` from the same I gives back
/// the stored values, whatever the registers held in between.
pub proof fn lemma_store_load_round_trip(s: MachineState, x: int, between: Seq<u8>)
    requires
        well_formed(s),
        0 <= x < 16,
        between.len() == 16,
    ensures
        ({
            let stored = misc(s, x, 0x55);
            let reloaded = misc(
                MachineState { index: s.index, registers: between, ..stored },
                x,
                0x65,
            );
            forall|k: int| 0 <= k <= x ==> #[trigger] reloaded.registers[k] == s.registers[k]
        }),
{
    let stored = misc(s, x, 0x55);
    assert forall|k: int| 0 <= k <= x implies #[trigger] stored.memory[(s.index + k) % 4096]
        == s.registers[k] by {
        let a = (s.index + k) % 4096;
        assert((a - s.index) % 4096 == k);
    }
}

/// The machine after `k` ticks of the timers.
pub open spec fn ticked(s: MachineState, k: nat) -> MachineState
    decreases k,
{
    if k == 0 {
        s
    } else {
        tick(ticked(s, (k - 1) as nat))
    }
}

/// After `k` ticks each timer has gone down by `k`, but not below zero, and nothing else
/// has changed.
pub proof fn lemma_ticks(s: MachineState, k: nat)
    ensures
        ticked(s, k) == (MachineState {
            delay_timer: if k >= s.delay_timer {
                0
            } else {
                (s.delay_timer - k) as u8
            },
            sound_timer: if k >= s.sound_timer {
                0
            } else {
                (s.sound_timer - k) as u8
            },
            ..s
        }),
    decreases k,
{
    lemma_timer_floor(s.delay_timer, k);
    lemma_timer_floor(s.sound_timer, k);
    if k > 0 {
        lemma_ticks(s, (k - 1) as nat);
    }
}

/// A step on `Fx55` writes V0..Vx to memory from I on and leaves every other byte, and the
/// registers, as they were.
pub proof fn lemma_store_step(s: MachineState, now: u64, random: u8)
    requires
        well_formed(s),
        fetch(s) / 4096 == 0xF,
        fetch(s) % 256 == 0x55,
    ensures
        ({
            let x = ((fetch(s) / 256) % 16) as int;
            step(s, now, random) is Ok && {
                let t = step(s, now, random)->Ok_0;
                &&& forall|k: int| 0 <= k <= x ==> #[trigger] t.memory[mem_addr(s.index + k)]
                    == s.registers[k]
                &&& forall|a: int|
                    0 <= a < MEMORY_SIZE && mem_addr(a - s.index) > x ==> #[trigger] t.memory[a]
                        == s.memory[a]
                &&& t.memory.len() == MEMORY_SIZE
                &&& t.registers == s.registers
                &&& t.index == index_after_block(s.index, x, s.quirks)
                &&& t.pc == advanced(s.pc)
            }
        }),
{
    let x = ((fetch(s) / 256) % 16) as int;
    let t = step(s, now, random)->Ok_0;
    assert forall|k: int| 0 <= k <= x implies #[trigger] t.memory[mem_addr(s.index + k)]
        == s.registers[k] by {
        assert(mem_addr(mem_addr(s.index + k) - s.index) == k);
    }
}

/// A step on `Fx65`, where memory from I on holds `values`, sets V0..Vx to them and leaves
/// the other registers and memory as they were.
pub proof fn lemma_load_step(s: MachineState, now: u64, random: u8, values: Seq<u8>)
    requires
        well_formed(s),
        fetch(s) / 4096 == 0xF,
        fetch(s) % 256 == 0x65,
        values.len() == 16,
        forall|k: int|
            0 <= k <= (fetch(s) / 256) % 16 ==> #[trigger] s.memory[mem_addr(s.index + k)]
                == values[k],
    ensures
        ({
            let x = ((fetch(s) / 256) % 16) as int;
            step(s, now, random) is Ok && {
                let t = step(s, now, random)->Ok_0;
                &&& forall|k: int| 0 <= k <= x ==> #[trigger] t.registers[k] == values[k]
                &&& forall|k: int| x < k < 16 ==> #[trigger] t.registers[k] == s.registers[k]
                &&& t.memory == s.memory
                &&& t.index == index_after_block(s.index, x, s.quirks)
                &&& t.pc == advanced(s.pc)
            }
        }),
{
}

/// Drawing on a cleared screen lights exactly the pixels the sprite covers, and reports no
/// collision.
pub proof fn lemma_draw_on_cleared(sprite: Seq<u8>, ox: int, oy: int)
    ensures
        drawn(blank_display(), sprite, ox, oy) =~~= Seq::new(
            HEIGHT as nat,
            |r: int| Seq::new(WIDTH as nat, |c: int| sprite_covers(sprite, ox, oy, r, c)),
        ),
        !collides(blank_display(), sprite, ox, oy),
{
}

/// Drawing the same sprite twice at the same place gives back the screen it started from.
pub proof fn lemma_draw_twice_restores(d: Seq<Seq<bool>>, sprite: Seq<u8>, ox: int, oy: int)
    requires
        screen_shaped(d),
    ensures
        drawn(drawn(d, sprite, ox, oy), sprite, ox, oy) =~~= d,
{
}

/// The second of two equal draws on a cleared screen collides exactly when the sprite lights
/// a pixel on the screen; one that lights none leaves VF at 0.
pub proof fn lemma_second_draw_collision(sprite: Seq<u8>, ox: int, oy: int)
    ensures
        collides(drawn(blank_display(), sprite, ox, oy), sprite, ox, oy) <==> exists|r: int, c: int|
            0 <= r < HEIGHT && 0 <= c < WIDTH && #[trigger] sprite_covers(sprite, ox, oy, r, c),
{
    let d1 = drawn(blank_display(), sprite, ox, oy);
    if exists|r: int, c: int|
        0 <= r < HEIGHT && 0 <= c < WIDTH && #[trigger] sprite_covers(sprite, ox, oy, r, c) {
        let (r, c) = choose|r: int, c: int|
            0 <= r < HEIGHT && 0 <= c < WIDTH && #[trigger] sprite_covers(sprite, ox, oy, r, c);
        assert(d1[r][c]);
    }
}

/// The machine after the calls `2nnn` to `targets`, in order.
pub open spec fn calls(s: MachineState, targets: Seq<u16>) -> MachineState
    decreases targets.len(),
{
    if targets.len() == 0 {
        s
    } else {
        call(calls(s, targets.drop_last()), targets.last())
    }
}

/// The machine after `n` returns `00EE`.
pub open spec fn unwound(s: MachineState, n: nat) -> MachineState
    decreases n,
{
    if n == 0 {
        s
    } else {
        unwound(return_from(s), (n - 1) as nat)
    }
}

/// N nested calls followed by N returns give back the program counter and the stack from
/// before the first call; from an empty stack, one more return is fatal.
pub proof fn lemma_calls_then_returns(s: MachineState, targets: Seq<u16>)
    ensures
        unwound(calls(s, targets), targets.len()) == s,
        calls(s, targets).stack.len() == s.stack.len() + targets.len(),
        s.stack.len() == 0 ==> fault(unwound(calls(s, targets), targets.len()), 0x00EE) == Some(
            Chip8Error::StackUnderflow,
        ),
    decreases targets.len(),
{
    if targets.len() > 0 {
        let inner = calls(s, targets.drop_last());
        lemma_calls_then_returns(s, targets.drop_last());
        assert(return_from(call(inner, targets.last())) =~= inner);
    }
}

/// A step on `2nnn` is a call to nnn from the next instruction, and a step on `00EE` with a
/// return address on the stack is a return: the moves that the call and return laws speak of.
pub proof fn lemma_call_and_return_steps(s: MachineState, now: u64, random: u8)
    requires
        well_formed(s),
    ensures
        fetch(s) / 4096 == 2 ==> step(s, now, random) == Ok::<MachineState, Chip8Error>(
            call(MachineState { pc: advanced(s.pc), ..s }, (fetch(s) % 4096) as u16),
        ),
        fetch(s) == 0x00EE && s.stack.len() > 0 ==> step(s, now, random) == Ok::<
            MachineState,
            Chip8Error,
        >(return_from(MachineState { pc: advanced(s.pc), ..s })),
        fetch(s) == 0x00EE && s.stack.len() == 0 ==> step(s, now, random) == Err::<
            MachineState,
            Chip8Error,
        >(Chip8Error::StackUnderflow),
{
}

/// A step on `00EE` with `a` on top of the stack `st` goes on at `a` and leaves `st`: after N
/// nested calls each return lands after its own call, the last one after the first call.
pub proof fn lemma_return_step(s: MachineState, now: u64, random: u8, st: Seq<u16>, a: u16)
    requires
        well_formed(s),
        fetch(s) == 0x00EE,
        s.stack == st.push(a),
    ensures
        step(s, now, random) is Ok,
        step(s, now, random)->Ok_0.pc == a,
        step(s, now, random)->Ok_0.stack == st,
{
    assert(st.push(a).drop_last() =~= st);
}

/// A timer after `k` ticks.
pub open spec fn decayed_times(t: u8, k: nat) -> u8
    decreases k,
{
    if k == 0 {
        t
    } else {
        decayed(decayed_times(t, (k - 1) as nat))
    }
}

/// Ticks take a timer down by one each and stop at zero, never below.
pub proof fn lemma_timer_floor(t: u8, k: nat)
    ensures
        decayed_times(t, k) == if k >= t {
            0
        } else {
            t - k
        },
    decreases k,
{
    if k > 0 {
        lemma_timer_floor(t, (k - 1) as nat);
    }
}

/// With Vx and Vy different and x not F, `8xy6` gives a different (Vx, VF) pair depending on
/// whether it shifts Vy or Vx.
pub proof fn lemma_shift_quirk_differs(v: Seq<u8>, q: Quirks, x: int, y: int)
    requires
        v.len() == 16,
        0 <= x < 15,
        0 <= y < 16,
        v[x] != v[y],
    ensures
        ({
            let from_vy = alu(v, Quirks { shift_use_vy: true, ..q }, x, y, 6);
            let from_vx = alu(v, Quirks { shift_use_vy: false, ..q }, x, y, 6);
            &&& from_vy[x] == v[y] / 2 && from_vy[15] == v[y] % 2
            &&& from_vx[x] == v[x] / 2 && from_vx[15] == v[x] % 2
            &&& (from_vy[x], from_vy[15]) != (from_vx[x], from_vx[15])
        }),
{
}

/// `Fx0A` with no released key leaves the program counter where it was, so the next cycle
/// fetches it again; once a key was released, Vx takes it and execution moves on.
pub proof fn lemma_key_wait(s: MachineState, now: u64, random: u8)
    requires
        well_formed(s),
        fetch(s) / 4096 == 0xF,
        fetch(s) % 256 == 0x0A,
    ensures
        ({
            let x = ((fetch(s) / 256) % 16) as int;
            match s.last_key_pressed {
                None => step(s, now, random) == Ok::<MachineState, Chip8Error>(
                    MachineState { waiting_for_key: true, ..s },
                ),
                Some(k) => step(s, now, random) == Ok::<MachineState, Chip8Error>(
                    MachineState {
                        pc: advanced(s.pc),
                        registers: s.registers.update(x as int, k),
                        waiting_for_key: false,
                        last_key_pressed: None,
                        ..s
                    },
                ),
            }
        }),
{
    let moved_on = MachineState { pc: advanced(s.pc), ..s };
    if s.last_key_pressed is None {
        assert(key_wait(moved_on, ((fetch(s) / 256) % 16) as int).pc == s.pc);
    }
}

} // verus!
