use vstd::prelude::*;

use crate::consts::{
    BNNN, DISPLAY_WAIT, FONT_START_ADDRESS, FRAME_TIME_60HZ_NANOS, HEIGHT, MEMORY_SIZE,
    PROGRAM_START_ADDRESS, SHIFT_USE_VY, STORE_LOAD_INCREMENTS_I, VF_RESET, WIDTH,
};
use crate::font::{font_byte, font_characters, glyph_rows};
use std::time::Instant;

verus! {

/// Toggles that pick between the behaviours of historical interpreters.
#[derive(Clone, Copy, Debug, PartialEq, Eq, Structural)]
pub struct Quirks {
    /// `8xy1`, `8xy2` and `8xy3` clear VF.
    pub vf_reset: bool,
    /// `8xy6` and `8xyE` shift Vy rather than Vx.
    pub shift_use_vy: bool,
    /// `Bnnn` jumps to nnn + V0 rather than nnn + Vx.
    pub bnnn: bool,
    /// `Fx55` and `Fx65` advance I by x + 1.
    pub store_load_increments_i: bool,
    /// A draw is retried until 1/60 s has passed since the previous one.
    pub display_wait: bool,
}

impl Default for Quirks {
    fn default() -> (q: Self)
        ensures
            q == (Quirks {
                vf_reset: VF_RESET,
                shift_use_vy: SHIFT_USE_VY,
                bnnn: BNNN,
                store_load_increments_i: STORE_LOAD_INCREMENTS_I,
                display_wait: DISPLAY_WAIT,
            }),
    {
        Quirks {
            vf_reset: VF_RESET,
            shift_use_vy: SHIFT_USE_VY,
            bnnn: BNNN,
            store_load_increments_i: STORE_LOAD_INCREMENTS_I,
            display_wait: DISPLAY_WAIT,
        }
    }
}

/// Why the machine cannot go on.
#[derive(Clone, Copy, Debug, PartialEq, Eq, Structural)]
pub enum Chip8Error {
    /// The fetched opcode is not one of the base instruction set.
    UnknownInstruction(u16),
    /// `00EE` was executed with an empty stack.
    StackUnderflow,
    /// The program does not fit between its start address and the end of memory.
    ProgramTooLarge,
}

/// The machine as a mathematical value.
#[verifier::ext_equal]
pub struct MachineState {
    /// 32 rows of 64 pixels; true is a lit pixel.
    pub display: Seq<Seq<bool>>,
    pub pc: u16,
    pub index: u16,
    /// 4096 bytes.
    pub memory: Seq<u8>,
    /// Return addresses, the most recent last.
    pub stack: Seq<u16>,
    pub delay_timer: u8,
    pub sound_timer: u8,
    /// V0 to VF.
    pub registers: Seq<u8>,
    /// Sixteen keys; true is pressed.
    pub keypad: Seq<bool>,
    /// An `Fx0A` is waiting for a key.
    pub waiting_for_key: bool,
    /// The key whose release ends the wait of `Fx0A`.
    pub last_key_pressed: Option<u8>,
    /// The key pressed during a wait, until it is released.
    pub held_key: Option<u8>,
    /// When the last draw happened, in nanoseconds of the machine's clock.
    pub last_draw: u64,
    pub quirks: Quirks,
}

pub open spec fn blank_display() -> Seq<Seq<bool>> {
    Seq::new(HEIGHT as nat, |r: int| Seq::new(WIDTH as nat, |c: int| false))
}

/// Memory right after construction: the font in place, zero elsewhere.
pub open spec fn initial_memory() -> Seq<u8> {
    Seq::new(
        MEMORY_SIZE as nat,
        |a: int|
            if FONT_START_ADDRESS <= a < FONT_START_ADDRESS + 80 {
                font_byte(a - FONT_START_ADDRESS)
            } else {
                0u8
            },
    )
}

pub open spec fn initial_state(quirks: Quirks) -> MachineState {
    MachineState {
        display: blank_display(),
        pc: PROGRAM_START_ADDRESS as u16,
        index: 0,
        memory: initial_memory(),
        stack: Seq::empty(),
        delay_timer: 0,
        sound_timer: 0,
        registers: Seq::new(16, |i: int| 0u8),
        keypad: Seq::new(16, |i: int| false),
        waiting_for_key: false,
        last_key_pressed: None,
        held_key: None,
        last_draw: 0,
        quirks,
    }
}

/// A timer one tick later: one less, but never below zero.
pub open spec fn decayed(t: u8) -> u8 {
    if t > 0 {
        (t - 1) as u8
    } else {
        0
    }
}

/// Memory with the font written from the font start address on, every other byte as it was.
pub open spec fn font_stored(memory: Seq<u8>) -> Seq<u8> {
    Seq::new(
        memory.len(),
        |a: int|
            if FONT_START_ADDRESS <= a < FONT_START_ADDRESS + 80 {
                font_byte(a - FONT_START_ADDRESS)
            } else {
                memory[a]
            },
    )
}

/// The shape every machine has: 4096 bytes of memory, sixteen registers and keys, and a
/// screen of 32 rows of 64 pixels.
pub open spec fn well_formed(s: MachineState) -> bool {
    &&& s.memory.len() == MEMORY_SIZE
    &&& s.registers.len() == 16
    &&& s.keypad.len() == 16
    &&& screen_shaped(s.display)
}

pub open spec fn screen_shaped(d: Seq<Seq<bool>>) -> bool {
    d.len() == HEIGHT && forall|r: int| 0 <= r < HEIGHT ==> #[trigger] d[r].len() == WIDTH
}

/// One 60 Hz tick: both timers count down by one, but not below zero.
pub open spec fn tick(s: MachineState) -> MachineState {
    MachineState { delay_timer: decayed(s.delay_timer), sound_timer: decayed(s.sound_timer), ..s }
}

/// Memory after a program was copied to its start address.
pub open spec fn loaded_memory(memory: Seq<u8>, program: Seq<u8>) -> Seq<u8> {
    Seq::new(
        memory.len(),
        |a: int|
            if PROGRAM_START_ADDRESS <= a < PROGRAM_START_ADDRESS + program.len() {
                program[a - PROGRAM_START_ADDRESS]
            } else {
                memory[a]
            },
    )
}

/// The address in memory that `a` stands for: addresses keep their low 12 bits.
pub open spec fn mem_addr(a: int) -> int {
    a % (MEMORY_SIZE as int)
}

/// The big-endian opcode at the program counter.
pub open spec fn fetch(s: MachineState) -> u16 {
    (s.memory[mem_addr(s.pc as int)] as int * 256 + s.memory[mem_addr(s.pc as int + 1)] as int) as u16
}

pub open spec fn op_family(op: u16) -> int {
    op as int / 4096
}

pub open spec fn op_x(op: u16) -> int {
    (op as int / 256) % 16
}

pub open spec fn op_y(op: u16) -> int {
    (op as int / 16) % 16
}

pub open spec fn op_n(op: u16) -> int {
    op as int % 16
}

pub open spec fn op_nn(op: u16) -> int {
    op as int % 256
}

pub open spec fn op_nnn(op: u16) -> int {
    op as int % 4096
}

/// The program counter two bytes further on.
pub open spec fn advanced(pc: u16) -> u16 {
    ((pc as int + 2) % 65536) as u16
}

/// The program counter two bytes back.
pub open spec fn rewound(pc: u16) -> u16 {
    ((pc as int + 65534) % 65536) as u16
}

/// Whether `op` belongs to the base instruction set.
pub open spec fn is_known(op: u16) -> bool {
    let f = op_family(op);
    let n = op_n(op);
    let nn = op_nn(op);
    if f == 0 {
        op == 0x00E0 || op == 0x00EE
    } else if f == 5 || f == 9 {
        n == 0
    } else if f == 8 {
        n <= 7 || n == 0xE
    } else if f == 0xE {
        nn == 0x9E || nn == 0xA1
    } else if f == 0xF {
        nn == 0x07 || nn == 0x0A || nn == 0x15 || nn == 0x18 || nn == 0x1E || nn == 0x29 || nn
            == 0x33 || nn == 0x55 || nn == 0x65
    } else {
        true
    }
}

/// The fatal condition that executing `op` in `s` meets, if any.
pub open spec fn fault(s: MachineState, op: u16) -> Option<Chip8Error> {
    if !is_known(op) {
        Some(Chip8Error::UnknownInstruction(op))
    } else if op == 0x00EE && s.stack.len() == 0 {
        Some(Chip8Error::StackUnderflow)
    } else {
        None
    }
}

/// One fetch-decode-execute step at time `now` (nanoseconds of the machine's clock), where
/// `random` is the byte that `Cxnn` draws. A fatal condition leaves the machine as it was.
pub open spec fn step(s: MachineState, now: u64, random: u8) -> Result<MachineState, Chip8Error> {
    let op = fetch(s);
    match fault(s, op) {
        Some(e) => Err(e),
        None => Ok(execute(MachineState { pc: advanced(s.pc), ..s }, op, now, random)),
    }
}

pub open spec fn set_register(s: MachineState, x: int, v: u8) -> MachineState {
    MachineState { registers: s.registers.update(x, v), ..s }
}

/// Skips the next instruction when `cond` holds.
pub open spec fn skip_if(s: MachineState, cond: bool) -> MachineState {
    if cond {
        MachineState { pc: advanced(s.pc), ..s }
    } else {
        s
    }
}

/// `2nnn`: the return address is pushed and execution goes on at `target`.
pub open spec fn call(s: MachineState, target: u16) -> MachineState {
    MachineState { stack: s.stack.push(s.pc), pc: target, ..s }
}

/// `00EE`: execution goes on at the most recent return address, which is popped.
pub open spec fn return_from(s: MachineState) -> MachineState {
    MachineState { pc: s.stack.last(), stack: s.stack.drop_last(), ..s }
}

/// VF after `8xy1`, `8xy2` or `8xy3` wrote `v`.
pub open spec fn logic_flag(v: Seq<u8>, q: Quirks) -> Seq<u8> {
    if q.vf_reset {
        v.update(15, 0)
    } else {
        v
    }
}

/// The registers after the arithmetic instruction `8xyn`.
pub open spec fn alu(v: Seq<u8>, q: Quirks, x: int, y: int, n: int) -> Seq<u8> {
    let vx = v[x];
    let vy = v[y];
    let src = if q.shift_use_vy {
        vy
    } else {
        vx
    };
    if n == 0 {
        v.update(x, vy)
    } else if n == 1 {
        logic_flag(v.update(x, vx | vy), q)
    } else if n == 2 {
        logic_flag(v.update(x, vx & vy), q)
    } else if n == 3 {
        logic_flag(v.update(x, vx ^ vy), q)
    } else if n == 4 {
        v.update(x, ((vx + vy) % 256) as u8).update(
            15,
            if vx + vy > 255 {
                1u8
            } else {
                0u8
            },
        )
    } else if n == 5 {
        v.update(x, ((vx - vy + 256) % 256) as u8).update(
            15,
            if vx >= vy {
                1u8
            } else {
                0u8
            },
        )
    } else if n == 6 {
        v.update(x, (src / 2) as u8).update(15, (src % 2) as u8)
    } else if n == 7 {
        v.update(x, ((vy - vx + 256) % 256) as u8).update(
            15,
            if vy >= vx {
                1u8
            } else {
                0u8
            },
        )
    } else {
        v.update(x, ((src * 2) % 256) as u8).update(15, (src / 128) as u8)
    }
}

/// Memory after `Fx33` wrote the decimal digits of `v` at `i`.
pub open spec fn bcd_stored(memory: Seq<u8>, i: u16, v: u8) -> Seq<u8> {
    memory.update(mem_addr(i as int), (v / 100) as u8).update(
        mem_addr(i as int + 1),
        ((v / 10) % 10) as u8,
    ).update(mem_addr(i as int + 2), (v % 10) as u8)
}

/// Memory after `Fx55` stored V0 to Vx from `i` on.
pub open spec fn registers_stored(memory: Seq<u8>, i: u16, x: int, registers: Seq<u8>) -> Seq<u8> {
    Seq::new(
        memory.len(),
        |a: int|
            if mem_addr(a - i) <= x {
                registers[mem_addr(a - i)]
            } else {
                memory[a]
            },
    )
}

/// The registers after `Fx65` loaded V0 to Vx from `i` on.
pub open spec fn registers_loaded(memory: Seq<u8>, i: u16, x: int, registers: Seq<u8>) -> Seq<u8> {
    Seq::new(
        16,
        |k: int|
            if k <= x {
                memory[mem_addr(i + k)]
            } else {
                registers[k]
            },
    )
}

/// I after `Fx55` or `Fx65` moved registers V0 to Vx.
pub open spec fn index_after_block(i: u16, x: int, q: Quirks) -> u16 {
    if q.store_load_increments_i {
        ((i + x + 1) % 65536) as u16
    } else {
        i
    }
}

/// `Fx0A`: takes the key recorded on release, or waits for one by retrying the instruction.
pub open spec fn key_wait(s: MachineState, x: int) -> MachineState {
    match s.last_key_pressed {
        Some(k) => MachineState {
            registers: s.registers.update(x, k),
            waiting_for_key: false,
            last_key_pressed: None,
            ..s
        },
        None => MachineState { waiting_for_key: true, pc: rewound(s.pc), ..s },
    }
}

/// The instructions of the `F` family.
pub open spec fn misc(s: MachineState, x: int, nn: int) -> MachineState {
    let vx = s.registers[x];
    if nn == 0x07 {
        set_register(s, x, s.delay_timer)
    } else if nn == 0x15 {
        MachineState { delay_timer: vx, ..s }
    } else if nn == 0x18 {
        MachineState { sound_timer: vx, ..s }
    } else if nn == 0x1E {
        MachineState { index: ((s.index + vx) % 65536) as u16, ..s }
    } else if nn == 0x0A {
        key_wait(s, x)
    } else if nn == 0x29 {
        MachineState { index: (FONT_START_ADDRESS + vx * 5) as u16, ..s }
    } else if nn == 0x33 {
        MachineState { memory: bcd_stored(s.memory, s.index, vx), ..s }
    } else if nn == 0x55 {
        MachineState {
            memory: registers_stored(s.memory, s.index, x, s.registers),
            index: index_after_block(s.index, x, s.quirks),
            ..s
        }
    } else {
        MachineState {
            registers: registers_loaded(s.memory, s.index, x, s.registers),
            index: index_after_block(s.index, x, s.quirks),
            ..s
        }
    }
}

/// Bit `j` of a sprite row, the most significant bit first.
pub open spec fn sprite_bit(row: u8, j: int) -> bool {
    (row >> ((7 - j) as u8)) & 1u8 == 1u8
}

/// Whether `sprite`, with its top left corner at (`ox`, `oy`), has a set bit on the pixel
/// at row `r` and column `c`.
pub open spec fn sprite_covers(sprite: Seq<u8>, ox: int, oy: int, r: int, c: int) -> bool {
    oy <= r < oy + sprite.len() && ox <= c < ox + 8 && sprite_bit(sprite[r - oy], c - ox)
}

/// The screen with the sprite XORed in; pixels off the screen are dropped.
pub open spec fn drawn(d: Seq<Seq<bool>>, sprite: Seq<u8>, ox: int, oy: int) -> Seq<Seq<bool>> {
    Seq::new(
        d.len(),
        |r: int| Seq::new(d[r].len(), |c: int| d[r][c] != sprite_covers(sprite, ox, oy, r, c)),
    )
}

/// Whether a set bit of the sprite lands on a lit pixel.
pub open spec fn collides(d: Seq<Seq<bool>>, sprite: Seq<u8>, ox: int, oy: int) -> bool {
    exists|r: int, c: int|
        0 <= r < d.len() && 0 <= c < d[r].len() && #[trigger] sprite_covers(sprite, ox, oy, r, c)
            && d[r][c]
}

/// The `n` bytes of memory from `i` on.
pub open spec fn sprite_at(memory: Seq<u8>, i: u16, n: int) -> Seq<u8> {
    Seq::new(n as nat, |k: int| memory[mem_addr(i + k)])
}

/// Whether a draw at time `now` must be retried: the display-wait quirk is on and less than
/// 1/60 s has passed since the last draw.
pub open spec fn draw_must_wait(s: MachineState, now: u64) -> bool {
    s.quirks.display_wait && now < s.last_draw + FRAME_TIME_60HZ_NANOS
}

/// `Dxyn` at time `now`.
pub open spec fn draw(s: MachineState, vx: u8, vy: u8, n: int, now: u64) -> MachineState {
    if draw_must_wait(s, now) {
        MachineState { pc: rewound(s.pc), ..s }
    } else {
        let sprite = sprite_at(s.memory, s.index, n);
        let ox = vx % 64;
        let oy = vy % 32;
        MachineState {
            display: drawn(s.display, sprite, ox as int, oy as int),
            registers: s.registers.update(
                15,
                if collides(s.display, sprite, ox as int, oy as int) {
                    1u8
                } else {
                    0u8
                },
            ),
            last_draw: if s.quirks.display_wait {
                now
            } else {
                s.last_draw
            },
            ..s
        }
    }
}

/// What a known instruction `op` does to `s`, whose program counter has already moved past it.
pub open spec fn execute(s: MachineState, op: u16, now: u64, random: u8) -> MachineState {
    let f = op_family(op);
    let x = op_x(op);
    let y = op_y(op);
    let nn = op_nn(op);
    let nnn = op_nnn(op);
    let vx = s.registers[x];
    let vy = s.registers[y];
    if f == 0 {
        if op == 0x00E0 {
            MachineState { display: blank_display(), ..s }
        } else {
            return_from(s)
        }
    } else if f == 1 {
        MachineState { pc: nnn as u16, ..s }
    } else if f == 2 {
        call(s, nnn as u16)
    } else if f == 3 {
        skip_if(s, vx == nn)
    } else if f == 4 {
        skip_if(s, vx != nn)
    } else if f == 5 {
        skip_if(s, vx == vy)
    } else if f == 6 {
        set_register(s, x, nn as u8)
    } else if f == 7 {
        set_register(s, x, ((vx + nn) % 256) as u8)
    } else if f == 8 {
        MachineState { registers: alu(s.registers, s.quirks, x, y, op_n(op)), ..s }
    } else if f == 9 {
        skip_if(s, vx != vy)
    } else if f == 0xA {
        MachineState { index: nnn as u16, ..s }
    } else if f == 0xB {
        MachineState {
            pc: (nnn + if s.quirks.bnnn {
                s.registers[0]
            } else {
                vx
            }) as u16,
            ..s
        }
    } else if f == 0xC {
        set_register(s, x, random & (nn as u8))
    } else if f == 0xD {
        draw(s, vx, vy, op_n(op), now)
    } else if f == 0xE {
        // There are sixteen keys: Vx names key Vx mod 16.
        skip_if(
            s,
            if nn == 0x9E {
                s.keypad[vx as int % 16]
            } else {
                !s.keypad[vx as int % 16]
            },
        )
    } else {
        misc(s, x, nn)
    }
}

/// An interpreter of the base CHIP-8 instruction set.
pub struct Chip8 {
    pub display: [[bool; 64]; 32],
    program_counter: u16,
    index_register: u16,
    memory: [u8; 0x1000],
    stack: Vec<u16>,
    pub delay_timer: u8,
    pub sound_timer: u8,
    variable_registers: [u8; 16],
    pub keypad: [bool; 16],
    pub waiting_for_key: bool,
    pub last_key_pressed: Option<u8>,
    held_key: Option<u8>,
    last_draw: u64,
    quirks: Quirks,
    clock: Instant,
}

impl View for Chip8 {
    type V = MachineState;

    closed spec fn view(&self) -> MachineState {
        MachineState {
            display: self.display@.map_values(|row: [bool; 64]| row@),
            pc: self.program_counter,
            index: self.index_register,
            memory: self.memory@,
            stack: self.stack@,
            delay_timer: self.delay_timer,
            sound_timer: self.sound_timer,
            registers: self.variable_registers@,
            keypad: self.keypad@,
            waiting_for_key: self.waiting_for_key,
            last_key_pressed: self.last_key_pressed,
            held_key: self.held_key,
            last_draw: self.last_draw,
            quirks: self.quirks,
        }
    }
}

/// Relies on std::time::Instant: an opaque point in time of a monotonic clock.
#[verifier::external_type_specification]
#[verifier::external_body]
pub struct ExInstant(Instant);

/// Relies on `Instant::now`: the current point in time. Nothing is promised of it.
#[verifier::external_body]
fn clock_start() -> (r: Instant) {
    Instant::now()
}

/// Relies on `Instant::elapsed` and `Duration::as_nanos`: the nanoseconds since `start`.
/// The value depends on the time of the call, so nothing is promised of it.
#[verifier::external_body]
fn nanos_since(start: &Instant) -> (r: u64) {
    start.elapsed().as_nanos() as u64
}

/// Relies on `rand::random`: a uniformly drawn byte. Nothing is promised of its value.
#[verifier::external_body]
fn random_byte() -> (r: u8) {
    rand::random::<u8>()
}

/// Tells whether `op` belongs to the base instruction set.
pub fn known_instruction(op: u16) -> (r: bool)
    ensures
        r == is_known(op),
{
    let f = op / 4096;
    let n = op % 16;
    let nn = op % 256;
    if f == 0 {
        op == 0x00E0 || op == 0x00EE
    } else if f == 5 || f == 9 {
        n == 0
    } else if f == 8 {
        n <= 7 || n == 0xE
    } else if f == 0xE {
        nn == 0x9E || nn == 0xA1
    } else if f == 0xF {
        nn == 0x07 || nn == 0x0A || nn == 0x15 || nn == 0x18 || nn == 0x1E || nn == 0x29 || nn
            == 0x33 || nn == 0x55 || nn == 0x65
    } else {
        true
    }
}

impl Chip8 {
    /// A machine with the default quirks.
    pub fn new() -> (r: Self)
        ensures
            r@ == initial_state(Quirks {
                vf_reset: VF_RESET,
                shift_use_vy: SHIFT_USE_VY,
                bnnn: BNNN,
                store_load_increments_i: STORE_LOAD_INCREMENTS_I,
                display_wait: DISPLAY_WAIT,
            }),
    {
        Chip8::with_quirks(Quirks::default())
    }

    /// A machine whose instructions follow `quirks`.
    pub fn with_quirks(quirks: Quirks) -> (r: Self)
        ensures
            r@ == initial_state(quirks),
    {
        let mut memory = [0u8; 0x1000];
        let ghost zeros = memory@;
        Chip8::store_font(&mut memory);
        assert(font_stored(zeros) =~= initial_memory());
        let r = Chip8 {
            display: [[false; 64]; 32],
            program_counter: PROGRAM_START_ADDRESS as u16,
            index_register: 0,
            memory,
            stack: Vec::new(),
            delay_timer: 0,
            sound_timer: 0,
            variable_registers: [0u8; 16],
            keypad: [false; 16],
            waiting_for_key: false,
            last_key_pressed: None,
            held_key: None,
            last_draw: 0,
            quirks,
            clock: clock_start(),
        };
        assert(r@.display =~~= blank_display());
        assert(r@.memory =~= initial_memory());
        assert(r@ =~= initial_state(quirks));
        r
    }

    fn store_font(memory: &mut [u8; 0x1000])
        ensures
            final(memory)@ == font_stored(old(memory)@),
    {
        let characters = font_characters();
        let mut i: usize = 0;
        while i < 80
            invariant
                i <= 80,
                characters@.len() == 16,
                forall|d: int| 0 <= d < 16 ==> #[trigger] characters@[d].bitmap@ == glyph_rows(d),
                forall|a: int|
                    0 <= a < MEMORY_SIZE ==> #[trigger] memory@[a] == if FONT_START_ADDRESS <= a
                        < FONT_START_ADDRESS + i {
                        font_byte(a - FONT_START_ADDRESS)
                    } else {
                        old(memory)@[a]
                    },
            decreases 80 - i,
        {
            let chr = &characters[i / 5];
            memory[FONT_START_ADDRESS + i] = chr.bitmap[i % 5];
            i += 1;
        }
        assert(memory@ =~= font_stored(old(memory)@));
    }

    /// One fetch-decode-execute step at time `now`, in nanoseconds of the machine's clock,
    /// with `random` as the byte that `Cxnn` draws. On a fatal condition the machine is left
    /// as it was and the condition is returned.
    pub fn cycle_at(&mut self, now: u64, random: u8) -> (r: Result<(), Chip8Error>)
        ensures
            match step(old(self)@, now, random) {
                Ok(t) => r is Ok && final(self)@ == t,
                Err(e) => r == Err::<(), Chip8Error>(e) && final(self)@ == old(self)@,
            },
    {
        let pc = self.program_counter;
        let high = self.memory[(pc as usize) % MEMORY_SIZE];
        let low = self.memory[(pc as usize + 1) % MEMORY_SIZE];
        let op = high as u16 * 256 + low as u16;
        if !known_instruction(op) {
            return Err(Chip8Error::UnknownInstruction(op));
        }
        if op == 0x00EE && self.stack.len() == 0 {
            return Err(Chip8Error::StackUnderflow);
        }
        self.program_counter = ((pc as u32 + 2) % 65536) as u16;
        self.execute(op, now, random);
        Ok(())
    }

    /// One fetch-decode-execute step, at the time of the call and with a fresh random byte.
    pub fn cycle(&mut self) -> (r: Result<(), Chip8Error>)
        ensures
            exists|now: u64, random: u8|
                match #[trigger] step(old(self)@, now, random) {
                    Ok(t) => r is Ok && final(self)@ == t,
                    Err(e) => r == Err::<(), Chip8Error>(e) && final(self)@ == old(self)@,
                },
    {
        let now = nanos_since(&self.clock);
        let random = random_byte();
        self.cycle_at(now, random)
    }

    /// Copies `program` to memory from the program start address on.
    pub fn load_program(&mut self, program: &Vec<u8>) -> (r: Result<(), Chip8Error>)
        ensures
            r is Err <==> program@.len() > MEMORY_SIZE - PROGRAM_START_ADDRESS,
            r is Err ==> r == Err::<(), Chip8Error>(Chip8Error::ProgramTooLarge) && final(self)@
                == old(self)@,
            r is Ok ==> final(self)@ == (MachineState {
                memory: loaded_memory(old(self)@.memory, program@),
                ..old(self)@
            }),
    {
        if program.len() > MEMORY_SIZE - PROGRAM_START_ADDRESS {
            return Err(Chip8Error::ProgramTooLarge);
        }
        let ghost start = self.memory@;
        let mut i: usize = 0;
        while i < program.len()
            invariant
                i <= program@.len() <= MEMORY_SIZE - PROGRAM_START_ADDRESS,
                self@ == (MachineState { memory: self@.memory, ..old(self)@ }),
                self.memory@.len() == MEMORY_SIZE,
                forall|a: int|
                    0 <= a < MEMORY_SIZE ==> #[trigger] self.memory@[a] == if PROGRAM_START_ADDRESS
                        <= a < PROGRAM_START_ADDRESS + i {
                        program@[a - PROGRAM_START_ADDRESS]
                    } else {
                        start[a]
                    },
            decreases program@.len() - i,
        {
            self.memory[PROGRAM_START_ADDRESS + i] = program[i];
            i += 1;
        }
        assert(self@.memory =~= loaded_memory(old(self)@.memory, program@));
        Ok(())
    }

    /// Marks key `key` as pressed. During a wait of `Fx0A` the key becomes the one whose
    /// release ends the wait.
    pub fn press_key(&mut self, key: u8)
        requires
            key < 16,
        ensures
            final(self)@ == (MachineState {
                keypad: old(self)@.keypad.update(key as int, true),
                held_key: if old(self)@.waiting_for_key {
                    Some(key)
                } else {
                    old(self)@.held_key
                },
                ..old(self)@
            }),
    {
        self.keypad[key as usize] = true;
        if self.waiting_for_key {
            self.held_key = Some(key);
        }
        assert(self@ =~= (MachineState {
            keypad: old(self)@.keypad.update(key as int, true),
            held_key: if old(self)@.waiting_for_key {
                Some(key)
            } else {
                old(self)@.held_key
            },
            ..old(self)@
        }));
    }

    /// Marks key `key` as released. Releasing the key pressed during a wait of `Fx0A`
    /// records it for the next cycle.
    pub fn release_key(&mut self, key: u8)
        requires
            key < 16,
        ensures
            final(self)@ == (MachineState {
                keypad: old(self)@.keypad.update(key as int, false),
                held_key: if old(self)@.held_key == Some(key) {
                    None
                } else {
                    old(self)@.held_key
                },
                last_key_pressed: if old(self)@.held_key == Some(key) {
                    Some(key)
                } else {
                    old(self)@.last_key_pressed
                },
                ..old(self)@
            }),
    {
        self.keypad[key as usize] = false;
        if self.held_key == Some(key) {
            self.last_key_pressed = Some(key);
            self.held_key = None;
        }
        assert(self@.keypad =~= old(self)@.keypad.update(key as int, false));
    }

    /// `8xyn`.
    fn execute_alu(&mut self, x: usize, y: usize, n: u16)
        requires
            x < 16,
            y < 16,
            n <= 7 || n == 0xE,
        ensures
            final(self)@ == (MachineState {
                registers: alu(old(self)@.registers, old(self)@.quirks, x as int, y as int, n as int),
                ..old(self)@
            }),
    {
        let vx = self.variable_registers[x];
        let vy = self.variable_registers[y];
        let src = if self.quirks.shift_use_vy {
            vy
        } else {
            vx
        };
        if n == 0 {
            self.variable_registers[x] = vy;
        } else if n <= 3 {
            let v = if n == 1 {
                vx | vy
            } else if n == 2 {
                vx & vy
            } else {
                vx ^ vy
            };
            self.variable_registers[x] = v;
            if self.quirks.vf_reset {
                self.variable_registers[15] = 0;
            }
        } else if n == 4 {
            let sum = vx as u16 + vy as u16;
            self.variable_registers[x] = (sum % 256) as u8;
            self.variable_registers[15] = if sum > 255 {
                1
            } else {
                0
            };
        } else if n == 5 {
            self.variable_registers[x] = ((vx as u16 + 256 - vy as u16) % 256) as u8;
            self.variable_registers[15] = if vx >= vy {
                1
            } else {
                0
            };
        } else if n == 6 {
            self.variable_registers[x] = src / 2;
            self.variable_registers[15] = src % 2;
        } else if n == 7 {
            self.variable_registers[x] = ((vy as u16 + 256 - vx as u16) % 256) as u8;
            self.variable_registers[15] = if vy >= vx {
                1
            } else {
                0
            };
        } else {
            self.variable_registers[x] = ((src as u16 * 2) % 256) as u8;
            self.variable_registers[15] = src / 128;
        }
        assert(self@ =~= (MachineState {
            registers: alu(old(self)@.registers, old(self)@.quirks, x as int, y as int, n as int),
            ..old(self)@
        }));
    }

    /// `Fx55`: V0 to Vx go to memory from I on.
    fn store_registers(&mut self, x: usize)
        requires
            x < 16,
        ensures
            final(self)@ == (MachineState {
                memory: registers_stored(old(self)@.memory, old(self)@.index, x as int, old(self)@.registers),
                ..old(self)@
            }),
    {
        let i = self.index_register as usize;
        let mut k: usize = 0;
        while k <= x
            invariant
                k <= x + 1,
                x < 16,
                i == old(self)@.index,
                self@ == (MachineState { memory: self@.memory, ..old(self)@ }),
                self.memory@.len() == MEMORY_SIZE,
                forall|a: int|
                    0 <= a < MEMORY_SIZE ==> #[trigger] self.memory@[a] == if mem_addr(a - i) < k {
                        old(self)@.registers[mem_addr(a - i)]
                    } else {
                        old(self)@.memory[a]
                    },
            decreases x + 1 - k,
        {
            let a = (i + k) % MEMORY_SIZE;
            assert(mem_addr(a - i) == k);
            self.memory[a] = self.variable_registers[k];
            k += 1;
        }
        assert(self@.memory =~= registers_stored(old(self)@.memory, old(self)@.index, x as int, old(self)@.registers));
    }

    /// `Fx65`: V0 to Vx are read from memory from I on.
    fn load_registers(&mut self, x: usize)
        requires
            x < 16,
        ensures
            final(self)@ == (MachineState {
                registers: registers_loaded(old(self)@.memory, old(self)@.index, x as int, old(self)@.registers),
                ..old(self)@
            }),
    {
        let i = self.index_register as usize;
        let mut k: usize = 0;
        while k <= x
            invariant
                k <= x + 1,
                x < 16,
                i == old(self)@.index,
                self@ == (MachineState { registers: self@.registers, ..old(self)@ }),
                self.variable_registers@.len() == 16,
                forall|kk: int|
                    0 <= kk < 16 ==> #[trigger] self.variable_registers@[kk] == if kk < k {
                        old(self)@.memory[mem_addr(i + kk)]
                    } else {
                        old(self)@.registers[kk]
                    },
            decreases x + 1 - k,
        {
            self.variable_registers[k] = self.memory[(i + k) % MEMORY_SIZE];
            k += 1;
        }
        assert(self@.registers =~= registers_loaded(old(self)@.memory, old(self)@.index, x as int, old(self)@.registers));
    }

    /// The `F` family: timers, I, keys, decimal digits and register blocks.
    fn execute_misc(&mut self, x: usize, nn: u16)
        requires
            x < 16,
            nn == 0x07 || nn == 0x0A || nn == 0x15 || nn == 0x18 || nn == 0x1E || nn == 0x29
                || nn == 0x33 || nn == 0x55 || nn == 0x65,
        ensures
            final(self)@ == misc(old(self)@, x as int, nn as int),
    {
        let vx = self.variable_registers[x];
        if nn == 0x07 {
            self.variable_registers[x] = self.delay_timer;
        } else if nn == 0x15 {
            self.delay_timer = vx;
        } else if nn == 0x18 {
            self.sound_timer = vx;
        } else if nn == 0x1E {
            self.index_register = ((self.index_register as u32 + vx as u32) % 65536) as u16;
        } else if nn == 0x0A {
            match self.last_key_pressed {
                Some(k) => {
                    self.variable_registers[x] = k;
                    self.waiting_for_key = false;
                    self.last_key_pressed = None;
                },
                None => {
                    self.waiting_for_key = true;
                    self.program_counter = ((self.program_counter as u32 + 65534) % 65536) as u16;
                },
            }
        } else if nn == 0x29 {
            self.index_register = FONT_START_ADDRESS as u16 + vx as u16 * 5;
        } else if nn == 0x33 {
            let i = self.index_register as usize;
            self.memory[i % MEMORY_SIZE] = vx / 100;
            self.memory[(i + 1) % MEMORY_SIZE] = (vx / 10) % 10;
            self.memory[(i + 2) % MEMORY_SIZE] = vx % 10;
        } else {
            if nn == 0x55 {
                self.store_registers(x);
            } else {
                self.load_registers(x);
            }
            if self.quirks.store_load_increments_i {
                self.index_register = ((self.index_register as u32 + x as u32 + 1) % 65536) as u16;
            }
        }
        assert(self@ =~= misc(old(self)@, x as int, nn as int));
    }

    /// XORs `sprite` onto the screen with its top left corner at (`x` mod 64, `y` mod 32).
    /// Pixels that fall off the screen are dropped. VF becomes 1 when a set bit of the sprite
    /// lands on a lit pixel, and is left alone otherwise.
    pub fn draw_sprite(&mut self, sprite: Vec<u8>, x: u8, y: u8)
        ensures
            final(self)@ == (MachineState {
                display: drawn(old(self)@.display, sprite@, (x % 64) as int, (y % 32) as int),
                registers: if collides(old(self)@.display, sprite@, (x % 64) as int, (y % 32) as int) {
                    old(self)@.registers.update(15, 1)
                } else {
                    old(self)@.registers
                },
                ..old(self)@
            }),
    {
        let ox = (x % 64) as usize;
        let oy = (y % 32) as usize;
        let ghost d = old(self)@.display;
        let ghost sp = sprite@;
        let mut display = self.display;
        let mut collided = false;
        let mut r: usize = oy;
        while r < HEIGHT && r - oy < sprite.len()
            invariant
                oy <= r <= HEIGHT,
                ox < WIDTH,
                oy < HEIGHT,
                sp == sprite@,
                d == old(self)@.display,
                self == old(self),
                d.len() == HEIGHT,
                forall|rr: int| 0 <= rr < HEIGHT ==> #[trigger] d[rr].len() == WIDTH,
                forall|rr: int, cc: int|
                    0 <= rr < HEIGHT && 0 <= cc < WIDTH ==> #[trigger] display@[rr]@[cc] == (d[rr][cc]
                        != (rr < r && sprite_covers(sp, ox as int, oy as int, rr, cc))),
                collided <==> exists|rr: int, cc: int|
                    0 <= rr < r && 0 <= cc < WIDTH && #[trigger] sprite_covers(
                        sp,
                        ox as int,
                        oy as int,
                        rr,
                        cc,
                    ) && d[rr][cc],
            decreases HEIGHT - r,
        {
            let bits = sprite[r - oy];
            let mut row = display[r];
            let mut c: usize = ox;
            while c < WIDTH && c - ox < 8
                invariant
                    oy <= r < HEIGHT,
                    r - oy < sp.len(),
                    ox <= c <= WIDTH,
                    ox < WIDTH,
                    bits == sp[r - oy],
                    d.len() == HEIGHT,
                    forall|rr: int| 0 <= rr < HEIGHT ==> #[trigger] d[rr].len() == WIDTH,
                    forall|cc: int|
                        0 <= cc < WIDTH ==> #[trigger] row@[cc] == (d[r as int][cc] != (cc < c
                            && sprite_covers(sp, ox as int, oy as int, r as int, cc))),
                    collided <==> exists|rr: int, cc: int|
                        0 <= rr < HEIGHT && 0 <= cc < WIDTH && (rr < r || (rr == r && cc < c))
                            && #[trigger] sprite_covers(sp, ox as int, oy as int, rr, cc)
                            && d[rr][cc],
                decreases WIDTH - c,
            {
                let j = (c - ox) as u8;
                let pixel = (bits >> (7 - j)) & 1 == 1;
                assert(pixel == sprite_covers(sp, ox as int, oy as int, r as int, c as int));
                if pixel && row[c] {
                    collided = true;
                }
                row[c] = row[c] != pixel;
                c += 1;
            }
            assert forall|cc: int| 0 <= cc < WIDTH implies #[trigger] row@[cc] == (d[r as int][cc]
                != sprite_covers(sp, ox as int, oy as int, r as int, cc)) by {
                if cc >= c {
                    assert(!sprite_covers(sp, ox as int, oy as int, r as int, cc));
                }
            }
            display[r] = row;
            r += 1;
            assert(collided <==> exists|rr: int, cc: int|
                0 <= rr < r && 0 <= cc < WIDTH && #[trigger] sprite_covers(
                    sp,
                    ox as int,
                    oy as int,
                    rr,
                    cc,
                ) && d[rr][cc]) by {
                if collided {
                    let (rr, cc) = choose|rr: int, cc: int|
                        0 <= rr < HEIGHT && 0 <= cc < WIDTH && (rr < r - 1 || (rr == r - 1 && cc < c))
                            && #[trigger] sprite_covers(sp, ox as int, oy as int, rr, cc)
                            && d[rr][cc];
                    assert(0 <= rr < r && 0 <= cc < WIDTH && sprite_covers(sp, ox as int, oy as int, rr, cc) && d[rr][cc]);
                }
                if exists|rr: int, cc: int|
                    0 <= rr < r && 0 <= cc < WIDTH && #[trigger] sprite_covers(
                        sp,
                        ox as int,
                        oy as int,
                        rr,
                        cc,
                    ) && d[rr][cc] {
                    let (rr, cc) = choose|rr: int, cc: int|
                        0 <= rr < r && 0 <= cc < WIDTH && #[trigger] sprite_covers(
                            sp,
                            ox as int,
                            oy as int,
                            rr,
                            cc,
                        ) && d[rr][cc];
                    if rr == r - 1 && cc >= c {
                        assert(!sprite_covers(sp, ox as int, oy as int, rr, cc));
                    }
                }
            }
        }
        assert(forall|rr: int, cc: int|
            0 <= rr < HEIGHT && 0 <= cc < WIDTH && rr >= r ==> !#[trigger] sprite_covers(
                sp,
                ox as int,
                oy as int,
                rr,
                cc,
            ));
        self.display = display;
        if collided {
            self.variable_registers[15] = 1;
        }
        assert(self@.display =~~= drawn(d, sp, ox as int, oy as int));
        assert(self@ =~= (MachineState {
            display: drawn(old(self)@.display, sprite@, (x % 64) as int, (y % 32) as int),
            registers: if collides(old(self)@.display, sprite@, (x % 64) as int, (y % 32) as int) {
                old(self)@.registers.update(15, 1)
            } else {
                old(self)@.registers
            },
            ..old(self)@
        }));
    }

    /// Executes the known instruction `op`, the program counter having moved past it.
    fn execute(&mut self, op: u16, now: u64, random: u8)
        requires
            is_known(op),
            !(op == 0x00EE && old(self)@.stack.len() == 0),
        ensures
            final(self)@ == execute(old(self)@, op, now, random),
    {
        let f = op / 4096;
        let x = ((op / 256) % 16) as usize;
        let y = ((op / 16) % 16) as usize;
        let n = op % 16;
        let nn = op % 256;
        let nnn = op % 4096;
        let vx = self.variable_registers[x];
        let vy = self.variable_registers[y];
        let pc = self.program_counter;
        let skip = ((pc as u32 + 2) % 65536) as u16;
        if f == 0 {
            if op == 0x00E0 {
                self.display = [[false; 64]; 32];
                assert(self@.display =~~= blank_display());
            } else {
                match self.stack.pop() {
                    Some(ret) => {
                        self.program_counter = ret;
                    },
                    None => {},
                }
            }
        } else if f == 1 {
            self.program_counter = nnn;
        } else if f == 2 {
            self.stack.push(pc);
            self.program_counter = nnn;
        } else if f == 3 {
            if vx as u16 == nn {
                self.program_counter = skip;
            }
        } else if f == 4 {
            if vx as u16 != nn {
                self.program_counter = skip;
            }
        } else if f == 5 {
            if vx == vy {
                self.program_counter = skip;
            }
        } else if f == 6 {
            self.variable_registers[x] = nn as u8;
        } else if f == 7 {
            self.variable_registers[x] = ((vx as u16 + nn) % 256) as u8;
        } else if f == 8 {
            self.execute_alu(x, y, n);
        } else if f == 9 {
            if vx != vy {
                self.program_counter = skip;
            }
        } else if f == 0xA {
            self.index_register = nnn;
        } else if f == 0xB {
            let offset = if self.quirks.bnnn {
                self.variable_registers[0]
            } else {
                vx
            };
            self.program_counter = nnn + offset as u16;
        } else if f == 0xC {
            self.variable_registers[x] = random & (nn as u8);
        } else if f == 0xD {
            self.execute_draw(vx, vy, n, now);
        } else if f == 0xE {
            let pressed = self.keypad[(vx % 16) as usize];
            if (nn == 0x9E && pressed) || (nn == 0xA1 && !pressed) {
                self.program_counter = skip;
            }
        } else {
            self.execute_misc(x, nn);
        }
        assert(self@ =~= execute(old(self)@, op, now, random));
    }

    /// `Dxyn` at time `now`.
    fn execute_draw(&mut self, vx: u8, vy: u8, n: u16, now: u64)
        requires
            n < 16,
        ensures
            final(self)@ == draw(old(self)@, vx, vy, n as int, now),
    {
        if self.quirks.display_wait {
            if (now as u128) < self.last_draw as u128 + FRAME_TIME_60HZ_NANOS as u128 {
                self.program_counter = ((self.program_counter as u32 + 65534) % 65536) as u16;
                return;
            }
            self.last_draw = now;
        }
        self.variable_registers[15] = 0;
        let i = self.index_register as usize;
        let mut sprite: Vec<u8> = Vec::new();
        let mut k: usize = 0;
        while k < n as usize
            invariant
                k <= n,
                i == self@.index,
                sprite@ =~= sprite_at(self@.memory, self@.index, k as int),
            decreases n - k,
        {
            sprite.push(self.memory[(i + k) % MEMORY_SIZE]);
            k += 1;
        }
        self.draw_sprite(sprite, vx, vy);
        assert(self@ =~= draw(old(self)@, vx, vy, n as int, now));
    }

    /// Every machine has the shape that `well_formed` describes.
    pub proof fn lemma_well_formed(&self)
        ensures
            well_formed(self@),
    {
    }

    pub fn delay_timer(&self) -> (r: u8)
        ensures
            r == self@.delay_timer,
    {
        self.delay_timer
    }

    pub fn sound_timer(&self) -> (r: u8)
        ensures
            r == self@.sound_timer,
    {
        self.sound_timer
    }

    /// Whether an `Fx0A` is waiting for a key.
    pub fn waiting_for_key(&self) -> (r: bool)
        ensures
            r == self@.waiting_for_key,
    {
        self.waiting_for_key
    }

    /// The released key that the next `Fx0A` takes, if any.
    pub fn last_key_pressed(&self) -> (r: Option<u8>)
        ensures
            r == self@.last_key_pressed,
    {
        self.last_key_pressed
    }

    /// Whether the pixel at row `r` and column `c` is lit.
    pub fn pixel(&self, r: usize, c: usize) -> (b: bool)
        requires
            r < HEIGHT,
            c < WIDTH,
        ensures
            b == self@.display[r as int][c as int],
    {
        self.display[r][c]
    }

    /// Whether key `k` is pressed.
    pub fn key_pressed(&self, k: usize) -> (b: bool)
        requires
            k < 16,
        ensures
            b == self@.keypad[k as int],
    {
        self.keypad[k]
    }

    /// Register V`i`.
    pub fn register(&self, i: usize) -> (r: u8)
        requires
            i < 16,
        ensures
            r == self@.registers[i as int],
    {
        self.variable_registers[i]
    }

    pub fn program_counter(&self) -> (r: u16)
        ensures
            r == self@.pc,
    {
        self.program_counter
    }

    pub fn index_register(&self) -> (r: u16)
        ensures
            r == self@.index,
    {
        self.index_register
    }

    /// The byte at address `a`.
    pub fn memory_byte(&self, a: usize) -> (r: u8)
        requires
            a < MEMORY_SIZE,
        ensures
            r == self@.memory[a as int],
    {
        self.memory[a]
    }

    /// How many return addresses the stack holds.
    pub fn stack_depth(&self) -> (r: usize)
        ensures
            r == self@.stack.len(),
    {
        self.stack.len()
    }

    pub fn quirks(&self) -> (r: Quirks)
        ensures
            r == self@.quirks,
    {
        self.quirks
    }

    /// One tick of the 60 Hz timers: each goes down by one, but not below zero.
    pub fn decrease_timers(&mut self)
        ensures
            final(self)@ == tick(old(self)@),
    {
        if self.delay_timer > 0 {
            self.delay_timer -= 1;
        }
        if self.sound_timer > 0 {
            self.sound_timer -= 1;
        }
    }
}

} // verus!
