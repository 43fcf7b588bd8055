//! The interpreter core: memory, registers, call stack, timers and key slot,
//! and the fetch/decode/execute cycle over them.
//!
//! `Machine` is the abstract state, and `execute_spec` gives the meaning of
//! every instruction on it, one family at a time. `Chip8` is the executable
//! machine; its view is a `Machine`, and each of its steps is proved to move
//! that view exactly as the spec functions say.

use vstd::prelude::*;
use crate::display::{
    scrolled_down,
    scrolled_left,
    scrolled_right,
    Screen,
};

verus! {

/// Addressable bytes of memory.
pub const MEMORY_SIZE: usize = 4096;

/// Address of the first font glyph.
pub const FONT_START: usize = 0x50;

/// Bytes of the font: sixteen glyphs of five bytes.
pub const FONT_SIZE: usize = 80;

/// Address where a program is loaded and execution starts.
pub const PROGRAM_START: usize = 0x200;

/// The largest program that fits in memory.
pub const MAX_PROGRAM_SIZE: usize = 0xE00;

/// Number of general registers, V0 to VF.
pub const REGISTER_COUNT: usize = 16;

/// Index of VF, the register that also receives carry, borrow, shifted-out
/// bits and collisions.
pub const FLAG: usize = 0xF;

/// A condition that ends the emulated session.
#[derive(Clone, Copy, Debug, PartialEq, Eq, Structural)]
pub enum Fault {
    /// The program counter does not address two bytes of memory.
    PcOutOfBounds,
    /// An instruction addressed memory past its last byte through I.
    MemoryOutOfBounds,
    /// A return was executed with an empty call stack.
    StackUnderflow,
}

/// Why a program could not be loaded.
#[derive(Clone, Copy, Debug, PartialEq, Eq, Structural)]
pub enum LoadError {
    /// The program has no bytes.
    EmptyProgram,
    /// The program does not fit between its load address and the end of memory.
    ProgramTooLarge,
}

/// What a step did, when it did not fault.
#[derive(Clone, Copy, Debug, PartialEq, Eq, Structural)]
pub enum Status {
    /// The instruction was carried out.
    Ran,
    /// A key-wait found no key; the same instruction runs again next step.
    AwaitingKey,
    /// The instruction is not one this interpreter knows; it was skipped.
    Unrecognized(u16),
}

/// The fixed fields of an instruction word.
#[derive(Clone, Copy, Debug, PartialEq, Eq, Structural)]
pub struct Instruction {
    /// Bits 12-15: the instruction family.
    pub family: u8,
    /// Bits 8-11: a register index.
    pub x: u8,
    /// Bits 4-7: a register index.
    pub y: u8,
    /// Bits 0-3.
    pub n: u8,
    /// Bits 0-7.
    pub nn: u8,
    /// Bits 0-11: an address.
    pub nnn: u16,
}

/// The fields of `op`.
pub open spec fn decoded(op: u16) -> Instruction {
    Instruction {
        family: (op >> 12u16) as u8,
        x: ((op >> 8u16) & 0xF) as u8,
        y: ((op >> 4u16) & 0xF) as u8,
        n: (op & 0xF) as u8,
        nn: (op & 0xFF) as u8,
        nnn: op & 0xFFF,
    }
}

/// Splits an instruction word into its fields.
pub fn decode(op: u16) -> (r: Instruction)
    ensures
        r == decoded(op),
        r.family < 16,
        r.x < 16,
        r.y < 16,
        r.n < 16,
        r.nnn < 0x1000,
{
    assert((op >> 12u16) < 16) by (bit_vector);
    assert(((op >> 8u16) & 0xF) < 16) by (bit_vector);
    assert(((op >> 4u16) & 0xF) < 16) by (bit_vector);
    assert((op & 0xF) < 16) by (bit_vector);
    assert((op & 0xFFF) < 0x1000) by (bit_vector);
    Instruction {
        family: (op >> 12u16) as u8,
        x: ((op >> 8u16) & 0xF) as u8,
        y: ((op >> 4u16) & 0xF) as u8,
        n: (op & 0xF) as u8,
        nn: (op & 0xFF) as u8,
        nnn: op & 0xFFF,
    }
}

/// The hexadecimal digit glyphs 0 to F, five rows each.
pub open spec fn font() -> Seq<u8> {
    seq![
        0xF0u8, 0x90, 0x90, 0x90, 0xF0,
        0x20, 0x60, 0x20, 0x20, 0x70,
        0xF0, 0x10, 0xF0, 0x80, 0xF0,
        0xF0, 0x10, 0xF0, 0x10, 0xF0,
        0x90, 0x90, 0xF0, 0x10, 0x10,
        0xF0, 0x80, 0xF0, 0x10, 0xF0,
        0xF0, 0x80, 0xF0, 0x90, 0xF0,
        0xF0, 0x10, 0x20, 0x40, 0x40,
        0xF0, 0x90, 0xF0, 0x90, 0xF0,
        0xF0, 0x90, 0xF0, 0x10, 0xF0,
        0xF0, 0x90, 0xF0, 0x90, 0x90,
        0xE0, 0x90, 0xE0, 0x90, 0xE0,
        0xF0, 0x80, 0x80, 0x80, 0xF0,
        0xE0, 0x90, 0x90, 0x90, 0xE0,
        0xF0, 0x80, 0xF0, 0x80, 0xF0,
        0xF0, 0x80, 0xF0, 0x80, 0x80,
    ]
}

/// Memory right after loading `program`: the font at `FONT_START`, the
/// program at `PROGRAM_START`, zero elsewhere.
pub open spec fn boot_memory(program: Seq<u8>) -> Seq<u8> {
    Seq::new(
        MEMORY_SIZE as nat,
        |a: int|
            if FONT_START <= a < FONT_START + FONT_SIZE {
                font()[a - FONT_START]
            } else if PROGRAM_START <= a < PROGRAM_START + program.len() {
                program[a - PROGRAM_START]
            } else {
                0u8
            },
    )
}

/// The sum of two bytes, wrapped to eight bits.
pub open spec fn add8(a: u8, b: u8) -> u8 {
    if a + b > 0xFF {
        (a + b - 0x100) as u8
    } else {
        (a + b) as u8
    }
}

/// The difference of two bytes, wrapped to eight bits.
pub open spec fn sub8(a: u8, b: u8) -> u8 {
    if a >= b {
        (a - b) as u8
    } else {
        (a - b + 0x100) as u8
    }
}

/// `memory` with registers V0..=V`last` written from address `at` on.
pub open spec fn stored(memory: Seq<u8>, v: Seq<u8>, at: int, last: int) -> Seq<u8> {
    Seq::new(memory.len(), |a: int| if at <= a <= at + last { v[a - at] } else { memory[a] })
}

/// `v` with registers V0..=V`last` read from address `at` on.
pub open spec fn loaded(v: Seq<u8>, memory: Seq<u8>, at: int, last: int) -> Seq<u8> {
    Seq::new(v.len(), |r: int| if r <= last { memory[at + r] } else { v[r] })
}

/// The state of the virtual machine.
pub struct Machine {
    /// The addressable bytes.
    pub memory: Seq<u8>,
    /// Registers V0 to VF.
    pub v: Seq<u8>,
    /// Address of the next instruction.
    pub pc: u16,
    /// The index register I.
    pub i: u16,
    /// Saved return addresses, the latest last.
    pub stack: Seq<u16>,
    /// The delay timer.
    pub dt: u8,
    /// The sound timer.
    pub st: u8,
    /// The pressed key's code, if a key is pressed.
    pub input: Option<u8>,
    /// The framebuffer.
    pub screen: Screen,
    /// Whether adding to I sets VF when I reaches 0xFFF or wraps.
    pub index_overflow_flag: bool,
}

impl Machine {
    /// Memory and registers have their sizes, the framebuffer is well formed,
    /// and a pressed key is one of the sixteen keypad codes.
    pub open spec fn wf(self) -> bool {
        &&& self.memory.len() == MEMORY_SIZE
        &&& self.v.len() == REGISTER_COUNT
        &&& self.screen.wf()
        &&& match self.input {
            Some(k) => k < 16,
            None => true,
        }
    }

    /// Register `r` set to `value`.
    pub open spec fn with_v(self, r: int, value: u8) -> Machine {
        Machine { v: self.v.update(r, value), ..self }
    }

    /// The next instruction skipped when `cond` holds.
    pub open spec fn skip_if(self, cond: bool) -> Machine {
        if cond {
            Machine { pc: (self.pc + 2) as u16, ..self }
        } else {
            self
        }
    }

    /// The framebuffer replaced by `screen`.
    pub open spec fn with_screen(self, screen: Screen) -> Machine {
        Machine { screen, ..self }
    }

    /// Both timers counted down by one, stopping at zero.
    pub open spec fn timers_ticked(self) -> Machine {
        Machine {
            dt: if self.dt > 0 { (self.dt - 1) as u8 } else { 0 },
            st: if self.st > 0 { (self.st - 1) as u8 } else { 0 },
            ..self
        }
    }

    /// The state right after loading `program`.
    pub open spec fn boot(program: Seq<u8>) -> Machine {
        Machine {
            memory: boot_memory(program),
            v: Seq::new(REGISTER_COUNT as nat, |r: int| 0u8),
            pc: PROGRAM_START as u16,
            i: 0,
            stack: Seq::empty(),
            dt: 0,
            st: 0,
            input: None,
            screen: Screen::blank(),
            index_overflow_flag: true,
        }
    }
}

/// An instruction that completed and left the machine in state `s`.
pub open spec fn ran(s: Machine) -> Result<(Machine, Status), Fault> {
    Ok((s, Status::Ran))
}

/// Whether a step that began in `before`, ended in `after` and returned `r`
/// did what `expected` says. A fault leaves the machine as it was.
pub open spec fn follows(
    before: Machine,
    after: Machine,
    r: Result<Status, Fault>,
    expected: Result<(Machine, Status), Fault>,
) -> bool {
    match expected {
        Ok((s, status)) => r == Ok::<Status, Fault>(status) && after == s,
        Err(f) => r == Err::<Status, Fault>(f) && after == before,
    }
}

/// Family 0: clear, return, resolution switches and scrolls.
pub open spec fn system_spec(s: Machine, op: u16) -> Result<(Machine, Status), Fault> {
    let ins = decoded(op);
    if ins.nnn == 0x0E0 {
        ran(s.with_screen(s.screen.cleared()))
    } else if ins.nnn == 0x0EE {
        if s.stack.len() == 0 {
            Err(Fault::StackUnderflow)
        } else {
            ran(Machine { pc: s.stack.last(), stack: s.stack.drop_last(), ..s })
        }
    } else if ins.nnn == 0x0FE {
        ran(s.with_screen((Screen { hi_mode: false, ..s.screen }).cleared()))
    } else if ins.nnn == 0x0FF {
        ran(s.with_screen((Screen { hi_mode: true, ..s.screen }).cleared()))
    } else if 0x0C0 <= ins.nnn <= 0x0CF {
        ran(s.with_screen(s.screen.with_rows(scrolled_down(s.screen.rows(), ins.n as nat))))
    } else if ins.nnn == 0x0FB {
        ran(s.with_screen(s.screen.with_rows(scrolled_right(s.screen.rows()))))
    } else if ins.nnn == 0x0FC {
        ran(s.with_screen(s.screen.with_rows(scrolled_left(s.screen.rows(), s.screen.mask()))))
    } else {
        Ok((s, Status::Unrecognized(op)))
    }
}

/// Family 8: register-to-register arithmetic and logic. Where an operation
/// defines a flag, VF receives it after the result is written, except for the
/// shifts, which write VF first.
pub open spec fn alu_spec(s: Machine, op: u16) -> Result<(Machine, Status), Fault> {
    let ins = decoded(op);
    let x = ins.x as int;
    let vx = s.v[x];
    let vy = s.v[ins.y as int];
    let f = FLAG as int;
    if ins.n == 0 {
        ran(s.with_v(x, vy))
    } else if ins.n == 1 {
        ran(s.with_v(x, vx | vy))
    } else if ins.n == 2 {
        ran(s.with_v(x, vx & vy))
    } else if ins.n == 3 {
        ran(s.with_v(x, vx ^ vy))
    } else if ins.n == 4 {
        ran(s.with_v(x, add8(vx, vy)).with_v(f, if vx + vy > 0xFF { 1 } else { 0 }))
    } else if ins.n == 5 {
        ran(s.with_v(x, sub8(vx, vy)).with_v(f, if vx >= vy { 1 } else { 0 }))
    } else if ins.n == 6 {
        let t = s.with_v(f, vx & 1);
        ran(t.with_v(x, t.v[x] >> 1u8))
    } else if ins.n == 7 {
        ran(s.with_v(x, sub8(vy, vx)).with_v(f, if vy >= vx { 1 } else { 0 }))
    } else if ins.n == 0xE {
        let t = s.with_v(f, (vx >> 7u8) & 1);
        ran(t.with_v(x, t.v[x] << 1u8))
    } else {
        Ok((s, Status::Unrecognized(op)))
    }
}

/// Family D: clear VF, draw the `n` bytes at I as a sprite at (Vx mod 64,
/// Vy mod 32), and set VF when a set pixel was turned off.
pub open spec fn draw_spec(s: Machine, op: u16) -> Result<(Machine, Status), Fault> {
    let ins = decoded(op);
    if s.i + ins.n > MEMORY_SIZE {
        Err(Fault::MemoryOutOfBounds)
    } else {
        let t = s.with_v(FLAG as int, 0);
        let x0 = t.v[ins.x as int] & 63;
        let y0 = t.v[ins.y as int] & 31;
        let sprite = s.memory.subrange(s.i as int, s.i + ins.n);
        let drawn = t.with_screen(t.screen.drawn(x0, y0 as int, sprite));
        if t.screen.draw_hits(x0, y0 as int, sprite) {
            ran(drawn.with_v(FLAG as int, 1))
        } else {
            ran(drawn)
        }
    }
}

/// Family E: skip on the pressed key being, or not being, Vx.
pub open spec fn key_spec(s: Machine, op: u16) -> Result<(Machine, Status), Fault> {
    let ins = decoded(op);
    let vx = s.v[ins.x as int];
    if ins.nn == 0x9E {
        ran(s.skip_if(s.input == Some(vx)))
    } else if ins.nn == 0xA1 {
        ran(s.skip_if(s.input != Some(vx)))
    } else {
        Ok((s, Status::Unrecognized(op)))
    }
}

/// Family F: timers, key-wait, index arithmetic, font lookup, decimal
/// digits, and register block store and load.
pub open spec fn misc_spec(s: Machine, op: u16) -> Result<(Machine, Status), Fault> {
    let ins = decoded(op);
    let x = ins.x as int;
    let vx = s.v[x];
    if ins.nn == 0x07 {
        ran(s.with_v(x, s.dt))
    } else if ins.nn == 0x0A {
        match s.input {
            Some(k) => ran(s.with_v(x, k)),
            None => Ok((Machine { pc: (s.pc - 2) as u16, ..s }, Status::AwaitingKey)),
        }
    } else if ins.nn == 0x15 {
        ran(Machine { dt: vx, ..s })
    } else if ins.nn == 0x18 {
        ran(Machine { st: vx, ..s })
    } else if ins.nn == 0x1E {
        let sum = s.i + vx;
        let res: u16 = if sum > 0xFFFF {
            (sum - 0x10000) as u16
        } else {
            sum as u16
        };
        let t = if s.index_overflow_flag && (res >= 0xFFF || sum > 0xFFFF) {
            s.with_v(FLAG as int, 1)
        } else {
            s
        };
        ran(Machine { i: res, ..t })
    } else if ins.nn == 0x29 {
        ran(Machine { i: (FONT_START + 5 * vx) as u16, ..s })
    } else if ins.nn == 0x33 {
        if s.i + 2 >= MEMORY_SIZE {
            Err(Fault::MemoryOutOfBounds)
        } else {
            let a = s.i as int;
            ran(
                Machine {
                    memory: s.memory.update(a, vx / 100).update(a + 1, (vx / 10) % 10).update(
                        a + 2,
                        vx % 10,
                    ),
                    ..s
                },
            )
        }
    } else if ins.nn == 0x55 {
        if s.i + x >= MEMORY_SIZE {
            Err(Fault::MemoryOutOfBounds)
        } else {
            ran(Machine { memory: stored(s.memory, s.v, s.i as int, x), ..s })
        }
    } else if ins.nn == 0x65 {
        if s.i + x >= MEMORY_SIZE {
            Err(Fault::MemoryOutOfBounds)
        } else {
            ran(Machine { v: loaded(s.v, s.memory, s.i as int, x), ..s })
        }
    } else {
        Ok((s, Status::Unrecognized(op)))
    }
}

/// The effect of executing `op` in state `s`, whose program counter already
/// points past it. `random` is the byte that a random instruction draws.
pub open spec fn execute_spec(s: Machine, op: u16, random: u8) -> Result<(Machine, Status), Fault> {
    let ins = decoded(op);
    let x = ins.x as int;
    let vx = s.v[x];
    let vy = s.v[ins.y as int];
    if ins.family == 0 {
        system_spec(s, op)
    } else if ins.family == 1 {
        ran(Machine { pc: ins.nnn, ..s })
    } else if ins.family == 2 {
        ran(Machine { stack: s.stack.push(s.pc), pc: ins.nnn, ..s })
    } else if ins.family == 3 {
        ran(s.skip_if(vx == ins.nn))
    } else if ins.family == 4 {
        ran(s.skip_if(vx != ins.nn))
    } else if ins.family == 5 {
        ran(s.skip_if(vx == vy))
    } else if ins.family == 6 {
        ran(s.with_v(x, ins.nn))
    } else if ins.family == 7 {
        ran(s.with_v(x, add8(vx, ins.nn)))
    } else if ins.family == 8 {
        alu_spec(s, op)
    } else if ins.family == 9 {
        ran(s.skip_if(vx != vy))
    } else if ins.family == 0xA {
        ran(Machine { i: ins.nnn, ..s })
    } else if ins.family == 0xB {
        ran(Machine { pc: (ins.nnn + vx) as u16, ..s })
    } else if ins.family == 0xC {
        ran(s.with_v(x, random & ins.nn))
    } else if ins.family == 0xD {
        draw_spec(s, op)
    } else if ins.family == 0xE {
        key_spec(s, op)
    } else {
        misc_spec(s, op)
    }
}

/// The big-endian instruction word at the program counter.
pub open spec fn fetched(s: Machine) -> u16 {
    (s.memory[s.pc as int] as int * 0x100 + s.memory[s.pc + 1] as int) as u16
}

/// One fetch/decode/execute cycle. A program counter that does not address
/// two bytes of memory is a fault.
pub open spec fn step_spec(s: Machine, random: u8) -> Result<(Machine, Status), Fault> {
    if s.pc + 1 >= MEMORY_SIZE {
        Err(Fault::PcOutOfBounds)
    } else {
        execute_spec(Machine { pc: (s.pc + 2) as u16, ..s }, fetched(s), random)
    }
}

/// One cycle followed by one count-down of the timers.
pub open spec fn tick_spec(s: Machine, random: u8) -> Result<(Machine, Status), Fault> {
    match step_spec(s, random) {
        Ok((t, status)) => Ok((t.timers_ticked(), status)),
        Err(f) => Err(f),
    }
}

/// The state after `n` count-downs of the timers.
pub open spec fn timers_ticked_n(s: Machine, n: nat) -> Machine
    decreases n,
{
    if n == 0 {
        s
    } else {
        timers_ticked_n(s, (n - 1) as nat).timers_ticked()
    }
}

proof fn lemma_timers_only(s: Machine, n: nat)
    ensures
        timers_ticked_n(s, n) == (Machine {
            dt: timers_ticked_n(s, n).dt,
            st: timers_ticked_n(s, n).st,
            ..s
        }),
    decreases n,
{
    if n > 0 {
        lemma_timers_only(s, (n - 1) as nat);
    }
}

/// A clear instruction leaves every pixel of the active plane unset.
pub proof fn lemma_clear_blanks(s: Machine, random: u8)
    requires
        s.wf(),
    ensures
        execute_spec(s, 0x00E0, random) == ran(s.with_screen(s.screen.cleared())),
        forall|x: int, y: int|
            0 <= x < s.screen.width() && 0 <= y < s.screen.height() ==> !#[trigger] s.screen.cleared().pixel(
                x,
                y,
            ),
{
    let op: u16 = 0x00E0;
    assert(op >> 12u16 == 0 && op & 0xFFF == 0x0E0) by (bit_vector)
        requires
            op == 0x00E0,
    ;
    let w = s.screen.width();
    assert forall|x: int, y: int|
        0 <= x < w && 0 <= y < s.screen.height() implies !#[trigger] s.screen.cleared().pixel(x, y) by {
        let k: u32 = (w - 1 - x) as u32;
        assert((0u128 >> k) & 1 == 0) by (bit_vector);
    }
}

/// A call to `target` followed at once by a return comes back to the
/// instruction right after the call, with the call stack as it was before
/// the call and nothing else changed.
pub proof fn lemma_call_then_return(s: Machine, target: u16, r1: u8, r2: u8)
    requires
        s.wf(),
        s.pc + 1 < MEMORY_SIZE,
        target + 1 < MEMORY_SIZE,
        s.memory[s.pc as int] == 0x20 + target / 0x100,
        s.memory[s.pc + 1] == target % 0x100,
        s.memory[target as int] == 0x00,
        s.memory[target + 1] == 0xEE,
    ensures
        step_spec(s, r1) == ran(
            Machine { pc: target, stack: s.stack.push((s.pc + 2) as u16), ..s },
        ),
        step_spec(Machine { pc: target, stack: s.stack.push((s.pc + 2) as u16), ..s }, r2) == ran(
            Machine { pc: (s.pc + 2) as u16, ..s },
        ),
{
    let call = fetched(s);
    assert(call == 0x2000 + target);
    assert(call >> 12u16 == 2 && call & 0xFFF == target) by (bit_vector)
        requires
            call == 0x2000 + target,
            target < 0x1000,
    ;
    let inside = Machine { pc: target, stack: s.stack.push((s.pc + 2) as u16), ..s };
    assert(fetched(inside) == 0x00EE);
    let ret: u16 = 0x00EE;
    assert(ret >> 12u16 == 0 && ret & 0xFFF == 0x0EE) by (bit_vector)
        requires
            ret == 0x00EE,
    ;
    assert(inside.stack.drop_last() =~= s.stack);
}

/// A key-wait with no key pressed leaves the machine exactly as it was, so
/// it keeps waiting on the same instruction for as many steps as no key
/// comes. Once a key is pressed, Vx receives its code and the program
/// counter moves just past the waiting instruction.
pub proof fn lemma_key_wait(s: Machine, x: u8, random: u8)
    requires
        s.wf(),
        x < 16,
        s.pc + 1 < MEMORY_SIZE,
        s.memory[s.pc as int] == 0xF0 + x,
        s.memory[s.pc + 1] == 0x0A,
    ensures
        s.input is None ==> step_spec(s, random) == Ok::<(Machine, Status), Fault>(
            (s, Status::AwaitingKey),
        ),
        s.input matches Some(k) ==> step_spec(s, random) == ran(
            Machine { pc: (s.pc + 2) as u16, ..s }.with_v(x as int, k),
        ),
{
    let op = fetched(s);
    assert(op == 0xF00A + x * 0x100);
    assert(op >> 12u16 == 0xF && (op >> 8u16) & 0xF == x && op & 0xFF == 0x0A) by (bit_vector)
        requires
            op == 0xF00A + x * 0x100,
            x < 16,
    ;
}

/// With no key pressed, ticking a key-wait any number of times only counts
/// the timers down: each tick waits again, and the program counter stays on
/// the waiting instruction.
pub proof fn lemma_key_wait_ticks(s: Machine, x: u8, n: nat, random: u8)
    requires
        s.wf(),
        x < 16,
        s.pc + 1 < MEMORY_SIZE,
        s.memory[s.pc as int] == 0xF0 + x,
        s.memory[s.pc + 1] == 0x0A,
        s.input is None,
    ensures
        timers_ticked_n(s, n).pc == s.pc,
        tick_spec(timers_ticked_n(s, n), random) == Ok::<(Machine, Status), Fault>(
            (timers_ticked_n(s, n + 1), Status::AwaitingKey),
        ),
    decreases n,
{
    if n > 0 {
        lemma_key_wait_ticks(s, x, (n - 1) as nat, random);
    }
    lemma_timers_only(s, n);
    lemma_key_wait(timers_ticked_n(s, n), x, random);
}

} // verus!
