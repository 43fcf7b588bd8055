//! The executable interpreter. Every method is proved against the spec
//! functions of `machine`.

use vstd::prelude::*;
use crate::bridge::{keypad_code, keypad_spec, tone_change, tone_spec, Key, Tone};
use crate::display::{Display, Screen};
use crate::machine::{
    alu_spec,
    boot_memory,
    decode,
    draw_spec,
    execute_spec,
    fetched,
    follows,
    font,
    key_spec,
    loaded,
    misc_spec,
    step_spec,
    stored,
    system_spec,
    tick_spec,
    Fault,
    LoadError,
    Machine,
    Status,
    FLAG,
    FONT_SIZE,
    FONT_START,
    MAX_PROGRAM_SIZE,
    MEMORY_SIZE,
    PROGRAM_START,
    REGISTER_COUNT,
};

verus! {

/// A CHIP-8 virtual machine together with the framebuffer it owns.
#[derive(Debug)]
pub struct Chip8 {
    display: Display,
    input: Option<u8>,
    memory: Vec<u8>,
    pc: u16,
    i: u16,
    stack: Vec<u16>,
    v: Vec<u8>,
    dt: u8,
    st: u8,
    index_overflow_flag: bool,
}

impl View for Chip8 {
    type V = Machine;

    closed spec fn view(&self) -> Machine {
        Machine {
            memory: self.memory@,
            v: self.v@,
            pc: self.pc,
            i: self.i,
            stack: self.stack@,
            dt: self.dt,
            st: self.st,
            input: self.input,
            screen: self.display@,
            index_overflow_flag: self.index_overflow_flag,
        }
    }
}

/// Relies on rand::random for a byte drawn from the thread-local generator.
/// Nothing is promised of its value. (It panics only if the operating
/// system's entropy source fails when the generator is first seeded.)
#[verifier::external_body]
fn random_byte() -> (r: u8) {
    rand::random::<u8>()
}

/// The font glyphs in order.
fn font_bytes() -> (r: Vec<u8>)
    ensures
        r@ == font(),
{
    let r = vec![
        0xF0u8, 0x90, 0x90, 0x90, 0xF0,
        0x20, 0x60, 0x20, 0x20, 0x70,
        0xF0, 0x10, 0xF0, 0x80, 0xF0,
        0xF0, 0x10, 0xF0, 0x10, 0xF0,
        0x90, 0x90, 0xF0, 0x10, 0x10,
        0xF0, 0x80, 0xF0, 0x10, 0xF0,
        0xF0, 0x80, 0xF0, 0x90, 0xF0,
        0xF0, 0x10, 0x20, 0x40, 0x40,
        0xF0, 0x90, 0xF0, 0x90, 0xF0,
        0xF0, 0x90, 0xF0, 0x10, 0xF0,
        0xF0, 0x90, 0xF0, 0x90, 0x90,
        0xE0, 0x90, 0xE0, 0x90, 0xE0,
        0xF0, 0x80, 0x80, 0x80, 0xF0,
        0xE0, 0x90, 0x90, 0x90, 0xE0,
        0xF0, 0x80, 0xF0, 0x80, 0xF0,
        0xF0, 0x80, 0xF0, 0x80, 0x80,
    ];
    assert(r@ =~= font());
    r
}

impl Chip8 {
    /// A machine with `program` loaded at `PROGRAM_START` and the font at
    /// `FONT_START`, all registers, timers and I at zero, an empty stack, no
    /// key pressed, a blank standard-mode screen, and the index overflow flag
    /// on. An empty program, or one larger than `MAX_PROGRAM_SIZE`, is refused.
    pub fn new(program: &[u8]) -> (r: Result<Chip8, LoadError>)
        ensures
            program@.len() == 0 <==> r == Err::<Chip8, LoadError>(LoadError::EmptyProgram),
            program@.len() > MAX_PROGRAM_SIZE <==> r == Err::<Chip8, LoadError>(
                LoadError::ProgramTooLarge,
            ),
            r matches Ok(c) ==> c@ == Machine::boot(program@) && c@.wf(),
    {
        if program.len() == 0 {
            return Err(LoadError::EmptyProgram);
        }
        if program.len() > MAX_PROGRAM_SIZE {
            return Err(LoadError::ProgramTooLarge);
        }
        let glyphs = font_bytes();
        let mut memory: Vec<u8> = Vec::new();
        let mut a: usize = 0;
        while a < MEMORY_SIZE
            invariant
                0 < program@.len() <= MAX_PROGRAM_SIZE,
                glyphs@ == font(),
                a <= MEMORY_SIZE,
                memory@.len() == a,
                forall|b: int| 0 <= b < a ==> #[trigger] memory@[b] == boot_memory(program@)[b],
            decreases MEMORY_SIZE - a,
        {
            let byte = if FONT_START <= a && a < FONT_START + FONT_SIZE {
                glyphs[a - FONT_START]
            } else if PROGRAM_START <= a && a < PROGRAM_START + program.len() {
                program[a - PROGRAM_START]
            } else {
                0
            };
            memory.push(byte);
            a += 1;
        }
        assert(memory@ =~= boot_memory(program@));
        let mut v: Vec<u8> = Vec::new();
        let mut r: usize = 0;
        while r < REGISTER_COUNT
            invariant
                r <= REGISTER_COUNT,
                v@ == Seq::new(r as nat, |k: int| 0u8),
            decreases REGISTER_COUNT - r,
        {
            v.push(0);
            r += 1;
            assert(v@ =~= Seq::new(r as nat, |k: int| 0u8));
        }
        let chip = Chip8 {
            display: Display::new(),
            input: None,
            memory,
            pc: PROGRAM_START as u16,
            i: 0,
            stack: Vec::new(),
            v,
            dt: 0,
            st: 0,
            index_overflow_flag: true,
        };
        assert(chip@.stack =~= Seq::<u16>::empty());
        Ok(chip)
    }

    /// Reads the big-endian instruction word at the program counter and
    /// moves the counter past it. Fails, changing nothing, when the counter
    /// does not address two bytes of memory.
    pub fn fetch(&mut self) -> (r: Result<u16, Fault>)
        requires
            old(self)@.wf(),
        ensures
            old(self)@.pc + 1 >= MEMORY_SIZE ==> r == Err::<u16, Fault>(Fault::PcOutOfBounds)
                && final(self)@ == old(self)@,
            old(self)@.pc + 1 < MEMORY_SIZE ==> r == Ok::<u16, Fault>(fetched(old(self)@))
                && final(self)@ == (Machine { pc: (old(self)@.pc + 2) as u16, ..old(self)@ }),
    {
        let at = self.pc as usize;
        if at + 1 >= MEMORY_SIZE {
            return Err(Fault::PcOutOfBounds);
        }
        self.pc = self.pc + 2;
        Ok((self.memory[at] as u16) * 0x100 + self.memory[at + 1] as u16)
    }

    /// Writes `value` into register `r`.
    fn set_v(&mut self, r: usize, value: u8)
        requires
            old(self)@.wf(),
            r < REGISTER_COUNT,
        ensures
            final(self)@ == old(self)@.with_v(r as int, value),
            final(self)@.wf(),
    {
        self.v.set(r, value);
    }

    /// Skips the next instruction when `cond` holds.
    fn skip_if(&mut self, cond: bool)
        requires
            old(self)@.pc <= MEMORY_SIZE,
        ensures
            final(self)@ == old(self)@.skip_if(cond),
    {
        if cond {
            self.pc = self.pc + 2;
        }
    }

    /// Family 0: clear, return, resolution switches and scrolls.
    fn exec_system(&mut self, op: u16) -> (r: Result<Status, Fault>)
        requires
            old(self)@.wf(),
        ensures
            final(self)@.wf(),
            follows(old(self)@, final(self)@, r, system_spec(old(self)@, op)),
    {
        let ins = decode(op);
        if ins.nnn == 0x0E0 {
            self.display.clear();
        } else if ins.nnn == 0x0EE {
            match self.stack.pop() {
                Some(to) => {
                    self.pc = to;
                },
                None => {
                    return Err(Fault::StackUnderflow);
                },
            }
        } else if ins.nnn == 0x0FE {
            self.display.set_mode(false);
        } else if ins.nnn == 0x0FF {
            self.display.set_mode(true);
        } else if 0x0C0 <= ins.nnn && ins.nnn <= 0x0CF {
            self.display.scroll_down(ins.n as usize);
        } else if ins.nnn == 0x0FB {
            self.display.scroll_right();
        } else if ins.nnn == 0x0FC {
            self.display.scroll_left();
        } else {
            return Ok(Status::Unrecognized(op));
        }
        Ok(Status::Ran)
    }

    /// Family 8: register-to-register arithmetic and logic.
    fn exec_alu(&mut self, op: u16) -> (r: Result<Status, Fault>)
        requires
            old(self)@.wf(),
        ensures
            final(self)@.wf(),
            follows(old(self)@, final(self)@, r, alu_spec(old(self)@, op)),
    {
        let ins = decode(op);
        let x = ins.x as usize;
        let vx = self.v[x];
        let vy = self.v[ins.y as usize];
        if ins.n == 0 {
            self.set_v(x, vy);
        } else if ins.n == 1 {
            self.set_v(x, vx | vy);
        } else if ins.n == 2 {
            self.set_v(x, vx & vy);
        } else if ins.n == 3 {
            self.set_v(x, vx ^ vy);
        } else if ins.n == 4 {
            let sum = vx.wrapping_add(vy);
            self.set_v(x, sum);
            self.set_v(FLAG, if sum < vx { 1 } else { 0 });
        } else if ins.n == 5 {
            self.set_v(x, vx.wrapping_sub(vy));
            self.set_v(FLAG, if vx >= vy { 1 } else { 0 });
        } else if ins.n == 6 {
            self.set_v(FLAG, vx & 1);
            let shifted = self.v[x] >> 1u8;
            self.set_v(x, shifted);
        } else if ins.n == 7 {
            self.set_v(x, vy.wrapping_sub(vx));
            self.set_v(FLAG, if vy >= vx { 1 } else { 0 });
        } else if ins.n == 0xE {
            self.set_v(FLAG, (vx >> 7u8) & 1);
            let shifted = self.v[x] << 1u8;
            self.set_v(x, shifted);
        } else {
            return Ok(Status::Unrecognized(op));
        }
        Ok(Status::Ran)
    }

    /// Family D: draws the `n` bytes at I as a sprite.
    fn exec_draw(&mut self, op: u16) -> (r: Result<Status, Fault>)
        requires
            old(self)@.wf(),
        ensures
            final(self)@.wf(),
            follows(old(self)@, final(self)@, r, draw_spec(old(self)@, op)),
    {
        let ins = decode(op);
        let n = ins.n as usize;
        let start = self.i as usize;
        if start + n > MEMORY_SIZE {
            return Err(Fault::MemoryOutOfBounds);
        }
        self.set_v(FLAG, 0);
        let x0 = self.v[ins.x as usize] & 63;
        let y0 = self.v[ins.y as usize] & 31;
        let mut sprite: Vec<u8> = Vec::new();
        let mut k: usize = 0;
        while k < n
            invariant
                self@.wf(),
                start + n <= MEMORY_SIZE,
                k <= n,
                sprite@ == self@.memory.subrange(start as int, start + k),
            decreases n - k,
        {
            sprite.push(self.memory[start + k]);
            k += 1;
            assert(sprite@ =~= self@.memory.subrange(start as int, start + k));
        }
        let hit = self.display.draw(x0, y0 as usize, sprite);
        if hit {
            self.set_v(FLAG, 1);
        }
        Ok(Status::Ran)
    }

    /// Family E: skips on the pressed key.
    fn exec_keys(&mut self, op: u16) -> (r: Result<Status, Fault>)
        requires
            old(self)@.wf(),
            old(self)@.pc <= MEMORY_SIZE,
        ensures
            final(self)@.wf(),
            follows(old(self)@, final(self)@, r, key_spec(old(self)@, op)),
    {
        let ins = decode(op);
        let vx = self.v[ins.x as usize];
        let pressed = match self.input {
            Some(k) => k == vx,
            None => false,
        };
        if ins.nn == 0x9E {
            self.skip_if(pressed);
        } else if ins.nn == 0xA1 {
            self.skip_if(!pressed);
        } else {
            return Ok(Status::Unrecognized(op));
        }
        Ok(Status::Ran)
    }

    /// Family F: timers, key-wait, index arithmetic, font lookup, decimal
    /// digits, and register block store and load.
    fn exec_misc(&mut self, op: u16) -> (r: Result<Status, Fault>)
        requires
            old(self)@.wf(),
            2 <= old(self)@.pc,
        ensures
            final(self)@.wf(),
            follows(old(self)@, final(self)@, r, misc_spec(old(self)@, op)),
    {
        let ins = decode(op);
        let x = ins.x as usize;
        let vx = self.v[x];
        if ins.nn == 0x07 {
            let dt = self.dt;
            self.set_v(x, dt);
        } else if ins.nn == 0x0A {
            match self.input {
                Some(k) => {
                    self.set_v(x, k);
                },
                None => {
                    self.pc = self.pc - 2;
                    return Ok(Status::AwaitingKey);
                },
            }
        } else if ins.nn == 0x15 {
            self.dt = vx;
        } else if ins.nn == 0x18 {
            self.st = vx;
        } else if ins.nn == 0x1E {
            let res = self.i.wrapping_add(vx as u16);
            if self.index_overflow_flag && (res >= 0xFFF || res < self.i) {
                self.set_v(FLAG, 1);
            }
            self.i = res;
        } else if ins.nn == 0x29 {
            self.i = FONT_START as u16 + 5 * vx as u16;
        } else if ins.nn == 0x33 {
            let a = self.i as usize;
            if a + 2 >= MEMORY_SIZE {
                return Err(Fault::MemoryOutOfBounds);
            }
            self.memory.set(a, vx / 100);
            self.memory.set(a + 1, (vx / 10) % 10);
            self.memory.set(a + 2, vx % 10);
        } else if ins.nn == 0x55 {
            let a = self.i as usize;
            if a + x >= MEMORY_SIZE {
                return Err(Fault::MemoryOutOfBounds);
            }
            let ghost before = self@;
            let mut r: usize = 0;
            while r <= x
                invariant
                    self@.wf(),
                    x < REGISTER_COUNT,
                    a == before.i,
                    a + x < MEMORY_SIZE,
                    r <= x + 1,
                    self@ == (Machine { memory: self@.memory, ..before }),
                    self@.memory == Seq::new(
                        MEMORY_SIZE as nat,
                        |b: int| if a <= b < a + r { before.v[b - a] } else { before.memory[b] },
                    ),
                decreases x + 1 - r,
            {
                let value = self.v[r];
                self.memory.set(a + r, value);
                r += 1;
                assert(self@.memory =~= Seq::new(
                    MEMORY_SIZE as nat,
                    |b: int| if a <= b < a + r { before.v[b - a] } else { before.memory[b] },
                ));
            }
            assert(self@.memory =~= stored(before.memory, before.v, a as int, x as int));
        } else if ins.nn == 0x65 {
            let a = self.i as usize;
            if a + x >= MEMORY_SIZE {
                return Err(Fault::MemoryOutOfBounds);
            }
            let ghost before = self@;
            let mut r: usize = 0;
            while r <= x
                invariant
                    self@.wf(),
                    x < REGISTER_COUNT,
                    a == before.i,
                    a + x < MEMORY_SIZE,
                    r <= x + 1,
                    self@ == (Machine { v: self@.v, ..before }),
                    self@.v == Seq::new(
                        REGISTER_COUNT as nat,
                        |k: int| if k < r { before.memory[a + k] } else { before.v[k] },
                    ),
                decreases x + 1 - r,
            {
                let value = self.memory[a + r];
                self.set_v(r, value);
                r += 1;
                assert(self@.v =~= Seq::new(
                    REGISTER_COUNT as nat,
                    |k: int| if k < r { before.memory[a + k] } else { before.v[k] },
                ));
            }
            assert(self@.v =~= loaded(before.v, before.memory, a as int, x as int));
        } else {
            return Ok(Status::Unrecognized(op));
        }
        Ok(Status::Ran)
    }

    /// Executes `op`, whose address the program counter has already moved
    /// past. `random` is the byte a random instruction draws.
    fn execute(&mut self, op: u16, random: u8) -> (r: Result<Status, Fault>)
        requires
            old(self)@.wf(),
            2 <= old(self)@.pc <= MEMORY_SIZE,
        ensures
            final(self)@.wf(),
            follows(old(self)@, final(self)@, r, execute_spec(old(self)@, op, random)),
    {
        let ins = decode(op);
        let x = ins.x as usize;
        let vx = self.v[x];
        let vy = self.v[ins.y as usize];
        if ins.family == 0 {
            return self.exec_system(op);
        } else if ins.family == 1 {
            self.pc = ins.nnn;
        } else if ins.family == 2 {
            self.stack.push(self.pc);
            self.pc = ins.nnn;
        } else if ins.family == 3 {
            self.skip_if(vx == ins.nn);
        } else if ins.family == 4 {
            self.skip_if(vx != ins.nn);
        } else if ins.family == 5 {
            self.skip_if(vx == vy);
        } else if ins.family == 6 {
            self.set_v(x, ins.nn);
        } else if ins.family == 7 {
            self.set_v(x, vx.wrapping_add(ins.nn));
        } else if ins.family == 8 {
            return self.exec_alu(op);
        } else if ins.family == 9 {
            self.skip_if(vx != vy);
        } else if ins.family == 0xA {
            self.i = ins.nnn;
        } else if ins.family == 0xB {
            self.pc = ins.nnn + vx as u16;
        } else if ins.family == 0xC {
            self.set_v(x, random & ins.nn);
        } else if ins.family == 0xD {
            return self.exec_draw(op);
        } else if ins.family == 0xE {
            return self.exec_keys(op);
        } else {
            return self.exec_misc(op);
        }
        Ok(Status::Ran)
    }

    /// One fetch/decode/execute cycle; `random` is the byte a random
    /// instruction draws. A fault leaves the machine as it was.
    pub fn step(&mut self, random: u8) -> (r: Result<Status, Fault>)
        requires
            old(self)@.wf(),
        ensures
            final(self)@.wf(),
            follows(old(self)@, final(self)@, r, step_spec(old(self)@, random)),
    {
        let start = self.pc;
        let op = match self.fetch() {
            Ok(op) => op,
            Err(f) => {
                return Err(f);
            },
        };
        let r = self.execute(op, random);
        if r.is_err() {
            self.pc = start;
        }
        r
    }

    /// Counts both timers down by one, stopping at zero.
    pub fn tick_timers(&mut self)
        ensures
            final(self)@ == old(self)@.timers_ticked(),
    {
        if self.dt > 0 {
            self.dt = self.dt - 1;
        }
        if self.st > 0 {
            self.st = self.st - 1;
        }
    }

    /// One cycle with `random` as the byte a random instruction draws, then
    /// one count-down of the timers. A fault leaves the machine as it was.
    pub fn tick_with(&mut self, random: u8) -> (r: Result<Status, Fault>)
        requires
            old(self)@.wf(),
        ensures
            final(self)@.wf(),
            follows(old(self)@, final(self)@, r, tick_spec(old(self)@, random)),
    {
        let r = self.step(random);
        if r.is_ok() {
            self.tick_timers();
        }
        r
    }

    /// One cycle, drawing a fresh random byte, then one count-down of the
    /// timers. A fault leaves the machine as it was.
    pub fn tick(&mut self) -> (r: Result<Status, Fault>)
        requires
            old(self)@.wf(),
        ensures
            final(self)@.wf(),
            exists|random: u8| follows(old(self)@, final(self)@, r, #[trigger] tick_spec(old(self)@, random)),
    {
        let random = random_byte();
        self.tick_with(random)
    }

    /// Takes the latest keyboard event: the keypad code of `key` becomes the
    /// pressed key, replacing whatever was there; no event, or a key that
    /// stands for no code, leaves no key pressed.
    pub fn get_input(&mut self, key: Option<Key>)
        requires
            old(self)@.wf(),
        ensures
            final(self)@ == (Machine {
                input: match key {
                    Some(k) => keypad_spec(k),
                    None => None,
                },
                ..old(self)@
            }),
            final(self)@.wf(),
    {
        self.input = match key {
            Some(k) => keypad_code(k),
            None => None,
        };
    }

    /// What the audio device that is `playing` should do: the tone sounds
    /// while the sound timer is above zero.
    pub fn beep(&self, playing: bool) -> (r: Tone)
        ensures
            r == tone_spec(self@.st > 0, playing),
    {
        tone_change(self.st > 0, playing)
    }

    /// When the screen changed since it was last rendered, hands out the
    /// active plane and marks the screen clean; otherwise hands out nothing.
    pub fn render(&mut self) -> (r: Option<Vec<Vec<bool>>>)
        requires
            old(self)@.wf(),
        ensures
            final(self)@.wf(),
            old(self)@.screen.changed ==> (r matches Some(frame) && old(self)@.screen.shows(frame@))
                && final(self)@ == (Machine {
                    screen: Screen { changed: false, ..old(self)@.screen },
                    ..old(self)@
                }),
            !old(self)@.screen.changed ==> r is None && final(self)@ == old(self)@,
    {
        if self.display.changed() {
            Some(self.display.render())
        } else {
            None
        }
    }

    /// Turns on or off the quirk by which adding to I sets VF when I reaches
    /// 0xFFF or wraps.
    pub fn set_index_overflow_flag(&mut self, on: bool)
        ensures
            final(self)@ == (Machine { index_overflow_flag: on, ..old(self)@ }),
    {
        self.index_overflow_flag = on;
    }

    /// The framebuffer.
    pub fn display(&self) -> (r: &Display)
        ensures
            r@ == self@.screen,
    {
        &self.display
    }

    /// Register V`r`.
    pub fn register(&self, r: usize) -> (value: u8)
        requires
            self@.wf(),
            r < REGISTER_COUNT,
        ensures
            value == self@.v[r as int],
    {
        self.v[r]
    }

    /// The byte at `address`, or `None` past the end of memory.
    pub fn memory_at(&self, address: usize) -> (r: Option<u8>)
        ensures
            r == if address < self@.memory.len() {
                Some(self@.memory[address as int])
            } else {
                None
            },
    {
        if address < self.memory.len() {
            Some(self.memory[address])
        } else {
            None
        }
    }

    /// The program counter.
    pub fn pc(&self) -> (r: u16)
        ensures
            r == self@.pc,
    {
        self.pc
    }

    /// The index register I.
    pub fn index(&self) -> (r: u16)
        ensures
            r == self@.i,
    {
        self.i
    }

    /// How many return addresses the call stack holds.
    pub fn stack_depth(&self) -> (r: usize)
        ensures
            r == self@.stack.len(),
    {
        self.stack.len()
    }

    /// The delay timer.
    pub fn delay_timer(&self) -> (r: u8)
        ensures
            r == self@.dt,
    {
        self.dt
    }

    /// The sound timer.
    pub fn sound_timer(&self) -> (r: u8)
        ensures
            r == self@.st,
    {
        self.st
    }

    /// The pressed key, if any.
    pub fn key(&self) -> (r: Option<u8>)
        ensures
            r == self@.input,
    {
        self.input
    }
}

} // verus!
