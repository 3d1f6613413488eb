//! The executable machine.
//!
//! `VM` holds the state in arrays and vectors; its view is the `Machine` of
//! the model, and every method says what it does in terms of that view.

use crate::decode::{
    bitmask4, imm8, least_significant_bit, merge_bytes, most_significant_bit, nibble1, nibble2,
    nibble3, nibble4, s_bitmask1, s_bitmask2, s_bitmask24, s_bitmask3, s_bitmask34, s_bitmask4,
};
use crate::font::{glyph_address, with_font, FONT, FONT_BASE, GLYPH_ROWS};
use crate::host::random_byte;
use crate::machine::{
    alu, can_execute, can_fetch, can_step, execute, fetch, keeps_running, load_registers, misc,
    power_on, sprite_at_index, step, step_outcome, store_registers, tick, Machine, FLAG,
    HALT_BOUND, MEMORY_SIZE, PROGRAM_START, TIMER_HZ,
};
use crate::screen::{blit, Screen};
use vstd::prelude::*;

verus! {

/// A CHIP-8 machine. Every field is open to the host, which loads memory,
/// feeds the key set and reads the screen between steps.
pub struct VM {
    pub memory: [u8; 4096],
    pub registers: [u8; 16],
    pub pc: u16,
    pub i: u16,
    pub stack: Vec<u16>,
    pub delay_timer: u8,
    pub sound_timer: u8,
    /// Number of steps between two timer ticks.
    pub timer_delay: u32,
    /// Steps counted since the last timer tick.
    pub timer_counter: u32,
    pub screen: Screen,
    pub will_draw: bool,
    pub keys_pressed: Vec<u8>,
    pub custom_info: Vec<String>,
}

impl View for VM {
    type V = Machine;

    open spec fn view(&self) -> Machine {
        Machine {
            memory: self.memory@,
            registers: self.registers@,
            pc: self.pc,
            i: self.i,
            stack: self.stack@,
            delay_timer: self.delay_timer,
            sound_timer: self.sound_timer,
            timer_delay: self.timer_delay,
            timer_counter: self.timer_counter,
            screen: self.screen@,
            will_draw: self.will_draw,
            keys_pressed: self.keys_pressed@,
            custom_info: self.custom_info@,
        }
    }
}

/// Instructions per second for which a machine is paced unless told
/// otherwise.
pub const DEFAULT_RATE: u32 = 500;

/// The screen after the glyph of each key in `keys` was drawn at (1, 1), in
/// order.
pub open spec fn keys_shown(screen: Seq<Seq<bool>>, memory: Seq<u8>, keys: Seq<u8>) -> Seq<
    Seq<bool>,
>
    decreases keys.len(),
{
    if keys.len() == 0 {
        screen
    } else {
        let glyph = glyph_address(keys.last() as int);
        blit(
            keys_shown(screen, memory, keys.drop_last()),
            1,
            1,
            memory.subrange(glyph, glyph + GLYPH_ROWS),
        )
    }
}

impl VM {
    /// A machine that was just switched on, paced for `freq` instructions per
    /// second.
    pub fn new_with_freq(freq: u32) -> (vm: VM)
        ensures
            vm@ == power_on(freq / TIMER_HZ),
    {
        let vm = VM {
            memory: [0;4096],
            registers: [0;16],
            pc: PROGRAM_START,
            i: 0,
            stack: Vec::new(),
            delay_timer: 0,
            sound_timer: 0,
            screen: Screen::new(),
            will_draw: true,
            keys_pressed: Vec::new(),
            custom_info: Vec::new(),
            timer_delay: freq / TIMER_HZ,
            timer_counter: 0,
        };
        assert(vm@ =~= power_on(freq / TIMER_HZ));
        vm
    }

    /// A machine that was just switched on, paced for `DEFAULT_RATE`
    /// instructions per second.
    pub fn new() -> (vm: VM)
        ensures
            vm@ == power_on(DEFAULT_RATE / TIMER_HZ),
    {
        VM::new_with_freq(DEFAULT_RATE)
    }

    /// Paces the timers for `freq` instructions per second.
    pub fn set_frequency(&mut self, freq: u32)
        ensures
            final(self)@ == (Machine { timer_delay: freq / TIMER_HZ, ..old(self)@ }),
    {
        self.timer_delay = freq / TIMER_HZ;
    }

    /// Replaces the whole memory by `rom`.
    pub fn load_rom(&mut self, rom: [u8; 4096])
        ensures
            final(self)@ == (Machine { memory: rom@, ..old(self)@ }),
    {
        self.memory = rom;
    }

    /// The instruction word at the program counter.
    pub fn get_instruction(&self) -> (instruction: u16)
        requires
            can_fetch(self@),
        ensures
            instruction == fetch(self@),
    {
        merge_bytes(self.memory[self.pc as usize], self.memory[self.pc as usize + 1])
    }

    /// Puts a return address on the stack.
    pub fn push_to_stack(&mut self, value: u16)
        ensures
            final(self)@ == (Machine { stack: old(self)@.stack.push(value), ..old(self)@ }),
    {
        self.stack.push(value);
    }

    /// Takes the most recent return address off the stack; 0 if there is
    /// none.
    pub fn pop_from_stack(&mut self) -> (value: u16)
        ensures
            old(self)@.stack.len() == 0 ==> value == 0 && final(self)@ == old(self)@,
            old(self)@.stack.len() > 0 ==> value == old(self)@.stack.last() && final(self)@ == (
            Machine { stack: old(self)@.stack.drop_last(), ..old(self)@ }),
    {
        self.stack.pop().unwrap_or(0)
    }

    /// Installs the font table in memory.
    pub fn init_font(&mut self)
        ensures
            final(self)@ == (Machine { memory: with_font(old(self)@.memory), ..old(self)@ }),
    {
        let mut i: usize = FONT_BASE;
        while i < FONT_BASE + 80
            invariant
                FONT_BASE <= i <= FONT_BASE + 80,
                self@ == (Machine {
                    memory: Seq::new(
                        4096,
                        |a: int|
                            if FONT_BASE <= a < i {
                                FONT[a - FONT_BASE]
                            } else {
                                old(self)@.memory[a]
                            },
                    ),
                    ..old(self)@
                }),
            decreases FONT_BASE + 80 - i,
        {
            self.memory[i] = FONT[i - FONT_BASE];
            i += 1;
        }
    }

    /// The five sprite rows that memory holds for the glyph of `byte`.
    pub fn get_font_sprite_of_byte(&self, byte: u8) -> (sprite: Vec<u8>)
        ensures
            sprite@ == self@.memory.subrange(
                glyph_address(byte as int),
                glyph_address(byte as int) + GLYPH_ROWS,
            ),
    {
        let mut sprite: Vec<u8> = Vec::new();
        let first: usize = FONT_BASE + GLYPH_ROWS * (byte as usize);
        let mut k: usize = 0;
        while k < GLYPH_ROWS
            invariant
                k <= GLYPH_ROWS,
                first == glyph_address(byte as int),
                sprite@ == self@.memory.subrange(first as int, first + k),
            decreases GLYPH_ROWS - k,
        {
            sprite.push(self.memory[first + k]);
            k += 1;
        }
        sprite
    }

    /// Whether `key` is among the keys that are held.
    pub fn is_key_pressed(&self, key: u8) -> (held: bool)
        ensures
            held == self@.keys_pressed.contains(key),
    {
        let mut k: usize = 0;
        while k < self.keys_pressed.len()
            invariant
                k <= self.keys_pressed@.len(),
                forall|j: int| 0 <= j < k ==> self.keys_pressed@[j] != key,
            decreases self.keys_pressed@.len() - k,
        {
            if self.keys_pressed[k] == key {
                return true;
            }
            k += 1;
        }
        false
    }

    /// Executes `instruction`, drawing a random byte where the instruction
    /// asks for one, and returns the address of the next instruction. The
    /// program counter itself is left as it was.
    pub fn execute_instruction(&mut self, instruction: u16) -> (next_pc: u16)
        requires
            can_execute(old(self)@, instruction),
        ensures
            exists|random: u8|
                {
                    &&& final(self)@ == (#[trigger] execute(
                        old(self)@,
                        instruction,
                        random,
                    )).machine
                    &&& next_pc == execute(old(self)@, instruction, random).next_pc
                },
    {
        let random: u8 = if s_bitmask1(instruction) == 0xC {
            random_byte()
        } else {
            0
        };
        self.execute_with_random(instruction, random)
    }

    /// Executes `instruction` with `random` as the byte that a random-number
    /// instruction draws, and returns the address of the next instruction.
    /// The program counter itself is left as it was.
    #[verifier::rlimit(30)]
    pub fn execute_with_random(&mut self, instruction: u16, random: u8) -> (next_pc: u16)
        requires
            can_execute(old(self)@, instruction),
        ensures
            final(self)@ == execute(old(self)@, instruction, random).machine,
            next_pc == execute(old(self)@, instruction, random).next_pc,
    {
        match s_bitmask1(instruction) {
            0x0 => match instruction {
                0x00E0 => {
                    self.screen.clear();
                    return self.pc + 2;
                },
                0x00EE => self.pop_from_stack() + 2,
                _ => self.pc + 2,
            },
            0x1 => s_bitmask24(instruction),
            0x2 => {
                self.push_to_stack(self.pc);
                return s_bitmask24(instruction);
            },
            0x3 => {
                if self.registers[s_bitmask2(instruction) as usize] == s_bitmask34(instruction) {
                    self.pc + 4
                } else {
                    self.pc + 2
                }
            },
            0x4 => {
                if self.registers[s_bitmask2(instruction) as usize] == s_bitmask34(instruction) {
                    self.pc + 2
                } else {
                    self.pc + 4
                }
            },
            0x5 => match bitmask4(instruction) {
                0x0 => {
                    if self.registers[s_bitmask2(instruction) as usize]
                        == self.registers[s_bitmask3(instruction) as usize] {
                        self.pc + 4
                    } else {
                        self.pc + 2
                    }
                },
                _ => self.pc + 2,
            },
            0x6 => {
                self.registers[s_bitmask2(instruction) as usize] = s_bitmask34(instruction);
                return self.pc + 2;
            },
            0x7 => {
                let x: usize = s_bitmask2(instruction) as usize;
                self.registers[x] = self.registers[x].wrapping_add(s_bitmask34(instruction));
                return self.pc + 2;
            },
            0x8 => {
                self.execute_alu(instruction);
                return self.pc + 2;
            },
            0x9 => match s_bitmask4(instruction) {
                0x0 => {
                    if self.registers[s_bitmask2(instruction) as usize]
                        == self.registers[s_bitmask3(instruction) as usize] {
                        self.pc + 2
                    } else {
                        self.pc + 4
                    }
                },
                _ => self.pc + 2,
            },
            0xA => {
                self.i = s_bitmask24(instruction);
                return self.pc + 2;
            },
            0xB => s_bitmask24(instruction) + self.registers[0x0] as u16,
            0xC => {
                self.registers[s_bitmask2(instruction) as usize] = random & s_bitmask34(
                    instruction,
                );
                return self.pc + 2;
            },
            0xD => {
                let mut sprite: Vec<u8> = Vec::new();
                let n: u8 = s_bitmask4(instruction);
                let mut k: u8 = 0;
                while k < n
                    invariant
                        k <= n,
                        n == 0 || self.i + n <= MEMORY_SIZE,
                        *self == *old(self),
                        sprite@ == sprite_at_index(self@, k as int),
                    decreases n - k,
                {
                    sprite.push(self.memory[(self.i + (k as u16)) as usize]);
                    k += 1;
                }
                let left: usize = self.registers[s_bitmask2(instruction) as usize] as usize;
                let top: usize = self.registers[s_bitmask3(instruction) as usize] as usize;
                self.registers[FLAG] = if self.screen.draw(left, top, sprite) {
                    1
                } else {
                    0
                };
                self.will_draw = true;
                return self.pc + 2;
            },
            0xE => match s_bitmask34(instruction) {
                0x9E => {
                    if self.is_key_pressed(self.registers[s_bitmask2(instruction) as usize]) {
                        self.pc + 4
                    } else {
                        self.pc + 2
                    }
                },
                0xA1 => {
                    if self.is_key_pressed(self.registers[s_bitmask2(instruction) as usize]) {
                        self.pc + 2
                    } else {
                        self.pc + 4
                    }
                },
                _ => self.pc + 2,
            },
            _ => self.execute_misc(instruction),
        }
    }

    /// The register-to-register instructions `8XYN`.
    #[verifier::rlimit(30)]
    fn execute_alu(&mut self, instruction: u16)
        requires
            old(self)@.wf(),
        ensures
            final(self)@ == alu(
                old(self)@,
                nibble2(instruction),
                nibble3(instruction),
                nibble4(instruction),
            ),
    {
        let x: usize = s_bitmask2(instruction) as usize;
        let y: usize = s_bitmask3(instruction) as usize;
        match s_bitmask4(instruction) {
            0x0 => {
                self.registers[x] = self.registers[y];
            },
            0x1 => {
                self.registers[x] = self.registers[x] | self.registers[y];
            },
            0x2 => {
                self.registers[x] = self.registers[x] & self.registers[y];
            },
            0x3 => {
                self.registers[x] = self.registers[x] ^ self.registers[y];
            },
            0x4 => {
                let vx: u8 = self.registers[x];
                let vy: u8 = self.registers[y];
                let result: u8 = vx.wrapping_add(vy);
                let overflow: bool = vy > u8::MAX - vx;
                self.registers[FLAG] = if overflow {
                    1
                } else {
                    0
                };
                self.registers[x] = result;
            },
            0x5 => {
                let vx: u8 = self.registers[x];
                let vy: u8 = self.registers[y];
                let result: u8 = vx.wrapping_sub(vy);
                let overflow: bool = vx < vy;
                self.registers[FLAG] = if overflow {
                    0
                } else {
                    1
                };
                self.registers[x] = result;
            },
            0x6 => {
                self.registers[FLAG] = least_significant_bit(self.registers[x]);
                let vx: u8 = self.registers[x];
                assert(vx >> 1 == vx / 2) by (bit_vector);
                self.registers[x] = vx >> 1;
            },
            0x7 => {
                let vx: u8 = self.registers[x];
                let vy: u8 = self.registers[y];
                let result: u8 = vy.wrapping_sub(vx);
                let overflow: bool = vy < vx;
                self.registers[FLAG] = if overflow {
                    0
                } else {
                    1
                };
                self.registers[x] = result;
            },
            0xE => {
                self.registers[FLAG] = most_significant_bit(self.registers[x]);
                let vx: u8 = self.registers[x];
                assert(vx << 1 == ((vx * 2) % 256) as u8) by (bit_vector);
                self.registers[x] = vx << 1;
            },
            _ => {},
        }
    }

    /// The instructions `FXNN`; returns the address of the next instruction.
    fn execute_misc(&mut self, instruction: u16) -> (next_pc: u16)
        requires
            can_execute(old(self)@, instruction),
            nibble1(instruction) == 0xF,
        ensures
            final(self)@ == misc(old(self)@, nibble2(instruction), imm8(instruction)).machine,
            next_pc == misc(old(self)@, nibble2(instruction), imm8(instruction)).next_pc,
    {
        let x: u8 = s_bitmask2(instruction);
        match s_bitmask34(instruction) {
            0x07 => {
                self.registers[x as usize] = self.delay_timer;
                return self.pc + 2;
            },
            0x0A => {
                if self.keys_pressed.is_empty() {
                    return self.pc;
                } else {
                    self.registers[x as usize] = self.keys_pressed.pop().unwrap();
                    return self.pc + 2;
                }
            },
            0x15 => {
                self.delay_timer = self.registers[x as usize];
                return self.pc + 2;
            },
            0x18 => {
                self.sound_timer = self.registers[x as usize];
                return self.pc + 2;
            },
            0x1E => {
                self.i = self.i.wrapping_add(self.registers[x as usize] as u16);
                return self.pc + 2;
            },
            0x29 => {
                let digit: u8 = self.registers[x as usize] % 16;
                self.i = (FONT_BASE + GLYPH_ROWS * (digit as usize)) as u16;
                return self.pc + 2;
            },
            0x33 => {
                let value: u8 = self.registers[x as usize];
                self.memory[self.i as usize] = value / 100;
                self.memory[self.i as usize + 1] = value / 10 % 10;
                self.memory[self.i as usize + 2] = value % 10;
                return self.pc + 2;
            },
            0x55 => {
                let mut k: u8 = 0;
                while k < x + 1
                    invariant
                        k <= x + 1,
                        x < 16,
                        self.i + x < MEMORY_SIZE,
                        self@ == (Machine {
                            memory: store_registers(
                                old(self)@.memory,
                                old(self)@.registers,
                                old(self)@.i as int,
                                k as int,
                            ),
                            ..old(self)@
                        }),
                        old(self)@.wf(),
                    decreases x + 1 - k,
                {
                    self.memory[(self.i + k as u16) as usize] = self.registers[k as usize];
                    k += 1;
                }
                return self.pc + 2;
            },
            0x65 => {
                let mut k: u8 = 0;
                while k < x + 1
                    invariant
                        k <= x + 1,
                        x < 16,
                        self.i + x < MEMORY_SIZE,
                        self@ == (Machine {
                            registers: load_registers(
                                old(self)@.registers,
                                old(self)@.memory,
                                old(self)@.i as int,
                                k as int,
                            ),
                            ..old(self)@
                        }),
                        old(self)@.wf(),
                    decreases x + 1 - k,
                {
                    self.registers[k as usize] = self.memory[(self.i + k as u16) as usize];
                    k += 1;
                }
                return self.pc + 2;
            },
            _ => self.pc + 2,
        }
    }

    /// Draws the glyph of every held key at (1, 1), in the order the keys
    /// were pushed.
    pub fn test_keys_and_screen(&mut self)
        ensures
            final(self)@ == (Machine {
                screen: keys_shown(
                    old(self)@.screen,
                    old(self)@.memory,
                    old(self)@.keys_pressed,
                ),
                ..old(self)@
            }),
    {
        let mut k: usize = 0;
        assert(self@.keys_pressed.take(0) =~= Seq::<u8>::empty());
        while k < self.keys_pressed.len()
            invariant
                k <= self.keys_pressed@.len(),
                self@ == (Machine {
                    screen: keys_shown(
                        old(self)@.screen,
                        old(self)@.memory,
                        old(self)@.keys_pressed.take(k as int),
                    ),
                    ..old(self)@
                }),
            decreases self.keys_pressed@.len() - k,
        {
            let key: u8 = self.keys_pressed[k];
            let sprite: Vec<u8> = self.get_font_sprite_of_byte(key);
            proof {
                let shown = old(self)@.keys_pressed.take(k + 1);
                assert(shown.drop_last() =~= old(self)@.keys_pressed.take(k as int));
                assert(shown.last() == key);
            }
            self.screen.draw(1, 1, sprite);
            k += 1;
        }
        assert(old(self)@.keys_pressed.take(k as int) =~= old(self)@.keys_pressed);
    }

    /// Whether `next` may be called: the program counter addresses an
    /// instruction in memory, and that instruction stays inside memory.
    pub fn can_step(&self) -> (ready: bool)
        ensures
            ready == can_step(self@),
    {
        if self.pc as usize + 1 >= MEMORY_SIZE {
            return false;
        }
        let instruction: u16 = self.get_instruction();
        let family: u8 = s_bitmask1(instruction);
        let i: usize = self.i as usize;
        if instruction == 0x00EE {
            self.stack.len() == 0 || self.stack[self.stack.len() - 1] <= u16::MAX - 2
        } else if family == 0xD {
            let n: usize = s_bitmask4(instruction) as usize;
            n == 0 || i + n <= MEMORY_SIZE
        } else if family == 0xF && s_bitmask34(instruction) == 0x33 {
            i + 2 < MEMORY_SIZE
        } else if family == 0xF && (s_bitmask34(instruction) == 0x55 || s_bitmask34(instruction)
            == 0x65) {
            i + (s_bitmask2(instruction) as usize) < MEMORY_SIZE
        } else {
            true
        }
    }

    /// One step of the machine: the timer tick, then the instruction at the
    /// program counter. Returns 1 if the machine is still running, and 0 if
    /// it halted because the next program counter exceeds `HALT_BOUND`.
    pub fn next(&mut self) -> (running: u8)
        requires
            can_step(old(self)@),
        ensures
            exists|random: u8|
                {
                    &&& final(self)@ == #[trigger] step(old(self)@, random)
                    &&& running == if keeps_running(old(self)@, random) {
                        1u8
                    } else {
                        0u8
                    }
                },
    {
        self.timer_counter = self.timer_counter.wrapping_add(1);
        if self.timer_counter == self.timer_delay {
            self.delay_timer = self.delay_timer.saturating_sub(1);
            self.sound_timer = self.sound_timer.saturating_sub(1);
            self.timer_counter = 0;
        }
        assert(self@ == tick(old(self)@));

        let instruction: u16 = self.get_instruction();
        let ghost ticked: Machine = self@;
        let new_pc: u16 = self.execute_instruction(instruction);
        let ghost random: u8 = choose|random: u8|
            {
                &&& self@ == (#[trigger] execute(ticked, instruction, random)).machine
                &&& new_pc == execute(ticked, instruction, random).next_pc
            };
        assert(execute(ticked, instruction, random) == step_outcome(old(self)@, random));

        if new_pc > HALT_BOUND {
            assert(self@ == step(old(self)@, random));
            return 0;
        }
        self.pc = new_pc;
        assert(self@ == step(old(self)@, random));
        1
    }
}

} // verus!
