//! The mathematical model of the machine: its state as plain values and
//! sequences, and the meaning of every instruction, of the timer tick and of
//! one step as functions on that state.
//!
//! Nothing here is executable. The executable machine in `chip8` is specified
//! against these functions.

use crate::decode::{addr12, imm8, nibble1, nibble2, nibble3, nibble4, word_of};
use crate::font::glyph_address;
use crate::screen::{blank, blit, collides, is_grid};
use vstd::prelude::*;

verus! {

/// Number of bytes of memory.
pub const MEMORY_SIZE: usize = 4096;

/// Number of general-purpose registers.
pub const REGISTER_COUNT: usize = 16;

/// Index of the register that receives carry, borrow and collision flags.
pub const FLAG: usize = 0xF;

/// Address at which programs are loaded and execution begins.
pub const PROGRAM_START: u16 = 512;

/// The machine halts when the next program counter would exceed this.
pub const HALT_BOUND: u16 = 2047;

/// The timers count down at this many ticks per second.
pub const TIMER_HZ: u32 = 60;

/// The whole state of a machine.
#[verifier::ext_equal]
pub struct Machine {
    pub memory: Seq<u8>,
    pub registers: Seq<u8>,
    pub pc: u16,
    pub i: u16,
    /// Return addresses, the most recent call last.
    pub stack: Seq<u16>,
    pub delay_timer: u8,
    pub sound_timer: u8,
    /// Number of steps between two timer ticks.
    pub timer_delay: u32,
    /// Steps counted since the last timer tick.
    pub timer_counter: u32,
    pub screen: Seq<Seq<bool>>,
    /// Set whenever a sprite was drawn; the host clears it.
    pub will_draw: bool,
    /// The keys that are held, the most recently pushed last.
    pub keys_pressed: Seq<u8>,
    pub custom_info: Seq<String>,
}

/// What executing one instruction yields: the state with every side effect
/// applied, and the address at which execution continues.
pub struct Outcome {
    pub machine: Machine,
    pub next_pc: int,
}

impl Machine {
    /// Memory, registers and screen have their fixed sizes.
    pub open spec fn wf(self) -> bool {
        &&& self.memory.len() == MEMORY_SIZE
        &&& self.registers.len() == REGISTER_COUNT
        &&& is_grid(self.screen)
    }

    /// The value of register `x`.
    pub open spec fn reg(self, x: u8) -> u8 {
        self.registers[x as int]
    }

    /// The state with register `x` set to `value`.
    pub open spec fn with_reg(self, x: u8, value: u8) -> Machine {
        Machine { registers: self.registers.update(x as int, value), ..self }
    }

    /// The state with the flag register set to 1 if `raised`, else to 0.
    pub open spec fn with_flag(self, raised: bool) -> Machine {
        self.with_reg(
            FLAG as u8,
            if raised {
                1u8
            } else {
                0u8
            },
        )
    }
}

/// The state of a machine that was just switched on.
pub open spec fn power_on(timer_delay: u32) -> Machine {
    Machine {
        memory: Seq::new(MEMORY_SIZE as nat, |a: int| 0u8),
        registers: Seq::new(REGISTER_COUNT as nat, |r: int| 0u8),
        pc: PROGRAM_START,
        i: 0,
        stack: Seq::empty(),
        delay_timer: 0,
        sound_timer: 0,
        timer_delay,
        timer_counter: 0,
        screen: blank(),
        will_draw: true,
        keys_pressed: Seq::empty(),
        custom_info: Seq::empty(),
    }
}

/// Continue with the instruction after the current one.
pub open spec fn proceed(m: Machine) -> Outcome {
    Outcome { machine: m, next_pc: m.pc + 2 }
}

/// Skip the instruction after the current one if `skip` holds.
pub open spec fn skip_when(m: Machine, skip: bool) -> Outcome {
    Outcome {
        machine: m,
        next_pc: if skip {
            m.pc + 4
        } else {
            m.pc + 2
        },
    }
}

/// Continue at `target`.
pub open spec fn jump(m: Machine, target: int) -> Outcome {
    Outcome { machine: m, next_pc: target }
}

/// `00EE`: return to two bytes past the address on top of the stack; an
/// empty stack stands for address 0.
pub open spec fn return_from_call(m: Machine) -> Outcome {
    if m.stack.len() == 0 {
        jump(m, 2)
    } else {
        jump(Machine { stack: m.stack.drop_last(), ..m }, m.stack.last() + 2)
    }
}

/// `8XYN`: the register-to-register operations. Where a flag is produced it
/// is written before the result, so with X = F the result is what stays.
pub open spec fn alu(m: Machine, x: u8, y: u8, op: u8) -> Machine {
    let vx = m.reg(x);
    let vy = m.reg(y);
    if op == 0x0 {
        m.with_reg(x, vy)
    } else if op == 0x1 {
        m.with_reg(x, vx | vy)
    } else if op == 0x2 {
        m.with_reg(x, vx & vy)
    } else if op == 0x3 {
        m.with_reg(x, vx ^ vy)
    } else if op == 0x4 {
        m.with_flag(vx + vy > 255).with_reg(x, ((vx + vy) % 256) as u8)
    } else if op == 0x5 {
        m.with_flag(vx >= vy).with_reg(x, ((vx - vy) % 256) as u8)
    } else if op == 0x6 {
        let flagged = m.with_flag(vx % 2 == 1);
        flagged.with_reg(x, flagged.reg(x) / 2)
    } else if op == 0x7 {
        m.with_flag(vy >= vx).with_reg(x, ((vy - vx) % 256) as u8)
    } else if op == 0xE {
        let flagged = m.with_flag(vx >= 128);
        flagged.with_reg(x, ((flagged.reg(x) * 2) % 256) as u8)
    } else {
        m
    }
}

/// The `n` bytes of memory from address `m.i` on.
pub open spec fn sprite_at_index(m: Machine, n: int) -> Seq<u8> {
    Seq::new(n as nat, |k: int| m.memory[m.i + k])
}

/// `DXYN`: draw the `n`-line sprite at `m.i` on the screen at the position
/// held in registers X and Y, and set the flag to the collision.
pub open spec fn draw_sprite(m: Machine, x: u8, y: u8, n: u8) -> Machine {
    let sprite = sprite_at_index(m, n as int);
    let left = m.reg(x) as int;
    let top = m.reg(y) as int;
    Machine {
        screen: blit(m.screen, left, top, sprite),
        will_draw: true,
        ..m.with_flag(collides(m.screen, left, top, sprite))
    }
}

/// `FX0A`: with no key held, stay on this instruction; else take the most
/// recently pushed key into register X.
pub open spec fn wait_for_key(m: Machine, x: u8) -> Outcome {
    if m.keys_pressed.len() == 0 {
        jump(m, m.pc as int)
    } else {
        proceed(
            Machine { keys_pressed: m.keys_pressed.drop_last(), ..m }.with_reg(
                x,
                m.keys_pressed.last(),
            ),
        )
    }
}

/// `FX33`: memory with the hundreds, tens and ones of `value` at `base`,
/// `base + 1` and `base + 2`.
pub open spec fn store_decimal(memory: Seq<u8>, base: int, value: u8) -> Seq<u8> {
    memory.update(base, value / 100).update(base + 1, (value / 10) % 10).update(
        base + 2,
        value % 10,
    )
}

/// `FX55`: memory with the first `count` registers copied to `base` and up.
pub open spec fn store_registers(memory: Seq<u8>, registers: Seq<u8>, base: int, count: int) -> Seq<
    u8,
> {
    Seq::new(
        memory.len(),
        |a: int|
            if base <= a < base + count {
                registers[a - base]
            } else {
                memory[a]
            },
    )
}

/// `FX65`: the registers with the first `count` of them read from `base`
/// and up.
pub open spec fn load_registers(registers: Seq<u8>, memory: Seq<u8>, base: int, count: int) -> Seq<
    u8,
> {
    Seq::new(
        registers.len(),
        |r: int|
            if r < count {
                memory[base + r]
            } else {
                registers[r]
            },
    )
}

/// `FXNN`: timers, keys, the index register and memory transfers.
pub open spec fn misc(m: Machine, x: u8, op: u8) -> Outcome {
    let vx = m.reg(x);
    if op == 0x07 {
        proceed(m.with_reg(x, m.delay_timer))
    } else if op == 0x0A {
        wait_for_key(m, x)
    } else if op == 0x15 {
        proceed(Machine { delay_timer: vx, ..m })
    } else if op == 0x18 {
        proceed(Machine { sound_timer: vx, ..m })
    } else if op == 0x1E {
        proceed(Machine { i: ((m.i + vx) % 0x10000) as u16, ..m })
    } else if op == 0x29 {
        proceed(Machine { i: glyph_address((vx % 16) as int) as u16, ..m })
    } else if op == 0x33 {
        proceed(Machine { memory: store_decimal(m.memory, m.i as int, vx), ..m })
    } else if op == 0x55 {
        proceed(
            Machine { memory: store_registers(m.memory, m.registers, m.i as int, x + 1), ..m },
        )
    } else if op == 0x65 {
        proceed(
            Machine { registers: load_registers(m.registers, m.memory, m.i as int, x + 1), ..m },
        )
    } else {
        proceed(m)
    }
}

/// The meaning of the instruction word `w` in state `m`. `random` is the
/// byte that `CXNN` draws; no other instruction looks at it. A word that no
/// case recognises does nothing but continue.
pub open spec fn execute(m: Machine, w: u16, random: u8) -> Outcome {
    let family = nibble1(w);
    let x = nibble2(w);
    let y = nibble3(w);
    let n = nibble4(w);
    let nn = imm8(w);
    let nnn = addr12(w);
    if family == 0x0 {
        if w == 0x00E0 {
            proceed(Machine { screen: blank(), ..m })
        } else if w == 0x00EE {
            return_from_call(m)
        } else {
            proceed(m)
        }
    } else if family == 0x1 {
        jump(m, nnn as int)
    } else if family == 0x2 {
        jump(Machine { stack: m.stack.push(m.pc), ..m }, nnn as int)
    } else if family == 0x3 {
        skip_when(m, m.reg(x) == nn)
    } else if family == 0x4 {
        skip_when(m, m.reg(x) != nn)
    } else if family == 0x5 {
        skip_when(m, n == 0 && m.reg(x) == m.reg(y))
    } else if family == 0x6 {
        proceed(m.with_reg(x, nn))
    } else if family == 0x7 {
        proceed(m.with_reg(x, ((m.reg(x) + nn) % 256) as u8))
    } else if family == 0x8 {
        proceed(alu(m, x, y, n))
    } else if family == 0x9 {
        skip_when(m, n == 0 && m.reg(x) != m.reg(y))
    } else if family == 0xA {
        proceed(Machine { i: nnn, ..m })
    } else if family == 0xB {
        jump(m, nnn + m.reg(0))
    } else if family == 0xC {
        proceed(m.with_reg(x, random & nn))
    } else if family == 0xD {
        proceed(draw_sprite(m, x, y, n))
    } else if family == 0xE {
        if nn == 0x9E {
            skip_when(m, m.keys_pressed.contains(m.reg(x)))
        } else if nn == 0xA1 {
            skip_when(m, !m.keys_pressed.contains(m.reg(x)))
        } else {
            proceed(m)
        }
    } else {
        misc(m, x, nn)
    }
}

/// Whether every memory access of instruction `w` falls inside memory, and
/// the return address it computes fits a program counter.
pub open spec fn in_bounds(m: Machine, w: u16) -> bool {
    let family = nibble1(w);
    if w == 0x00EE {
        m.stack.len() == 0 || m.stack.last() + 2 <= u16::MAX
    } else if family == 0xD {
        nibble4(w) == 0 || m.i + nibble4(w) <= MEMORY_SIZE
    } else if family == 0xF && imm8(w) == 0x33 {
        m.i + 2 < MEMORY_SIZE
    } else if family == 0xF && (imm8(w) == 0x55 || imm8(w) == 0x65) {
        m.i + nibble2(w) < MEMORY_SIZE
    } else {
        true
    }
}

/// Whether instruction `w` can be executed in state `m`: its memory accesses
/// stay inside memory, and the address two instructions on fits a program
/// counter.
pub open spec fn can_execute(m: Machine, w: u16) -> bool {
    m.wf() && m.pc + 4 <= u16::MAX && in_bounds(m, w)
}

/// Whether the program counter addresses a whole instruction in memory.
pub open spec fn can_fetch(m: Machine) -> bool {
    m.memory.len() == MEMORY_SIZE && m.pc + 1 < MEMORY_SIZE
}

/// The instruction word at the program counter, high byte first.
pub open spec fn fetch(m: Machine) -> u16 {
    word_of(m.memory[m.pc as int], m.memory[m.pc + 1])
}

/// Whether the machine can take a step: there is an instruction at the
/// program counter, and it can be executed.
pub open spec fn can_step(m: Machine) -> bool {
    can_fetch(m) && can_execute(m, fetch(m))
}

/// A timer one tick later: it counts down and stays at 0.
pub open spec fn count_down(timer: u8) -> u8 {
    if timer == 0 {
        0u8
    } else {
        (timer - 1) as u8
    }
}

/// The timer driver, run once per step: the step counter goes up by one
/// (wrapping at the width of the counter), and when it reaches the delay both
/// timers count down and the counter starts again at 0.
pub open spec fn tick(m: Machine) -> Machine {
    let counted = ((m.timer_counter + 1) % 0x1_0000_0000) as u32;
    if counted == m.timer_delay {
        Machine {
            delay_timer: count_down(m.delay_timer),
            sound_timer: count_down(m.sound_timer),
            timer_counter: 0,
            ..m
        }
    } else {
        Machine { timer_counter: counted, ..m }
    }
}

/// What the instruction at the program counter yields after the timer tick.
pub open spec fn step_outcome(m: Machine, random: u8) -> Outcome {
    let ticked = tick(m);
    execute(ticked, fetch(ticked), random)
}

/// Whether the machine is still running after a step: the next program
/// counter does not exceed `HALT_BOUND`.
pub open spec fn keeps_running(m: Machine, random: u8) -> bool {
    step_outcome(m, random).next_pc <= HALT_BOUND
}

/// The state after one step: timer tick, fetch, execute, and the program
/// counter moved on unless the machine halts. A halting step keeps the side
/// effects of its instruction and leaves the program counter where it was.
pub open spec fn step(m: Machine, random: u8) -> Machine {
    let outcome = step_outcome(m, random);
    if outcome.next_pc <= HALT_BOUND {
        Machine { pc: outcome.next_pc as u16, ..outcome.machine }
    } else {
        outcome.machine
    }
}

/// The state after one step for each byte of `randoms`, in order.
pub open spec fn run(m: Machine, randoms: Seq<u8>) -> Machine
    decreases randoms.len(),
{
    if randoms.len() == 0 {
        m
    } else {
        step(run(m, randoms.drop_last()), randoms.last())
    }
}

} // verus!
