//! The mathematical model of the whole machine and the meaning of one
//! instruction cycle.
//!
//! Memory addresses are 12 bits wide: every address the machine forms (the
//! program counter, `I + k` for the bytes an instruction reads or writes) is
//! taken modulo 4096, so no access can fall outside memory. The index
//! register itself holds 16 bits.

use vstd::prelude::*;
use crate::display::{collides, drawn};
use crate::instruction::{spec_decode, Instruction};
use crate::timer::Timer;

verus! {

/// Bytes of memory.
pub const MEMORY_SIZE: usize = 4096;

/// General-purpose registers; the last one, VF, receives flags.
pub const REGISTER_COUNT: usize = 16;

/// The flag register VF.
pub const FLAG_REGISTER: usize = 15;

/// Return addresses the call stack can hold.
pub const STACK_DEPTH: usize = 16;

/// Keys of the hexadecimal keypad.
pub const KEY_COUNT: usize = 16;

/// Address at which programs are loaded and start.
pub const PROGRAM_START: u16 = 0x200;

/// The longest program that fits between `PROGRAM_START` and the end of memory.
pub const MAX_PROGRAM_LEN: usize = 3584;

/// Bytes of the built-in font: 16 glyphs of 5 bytes, at address 0.
pub const FONT_LEN: usize = 80;

/// Bytes of each glyph of the built-in font.
pub const GLYPH_LEN: u8 = 5;

/// The built-in font: the hexadecimal digits 0 to F, 5 rows of 4 pixels each
/// (in the high nibble of each byte).
pub open spec fn font() -> Seq<u8> {
    seq![
        0xF0u8, 0x90, 0x90, 0x90, 0xF0, // 0
        0x20, 0x60, 0x20, 0x20, 0x70, // 1
        0xF0, 0x10, 0xF0, 0x80, 0xF0, // 2
        0xF0, 0x10, 0xF0, 0x10, 0xF0, // 3
        0x90, 0x90, 0xF0, 0x10, 0x10, // 4
        0xF0, 0x80, 0xF0, 0x10, 0xF0, // 5
        0xF0, 0x80, 0xF0, 0x90, 0xF0, // 6
        0xF0, 0x10, 0x20, 0x40, 0x40, // 7
        0xF0, 0x90, 0xF0, 0x90, 0xF0, // 8
        0xF0, 0x90, 0xF0, 0x10, 0xF0, // 9
        0xF0, 0x90, 0xF0, 0x90, 0x90, // A
        0xE0, 0x90, 0xE0, 0x90, 0xE0, // B
        0xF0, 0x80, 0x80, 0x80, 0xF0, // C
        0xE0, 0x90, 0x90, 0x90, 0xE0, // D
        0xF0, 0x80, 0xF0, 0x80, 0xF0, // E
        0xF0, 0x80, 0xF0, 0x80, 0x80, // F
    ]
}

/// Why the machine stopped.
#[derive(Clone, Copy, Debug, PartialEq, Eq, Structural)]
pub enum FaultKind {
    /// The word at the program counter encodes no instruction this machine
    /// runs: an unknown pattern, or a `0nnn` call into native machine code.
    UnsupportedInstruction,
    /// A call with 16 return addresses already on the stack.
    StackOverflow,
    /// A return with no return address on the stack.
    StackUnderflow,
}

/// A fatal condition, with the instruction word and the address it was
/// fetched from. The machine's state is left as it was before that
/// instruction.
#[derive(Clone, Copy, Debug, PartialEq, Eq, Structural)]
pub struct Fault {
    pub kind: FaultKind,
    pub opcode: u16,
    pub pc: u16,
}

/// The complete state of the machine.
pub struct Machine {
    /// V0 to VF.
    pub registers: Seq<u8>,
    /// The index register I.
    pub index: u16,
    /// Address of the next instruction to fetch.
    pub pc: u16,
    /// Return addresses, the most recent last.
    pub stack: Seq<u16>,
    pub memory: Seq<u8>,
    /// The framebuffer, row-major.
    pub display: Seq<bool>,
    pub delay: Timer,
    pub sound: Timer,
    /// Which keys the host last reported as held down.
    pub keys: Seq<bool>,
}

/// Address of the instruction after the one at `pc`.
pub open spec fn next_pc(pc: u16) -> u16 {
    ((pc + 2) % 0x1000) as u16
}

/// The instruction word at `addr`: high byte first.
pub open spec fn word_at(memory: Seq<u8>, addr: u16) -> u16 {
    (memory[addr as int % 0x1000] * 256 + memory[(addr + 1) % 0x1000]) as u16
}

/// Whether `key` names a key of the keypad that is held down.
pub open spec fn key_pressed(keys: Seq<bool>, key: u8) -> bool {
    key < 16 && keys[key as int]
}

/// The highest-numbered key among the first `n` that is held down.
pub open spec fn last_pressed(keys: Seq<bool>, n: int) -> Option<u8>
    decreases n,
{
    if n <= 0 {
        None
    } else if keys[n - 1] {
        Some((n - 1) as u8)
    } else {
        last_pressed(keys, n - 1)
    }
}

/// The `n` sprite rows stored from address `index` on.
pub open spec fn sprite_at(memory: Seq<u8>, index: u16, n: u8) -> Seq<u8> {
    Seq::new(n as nat, |k: int| memory[(index + k) % 0x1000])
}

/// How far address `a` lies past `index`, going up and wrapping around memory.
pub open spec fn offset_from(index: u16, a: int) -> int {
    (a - index) % 0x1000
}

/// Memory after storing registers `V0..=Vx` from address `index` on.
pub open spec fn stored_registers(memory: Seq<u8>, registers: Seq<u8>, index: u16, x: u8) -> Seq<
    u8,
> {
    Seq::new(
        memory.len(),
        |a: int|
            if offset_from(index, a) <= x {
                registers[offset_from(index, a)]
            } else {
                memory[a]
            },
    )
}

/// Registers after loading `V0..=Vx` from address `index` on.
pub open spec fn loaded_registers(registers: Seq<u8>, memory: Seq<u8>, index: u16, x: u8) -> Seq<
    u8,
> {
    Seq::new(
        registers.len(),
        |k: int|
            if k <= x {
                memory[(index + k) % 0x1000]
            } else {
                registers[k]
            },
    )
}

/// Memory after writing `program` from `PROGRAM_START` on.
pub open spec fn with_program(memory: Seq<u8>, program: Seq<u8>) -> Seq<u8> {
    Seq::new(
        memory.len(),
        |a: int|
            if PROGRAM_START <= a < PROGRAM_START + program.len() {
                program[a - PROGRAM_START]
            } else {
                memory[a]
            },
    )
}

/// The state of a machine that was just created: everything zero, the font
/// at address 0.
pub open spec fn initial_machine() -> Machine {
    Machine {
        registers: Seq::new(16, |i: int| 0u8),
        index: 0,
        pc: 0,
        stack: Seq::empty(),
        memory: Seq::new(0x1000, |a: int| if a < FONT_LEN { font()[a] } else { 0u8 }),
        display: Seq::new(2048, |i: int| false),
        delay: Timer { value: 0, start: 0, since: 0 },
        sound: Timer { value: 0, start: 0, since: 0 },
        keys: Seq::new(16, |i: int| false),
    }
}

impl Machine {
    /// The sizes of the machine, and a program counter inside memory.
    pub open spec fn wf(self) -> bool {
        &&& self.registers.len() == REGISTER_COUNT
        &&& self.stack.len() <= STACK_DEPTH
        &&& forall|i: int| 0 <= i < self.stack.len() ==> #[trigger] self.stack[i] < 0x1000
        &&& self.memory.len() == MEMORY_SIZE
        &&& self.display.len() == 2048
        &&& self.keys.len() == KEY_COUNT
        &&& self.pc < 0x1000
    }

    pub open spec fn reg(self, r: u8) -> u8 {
        self.registers[r as int]
    }

    /// The machine with register `r` set to `v`.
    pub open spec fn with_reg(self, r: u8, v: u8) -> Machine {
        Machine { registers: self.registers.update(r as int, v), ..self }
    }

    /// The machine with register `r` set to `v` and then VF set to `flag`
    /// (so VF holds the flag even when `r` is VF).
    pub open spec fn with_flagged(self, r: u8, v: u8, flag: bool) -> Machine {
        Machine {
            registers: self.registers.update(r as int, v).update(
                FLAG_REGISTER as int,
                if flag {
                    1u8
                } else {
                    0u8
                },
            ),
            ..self
        }
    }

    /// The machine with the next instruction skipped when `cond` holds.
    pub open spec fn skip_if(self, cond: bool) -> Machine {
        if cond {
            Machine { pc: next_pc(self.pc), ..self }
        } else {
            self
        }
    }

    /// The machine with both timers brought up to time `now`.
    pub open spec fn ticked(self, now: u64) -> Machine {
        Machine { delay: self.delay.advanced(now), sound: self.sound.advanced(now), ..self }
    }
}

/// Runs instruction `ins`, fetched from address `at`, on a machine whose
/// program counter already points past it. `now` is the time in nanoseconds,
/// `random` the byte that a random-number instruction masks.
pub open spec fn execute(m: Machine, ins: Instruction, at: u16, now: u64, random: u8) -> Result<
    Machine,
    FaultKind,
> {
    match ins {
        Instruction::ClearScreen => Ok(Machine { display: Seq::new(2048, |i: int| false), ..m }),
        Instruction::Return => if m.stack.len() == 0 {
            Err(FaultKind::StackUnderflow)
        } else {
            Ok(Machine { pc: m.stack.last(), stack: m.stack.drop_last(), ..m })
        },
        Instruction::Jump { nnn } => Ok(Machine { pc: nnn, ..m }),
        Instruction::Call { nnn } => if m.stack.len() >= STACK_DEPTH {
            Err(FaultKind::StackOverflow)
        } else {
            Ok(Machine { pc: nnn, stack: m.stack.push(m.pc), ..m })
        },
        Instruction::SkipEqImm { x, kk } => Ok(m.skip_if(m.reg(x) == kk)),
        Instruction::SkipNeImm { x, kk } => Ok(m.skip_if(m.reg(x) != kk)),
        Instruction::SkipEqReg { x, y } => Ok(m.skip_if(m.reg(x) == m.reg(y))),
        Instruction::LoadImm { x, kk } => Ok(m.with_reg(x, kk)),
        Instruction::AddImm { x, kk } => Ok(m.with_reg(x, ((m.reg(x) + kk) % 256) as u8)),
        Instruction::Move { x, y } => Ok(m.with_reg(x, m.reg(y))),
        Instruction::Or { x, y } => Ok(m.with_reg(x, m.reg(x) | m.reg(y))),
        Instruction::And { x, y } => Ok(m.with_reg(x, m.reg(x) & m.reg(y))),
        Instruction::Xor { x, y } => Ok(m.with_reg(x, m.reg(x) ^ m.reg(y))),
        Instruction::AddReg { x, y } => Ok(
            m.with_flagged(x, ((m.reg(x) + m.reg(y)) % 256) as u8, m.reg(x) + m.reg(y) > 255),
        ),
        Instruction::Sub { x, y } => Ok(
            m.with_flagged(x, ((m.reg(x) - m.reg(y)) % 256) as u8, m.reg(x) >= m.reg(y)),
        ),
        Instruction::ShiftRight { x, y } => Ok(
            m.with_flagged(x, m.reg(y) / 2, m.reg(y) % 2 == 1),
        ),
        Instruction::SubReverse { x, y } => Ok(
            m.with_flagged(x, ((m.reg(y) - m.reg(x)) % 256) as u8, m.reg(y) >= m.reg(x)),
        ),
        Instruction::ShiftLeft { x, y } => Ok(
            m.with_flagged(x, ((m.reg(y) * 2) % 256) as u8, m.reg(y) >= 128),
        ),
        Instruction::SkipNeReg { x, y } => Ok(m.skip_if(m.reg(x) != m.reg(y))),
        Instruction::LoadIndex { nnn } => Ok(Machine { index: nnn, ..m }),
        Instruction::JumpOffset { nnn } => Ok(
            Machine { pc: ((m.reg(0) + nnn) % 0x1000) as u16, ..m },
        ),
        Instruction::Random { x, kk } => Ok(m.with_reg(x, random & kk)),
        Instruction::Draw { x, y, n } => {
            let sprite = sprite_at(m.memory, m.index, n);
            let hit = collides(m.display, sprite, m.reg(x), m.reg(y));
            Ok(
                Machine {
                    display: drawn(m.display, sprite, m.reg(x), m.reg(y)),
                    registers: m.registers.update(
                        FLAG_REGISTER as int,
                        if hit {
                            1u8
                        } else {
                            0u8
                        },
                    ),
                    ..m
                },
            )
        },
        Instruction::SkipKey { x } => Ok(m.skip_if(key_pressed(m.keys, m.reg(x)))),
        Instruction::SkipNoKey { x } => Ok(m.skip_if(!key_pressed(m.keys, m.reg(x)))),
        Instruction::LoadDelay { x } => Ok(m.with_reg(x, m.delay.value)),
        Instruction::WaitKey { x } => match last_pressed(m.keys, KEY_COUNT as int) {
            None => Ok(Machine { pc: at, ..m }),
            Some(key) => Ok(m.with_reg(x, key)),
        },
        Instruction::SetDelay { x } => Ok(Machine { delay: m.delay.set_to(m.reg(x), now), ..m }),
        Instruction::SetSound { x } => Ok(Machine { sound: m.sound.set_to(m.reg(x), now), ..m }),
        Instruction::AddIndex { x } => Ok(
            Machine { index: ((m.index + m.reg(x)) % 0x10000) as u16, ..m },
        ),
        Instruction::LoadFont { x } => Ok(Machine { index: (GLYPH_LEN * m.reg(x)) as u16, ..m }),
        Instruction::StoreBcd { x } => Ok(
            Machine {
                memory: m.memory.update(m.index as int % 0x1000, m.reg(x) / 100).update(
                    (m.index + 1) % 0x1000,
                    (m.reg(x) / 10) % 10,
                ).update((m.index + 2) % 0x1000, m.reg(x) % 10),
                ..m
            },
        ),
        Instruction::StoreRegisters { x } => Ok(
            Machine {
                memory: stored_registers(m.memory, m.registers, m.index, x),
                index: ((m.index + x + 1) % 0x10000) as u16,
                ..m
            },
        ),
        Instruction::LoadRegisters { x } => Ok(
            Machine {
                registers: loaded_registers(m.registers, m.memory, m.index, x),
                index: ((m.index + x + 1) % 0x10000) as u16,
                ..m
            },
        ),
    }
}

/// The state after one cycle at time `now`: bring the timers up to `now`,
/// fetch the word at the program counter, step past it, decode and execute
/// it. On a fault the machine keeps the state it had after the timers moved.
pub open spec fn cycle_state(m: Machine, now: u64, random: u8) -> Machine {
    let t = m.ticked(now);
    match spec_decode(word_at(t.memory, t.pc)) {
        None => t,
        Some(ins) => match execute(Machine { pc: next_pc(t.pc), ..t }, ins, t.pc, now, random) {
            Ok(next) => next,
            Err(_) => t,
        },
    }
}

/// What one cycle at time `now` reports: success, or the fault that stopped it.
pub open spec fn cycle_outcome(m: Machine, now: u64, random: u8) -> Result<(), Fault> {
    let t = m.ticked(now);
    let opcode = word_at(t.memory, t.pc);
    match spec_decode(opcode) {
        None => Err(Fault { kind: FaultKind::UnsupportedInstruction, opcode, pc: t.pc }),
        Some(ins) => match execute(Machine { pc: next_pc(t.pc), ..t }, ins, t.pc, now, random) {
            Ok(_) => Ok(()),
            Err(kind) => Err(Fault { kind, opcode, pc: t.pc }),
        },
    }
}

/// The state after running one cycle for each `(time, random byte)` of
/// `steps`, in order, stopping at the first fault.
pub open spec fn cycles(m: Machine, steps: Seq<(u64, u8)>) -> Machine
    decreases steps.len(),
{
    if steps.len() == 0 {
        m
    } else if cycle_outcome(m, steps[0].0, steps[0].1) is Err {
        cycle_state(m, steps[0].0, steps[0].1)
    } else {
        cycles(cycle_state(m, steps[0].0, steps[0].1), steps.drop_first())
    }
}

/// The key-wait search finds a key exactly when one is held down, and the key
/// it finds is held down.
pub proof fn lemma_last_pressed(keys: Seq<bool>, n: int)
    requires
        0 <= n <= keys.len(),
        n <= KEY_COUNT,
    ensures
        last_pressed(keys, n) is None <==> forall|k: int| 0 <= k < n ==> !keys[k],
        last_pressed(keys, n) matches Some(k) ==> k < n && keys[k as int],
    decreases n,
{
    if n > 0 {
        lemma_last_pressed(keys, n - 1);
    }
}

/// Every cycle brings the timers up to its time: after it, the delay timer
/// reads as it would had nothing but time passed, unless the instruction set
/// it; likewise the sound timer.
pub proof fn lemma_cycle_advances_timers(m: Machine, now: u64, random: u8)
    requires
        m.wf(),
    ensures
        !(spec_decode(word_at(m.memory, m.pc)) matches Some(Instruction::SetDelay { .. }))
            ==> cycle_state(m, now, random).delay == m.delay.advanced(now),
        !(spec_decode(word_at(m.memory, m.pc)) matches Some(Instruction::SetSound { .. }))
            ==> cycle_state(m, now, random).sound == m.sound.advanced(now),
{
}

/// Adding register `y` to register `x` leaves `(a + b) mod 256` in `x` and the
/// carry in VF; subtracting leaves `(a - b) mod 256` in `x`, and VF is 1
/// exactly when no borrow occurs (`a >= b`). VF receives the flag last, so
/// when `x` is VF it ends up holding the flag. Nothing else changes.
pub proof fn lemma_add_sub_wrap(m: Machine, x: u8, y: u8, at: u16, now: u64, random: u8)
    requires
        m.wf(),
        x < 16,
        y < 16,
    ensures
        ({
            let a = m.reg(x);
            let b = m.reg(y);
            let add = execute(m, Instruction::AddReg { x, y }, at, now, random);
            let sub = execute(m, Instruction::Sub { x, y }, at, now, random);
            &&& add is Ok && sub is Ok
            &&& x != FLAG_REGISTER ==> add->Ok_0.reg(x) == (a + b) % 256
            &&& add->Ok_0.reg(FLAG_REGISTER as u8) == if a + b > 255 {
                1int
            } else {
                0int
            }
            &&& x != FLAG_REGISTER ==> sub->Ok_0.reg(x) == (a - b) % 256
            &&& sub->Ok_0.reg(FLAG_REGISTER as u8) == if a >= b {
                1int
            } else {
                0int
            }
            &&& forall|r: u8|
                r < 16 && r != x && r != FLAG_REGISTER ==> add->Ok_0.reg(r) == m.reg(r)
                    && sub->Ok_0.reg(r) == m.reg(r)
            &&& add->Ok_0.pc == m.pc && sub->Ok_0.pc == m.pc
        }),
{
}

/// While no key is held down, a key-wait instruction at the program counter
/// holds the machine where it is: a cycle moves the timers and nothing else,
/// and the program counter stays on the instruction.
pub proof fn lemma_wait_key_holds(m: Machine, x: u8, now: u64, random: u8)
    requires
        m.wf(),
        spec_decode(word_at(m.memory, m.pc)) == Some(Instruction::WaitKey { x }),
        forall|k: int| 0 <= k < KEY_COUNT ==> !m.keys[k],
    ensures
        cycle_state(m, now, random) == m.ticked(now),
        cycle_outcome(m, now, random) == Ok::<(), Fault>(()),
{
    lemma_last_pressed(m.keys, KEY_COUNT as int);
}

/// However many cycles run while no key is held down, a key-wait instruction
/// at the program counter keeps the program counter on itself, and registers
/// and memory are untouched.
pub proof fn lemma_wait_key_holds_for_any_cycles(m: Machine, x: u8, steps: Seq<(u64, u8)>)
    requires
        m.wf(),
        spec_decode(word_at(m.memory, m.pc)) == Some(Instruction::WaitKey { x }),
        forall|k: int| 0 <= k < KEY_COUNT ==> !m.keys[k],
    ensures
        cycles(m, steps).pc == m.pc,
        cycles(m, steps).registers == m.registers,
        cycles(m, steps).memory == m.memory,
    decreases steps.len(),
{
    if steps.len() > 0 {
        lemma_wait_key_holds(m, x, steps[0].0, steps[0].1);
        lemma_wait_key_holds_for_any_cycles(
            cycle_state(m, steps[0].0, steps[0].1),
            x,
            steps.drop_first(),
        );
    }
}

/// On the first cycle in which a key is held down, a key-wait instruction
/// completes: a held key's number goes into register `x` and the program
/// counter moves past the instruction.
pub proof fn lemma_wait_key_completes(m: Machine, x: u8, now: u64, random: u8)
    requires
        m.wf(),
        spec_decode(word_at(m.memory, m.pc)) == Some(Instruction::WaitKey { x }),
        exists|k: int| 0 <= k < KEY_COUNT && m.keys[k],
    ensures
        ({
            let next = cycle_state(m, now, random);
            &&& cycle_outcome(m, now, random) == Ok::<(), Fault>(())
            &&& next.pc == next_pc(m.pc)
            &&& next.reg(x) < KEY_COUNT && m.keys[next.reg(x) as int]
            &&& next.registers == m.registers.update(x as int, next.reg(x))
        }),
{
    lemma_last_pressed(m.keys, KEY_COUNT as int);
    crate::instruction::lemma_fields_in_range(word_at(m.memory, m.pc));
}

/// Running the same draw instruction twice restores the framebuffer, as long
/// as neither coordinate register is VF (which the first draw overwrites).
pub proof fn lemma_draw_instruction_twice(
    m: Machine,
    x: u8,
    y: u8,
    n: u8,
    at: u16,
    now: u64,
    random: u8,
)
    requires
        m.wf(),
        x < FLAG_REGISTER,
        y < FLAG_REGISTER,
        n < 16,
    ensures
        ({
            let ins = Instruction::Draw { x, y, n };
            let once = execute(m, ins, at, now, random)->Ok_0;
            execute(once, ins, at, now, random)->Ok_0.display == m.display
        }),
{
    let sprite = sprite_at(m.memory, m.index, n);
    crate::display::lemma_draw_twice_restores(m.display, sprite, m.reg(x), m.reg(y));
}

} // verus!
