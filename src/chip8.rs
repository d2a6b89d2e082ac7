//! The executable machine.

use vstd::prelude::*;
use vstd::arithmetic::div_mod::lemma_mod_add_multiples_vanish;
use crate::display::{draw_sprite, lemma_wrapped_offset, pixel_at, pixel_index};
use crate::instruction::{decode, registers_in_range, Instruction};
use crate::machine::{
    cycle_outcome, cycle_state, execute, font, initial_machine, last_pressed, loaded_registers,
    next_pc, offset_from, sprite_at, stored_registers, with_program, word_at, Fault, FaultKind, Machine,
    FLAG_REGISTER, FONT_LEN, GLYPH_LEN, KEY_COUNT, MAX_PROGRAM_LEN, MEMORY_SIZE, PROGRAM_START,
    REGISTER_COUNT, STACK_DEPTH,
};
use crate::timer::Timer;

verus! {

/// Relies on rand::random, which draws from the thread-local generator that
/// the operating system seeds; for `u8` every byte can come out. Nothing is
/// claimed of which one does.
pub assume_specification<T>[ rand::random::<T> ]() -> (r: T)
    where
        rand::distributions::Standard: rand::distributions::Distribution<T>,
;

/// The bytes of the built-in font.
fn font_bytes() -> (r: [u8; 80])
    ensures
        r@ == font(),
{
    let r: [u8; 80] = [
        0xF0, 0x90, 0x90, 0x90, 0xF0, 0x20, 0x60, 0x20, 0x20, 0x70, 0xF0, 0x10, 0xF0, 0x80, 0xF0,
        0xF0, 0x10, 0xF0, 0x10, 0xF0, 0x90, 0x90, 0xF0, 0x10, 0x10, 0xF0, 0x80, 0xF0, 0x10, 0xF0,
        0xF0, 0x80, 0xF0, 0x90, 0xF0, 0xF0, 0x10, 0x20, 0x40, 0x40, 0xF0, 0x90, 0xF0, 0x90, 0xF0,
        0xF0, 0x90, 0xF0, 0x10, 0xF0, 0xF0, 0x90, 0xF0, 0x90, 0x90, 0xE0, 0x90, 0xE0, 0x90, 0xE0,
        0xF0, 0x80, 0x80, 0x80, 0xF0, 0xE0, 0x90, 0x90, 0x90, 0xE0, 0xF0, 0x80, 0xF0, 0x80, 0xF0,
        0xF0, 0x80, 0xF0, 0x80, 0x80,
    ];
    assert(r@ =~= font());
    r
}

/// The instruction word at `addr`, high byte first.
fn read_word(memory: &[u8; 4096], addr: u16) -> (w: u16)
    ensures
        w == word_at(memory@, addr),
{
    let hi = memory[(addr as usize) % MEMORY_SIZE] as u16;
    let lo = memory[(addr as usize + 1) % MEMORY_SIZE] as u16;
    hi * 256 + lo
}

/// Clears every pixel.
fn clear_display(display: &mut [bool; 2048])
    ensures
        final(display)@ == Seq::new(2048, |i: int| false),
    no_unwind
{
    let mut i: usize = 0;
    while i < 2048
        invariant
            i <= 2048,
            forall|j: int| 0 <= j < i ==> !display@[j],
        decreases 2048 - i,
    {
        display[i] = false;
        i += 1;
    }
    assert(display@ =~= Seq::new(2048, |i: int| false));
}

/// The `n` sprite rows stored from address `index` on.
fn read_sprite(memory: &[u8; 4096], index: u16, n: u8) -> (sprite: Vec<u8>)
    ensures
        sprite@ == sprite_at(memory@, index, n),
{
    let mut sprite: Vec<u8> = Vec::new();
    let mut k: usize = 0;
    while k < n as usize
        invariant
            k <= n,
            sprite@ =~= sprite_at(memory@, index, k as u8),
        decreases n - k,
    {
        sprite.push(memory[(index as usize + k) % MEMORY_SIZE]);
        k += 1;
    }
    sprite
}

/// Stores registers `V0..=Vx` from address `index` on.
fn store_registers(memory: &mut [u8; 4096], registers: &[u8; 16], index: u16, x: u8)
    requires
        x < 16,
    ensures
        final(memory)@ == stored_registers(old(memory)@, registers@, index, x),
    no_unwind
{
    let ghost before = memory@;
    let mut k: usize = 0;
    while k <= x as usize
        invariant
            x < 16,
            k <= x + 1,
            before.len() == 4096,
            forall|a: int|
                0 <= a < 4096 ==> memory@[a] == if offset_from(index, a) < k {
                    registers@[offset_from(index, a)]
                } else {
                    before[a]
                },
        decreases x + 1 - k,
    {
        let p = (index as usize + k) % MEMORY_SIZE;
        proof {
            lemma_wrapped_offset(p as int, index as int, k as int, 0x1000);
            assert forall|a: int| 0 <= a < 4096 implies (#[trigger] offset_from(index, a) == k) <==> a == p by {
                lemma_wrapped_offset(a, index as int, k as int, 0x1000);
            }
        }
        memory[p] = registers[k];
        k += 1;
    }
    assert(memory@ =~= stored_registers(before, registers@, index, x));
}

/// Loads registers `V0..=Vx` from address `index` on.
fn load_registers(registers: &mut [u8; 16], memory: &[u8; 4096], index: u16, x: u8)
    requires
        x < 16,
    ensures
        final(registers)@ == loaded_registers(old(registers)@, memory@, index, x),
    no_unwind
{
    let ghost before = registers@;
    let mut k: usize = 0;
    while k <= x as usize
        invariant
            x < 16,
            k <= x + 1,
            before.len() == 16,
            forall|j: int|
                0 <= j < 16 ==> registers@[j] == if j < k {
                    memory@[(index + j) % 0x1000]
                } else {
                    before[j]
                },
        decreases x + 1 - k,
    {
        registers[k] = memory[(index as usize + k) % MEMORY_SIZE];
        k += 1;
    }
    assert(registers@ =~= loaded_registers(before, memory@, index, x));
}

/// The highest-numbered key that is held down, if any.
fn last_pressed_key(keys: &[bool; 16]) -> (r: Option<u8>)
    ensures
        r == last_pressed(keys@, KEY_COUNT as int),
{
    let mut found: Option<u8> = None;
    let mut k: usize = 0;
    while k < KEY_COUNT
        invariant
            k <= KEY_COUNT,
            found == last_pressed(keys@, k as int),
        decreases KEY_COUNT - k,
    {
        if keys[k] {
            found = Some(k as u8);
        }
        k += 1;
    }
    found
}

/// Instructions that only move the program counter or the stack, or clear the screen.
spec fn is_flow(ins: Instruction) -> bool {
    ins is ClearScreen || ins is Return || ins is Jump || ins is Call || ins is SkipEqImm
        || ins is SkipNeImm || ins is SkipEqReg || ins is SkipNeReg || ins is JumpOffset
        || ins is SkipKey || ins is SkipNoKey || ins is WaitKey
}

/// Instructions that compute into a register.
spec fn is_arithmetic(ins: Instruction) -> bool {
    ins is LoadImm || ins is AddImm || ins is Move || ins is Or || ins is And || ins is Xor
        || ins is AddReg || ins is Sub || ins is ShiftRight || ins is SubReverse
        || ins is ShiftLeft || ins is Random || ins is LoadDelay
}

/// Whether `ins` only moves the program counter or the stack, or clears the screen.
fn is_flow_instruction(ins: Instruction) -> (r: bool)
    ensures
        r == is_flow(ins),
{
    match ins {
        Instruction::ClearScreen | Instruction::Return | Instruction::Jump { .. }
        | Instruction::Call { .. } | Instruction::SkipEqImm { .. } | Instruction::SkipNeImm { .. }
        | Instruction::SkipEqReg { .. } | Instruction::SkipNeReg { .. }
        | Instruction::JumpOffset { .. } | Instruction::SkipKey { .. }
        | Instruction::SkipNoKey { .. } | Instruction::WaitKey { .. } => true,
        _ => false,
    }
}

/// Whether `ins` computes into a register.
fn is_arithmetic_instruction(ins: Instruction) -> (r: bool)
    ensures
        r == is_arithmetic(ins),
{
    match ins {
        Instruction::LoadImm { .. } | Instruction::AddImm { .. } | Instruction::Move { .. }
        | Instruction::Or { .. } | Instruction::And { .. } | Instruction::Xor { .. }
        | Instruction::AddReg { .. } | Instruction::Sub { .. } | Instruction::ShiftRight { .. }
        | Instruction::SubReverse { .. } | Instruction::ShiftLeft { .. }
        | Instruction::Random { .. } | Instruction::LoadDelay { .. } => true,
        _ => false,
    }
}

/// A CHIP-8 machine: registers, memory, call stack, framebuffer, timers and
/// the keypad state that the host reports.
pub struct Chip8 {
    registers: [u8; 16],
    index: u16,
    pc: u16,
    stack: [u16; 16],
    sp: usize,
    memory: [u8; 4096],
    display: [bool; 2048],
    delay: Timer,
    sound: Timer,
    keys: [bool; 16],
}

impl View for Chip8 {
    type V = Machine;

    closed spec fn view(&self) -> Machine {
        Machine {
            registers: self.registers@,
            index: self.index,
            pc: self.pc,
            stack: self.stack@.subrange(0, self.sp as int),
            memory: self.memory@,
            display: self.display@,
            delay: self.delay,
            sound: self.sound,
            keys: self.keys@,
        }
    }
}

impl Chip8 {
    #[verifier::type_invariant]
    spec fn inv(self) -> bool {
        &&& self.sp <= STACK_DEPTH
        &&& self.pc < 0x1000
        &&& forall|i: int| 0 <= i < 16 ==> #[trigger] self.stack@[i] < 0x1000
    }

    /// A machine with every register, timer, key and pixel zero, an empty
    /// stack, and the font at address 0.
    pub fn new() -> (c: Chip8)
        ensures
            c@ == initial_machine(),
    {
        let glyphs = font_bytes();
        let mut memory = [0u8; 4096];
        let mut i: usize = 0;
        while i < FONT_LEN
            invariant
                i <= FONT_LEN,
                glyphs@ == font(),
                forall|a: int| 0 <= a < 4096 ==> memory@[a] == if a < i { glyphs@[a] } else { 0u8 },
            decreases FONT_LEN - i,
        {
            memory[i] = glyphs[i];
            i += 1;
        }
        let c = Chip8 {
            registers: [0u8; 16],
            index: 0,
            pc: 0,
            stack: [0u16; 16],
            sp: 0,
            memory,
            display: [false; 2048],
            delay: Timer::new(),
            sound: Timer::new(),
            keys: [false; 16],
        };
        assert(c@.registers =~= initial_machine().registers);
        assert(c@.stack =~= initial_machine().stack);
        assert(c@.memory =~= initial_machine().memory);
        assert(c@.display =~= initial_machine().display);
        assert(c@.keys =~= initial_machine().keys);
        c
    }

    /// Copies `program` into memory from `PROGRAM_START` on and points the
    /// program counter there.
    pub fn load_program(&mut self, program: Vec<u8>)
        requires
            program@.len() <= MAX_PROGRAM_LEN,
        ensures
            final(self)@ == (Machine {
                memory: with_program(old(self)@.memory, program@),
                pc: PROGRAM_START,
                ..old(self)@
            }),
    {
        proof {
            use_type_invariant(&*self);
        }
        let ghost before = self@;
        let mut i: usize = 0;
        while i < program.len()
            invariant
                program@.len() <= MAX_PROGRAM_LEN,
                i <= program@.len(),
                before.memory.len() == MEMORY_SIZE,
                self@ == (Machine { memory: self@.memory, ..before }),
                forall|a: int|
                    0 <= a < 4096 ==> self.memory@[a] == if PROGRAM_START <= a < PROGRAM_START
                        + i {
                        program@[a - PROGRAM_START]
                    } else {
                        before.memory[a]
                    },
            decreases program@.len() - i,
        {
            proof {
                use_type_invariant(&*self);
            }
            self.memory[PROGRAM_START as usize + i] = program[i];
            i += 1;
        }
        proof {
            use_type_invariant(&*self);
        }
        self.pc = PROGRAM_START;
        assert(self@.memory =~= with_program(before.memory, program@));
    }

    /// Runs instruction `ins`, fetched from `at`. A fault is found before
    /// anything changes; otherwise the program counter steps past `at` and the
    /// instruction takes effect.
    fn run_instruction(&mut self, ins: Instruction, at: u16, now: u64, random: u8) -> (r: Result<
        (),
        FaultKind,
    >)
        requires
            old(self)@.pc == at,
            registers_in_range(ins),
        ensures
            match execute(Machine { pc: next_pc(at), ..old(self)@ }, ins, at, now, random) {
                Ok(m) => r == Ok::<(), FaultKind>(()) && final(self)@ == m,
                Err(k) => r == Err::<(), FaultKind>(k) && final(self)@ == old(self)@,
            },
    {
        proof {
            use_type_invariant(&*self);
        }
        match ins {
            Instruction::Return => {
                if self.sp == 0 {
                    return Err(FaultKind::StackUnderflow);
                }
            },
            Instruction::Call { .. } => {
                if self.sp >= STACK_DEPTH {
                    return Err(FaultKind::StackOverflow);
                }
            },
            _ => {},
        }
        self.pc = (at + 2) % 0x1000;
        if is_flow_instruction(ins) {
            self.run_flow(ins, at, now, random);
        } else if is_arithmetic_instruction(ins) {
            self.run_arithmetic(ins, at, now, random);
        } else {
            self.run_memory(ins, at, now, random);
        }
        Ok(())
    }

    /// Runs a control-flow instruction on a machine already stepped past it.
    fn run_flow(&mut self, ins: Instruction, at: u16, now: u64, random: u8)
        requires
            is_flow(ins),
            registers_in_range(ins),
            at < 0x1000,
            execute(old(self)@, ins, at, now, random) is Ok,
        ensures
            execute(old(self)@, ins, at, now, random) == Ok::<Machine, FaultKind>(final(self)@),
    {
        proof {
            use_type_invariant(&*self);
        }
        let ghost stepped = self@;
        match ins {
            Instruction::ClearScreen => {
                clear_display(&mut self.display);
            },
            Instruction::Return => {
                self.sp = self.sp - 1;
                self.pc = self.stack[self.sp];
                assert(self@.stack =~= stepped.stack.drop_last());
            },
            Instruction::Jump { nnn } => {
                self.pc = nnn;
            },
            Instruction::Call { nnn } => {
                self.stack[self.sp] = self.pc;
                self.sp = self.sp + 1;
                self.pc = nnn;
                assert(self@.stack =~= stepped.stack.push(stepped.pc));
            },
            Instruction::SkipEqImm { x, kk } => {
                if self.registers[x as usize] == kk {
                    self.pc = (self.pc + 2) % 0x1000;
                }
            },
            Instruction::SkipNeImm { x, kk } => {
                if self.registers[x as usize] != kk {
                    self.pc = (self.pc + 2) % 0x1000;
                }
            },
            Instruction::SkipEqReg { x, y } => {
                if self.registers[x as usize] == self.registers[y as usize] {
                    self.pc = (self.pc + 2) % 0x1000;
                }
            },
            Instruction::SkipNeReg { x, y } => {
                if self.registers[x as usize] != self.registers[y as usize] {
                    self.pc = (self.pc + 2) % 0x1000;
                }
            },
            Instruction::JumpOffset { nnn } => {
                self.pc = (self.registers[0] as u16 + nnn) % 0x1000;
            },
            Instruction::SkipKey { x } => {
                let key = self.registers[x as usize];
                if (key as usize) < KEY_COUNT && self.keys[key as usize] {
                    self.pc = (self.pc + 2) % 0x1000;
                }
            },
            Instruction::SkipNoKey { x } => {
                let key = self.registers[x as usize];
                if !((key as usize) < KEY_COUNT && self.keys[key as usize]) {
                    self.pc = (self.pc + 2) % 0x1000;
                }
            },
            Instruction::WaitKey { x } => {
                match last_pressed_key(&self.keys) {
                    None => {
                        self.pc = at;
                    },
                    Some(key) => {
                        self.registers[x as usize] = key;
                    },
                }
            },
            _ => {},
        }
    }

    /// Runs an instruction that computes into a register.
    fn run_arithmetic(&mut self, ins: Instruction, at: u16, now: u64, random: u8)
        requires
            is_arithmetic(ins),
            registers_in_range(ins),
            at < 0x1000,
            execute(old(self)@, ins, at, now, random) is Ok,
        ensures
            execute(old(self)@, ins, at, now, random) == Ok::<Machine, FaultKind>(final(self)@),
    {
        proof {
            use_type_invariant(&*self);
        }
        match ins {
            Instruction::LoadImm { x, kk } => {
                self.registers[x as usize] = kk;
            },
            Instruction::AddImm { x, kk } => {
                let vx = self.registers[x as usize];
                self.registers[x as usize] = ((vx as u16 + kk as u16) % 256) as u8;
            },
            Instruction::Move { x, y } => {
                self.registers[x as usize] = self.registers[y as usize];
            },
            Instruction::Or { x, y } => {
                self.registers[x as usize] = self.registers[x as usize] | self.registers[y as usize];
            },
            Instruction::And { x, y } => {
                self.registers[x as usize] = self.registers[x as usize] & self.registers[y as usize];
            },
            Instruction::Xor { x, y } => {
                self.registers[x as usize] = self.registers[x as usize] ^ self.registers[y as usize];
            },
            Instruction::AddReg { x, y } => {
                let sum = self.registers[x as usize] as u16 + self.registers[y as usize] as u16;
                self.registers[x as usize] = (sum % 256) as u8;
                self.registers[FLAG_REGISTER] = if sum > 255 { 1 } else { 0 };
            },
            Instruction::Sub { x, y } => {
                let vx = self.registers[x as usize];
                let vy = self.registers[y as usize];
                proof {
                    lemma_mod_add_multiples_vanish(vx - vy, 256);
                }
                self.registers[x as usize] = ((vx as u16 + 256 - vy as u16) % 256) as u8;
                self.registers[FLAG_REGISTER] = if vx >= vy { 1 } else { 0 };
            },
            Instruction::ShiftRight { x, y } => {
                let vy = self.registers[y as usize];
                self.registers[x as usize] = vy / 2;
                self.registers[FLAG_REGISTER] = vy % 2;
            },
            Instruction::SubReverse { x, y } => {
                let vx = self.registers[x as usize];
                let vy = self.registers[y as usize];
                proof {
                    lemma_mod_add_multiples_vanish(vy - vx, 256);
                }
                self.registers[x as usize] = ((vy as u16 + 256 - vx as u16) % 256) as u8;
                self.registers[FLAG_REGISTER] = if vy >= vx { 1 } else { 0 };
            },
            Instruction::ShiftLeft { x, y } => {
                let vy = self.registers[y as usize];
                self.registers[x as usize] = ((vy as u16 * 2) % 256) as u8;
                self.registers[FLAG_REGISTER] = if vy >= 128 { 1 } else { 0 };
            },
            Instruction::Random { x, kk } => {
                self.registers[x as usize] = random & kk;
            },
            Instruction::LoadDelay { x } => {
                self.registers[x as usize] = self.delay.value();
            },
            _ => {},
        }
    }

    /// Runs an instruction on the index register, memory, the display or the timers.
    fn run_memory(&mut self, ins: Instruction, at: u16, now: u64, random: u8)
        requires
            !is_flow(ins) && !is_arithmetic(ins),
            registers_in_range(ins),
            at < 0x1000,
            execute(old(self)@, ins, at, now, random) is Ok,
        ensures
            execute(old(self)@, ins, at, now, random) == Ok::<Machine, FaultKind>(final(self)@),
    {
        proof {
            use_type_invariant(&*self);
        }
        match ins {
            Instruction::LoadIndex { nnn } => {
                self.index = nnn;
            },
            Instruction::AddIndex { x } => {
                self.index = ((self.index as u32 + self.registers[x as usize] as u32) % 0x10000) as u16;
            },
            Instruction::LoadFont { x } => {
                self.index = GLYPH_LEN as u16 * self.registers[x as usize] as u16;
            },
            Instruction::StoreBcd { x } => {
                let vx = self.registers[x as usize];
                let base = self.index as usize;
                self.memory[base % MEMORY_SIZE] = vx / 100;
                self.memory[(base + 1) % MEMORY_SIZE] = (vx / 10) % 10;
                self.memory[(base + 2) % MEMORY_SIZE] = vx % 10;
            },
            Instruction::StoreRegisters { x } => {
                store_registers(&mut self.memory, &self.registers, self.index, x);
                self.index = ((self.index as u32 + x as u32 + 1) % 0x10000) as u16;
            },
            Instruction::LoadRegisters { x } => {
                load_registers(&mut self.registers, &self.memory, self.index, x);
                self.index = ((self.index as u32 + x as u32 + 1) % 0x10000) as u16;
            },
            Instruction::Draw { x, y, n } => {
                let vx = self.registers[x as usize];
                let vy = self.registers[y as usize];
                let sprite = read_sprite(&self.memory, self.index, n);
                let hit = draw_sprite(&mut self.display, &sprite, vx, vy);
                self.registers[FLAG_REGISTER] = if hit { 1 } else { 0 };
            },
            Instruction::SetDelay { x } => {
                let vx = self.registers[x as usize];
                self.delay.set(vx, now);
            },
            Instruction::SetSound { x } => {
                let vx = self.registers[x as usize];
                self.sound.set(vx, now);
            },
            _ => {},
        }
    }

    /// Runs one cycle at time `now` (nanoseconds since any fixed origin),
    /// with `random` as the byte that a random-number instruction masks: the
    /// timers catch up with `now`, then the instruction at the program counter
    /// is fetched, decoded and executed.
    pub fn cycle_with_random(&mut self, now: u64, random: u8) -> (r: Result<(), Fault>)
        ensures
            final(self)@ == cycle_state(old(self)@, now, random),
            r == cycle_outcome(old(self)@, now, random),
    {
        proof {
            use_type_invariant(&*self);
        }
        self.delay.advance(now);
        self.sound.advance(now);
        let at = self.pc;
        let opcode = read_word(&self.memory, at);
        match decode(opcode) {
            None => Err(Fault { kind: FaultKind::UnsupportedInstruction, opcode, pc: at }),
            Some(ins) => match self.run_instruction(ins, at, now, random) {
                Ok(()) => Ok(()),
                Err(kind) => Err(Fault { kind, opcode, pc: at }),
            },
        }
    }

    /// Runs one cycle at time `now` (nanoseconds since any fixed origin),
    /// drawing the byte for a random-number instruction from the thread's
    /// random-number generator.
    pub fn cycle(&mut self, now: u64) -> (r: Result<(), Fault>)
        ensures
            exists|random: u8|
                final(self)@ == cycle_state(old(self)@, now, random) && r == cycle_outcome(
                    old(self)@,
                    now,
                    random,
                ),
    {
        let random: u8 = rand::random::<u8>();
        self.cycle_with_random(now, random)
    }

    /// Register `r` (V0 to VF).
    pub fn register(&self, r: usize) -> (v: u8)
        requires
            r < REGISTER_COUNT,
        ensures
            v == self@.registers[r as int],
    {
        self.registers[r]
    }

    /// The index register I.
    pub fn index_register(&self) -> (v: u16)
        ensures
            v == self@.index,
    {
        self.index
    }

    /// Address of the next instruction to fetch.
    pub fn program_counter(&self) -> (v: u16)
        ensures
            v == self@.pc,
    {
        self.pc
    }

    /// The instruction word at the program counter: the one the next cycle runs.
    pub fn instruction_word(&self) -> (w: u16)
        ensures
            w == word_at(self@.memory, self@.pc),
    {
        read_word(&self.memory, self.pc)
    }

    /// Return addresses on the call stack.
    pub fn stack_depth(&self) -> (v: usize)
        ensures
            v == self@.stack.len(),
    {
        proof {
            use_type_invariant(self);
        }
        self.sp
    }

    /// The byte at `addr`, wrapped around memory.
    pub fn memory_at(&self, addr: u16) -> (v: u8)
        ensures
            v == self@.memory[addr as int % 0x1000],
    {
        self.memory[(addr as usize) % MEMORY_SIZE]
    }

    /// The framebuffer, row-major, 64 pixels to a row.
    pub fn display(&self) -> (d: &[bool; 2048])
        ensures
            d@ == self@.display,
    {
        &self.display
    }

    /// The pixel at column `x`, row `y`, each wrapped around the screen.
    pub fn pixel(&self, x: u8, y: u8) -> (v: bool)
        ensures
            v == self@.display[pixel_index(x as int, y as int)],
    {
        pixel_at(&self.display, x, y)
    }

    /// The delay timer's reading as of the last cycle.
    pub fn delay_timer(&self) -> (v: u8)
        ensures
            v == self@.delay.value,
    {
        self.delay.value()
    }

    /// The sound timer's reading as of the last cycle.
    pub fn sound_timer(&self) -> (v: u8)
        ensures
            v == self@.sound.value,
    {
        self.sound.value()
    }

    /// Whether the host should be sounding its tone: the sound timer is running.
    pub fn sound_active(&self) -> (v: bool)
        ensures
            v == (self@.sound.value != 0),
    {
        self.sound.value() != 0
    }

    /// Records whether keypad key `key` is held down.
    pub fn set_key(&mut self, key: usize, pressed: bool)
        requires
            key < KEY_COUNT,
        ensures
            final(self)@ == (Machine { keys: old(self)@.keys.update(key as int, pressed), ..old(self)@ }),
    {
        proof {
            use_type_invariant(&*self);
        }
        self.keys[key] = pressed;
    }

    /// Records the state of the whole keypad, key 0 first.
    pub fn set_keys(&mut self, keys: [bool; 16])
        ensures
            final(self)@ == (Machine { keys: keys@, ..old(self)@ }),
    {
        proof {
            use_type_invariant(&*self);
        }
        self.keys = keys;
    }
}

} // verus!
