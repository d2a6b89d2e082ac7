//! The instruction set and its decoding from 16-bit instruction words.
//!
//! A word is split into 4-bit fields `t x y n` (most significant first); `kk`
//! is its low byte and `nnn` its low 12 bits. The top field `t` selects a group
//! and, within some groups, `n` or `kk` selects the instruction.

use vstd::prelude::*;

verus! {

/// One decoded instruction. `x` and `y` name registers (0 to 15), `kk` is an
/// 8-bit immediate, `nnn` a 12-bit address and `n` a 4-bit sprite height.
#[derive(Clone, Copy, Debug, PartialEq, Eq, Structural)]
pub enum Instruction {
    /// `00E0` CLS: clear the display.
    ClearScreen,
    /// `00EE` RET: return from a subroutine.
    Return,
    /// `1nnn` JP addr: jump to `nnn`.
    Jump { nnn: u16 },
    /// `2nnn` CALL addr: push the address of the next instruction, jump to `nnn`.
    Call { nnn: u16 },
    /// `3xkk` SE Vx, byte: skip the next instruction if `Vx == kk`.
    SkipEqImm { x: u8, kk: u8 },
    /// `4xkk` SNE Vx, byte: skip the next instruction if `Vx != kk`.
    SkipNeImm { x: u8, kk: u8 },
    /// `5xy0` SE Vx, Vy: skip the next instruction if `Vx == Vy`.
    SkipEqReg { x: u8, y: u8 },
    /// `6xkk` LD Vx, byte: `Vx = kk`.
    LoadImm { x: u8, kk: u8 },
    /// `7xkk` ADD Vx, byte: `Vx = Vx + kk` modulo 256; VF is left alone.
    AddImm { x: u8, kk: u8 },
    /// `8xy0` LD Vx, Vy: `Vx = Vy`.
    Move { x: u8, y: u8 },
    /// `8xy1` OR Vx, Vy: `Vx = Vx | Vy`.
    Or { x: u8, y: u8 },
    /// `8xy2` AND Vx, Vy: `Vx = Vx & Vy`.
    And { x: u8, y: u8 },
    /// `8xy3` XOR Vx, Vy: `Vx = Vx ^ Vy`.
    Xor { x: u8, y: u8 },
    /// `8xy4` ADD Vx, Vy: `Vx = Vx + Vy` modulo 256, VF = carry.
    AddReg { x: u8, y: u8 },
    /// `8xy5` SUB Vx, Vy: `Vx = Vx - Vy` modulo 256, VF = 1 when `Vx >= Vy`.
    Sub { x: u8, y: u8 },
    /// `8xy6` SHR Vx, Vy: `Vx = Vy >> 1`, VF = the bit shifted out of `Vy`.
    ShiftRight { x: u8, y: u8 },
    /// `8xy7` SUBN Vx, Vy: `Vx = Vy - Vx` modulo 256, VF = 1 when `Vy >= Vx`.
    SubReverse { x: u8, y: u8 },
    /// `8xyE` SHL Vx, Vy: `Vx = Vy << 1` modulo 256, VF = the bit shifted out of `Vy`.
    ShiftLeft { x: u8, y: u8 },
    /// `9xy0` SNE Vx, Vy: skip the next instruction if `Vx != Vy`.
    SkipNeReg { x: u8, y: u8 },
    /// `Annn` LD I, addr: `I = nnn`.
    LoadIndex { nnn: u16 },
    /// `Bnnn` JP V0, addr: jump to `V0 + nnn`.
    JumpOffset { nnn: u16 },
    /// `Cxkk` RND Vx, byte: `Vx = random byte & kk`.
    Random { x: u8, kk: u8 },
    /// `Dxyn` DRW Vx, Vy, nibble: draw the `n`-byte sprite at `I` at (`Vx`, `Vy`), VF = collision.
    Draw { x: u8, y: u8, n: u8 },
    /// `Ex9E` SKP Vx: skip the next instruction if key `Vx` is pressed.
    SkipKey { x: u8 },
    /// `ExA1` SKNP Vx: skip the next instruction if key `Vx` is not pressed.
    SkipNoKey { x: u8 },
    /// `Fx07` LD Vx, DT: `Vx = delay timer`.
    LoadDelay { x: u8 },
    /// `Fx0A` LD Vx, K: wait for a key press, store the key in `Vx`.
    WaitKey { x: u8 },
    /// `Fx15` LD DT, Vx: `delay timer = Vx`.
    SetDelay { x: u8 },
    /// `Fx18` LD ST, Vx: `sound timer = Vx`.
    SetSound { x: u8 },
    /// `Fx1E` ADD I, Vx: `I = I + Vx` as a 16-bit sum.
    AddIndex { x: u8 },
    /// `Fx29` LD F, Vx: `I = 5 * Vx`, the glyph of hex digit `Vx`.
    LoadFont { x: u8 },
    /// `Fx33` LD B, Vx: store the decimal digits of `Vx` at `I`, `I + 1`, `I + 2`.
    StoreBcd { x: u8 },
    /// `Fx55` LD [I], Vx: store `V0..=Vx` at `I`, then `I = I + x + 1`.
    StoreRegisters { x: u8 },
    /// `Fx65` LD Vx, [I]: load `V0..=Vx` from `I`, then `I = I + x + 1`.
    LoadRegisters { x: u8 },
}

/// The group field `t`.
pub open spec fn field_t(word: u16) -> u16 {
    word >> 12
}

/// The register field `x`.
pub open spec fn field_x(word: u16) -> u8 {
    ((word & 0x0F00) >> 8) as u8
}

/// The register field `y`.
pub open spec fn field_y(word: u16) -> u8 {
    ((word & 0x00F0) >> 4) as u8
}

/// The low field `n`.
pub open spec fn field_n(word: u16) -> u8 {
    (word & 0x000F) as u8
}

/// The low byte `kk`.
pub open spec fn field_kk(word: u16) -> u8 {
    (word & 0x00FF) as u8
}

/// The address field `nnn`.
pub open spec fn field_nnn(word: u16) -> u16 {
    word & 0x0FFF
}

/// The instruction that `word` encodes, or `None` where it encodes none that
/// this machine runs (an unknown pattern, or a `0nnn` machine-code call).
pub open spec fn spec_decode(word: u16) -> Option<Instruction> {
    let x = field_x(word);
    let y = field_y(word);
    let n = field_n(word);
    let kk = field_kk(word);
    let nnn = field_nnn(word);
    let t = field_t(word);
    if t == 0x0 {
        if word == 0x00E0 {
            Some(Instruction::ClearScreen)
        } else if word == 0x00EE {
            Some(Instruction::Return)
        } else {
            None
        }
    } else if t == 0x1 {
        Some(Instruction::Jump { nnn })
    } else if t == 0x2 {
        Some(Instruction::Call { nnn })
    } else if t == 0x3 {
        Some(Instruction::SkipEqImm { x, kk })
    } else if t == 0x4 {
        Some(Instruction::SkipNeImm { x, kk })
    } else if t == 0x5 {
        if n == 0x0 {
            Some(Instruction::SkipEqReg { x, y })
        } else {
            None
        }
    } else if t == 0x6 {
        Some(Instruction::LoadImm { x, kk })
    } else if t == 0x7 {
        Some(Instruction::AddImm { x, kk })
    } else if t == 0x8 {
        if n == 0x0 {
            Some(Instruction::Move { x, y })
        } else if n == 0x1 {
            Some(Instruction::Or { x, y })
        } else if n == 0x2 {
            Some(Instruction::And { x, y })
        } else if n == 0x3 {
            Some(Instruction::Xor { x, y })
        } else if n == 0x4 {
            Some(Instruction::AddReg { x, y })
        } else if n == 0x5 {
            Some(Instruction::Sub { x, y })
        } else if n == 0x6 {
            Some(Instruction::ShiftRight { x, y })
        } else if n == 0x7 {
            Some(Instruction::SubReverse { x, y })
        } else if n == 0xE {
            Some(Instruction::ShiftLeft { x, y })
        } else {
            None
        }
    } else if t == 0x9 {
        if n == 0x0 {
            Some(Instruction::SkipNeReg { x, y })
        } else {
            None
        }
    } else if t == 0xA {
        Some(Instruction::LoadIndex { nnn })
    } else if t == 0xB {
        Some(Instruction::JumpOffset { nnn })
    } else if t == 0xC {
        Some(Instruction::Random { x, kk })
    } else if t == 0xD {
        Some(Instruction::Draw { x, y, n })
    } else if t == 0xE {
        if kk == 0x9E {
            Some(Instruction::SkipKey { x })
        } else if kk == 0xA1 {
            Some(Instruction::SkipNoKey { x })
        } else {
            None
        }
    } else {
        if kk == 0x07 {
            Some(Instruction::LoadDelay { x })
        } else if kk == 0x0A {
            Some(Instruction::WaitKey { x })
        } else if kk == 0x15 {
            Some(Instruction::SetDelay { x })
        } else if kk == 0x18 {
            Some(Instruction::SetSound { x })
        } else if kk == 0x1E {
            Some(Instruction::AddIndex { x })
        } else if kk == 0x29 {
            Some(Instruction::LoadFont { x })
        } else if kk == 0x33 {
            Some(Instruction::StoreBcd { x })
        } else if kk == 0x55 {
            Some(Instruction::StoreRegisters { x })
        } else if kk == 0x65 {
            Some(Instruction::LoadRegisters { x })
        } else {
            None
        }
    }
}

/// Register fields name one of the 16 registers; `n` fits in 4 bits and `nnn`
/// in 12.
pub proof fn lemma_fields_in_range(word: u16)
    ensures
        field_x(word) < 16,
        field_y(word) < 16,
        field_n(word) < 16,
        field_nnn(word) < 0x1000,
        field_t(word) < 16,
{
    assert((word & 0x0F00) >> 8 < 16) by (bit_vector);
    assert((word & 0x00F0) >> 4 < 16) by (bit_vector);
    assert(word & 0x000F < 16) by (bit_vector);
    assert(word & 0x0FFF < 0x1000) by (bit_vector);
    assert(word >> 12 < 16) by (bit_vector);
}

/// Every register that a decoded instruction names is one of the 16.
pub open spec fn registers_in_range(ins: Instruction) -> bool {
    match ins {
        Instruction::ClearScreen | Instruction::Return => true,
        Instruction::Jump { nnn } | Instruction::Call { nnn } | Instruction::LoadIndex { nnn }
        | Instruction::JumpOffset { nnn } => nnn < 0x1000,
        Instruction::SkipEqImm { x, .. } | Instruction::SkipNeImm { x, .. }
        | Instruction::LoadImm { x, .. } | Instruction::AddImm { x, .. }
        | Instruction::Random { x, .. } | Instruction::SkipKey { x }
        | Instruction::SkipNoKey { x } | Instruction::LoadDelay { x } | Instruction::WaitKey { x }
        | Instruction::SetDelay { x } | Instruction::SetSound { x } | Instruction::AddIndex { x }
        | Instruction::LoadFont { x } | Instruction::StoreBcd { x }
        | Instruction::StoreRegisters { x } | Instruction::LoadRegisters { x } => x < 16,
        Instruction::SkipEqReg { x, y } | Instruction::Move { x, y } | Instruction::Or { x, y }
        | Instruction::And { x, y } | Instruction::Xor { x, y } | Instruction::AddReg { x, y }
        | Instruction::Sub { x, y } | Instruction::ShiftRight { x, y }
        | Instruction::SubReverse { x, y } | Instruction::ShiftLeft { x, y }
        | Instruction::SkipNeReg { x, y } => x < 16 && y < 16,
        Instruction::Draw { x, y, n } => x < 16 && y < 16 && n < 16,
    }
}

/// Decodes one instruction word.
pub fn decode(word: u16) -> (r: Option<Instruction>)
    ensures
        r == spec_decode(word),
        r matches Some(ins) ==> registers_in_range(ins),
{
    proof {
        lemma_fields_in_range(word);
    }
    let x = ((word & 0x0F00) >> 8) as u8;
    let y = ((word & 0x00F0) >> 4) as u8;
    let n = (word & 0x000F) as u8;
    let kk = (word & 0x00FF) as u8;
    let nnn = word & 0x0FFF;
    let t = word >> 12;
    if t == 0x0 {
        if word == 0x00E0 {
            Some(Instruction::ClearScreen)
        } else if word == 0x00EE {
            Some(Instruction::Return)
        } else {
            None
        }
    } else if t == 0x1 {
        Some(Instruction::Jump { nnn })
    } else if t == 0x2 {
        Some(Instruction::Call { nnn })
    } else if t == 0x3 {
        Some(Instruction::SkipEqImm { x, kk })
    } else if t == 0x4 {
        Some(Instruction::SkipNeImm { x, kk })
    } else if t == 0x5 {
        if n == 0x0 {
            Some(Instruction::SkipEqReg { x, y })
        } else {
            None
        }
    } else if t == 0x6 {
        Some(Instruction::LoadImm { x, kk })
    } else if t == 0x7 {
        Some(Instruction::AddImm { x, kk })
    } else if t == 0x8 {
        if n == 0x0 {
            Some(Instruction::Move { x, y })
        } else if n == 0x1 {
            Some(Instruction::Or { x, y })
        } else if n == 0x2 {
            Some(Instruction::And { x, y })
        } else if n == 0x3 {
            Some(Instruction::Xor { x, y })
        } else if n == 0x4 {
            Some(Instruction::AddReg { x, y })
        } else if n == 0x5 {
            Some(Instruction::Sub { x, y })
        } else if n == 0x6 {
            Some(Instruction::ShiftRight { x, y })
        } else if n == 0x7 {
            Some(Instruction::SubReverse { x, y })
        } else if n == 0xE {
            Some(Instruction::ShiftLeft { x, y })
        } else {
            None
        }
    } else if t == 0x9 {
        if n == 0x0 {
            Some(Instruction::SkipNeReg { x, y })
        } else {
            None
        }
    } else if t == 0xA {
        Some(Instruction::LoadIndex { nnn })
    } else if t == 0xB {
        Some(Instruction::JumpOffset { nnn })
    } else if t == 0xC {
        Some(Instruction::Random { x, kk })
    } else if t == 0xD {
        Some(Instruction::Draw { x, y, n })
    } else if t == 0xE {
        if kk == 0x9E {
            Some(Instruction::SkipKey { x })
        } else if kk == 0xA1 {
            Some(Instruction::SkipNoKey { x })
        } else {
            None
        }
    } else {
        if kk == 0x07 {
            Some(Instruction::LoadDelay { x })
        } else if kk == 0x0A {
            Some(Instruction::WaitKey { x })
        } else if kk == 0x15 {
            Some(Instruction::SetDelay { x })
        } else if kk == 0x18 {
            Some(Instruction::SetSound { x })
        } else if kk == 0x1E {
            Some(Instruction::AddIndex { x })
        } else if kk == 0x29 {
            Some(Instruction::LoadFont { x })
        } else if kk == 0x33 {
            Some(Instruction::StoreBcd { x })
        } else if kk == 0x55 {
            Some(Instruction::StoreRegisters { x })
        } else if kk == 0x65 {
            Some(Instruction::LoadRegisters { x })
        } else {
            None
        }
    }
}

} // verus!
