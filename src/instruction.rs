//! The CHIP-8 instruction set and the bit fields of a raw opcode.
use vstd::prelude::*;

verus! {

/// One decoded CHIP-8 instruction.
///
/// Register operands (`x`, `y`) are register numbers `0x0..=0xF`; addresses
/// (`nnn`) are 12-bit values; `kk` is an immediate byte and `n` a sprite height.
#[derive(Debug, Clone, Copy, PartialEq, Eq, Structural)]
pub enum Instruction {
    /// `00E0`: clear the display.
    Clear,
    /// `00EE`: return from a subroutine.
    Return,
    /// `1nnn`: jump to `nnn`.
    Jump(u16),
    /// `2nnn`: call the subroutine at `nnn`.
    Call(u16),
    /// `3xkk`: skip the next instruction if `Vx == kk`.
    SkipNextIfEqualByte(usize, u8),
    /// `4xkk`: skip the next instruction if `Vx != kk`.
    SkipNextIfNotEqualByte(usize, u8),
    /// `5xy0`: skip the next instruction if `Vx == Vy`.
    SkipNextIfEqualRegister(usize, usize),
    /// `6xkk`: `Vx = kk`.
    LoadByte(usize, u8),
    /// `7xkk`: `Vx = Vx + kk`, wrapping, flag untouched.
    AddByte(usize, u8),
    /// `8xy0`: `Vx = Vy`.
    LoadRegister(usize, usize),
    /// `8xy1`: `Vx = Vx | Vy`.
    Or(usize, usize),
    /// `8xy2`: `Vx = Vx & Vy`.
    And(usize, usize),
    /// `8xy3`: `Vx = Vx ^ Vy`.
    Xor(usize, usize),
    /// `8xy4`: `Vx = Vx + Vy`, `VF` = carry.
    AddRegister(usize, usize),
    /// `8xy5`: `Vx = Vx - Vy`, `VF` = 1 when `Vx > Vy`.
    Sub(usize, usize),
    /// `8xy6`: `Vx = Vx >> 1`, `VF` = the bit shifted out; `Vy` is ignored.
    ShiftRight(usize, usize),
    /// `8xy7`: `Vx = Vy - Vx`, `VF` = 1 when `Vy > Vx`.
    SubFrom(usize, usize),
    /// `8xyE`: `Vx = Vx << 1`, `VF` = the bit shifted out; `Vy` is ignored.
    ShiftLeft(usize, usize),
    /// `9xy0`: skip the next instruction if `Vx != Vy`.
    SkipNextIfNotEqualRegister(usize, usize),
    /// `Annn`: `I = nnn`.
    SetIndex(u16),
    /// `Bnnn`: jump to `nnn + V0`.
    JumpOf(u16),
    /// `Cxkk`: `Vx = random byte & kk`.
    Random(usize, u8),
    /// `Dxyn`: draw the `n`-row sprite at `I` at `(Vx, Vy)`, `VF` = collision.
    DisplaySprite(usize, usize, u8),
    /// `Ex9E`: skip the next instruction if key `Vx` is pressed.
    SkipIfKeyPressed(usize),
    /// `ExA1`: skip the next instruction if key `Vx` is not pressed.
    SkipIfNotKeyPressed(usize),
    /// `Fx07`: `Vx = delay timer`.
    LoadTimer(usize),
    /// `Fx0A`: wait for a key press and store its number in `Vx`.
    WaitKeyPress(usize),
    /// `Fx15`: `delay timer = Vx`.
    SetTimer(usize),
    /// `Fx18`: `sound timer = Vx`.
    SetSoundTimer(usize),
    /// `Fx1E`: `I = I + Vx`, wrapping at sixteen bits.
    AddIndex(usize),
    /// `Fx29`: `I` = address of the font glyph for digit `Vx`.
    LoadSpriteLocationIndex(usize),
    /// `Fx33`: store the decimal digits of `Vx` at `I`, `I+1`, `I+2`.
    BinaryCodedDecimal(usize),
    /// `Fx55`: store `V0..=Vx` in memory from `I`.
    StoreRegisters(usize),
    /// `Fx65`: read `V0..=Vx` from memory at `I`.
    ReadRegisters(usize),
}

impl Instruction {
    /// Every address fits in twelve bits, every register operand names one of
    /// the sixteen registers and every sprite height fits in a nibble.
    pub open spec fn wf(self) -> bool {
        match self {
            Instruction::Jump(nnn) => nnn < 0x1000,
            Instruction::Call(nnn) => nnn < 0x1000,
            Instruction::SetIndex(nnn) => nnn < 0x1000,
            Instruction::JumpOf(nnn) => nnn < 0x1000,
            Instruction::SkipNextIfEqualByte(x, _) => x < 16,
            Instruction::SkipNextIfNotEqualByte(x, _) => x < 16,
            Instruction::SkipNextIfEqualRegister(x, y) => x < 16 && y < 16,
            Instruction::LoadByte(x, _) => x < 16,
            Instruction::AddByte(x, _) => x < 16,
            Instruction::LoadRegister(x, y) => x < 16 && y < 16,
            Instruction::Or(x, y) => x < 16 && y < 16,
            Instruction::And(x, y) => x < 16 && y < 16,
            Instruction::Xor(x, y) => x < 16 && y < 16,
            Instruction::AddRegister(x, y) => x < 16 && y < 16,
            Instruction::Sub(x, y) => x < 16 && y < 16,
            Instruction::ShiftRight(x, y) => x < 16 && y < 16,
            Instruction::SubFrom(x, y) => x < 16 && y < 16,
            Instruction::ShiftLeft(x, y) => x < 16 && y < 16,
            Instruction::SkipNextIfNotEqualRegister(x, y) => x < 16 && y < 16,
            Instruction::Random(x, _) => x < 16,
            Instruction::DisplaySprite(x, y, n) => x < 16 && y < 16 && n < 16,
            Instruction::SkipIfKeyPressed(x) => x < 16,
            Instruction::SkipIfNotKeyPressed(x) => x < 16,
            Instruction::LoadTimer(x) => x < 16,
            Instruction::WaitKeyPress(x) => x < 16,
            Instruction::SetTimer(x) => x < 16,
            Instruction::SetSoundTimer(x) => x < 16,
            Instruction::AddIndex(x) => x < 16,
            Instruction::LoadSpriteLocationIndex(x) => x < 16,
            Instruction::BinaryCodedDecimal(x) => x < 16,
            Instruction::StoreRegisters(x) => x < 16,
            Instruction::ReadRegisters(x) => x < 16,
            _ => true,
        }
    }
}

/// The high nibble of an opcode: its instruction family.
pub open spec fn family_of(op: u16) -> u16 {
    op / 0x1000
}

/// `nnn`: the low twelve bits.
pub open spec fn nnn_of(op: u16) -> u16 {
    op % 0x1000
}

/// `n`: the low four bits.
pub open spec fn n_of(op: u16) -> u8 {
    (op % 0x10) as u8
}

/// `x`: bits 8 to 11.
pub open spec fn x_of(op: u16) -> usize {
    ((op / 0x100) % 0x10) as usize
}

/// `y`: bits 4 to 7.
pub open spec fn y_of(op: u16) -> usize {
    ((op / 0x10) % 0x10) as usize
}

/// `kk`: the low byte.
pub open spec fn kk_of(op: u16) -> u8 {
    (op % 0x100) as u8
}

/// The instruction that an opcode encodes, or `None` when it encodes none.
pub open spec fn decode_spec(op: u16) -> Option<Instruction> {
    let (nnn, n, x, y, kk) = (nnn_of(op), n_of(op), x_of(op), y_of(op), kk_of(op));
    let family = family_of(op);
    if op == 0x00E0 {
        Some(Instruction::Clear)
    } else if op == 0x00EE {
        Some(Instruction::Return)
    } else if family == 0x1 {
        Some(Instruction::Jump(nnn))
    } else if family == 0x2 {
        Some(Instruction::Call(nnn))
    } else if family == 0x3 {
        Some(Instruction::SkipNextIfEqualByte(x, kk))
    } else if family == 0x4 {
        Some(Instruction::SkipNextIfNotEqualByte(x, kk))
    } else if family == 0x5 {
        if n == 0 {
            Some(Instruction::SkipNextIfEqualRegister(x, y))
        } else {
            None
        }
    } else if family == 0x6 {
        Some(Instruction::LoadByte(x, kk))
    } else if family == 0x7 {
        Some(Instruction::AddByte(x, kk))
    } else if family == 0x8 {
        decode_arithmetic_spec(n, x, y)
    } else if family == 0x9 {
        if n == 0 {
            Some(Instruction::SkipNextIfNotEqualRegister(x, y))
        } else {
            None
        }
    } else if family == 0xA {
        Some(Instruction::SetIndex(nnn))
    } else if family == 0xB {
        Some(Instruction::JumpOf(nnn))
    } else if family == 0xC {
        Some(Instruction::Random(x, kk))
    } else if family == 0xD {
        Some(Instruction::DisplaySprite(x, y, n))
    } else if family == 0xE {
        if kk == 0x9E {
            Some(Instruction::SkipIfKeyPressed(x))
        } else if kk == 0xA1 {
            Some(Instruction::SkipIfNotKeyPressed(x))
        } else {
            None
        }
    } else if family == 0xF {
        decode_misc_spec(kk, x)
    } else {
        None
    }
}

/// Family `8xyn`, chosen by its low nibble.
pub open spec fn decode_arithmetic_spec(n: u8, x: usize, y: usize) -> Option<Instruction> {
    if n == 0x0 {
        Some(Instruction::LoadRegister(x, y))
    } else if n == 0x1 {
        Some(Instruction::Or(x, y))
    } else if n == 0x2 {
        Some(Instruction::And(x, y))
    } else if n == 0x3 {
        Some(Instruction::Xor(x, y))
    } else if n == 0x4 {
        Some(Instruction::AddRegister(x, y))
    } else if n == 0x5 {
        Some(Instruction::Sub(x, y))
    } else if n == 0x6 {
        Some(Instruction::ShiftRight(x, y))
    } else if n == 0x7 {
        Some(Instruction::SubFrom(x, y))
    } else if n == 0xE {
        Some(Instruction::ShiftLeft(x, y))
    } else {
        None
    }
}

/// Family `Fxkk`, chosen by its low byte.
pub open spec fn decode_misc_spec(kk: u8, x: usize) -> Option<Instruction> {
    if kk == 0x07 {
        Some(Instruction::LoadTimer(x))
    } else if kk == 0x0A {
        Some(Instruction::WaitKeyPress(x))
    } else if kk == 0x15 {
        Some(Instruction::SetTimer(x))
    } else if kk == 0x18 {
        Some(Instruction::SetSoundTimer(x))
    } else if kk == 0x1E {
        Some(Instruction::AddIndex(x))
    } else if kk == 0x29 {
        Some(Instruction::LoadSpriteLocationIndex(x))
    } else if kk == 0x33 {
        Some(Instruction::BinaryCodedDecimal(x))
    } else if kk == 0x55 {
        Some(Instruction::StoreRegisters(x))
    } else if kk == 0x65 {
        Some(Instruction::ReadRegisters(x))
    } else {
        None
    }
}

} // verus!
