//! The instruction set and its decoder.
//!
//! An instruction word has sixteen bits, written here as four hexadecimal
//! digits `c x y n`. The first digit selects the class; `x` and `y` name
//! registers; `n`, the byte `kk` (= `y n`) and the address `nnn` (= `x y n`)
//! are immediate operands.

use vstd::prelude::*;
use vstd::std_specs::convert::TryFromSpecImpl;

verus! {

/// A decoded instruction with its operands.
///
/// Operands named `reg` are register indices (0 to 15), `byte` is an 8-bit
/// immediate and `addr` a 12-bit address.
#[derive(Clone, Copy, Debug, PartialEq, Eq)]
pub enum Instruction {
    /// `00E0`: blank the frame buffer.
    ClearDisplay,
    /// `00EE`: return to the address on top of the call stack.
    ReturnFromSubroutine,
    /// `1nnn`: continue at `addr`.
    Jump(u16),
    /// `2nnn`: push the program counter and continue at `addr`.
    CallSubroutine(u16),
    /// `3xkk`: skip the next instruction if `V[reg] == byte`.
    SkipRegEqByte(u8, u8),
    /// `4xkk`: skip the next instruction if `V[reg] != byte`.
    SkipRegNotEqByte(u8, u8),
    /// `5xy0`: skip the next instruction if `V[reg1] == V[reg2]`.
    SkipRegEqReg(u8, u8),
    /// `6xkk`: `V[reg] = byte`.
    SetRegToByte(u8, u8),
    /// `7xkk`: `V[reg] += byte`, wrapping, status flag untouched.
    AddByteToReg(u8, u8),
    /// `8xy0`: `V[reg1] = V[reg2]`.
    MoveValue(u8, u8),
    /// `8xy1`: `V[reg1] |= V[reg2]`.
    OrRegs(u8, u8),
    /// `8xy2`: `V[reg1] &= V[reg2]`.
    AndRegs(u8, u8),
    /// `8xy3`: `V[reg1] ^= V[reg2]`.
    XorRegs(u8, u8),
    /// `8xy4`: `V[reg1] += V[reg2]`, status flag = carry.
    AddRegs(u8, u8),
    /// `8xy5`: `V[reg1] -= V[reg2]`, status flag = no borrow.
    SubRegs(u8, u8),
    /// `8xy6`: `V[reg] >>= 1`, status flag = the bit shifted out.
    ShiftRight(u8),
    /// `8xy7`: `V[reg1] = V[reg2] - V[reg1]`, status flag = no borrow.
    ReverseSubRegs(u8, u8),
    /// `8xyE`: `V[reg] <<= 1`, status flag = the bit shifted out.
    ShiftLeft(u8),
    /// `9xy0`: skip the next instruction if `V[reg1] != V[reg2]`.
    SkipRegNotEqReg(u8, u8),
    /// `Annn`: `I = addr`.
    SetI(u16),
    /// `Bnnn`: continue at `addr + V[0]`.
    JumpV0PlusByte(u16),
    /// `Cxkk`: `V[reg] = random byte & byte`.
    SetRegToRandPlusByte(u8, u8),
    /// `Dxyn`: draw the `n`-row sprite at `I` at (`V[reg_x]`, `V[reg_y]`).
    DrawSprite(u8, u8, u8),
    /// `Ex9E`: skip the next instruction if the latest key equals `V[reg]`.
    SkipIfKey(u8),
    /// `ExA1`: skip the next instruction if the latest key differs from `V[reg]`.
    SkipIfNotKey(u8),
    /// `Fx07`: `V[reg] = delay timer`.
    LoadDelayToReg(u8),
    /// `Fx0A`: wait for a key and store it in `V[reg]`.
    LoadKeyToReg(u8),
    /// `Fx15`: `delay timer = V[reg]`.
    SetDelayToReg(u8),
    /// `Fx18`: `sound timer = V[reg]`.
    SetSoundToReg(u8),
    /// `Fx1E`: `I += V[reg]`.
    AddRegToI(u8),
    /// `Fx29`: `I` = address of the font sprite for `V[reg]`.
    SetIToDigitSpriteLoc(u8),
    /// `Fx33`: store the decimal digits of `V[reg]` at `I`, `I+1`, `I+2`.
    StoreNumberFromRegToI(u8),
    /// `Fx55`: store `V[0]..=V[reg]` at `I..`.
    StoreRegsToMem(u8),
    /// `Fx65`: load `V[0]..=V[reg]` from `I..`.
    LoadRegsFromMem(u8),
}

/// Why a word is not an instruction.
#[derive(Clone, Copy, Debug, PartialEq, Eq)]
pub enum InstructionError {
    /// The word matches no opcode; it is carried unchanged.
    Invalid(u16),
}

/// The first hexadecimal digit of a word: the opcode class.
pub open spec fn word_class(raw: u16) -> int {
    raw as int / 0x1000
}

/// The second hexadecimal digit of a word: the first register operand.
pub open spec fn word_x(raw: u16) -> u8 {
    ((raw as int / 0x100) % 0x10) as u8
}

/// The third hexadecimal digit of a word: the second register operand.
pub open spec fn word_y(raw: u16) -> u8 {
    ((raw as int / 0x10) % 0x10) as u8
}

/// The last hexadecimal digit of a word.
pub open spec fn word_n(raw: u16) -> u8 {
    (raw as int % 0x10) as u8
}

/// The low byte of a word: the 8-bit immediate.
pub open spec fn word_kk(raw: u16) -> u8 {
    (raw as int % 0x100) as u8
}

/// The low twelve bits of a word: the address operand.
pub open spec fn word_nnn(raw: u16) -> u16 {
    (raw as int % 0x1000) as u16
}

/// The opcode table: the instruction that a word stands for, if any.
pub open spec fn decode(raw: u16) -> Option<Instruction> {
    let c = word_class(raw);
    let x = word_x(raw);
    let y = word_y(raw);
    let n = word_n(raw);
    let kk = word_kk(raw);
    let nnn = word_nnn(raw);
    if c == 0x0 {
        if raw == 0x00E0 {
            Some(Instruction::ClearDisplay)
        } else if raw == 0x00EE {
            Some(Instruction::ReturnFromSubroutine)
        } else {
            None
        }
    } else if c == 0x1 {
        Some(Instruction::Jump(nnn))
    } else if c == 0x2 {
        Some(Instruction::CallSubroutine(nnn))
    } else if c == 0x3 {
        Some(Instruction::SkipRegEqByte(x, kk))
    } else if c == 0x4 {
        Some(Instruction::SkipRegNotEqByte(x, kk))
    } else if c == 0x5 {
        if n == 0x0 {
            Some(Instruction::SkipRegEqReg(x, y))
        } else {
            None
        }
    } else if c == 0x6 {
        Some(Instruction::SetRegToByte(x, kk))
    } else if c == 0x7 {
        Some(Instruction::AddByteToReg(x, kk))
    } else if c == 0x8 {
        if n == 0x0 {
            Some(Instruction::MoveValue(x, y))
        } else if n == 0x1 {
            Some(Instruction::OrRegs(x, y))
        } else if n == 0x2 {
            Some(Instruction::AndRegs(x, y))
        } else if n == 0x3 {
            Some(Instruction::XorRegs(x, y))
        } else if n == 0x4 {
            Some(Instruction::AddRegs(x, y))
        } else if n == 0x5 {
            Some(Instruction::SubRegs(x, y))
        } else if n == 0x6 {
            Some(Instruction::ShiftRight(x))
        } else if n == 0x7 {
            Some(Instruction::ReverseSubRegs(x, y))
        } else if n == 0xE {
            Some(Instruction::ShiftLeft(x))
        } else {
            None
        }
    } else if c == 0x9 {
        if n == 0x0 {
            Some(Instruction::SkipRegNotEqReg(x, y))
        } else {
            None
        }
    } else if c == 0xA {
        Some(Instruction::SetI(nnn))
    } else if c == 0xB {
        Some(Instruction::JumpV0PlusByte(nnn))
    } else if c == 0xC {
        Some(Instruction::SetRegToRandPlusByte(x, kk))
    } else if c == 0xD {
        Some(Instruction::DrawSprite(x, y, n))
    } else if c == 0xE {
        if kk == 0x9E {
            Some(Instruction::SkipIfKey(x))
        } else if kk == 0xA1 {
            Some(Instruction::SkipIfNotKey(x))
        } else {
            None
        }
    } else {
        if kk == 0x07 {
            Some(Instruction::LoadDelayToReg(x))
        } else if kk == 0x0A {
            Some(Instruction::LoadKeyToReg(x))
        } else if kk == 0x15 {
            Some(Instruction::SetDelayToReg(x))
        } else if kk == 0x18 {
            Some(Instruction::SetSoundToReg(x))
        } else if kk == 0x1E {
            Some(Instruction::AddRegToI(x))
        } else if kk == 0x29 {
            Some(Instruction::SetIToDigitSpriteLoc(x))
        } else if kk == 0x33 {
            Some(Instruction::StoreNumberFromRegToI(x))
        } else if kk == 0x55 {
            Some(Instruction::StoreRegsToMem(x))
        } else if kk == 0x65 {
            Some(Instruction::LoadRegsFromMem(x))
        } else {
            None
        }
    }
}

impl Instruction {
    /// Every operand lies in its domain: register indices and the sprite
    /// height below 16, addresses below 4096.
    pub open spec fn wf(self) -> bool {
        match self {
            Instruction::ClearDisplay | Instruction::ReturnFromSubroutine => true,
            Instruction::Jump(addr)
            | Instruction::CallSubroutine(addr)
            | Instruction::SetI(addr)
            | Instruction::JumpV0PlusByte(addr) => addr < 0x1000,
            Instruction::SkipRegEqByte(reg, _)
            | Instruction::SkipRegNotEqByte(reg, _)
            | Instruction::SetRegToByte(reg, _)
            | Instruction::AddByteToReg(reg, _)
            | Instruction::SetRegToRandPlusByte(reg, _) => reg < 16,
            Instruction::SkipRegEqReg(reg1, reg2)
            | Instruction::MoveValue(reg1, reg2)
            | Instruction::OrRegs(reg1, reg2)
            | Instruction::AndRegs(reg1, reg2)
            | Instruction::XorRegs(reg1, reg2)
            | Instruction::AddRegs(reg1, reg2)
            | Instruction::SubRegs(reg1, reg2)
            | Instruction::ReverseSubRegs(reg1, reg2)
            | Instruction::SkipRegNotEqReg(reg1, reg2) => reg1 < 16 && reg2 < 16,
            Instruction::DrawSprite(reg_x, reg_y, rows) => reg_x < 16 && reg_y < 16 && rows < 16,
            Instruction::ShiftRight(reg)
            | Instruction::ShiftLeft(reg)
            | Instruction::SkipIfKey(reg)
            | Instruction::SkipIfNotKey(reg)
            | Instruction::LoadDelayToReg(reg)
            | Instruction::LoadKeyToReg(reg)
            | Instruction::SetDelayToReg(reg)
            | Instruction::SetSoundToReg(reg)
            | Instruction::AddRegToI(reg)
            | Instruction::SetIToDigitSpriteLoc(reg)
            | Instruction::StoreNumberFromRegToI(reg)
            | Instruction::StoreRegsToMem(reg)
            | Instruction::LoadRegsFromMem(reg) => reg < 16,
        }
    }
}

/// Whatever the decoder accepts has operands within their domains.
pub proof fn lemma_decoded_is_wf(raw: u16)
    ensures
        decode(raw) matches Some(instruction) ==> instruction.wf(),
{
}

/// Masking and shifting a word yields its hexadecimal digits.
proof fn lemma_word_fields(raw: u16)
    ensures
        (raw & 0x0F00) >> 8 == word_x(raw),
        (raw & 0xF0) >> 4 == word_y(raw),
        raw & 0xF == word_n(raw),
        raw & 0xFF == word_kk(raw),
        raw & 0x0FFF == word_nnn(raw),
{
    assert((raw & 0x0F00) >> 8 == (raw / 0x100) % 0x10 && (raw & 0xF0) >> 4 == (raw / 0x10) % 0x10
        && raw & 0xF == raw % 0x10 && raw & 0xFF == raw % 0x100 && raw & 0x0FFF == raw % 0x1000)
        by (bit_vector);
}

impl TryFrom<u16> for Instruction {
    type Error = InstructionError;

    /// Decodes one instruction word. The word is rejected, and handed back
    /// in the error, exactly when the opcode table has no entry for it.
    fn try_from(raw: u16) -> (decoded: Result<Self, Self::Error>)
        ensures
            decoded == match decode(raw) {
                Some(instruction) => Ok::<Instruction, InstructionError>(instruction),
                None => Err(InstructionError::Invalid(raw)),
            },
            decoded matches Ok(instruction) ==> instruction.wf(),
    {
        proof {
            lemma_word_fields(raw);
        }
        let x: u8 = ((raw & 0x0F00) >> 8) as u8;
        let y: u8 = ((raw & 0xF0) >> 4) as u8;
        let n: u8 = (raw & 0xF) as u8;
        let kk: u8 = (raw & 0xFF) as u8;
        let nnn: u16 = raw & 0x0FFF;
        match raw {
            0x00E0 => Ok(Instruction::ClearDisplay),
            0x00EE => Ok(Instruction::ReturnFromSubroutine),
            0x1000..=0x1FFF => Ok(Instruction::Jump(nnn)),
            0x2000..=0x2FFF => Ok(Instruction::CallSubroutine(nnn)),
            0x3000..=0x3FFF => Ok(Instruction::SkipRegEqByte(x, kk)),
            0x4000..=0x4FFF => Ok(Instruction::SkipRegNotEqByte(x, kk)),
            0x5000..=0x5FFF => match n {
                0x0 => Ok(Instruction::SkipRegEqReg(x, y)),
                _ => Err(InstructionError::Invalid(raw)),
            },
            0x6000..=0x6FFF => Ok(Instruction::SetRegToByte(x, kk)),
            0x7000..=0x7FFF => Ok(Instruction::AddByteToReg(x, kk)),
            0x8000..=0x8FFF => match n {
                0x0 => Ok(Instruction::MoveValue(x, y)),
                0x1 => Ok(Instruction::OrRegs(x, y)),
                0x2 => Ok(Instruction::AndRegs(x, y)),
                0x3 => Ok(Instruction::XorRegs(x, y)),
                0x4 => Ok(Instruction::AddRegs(x, y)),
                0x5 => Ok(Instruction::SubRegs(x, y)),
                0x6 => Ok(Instruction::ShiftRight(x)),
                0x7 => Ok(Instruction::ReverseSubRegs(x, y)),
                0xE => Ok(Instruction::ShiftLeft(x)),
                _ => Err(InstructionError::Invalid(raw)),
            },
            0x9000..=0x9FFF => match n {
                0x0 => Ok(Instruction::SkipRegNotEqReg(x, y)),
                _ => Err(InstructionError::Invalid(raw)),
            },
            0xA000..=0xAFFF => Ok(Instruction::SetI(nnn)),
            0xB000..=0xBFFF => Ok(Instruction::JumpV0PlusByte(nnn)),
            0xC000..=0xCFFF => Ok(Instruction::SetRegToRandPlusByte(x, kk)),
            0xD000..=0xDFFF => Ok(Instruction::DrawSprite(x, y, n)),
            0xE000..=0xEFFF => match kk {
                0x9E => Ok(Instruction::SkipIfKey(x)),
                0xA1 => Ok(Instruction::SkipIfNotKey(x)),
                _ => Err(InstructionError::Invalid(raw)),
            },
            0xF000..=0xFFFF => match kk {
                0x07 => Ok(Instruction::LoadDelayToReg(x)),
                0x0A => Ok(Instruction::LoadKeyToReg(x)),
                0x15 => Ok(Instruction::SetDelayToReg(x)),
                0x18 => Ok(Instruction::SetSoundToReg(x)),
                0x1E => Ok(Instruction::AddRegToI(x)),
                0x29 => Ok(Instruction::SetIToDigitSpriteLoc(x)),
                0x33 => Ok(Instruction::StoreNumberFromRegToI(x)),
                0x55 => Ok(Instruction::StoreRegsToMem(x)),
                0x65 => Ok(Instruction::LoadRegsFromMem(x)),
                _ => Err(InstructionError::Invalid(raw)),
            },
            _ => Err(InstructionError::Invalid(raw)),
        }
    }
}

impl TryFromSpecImpl<u16> for Instruction {
    open spec fn obeys_try_from_spec() -> bool {
        true
    }

    open spec fn try_from_spec(raw: u16) -> Result<Self, Self::Error> {
        match decode(raw) {
            Some(instruction) => Ok(instruction),
            None => Err(InstructionError::Invalid(raw)),
        }
    }
}

} // verus!
