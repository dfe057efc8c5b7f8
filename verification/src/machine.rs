//! The mathematical model of the machine: its state and what one
//! instruction, one cycle and one timer update do to it.
//!
//! Everything here is ghost code. The engine realises it on arrays.

use crate::display::{blank, blit, blit_collides};
use crate::instruction::{decode, Instruction};
use vstd::prelude::*;

verus! {

/// Number of addressable bytes.
pub const MEMORY_SIZE: usize = 4096;

/// Address at which a program image is placed and execution starts.
pub const PROGRAM_START: usize = 0x200;

/// Number of slots of the call stack.
pub const STACK_SIZE: usize = 16;

/// Number of bytes of one font sprite.
pub const GLYPH_SIZE: usize = 5;

/// Nanoseconds that must have passed, and been exceeded, since the last
/// timer update for the next one to be due.
pub const TIMER_PERIOD_NANOS: u128 = 16_000_000;

/// The built-in sprites of the hexadecimal digits, five bytes each.
pub const FONT: [u8; 80] = [
    0xF0, 0x90, 0x90, 0x90, 0xF0,
    0x20, 0x60, 0x20, 0x20, 0x70,
    0xF0, 0x10, 0xF0, 0x80, 0xF0,
    0xF0, 0x10, 0xF0, 0x10, 0xF0,
    0x90, 0x90, 0xF0, 0x10, 0x10,
    0xF0, 0x80, 0xF0, 0x10, 0xF0,
    0xF0, 0x80, 0xF0, 0x90, 0xF0,
    0xF0, 0x10, 0x20, 0x40, 0x40,
    0xF0, 0x90, 0xF0, 0x90, 0xF0,
    0xF0, 0x90, 0xF0, 0x10, 0xF0,
    0xF0, 0x90, 0xF0, 0x90, 0x90,
    0xE0, 0x90, 0xE0, 0x90, 0xE0,
    0xF0, 0x80, 0x80, 0x80, 0xF0,
    0xE0, 0x90, 0x90, 0x90, 0xE0,
    0xF0, 0x80, 0xF0, 0x80, 0xF0,
    0xF0, 0x80, 0xF0, 0x80, 0x80,
];

/// Whether the engine executes instructions or waits for a key.
#[derive(Clone, Copy, Debug, PartialEq, Eq)]
pub enum RunState {
    /// The next cycle fetches and executes an instruction.
    Running,
    /// A load-key instruction found no key; the next key goes to this
    /// register.
    AwaitingKey(u8),
}

/// A condition that stops the machine. A cycle that ends in one leaves the
/// state as it was.
#[derive(Clone, Copy, Debug, PartialEq, Eq)]
pub enum Fault {
    /// A call with all fifteen usable stack slots taken.
    StackOverflow,
    /// A return with no call pending.
    StackUnderflow,
    /// A fetch, load or store that reaches beyond the last byte of memory.
    AddressOutOfRange,
}

/// The state of the machine.
pub struct MachineState {
    /// The 4096 bytes of memory.
    pub memory: Seq<u8>,
    /// The registers V0 to VF; VF doubles as the status flag.
    pub registers: Seq<u8>,
    /// The index register I.
    pub i: u16,
    pub delay_timer: u8,
    pub sound_timer: u8,
    /// Address of the next instruction.
    pub pc: u16,
    /// Index of the newest return address; 0 when no call is pending.
    pub sp: int,
    /// The sixteen slots of the call stack. Slot 0 is never used.
    pub stack: Seq<u16>,
    /// The 2048 cells of the frame buffer, row by row.
    pub pixels: Seq<bool>,
    /// The pending key indices, oldest first; the last is consumed first.
    pub keys: Seq<u8>,
    pub run: RunState,
}

/// Every entry is the index of a key, 0 to 15.
pub open spec fn key_indices(keys: Seq<u8>) -> bool {
    forall|k: int| 0 <= k < keys.len() ==> keys[k] < 16
}

/// Sixteen-bit wraparound of a sum of two 16-bit numbers: the sum, less
/// 65536 if it does not fit.
pub open spec fn wrap16(value: int) -> u16 {
    if value > 0xFFFF {
        (value - 0x1_0000) as u16
    } else {
        value as u16
    }
}

/// Eight-bit wraparound of a sum or difference of two bytes: the number,
/// less 256 if it is above 255, plus 256 if it is below 0.
pub open spec fn wrap8(value: int) -> u8 {
    if value > 0xFF {
        (value - 0x100) as u8
    } else if value < 0 {
        (value + 0x100) as u8
    } else {
        value as u8
    }
}

/// The status flag for a condition.
pub open spec fn flag(set: bool) -> u8 {
    if set {
        1
    } else {
        0
    }
}

/// The hundreds, tens and ones of a byte.
pub open spec fn bcd_digits(value: u8) -> Seq<u8> {
    seq![value / 100, (value / 10) % 10, value % 10]
}

/// `target` with `bytes` written over it from index `at` on.
pub open spec fn overwrite(target: Seq<u8>, at: int, bytes: Seq<u8>) -> Seq<u8> {
    Seq::new(
        target.len(),
        |k: int|
            if at <= k < at + bytes.len() {
                bytes[k - at]
            } else {
                target[k]
            },
    )
}

/// Memory as the constructor leaves it: the font at address 0, zero
/// elsewhere.
pub open spec fn initial_memory() -> Seq<u8> {
    overwrite(Seq::new(MEMORY_SIZE as nat, |k: int| 0u8), 0, FONT@)
}

/// The state after construction.
pub open spec fn initial_state() -> MachineState {
    MachineState {
        memory: initial_memory(),
        registers: Seq::new(16, |k: int| 0u8),
        i: 0,
        delay_timer: 0,
        sound_timer: 0,
        pc: PROGRAM_START as u16,
        sp: 0,
        stack: Seq::new(STACK_SIZE as nat, |k: int| 0u16),
        pixels: blank(),
        keys: Seq::empty(),
        run: RunState::Running,
    }
}

impl MachineState {
    /// The sizes are right, the stack pointer is within the stack, and the
    /// queue holds key indices only.
    pub open spec fn wf(self) -> bool {
        &&& self.memory.len() == MEMORY_SIZE
        &&& self.registers.len() == 16
        &&& self.stack.len() == STACK_SIZE
        &&& self.pixels.len() == crate::display::CELLS
        &&& 0 <= self.sp < STACK_SIZE
        &&& key_indices(self.keys)
        &&& (self.run matches RunState::AwaitingKey(reg) ==> reg < 16)
    }

    /// Register `reg`.
    pub open spec fn v(self, reg: u8) -> u8 {
        self.registers[reg as int]
    }

    /// The state with `value` in register `reg`.
    pub open spec fn with_reg(self, reg: u8, value: u8) -> Self {
        MachineState { registers: self.registers.update(reg as int, value), ..self }
    }

    /// The state after an arithmetic instruction: first the status flag is
    /// written to VF, then the result to `reg`. When `reg` is VF itself the
    /// result is what stays.
    pub open spec fn with_flag_and_reg(self, status: u8, reg: u8, value: u8) -> Self {
        MachineState {
            registers: self.registers.update(0xF, status).update(reg as int, value),
            ..self
        }
    }

    /// The state with the next instruction skipped if `condition` holds.
    pub open spec fn skip_if(self, condition: bool) -> Self {
        MachineState {
            pc: if condition {
                wrap16(self.pc + 2)
            } else {
                self.pc
            },
            ..self
        }
    }

    /// The state with the newest key taken off the queue.
    pub open spec fn without_last_key(self) -> Self {
        MachineState { keys: self.keys.drop_last(), ..self }
    }

    /// The big-endian word at the program counter.
    pub open spec fn word_at_pc(self) -> u16 {
        (self.memory[self.pc as int] as int * 0x100 + self.memory[self.pc + 1] as int) as u16
    }
}

/// The effect of one instruction. `random` is the byte drawn for the
/// random-and-mask instruction; no other instruction looks at it.
pub open spec fn apply(state: MachineState, instruction: Instruction, random: u8) -> Result<
    MachineState,
    Fault,
> {
    match instruction {
        Instruction::ClearDisplay => Ok(MachineState { pixels: blank(), ..state }),
        Instruction::ReturnFromSubroutine => if state.sp <= 0 {
            Err(Fault::StackUnderflow)
        } else {
            Ok(MachineState { pc: state.stack[state.sp], sp: state.sp - 1, ..state })
        },
        Instruction::Jump(addr) => Ok(MachineState { pc: addr, ..state }),
        Instruction::CallSubroutine(addr) => if state.sp + 1 >= STACK_SIZE {
            Err(Fault::StackOverflow)
        } else {
            Ok(
                MachineState {
                    pc: addr,
                    sp: state.sp + 1,
                    stack: state.stack.update(state.sp + 1, state.pc),
                    ..state
                },
            )
        },
        Instruction::SkipRegEqByte(reg, byte) => Ok(state.skip_if(state.v(reg) == byte)),
        Instruction::SkipRegNotEqByte(reg, byte) => Ok(state.skip_if(state.v(reg) != byte)),
        Instruction::SkipRegEqReg(reg1, reg2) => Ok(state.skip_if(state.v(reg1) == state.v(reg2))),
        Instruction::SetRegToByte(reg, byte) => Ok(state.with_reg(reg, byte)),
        Instruction::AddByteToReg(reg, byte) => Ok(
            state.with_reg(reg, wrap8(state.v(reg) + byte)),
        ),
        Instruction::MoveValue(reg1, reg2) => Ok(state.with_reg(reg1, state.v(reg2))),
        Instruction::OrRegs(reg1, reg2) => Ok(state.with_reg(reg1, state.v(reg1) | state.v(reg2))),
        Instruction::AndRegs(reg1, reg2) => Ok(state.with_reg(reg1, state.v(reg1) & state.v(reg2))),
        Instruction::XorRegs(reg1, reg2) => Ok(state.with_reg(reg1, state.v(reg1) ^ state.v(reg2))),
        Instruction::AddRegs(reg1, reg2) => Ok(
            state.with_flag_and_reg(
                flag(state.v(reg1) + state.v(reg2) > 0xFF),
                reg1,
                wrap8(state.v(reg1) + state.v(reg2)),
            ),
        ),
        Instruction::SubRegs(reg1, reg2) => Ok(
            state.with_flag_and_reg(
                flag(state.v(reg1) >= state.v(reg2)),
                reg1,
                wrap8(state.v(reg1) - state.v(reg2)),
            ),
        ),
        Instruction::ShiftRight(reg) => Ok(
            state.with_flag_and_reg(flag(state.v(reg) % 2 == 1), reg, state.v(reg) / 2),
        ),
        Instruction::ReverseSubRegs(reg1, reg2) => Ok(
            state.with_flag_and_reg(
                flag(state.v(reg2) >= state.v(reg1)),
                reg1,
                wrap8(state.v(reg2) - state.v(reg1)),
            ),
        ),
        Instruction::ShiftLeft(reg) => Ok(
            state.with_flag_and_reg(flag(state.v(reg) >= 0x80), reg, wrap8(state.v(reg) * 2)),
        ),
        Instruction::SkipRegNotEqReg(reg1, reg2) => Ok(
            state.skip_if(state.v(reg1) != state.v(reg2)),
        ),
        Instruction::SetI(addr) => Ok(MachineState { i: addr, ..state }),
        Instruction::JumpV0PlusByte(addr) => Ok(
            MachineState { pc: wrap16(state.v(0) + addr), ..state },
        ),
        Instruction::SetRegToRandPlusByte(reg, byte) => Ok(state.with_reg(reg, random & byte)),
        Instruction::DrawSprite(reg_x, reg_y, rows) => if state.i + rows > MEMORY_SIZE {
            Err(Fault::AddressOutOfRange)
        } else {
            let sprite = state.memory.subrange(state.i as int, state.i + rows);
            Ok(
                MachineState {
                    pixels: blit(state.pixels, state.v(reg_x), state.v(reg_y), sprite),
                    registers: state.registers.update(
                        0xF,
                        flag(blit_collides(state.pixels, state.v(reg_x), state.v(reg_y), sprite)),
                    ),
                    ..state
                },
            )
        },
        Instruction::SkipIfKey(reg) => if state.keys.len() == 0 {
            Ok(state)
        } else {
            Ok(state.without_last_key().skip_if(state.keys.last() == state.v(reg)))
        },
        Instruction::SkipIfNotKey(reg) => if state.keys.len() == 0 {
            Ok(state)
        } else {
            Ok(state.without_last_key().skip_if(state.keys.last() != state.v(reg)))
        },
        Instruction::LoadDelayToReg(reg) => Ok(state.with_reg(reg, state.delay_timer)),
        Instruction::LoadKeyToReg(reg) => if state.keys.len() == 0 {
            Ok(MachineState { run: RunState::AwaitingKey(reg), ..state })
        } else {
            Ok(state.without_last_key().with_reg(reg, state.keys.last()))
        },
        Instruction::SetDelayToReg(reg) => Ok(MachineState { delay_timer: state.v(reg), ..state }),
        Instruction::SetSoundToReg(reg) => Ok(MachineState { sound_timer: state.v(reg), ..state }),
        Instruction::AddRegToI(reg) => Ok(
            MachineState { i: wrap16(state.i + state.v(reg)), ..state },
        ),
        Instruction::SetIToDigitSpriteLoc(reg) => Ok(
            MachineState { i: (state.v(reg) * GLYPH_SIZE) as u16, ..state },
        ),
        Instruction::StoreNumberFromRegToI(reg) => if state.i + 3 > MEMORY_SIZE {
            Err(Fault::AddressOutOfRange)
        } else {
            Ok(
                MachineState {
                    memory: overwrite(state.memory, state.i as int, bcd_digits(state.v(reg))),
                    ..state
                },
            )
        },
        Instruction::StoreRegsToMem(reg) => if state.i + reg + 1 > MEMORY_SIZE {
            Err(Fault::AddressOutOfRange)
        } else {
            Ok(
                MachineState {
                    memory: overwrite(
                        state.memory,
                        state.i as int,
                        state.registers.subrange(0, reg + 1),
                    ),
                    ..state
                },
            )
        },
        Instruction::LoadRegsFromMem(reg) => if state.i + reg + 1 > MEMORY_SIZE {
            Err(Fault::AddressOutOfRange)
        } else {
            Ok(
                MachineState {
                    registers: overwrite(
                        state.registers,
                        0,
                        state.memory.subrange(state.i as int, state.i + reg + 1),
                    ),
                    ..state
                },
            )
        },
    }
}

/// One instruction cycle.
///
/// While the machine waits for a key, a cycle with an empty queue does
/// nothing, and a cycle with a key stores the newest one in the waiting
/// register and resumes. Otherwise the word at the program counter is
/// fetched, the program counter moves past it, and the instruction it
/// decodes to is applied; a word that decodes to nothing has no further
/// effect.
pub open spec fn cycle(state: MachineState, random: u8) -> Result<MachineState, Fault> {
    match state.run {
        RunState::AwaitingKey(reg) => if state.keys.len() == 0 {
            Ok(state)
        } else {
            Ok(
                MachineState { run: RunState::Running, ..state }.without_last_key().with_reg(
                    reg,
                    state.keys.last(),
                ),
            )
        },
        RunState::Running => if state.pc + 2 > MEMORY_SIZE {
            Err(Fault::AddressOutOfRange)
        } else {
            let fetched = MachineState { pc: (state.pc + 2) as u16, ..state };
            match decode(state.word_at_pc()) {
                Some(instruction) => apply(fetched, instruction, random),
                None => Ok(fetched),
            }
        },
    }
}

/// A timer one tick later: it stops at zero.
pub open spec fn decayed(timer: u8) -> u8 {
    if timer > 0 {
        (timer - 1) as u8
    } else {
        0
    }
}

/// Whether a timer update is due after `elapsed_nanos` since the last one.
pub open spec fn timers_due(elapsed_nanos: u128) -> bool {
    elapsed_nanos > TIMER_PERIOD_NANOS
}

/// The state after the timers were looked at, `elapsed_nanos` after their
/// last update: both count down by one if an update is due, however long
/// ago the last one was.
pub open spec fn decay(state: MachineState, elapsed_nanos: u128) -> MachineState {
    MachineState {
        delay_timer: if timers_due(elapsed_nanos) {
            decayed(state.delay_timer)
        } else {
            state.delay_timer
        },
        sound_timer: if timers_due(elapsed_nanos) {
            decayed(state.sound_timer)
        } else {
            state.sound_timer
        },
        ..state
    }
}

/// Memory after a program image is placed at the program start.
pub open spec fn loaded(memory: Seq<u8>, image: Seq<u8>) -> Seq<u8> {
    overwrite(memory, PROGRAM_START as int, image)
}

} // verus!
