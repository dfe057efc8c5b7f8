//! The execution engine: the machine's state on concrete arrays, and the
//! operations that move it as the model says.

use crate::display::{frame_drawn, Display, RenderTarget};
use crate::host::random_byte;
use crate::instruction::{decode, Instruction};
use crate::keypad::{key_index, Keycode};
use crate::machine::{
    apply, bcd_digits, cycle, decay, flag, initial_state, loaded, overwrite, timers_due, wrap16, wrap8,
    Fault, MachineState, RunState, FONT, MEMORY_SIZE, PROGRAM_START, STACK_SIZE,
    TIMER_PERIOD_NANOS,
};
use std::time::Instant;
use vstd::pervasive::unreached;
use vstd::prelude::*;
use vstd::slice::slice_subrange;

verus! {

/// Why a program image was not loaded.
#[derive(Clone, Copy, Debug, PartialEq, Eq)]
pub enum LoadError {
    /// The image does not fit between the program start and the end of
    /// memory.
    Overflow,
}

/// The machine: memory, registers, call stack, timers, key queue and the
/// display it draws on.
pub struct Chip8<T> where T: RenderTarget {
    display: Display<T>,
    memory: [u8; 4096],
    registers: [u8; 16],
    i: u16,
    delay_timer: u8,
    sound_timer: u8,
    pc: u16,
    sp: usize,
    stack: [u16; 16],
    last_clock: Instant,
    events: Vec<u8>,
    state: RunState,
}

impl<T> View for Chip8<T> where T: RenderTarget {
    type V = MachineState;

    closed spec fn view(&self) -> MachineState {
        MachineState {
            memory: self.memory@,
            registers: self.registers@,
            i: self.i,
            delay_timer: self.delay_timer,
            sound_timer: self.sound_timer,
            pc: self.pc,
            sp: self.sp as int,
            stack: self.stack@,
            pixels: self.display@,
            keys: self.events@,
            run: self.state,
        }
    }
}

impl<T> Chip8<T> where T: RenderTarget {
    /// The display the machine draws on.
    pub closed spec fn spec_display(&self) -> &Display<T> {
        &self.display
    }

    /// The instant of the last timer update.
    pub closed spec fn clock(&self) -> Instant {
        self.last_clock
    }

    /// The state is well formed.
    pub open spec fn wf(&self) -> bool {
        self@.wf()
    }

    /// The render target, the calls made on it and the clock are those of
    /// `other`.
    pub open spec fn same_host(&self, other: &Self) -> bool {
        &&& self.display().target() == other.display().target()
        &&& self.display().drawn() == other.display().drawn()
        &&& self.clock() == other.clock()
    }

    /// The frame buffer of the state is the grid of the display.
    pub proof fn lemma_frame_buffer(&self)
        ensures
            self@.pixels == self.display()@,
            self@.memory.len() == MEMORY_SIZE,
            self@.registers.len() == 16,
            self@.stack.len() == STACK_SIZE,
            self@.pixels.len() == crate::display::CELLS,
    {
        self.display.lemma_cells();
    }

    /// A machine in its initial state on `display`, which is blanked: all
    /// state zero, the font at address 0, the program counter at the
    /// program start.
    pub fn new(display: Display<T>) -> (engine: Self)
        ensures
            engine.wf(),
            engine@ == initial_state(),
            engine.display().target() == display.target(),
            engine.display().drawn() == display.drawn(),
    {
        let mut display = display;
        display.clear();
        let mut engine = Self {
            display,
            memory: [0; 4096],
            registers: [0; 16],
            i: 0,
            delay_timer: 0,
            sound_timer: 0,
            pc: 0x200,
            sp: 0,
            stack: [0; 16],
            last_clock: Instant::now(),
            events: Vec::new(),
            state: RunState::Running,
        };
        let mut k: usize = 0;
        while k < 80
            invariant
                k <= 80,
                engine.display == display,
                engine.registers@ == initial_state().registers,
                engine.stack@ == initial_state().stack,
                engine.i == 0 && engine.delay_timer == 0 && engine.sound_timer == 0,
                engine.pc == 0x200 && engine.sp == 0,
                engine.events@ == Seq::<u8>::empty(),
                engine.state == RunState::Running,
                forall|j: int| 0 <= j < k ==> engine.memory@[j] == FONT@[j],
                forall|j: int| k <= j < 4096 ==> engine.memory@[j] == 0,
            decreases 80 - k,
        {
            engine.memory[k] = FONT[k];
            k = k + 1;
        }
        assert(engine.memory@ =~= initial_state().memory);
        engine
    }

    /// The display the machine draws on.
    #[verifier::when_used_as_spec(spec_display)]
    pub fn display(&self) -> (display: &Display<T>)
        ensures
            display == self.display(),
    {
        &self.display
    }

    /// Copies a program image into memory at the program start. An image
    /// that does not fit is refused and memory is left as it was.
    pub fn load(&mut self, image: &[u8]) -> (result: Result<(), LoadError>)
        requires
            old(self).wf(),
        ensures
            final(self).wf(),
            final(self).same_host(old(self)),
            PROGRAM_START + image@.len() <= MEMORY_SIZE ==> result == Ok::<(), LoadError>(())
                && final(self)@ == (MachineState {
                memory: loaded(old(self)@.memory, image@),
                ..old(self)@
            }),
            PROGRAM_START + image@.len() > MEMORY_SIZE ==> result == Err::<(), LoadError>(
                LoadError::Overflow,
            ) && final(self)@ == old(self)@,
    {
        if image.len() > MEMORY_SIZE - PROGRAM_START {
            return Err(LoadError::Overflow);
        }
        let mut k: usize = 0;
        while k < image.len()
            invariant
                k <= image@.len(),
                PROGRAM_START + image@.len() <= MEMORY_SIZE,
                self.same_host(old(self)),
                self@ == (MachineState { memory: self@.memory, ..old(self)@ }),
                forall|j: int|
                    0 <= j < 4096 && !(PROGRAM_START <= j < PROGRAM_START + k) ==> self@.memory[j]
                        == old(self)@.memory[j],
                forall|j: int|
                    PROGRAM_START <= j < PROGRAM_START + k ==> self@.memory[j] == image@[j
                        - PROGRAM_START],
            decreases image@.len() - k,
        {
            self.memory[PROGRAM_START + k] = image[k];
            k = k + 1;
        }
        assert(self@.memory =~= loaded(old(self)@.memory, image@));
        Ok(())
    }

    /// Writes `value` to register `reg`.
    fn set_reg(&mut self, reg: u8, value: u8)
        requires
            old(self).wf(),
            reg < 16,
        ensures
            final(self).wf(),
            final(self).same_host(old(self)),
            final(self)@ == old(self)@.with_reg(reg, value),
    {
        self.registers[reg as usize] = value;
    }

    /// Writes the status flag to VF and then `value` to register `reg`.
    fn set_flag_and_reg(&mut self, status: u8, reg: u8, value: u8)
        requires
            old(self).wf(),
            reg < 16,
        ensures
            final(self).wf(),
            final(self).same_host(old(self)),
            final(self)@ == old(self)@.with_flag_and_reg(status, reg, value),
    {
        self.registers[0xF] = status;
        self.registers[reg as usize] = value;
    }

    /// Moves the program counter past the next instruction if `condition`
    /// holds.
    fn skip_if(&mut self, condition: bool)
        requires
            old(self).wf(),
        ensures
            final(self).wf(),
            final(self).same_host(old(self)),
            final(self)@ == old(self)@.skip_if(condition),
    {
        if condition {
            self.pc = self.pc.wrapping_add(2);
        }
    }

    /// Continues at `addr`.
    fn jump(&mut self, addr: u16)
        requires
            old(self).wf(),
        ensures
            final(self).wf(),
            final(self).same_host(old(self)),
            final(self)@ == (MachineState { pc: addr, ..old(self)@ }),
    {
        self.pc = addr;
    }

    /// Pushes the program counter and continues at `addr`, unless the
    /// stack is full.
    fn call(&mut self, addr: u16) -> (result: Result<(), Fault>)
        requires
            old(self).wf(),
        ensures
            final(self).wf(),
            final(self).same_host(old(self)),
            old(self).executed(Instruction::CallSubroutine(addr), 0, final(self), result),
    {
        if self.sp + 1 >= STACK_SIZE {
            return Err(Fault::StackOverflow);
        }
        self.sp += 1;
        self.stack[self.sp] = self.pc;
        self.pc = addr;
        Ok(())
    }

    /// Continues at the newest return address and drops it, unless the
    /// stack is empty.
    fn ret(&mut self) -> (result: Result<(), Fault>)
        requires
            old(self).wf(),
        ensures
            final(self).wf(),
            final(self).same_host(old(self)),
            old(self).executed(Instruction::ReturnFromSubroutine, 0, final(self), result),
    {
        if self.sp == 0 {
            return Err(Fault::StackUnderflow);
        }
        self.pc = self.stack[self.sp];
        self.sp -= 1;
        Ok(())
    }

    /// Writes `value` to the index register.
    fn set_i(&mut self, value: u16)
        requires
            old(self).wf(),
        ensures
            final(self).wf(),
            final(self).same_host(old(self)),
            final(self)@ == (MachineState { i: value, ..old(self)@ }),
    {
        self.i = value;
    }

    /// Writes `delay` and `sound` to the two timers.
    fn set_timers(&mut self, delay: u8, sound: u8)
        requires
            old(self).wf(),
        ensures
            final(self).wf(),
            final(self).same_host(old(self)),
            final(self)@ == (MachineState { delay_timer: delay, sound_timer: sound, ..old(self)@ }),
    {
        self.delay_timer = delay;
        self.sound_timer = sound;
    }

    /// Blanks the frame buffer.
    fn clear_display(&mut self)
        requires
            old(self).wf(),
        ensures
            final(self).wf(),
            final(self).same_host(old(self)),
            final(self)@ == (MachineState { pixels: crate::display::blank(), ..old(self)@ }),
    {
        self.display.clear();
    }

    /// Takes the newest key, if any, and skips the next instruction if it
    /// equals (`on_match`) or differs from (`!on_match`) register `reg`.
    fn skip_on_key(&mut self, reg: u8, on_match: bool)
        requires
            old(self).wf(),
            reg < 16,
        ensures
            final(self).wf(),
            final(self).same_host(old(self)),
            final(self)@ == if old(self)@.keys.len() == 0 {
                old(self)@
            } else {
                old(self)@.without_last_key().skip_if(
                    (old(self)@.keys.last() == old(self)@.v(reg)) == on_match,
                )
            },
    {
        let key_idx: u8 = self.registers[reg as usize];
        if let Some(key) = self.pop_key() {
            self.skip_if((key == key_idx) == on_match);
        }
    }

    /// Stores the newest key in register `reg`, or starts waiting for one.
    fn take_or_await_key(&mut self, reg: u8)
        requires
            old(self).wf(),
            reg < 16,
        ensures
            final(self).wf(),
            final(self).same_host(old(self)),
            final(self)@ == if old(self)@.keys.len() == 0 {
                MachineState { run: RunState::AwaitingKey(reg), ..old(self)@ }
            } else {
                old(self)@.without_last_key().with_reg(reg, old(self)@.keys.last())
            },
    {
        match self.pop_key() {
            Some(key) => self.set_reg(reg, key),
            None => self.state = RunState::AwaitingKey(reg),
        }
    }

    /// Takes the newest key off the queue, if there is one.
    fn pop_key(&mut self) -> (key: Option<u8>)
        requires
            old(self).wf(),
        ensures
            final(self).wf(),
            final(self).same_host(old(self)),
            old(self)@.keys.len() == 0 ==> key.is_none() && final(self)@ == old(self)@,
            old(self)@.keys.len() > 0 ==> key == Some(old(self)@.keys.last()) && final(self)@
                == old(self)@.without_last_key(),
    {
        self.events.pop()
    }

    /// Draws the sprite of `rows` bytes at I at the position held in two
    /// registers, and sets the status flag to whether it collided.
    fn draw_sprite(&mut self, reg_x: u8, reg_y: u8, rows: u8) -> (result: Result<(), Fault>)
        requires
            old(self).wf(),
            reg_x < 16,
            reg_y < 16,
        ensures
            final(self).wf(),
            final(self).same_host(old(self)),
            old(self).executed(
                Instruction::DrawSprite(reg_x, reg_y, rows),
                0,
                final(self),
                result,
            ),
    {
        let at: usize = self.i as usize;
        if at + rows as usize > MEMORY_SIZE {
            return Err(Fault::AddressOutOfRange);
        }
        let x: u8 = self.registers[reg_x as usize];
        let y: u8 = self.registers[reg_y as usize];
        let sprite = slice_subrange(self.memory.as_slice(), at, at + rows as usize);
        let collision: bool = self.display.blit_sprite(x, y, sprite);
        self.registers[0xF] = if collision { 1 } else { 0 };
        proof {
            self.display.lemma_cells();
        }
        Ok(())
    }

    /// Writes `bytes` to memory from I on.
    fn store(&mut self, bytes: &[u8]) -> (result: Result<(), Fault>)
        requires
            old(self).wf(),
        ensures
            final(self).wf(),
            final(self).same_host(old(self)),
            old(self)@.i + bytes@.len() > MEMORY_SIZE ==> result == Err::<(), Fault>(
                Fault::AddressOutOfRange,
            ) && final(self)@ == old(self)@,
            old(self)@.i + bytes@.len() <= MEMORY_SIZE ==> result == Ok::<(), Fault>(())
                && final(self)@ == (MachineState {
                memory: overwrite(old(self)@.memory, old(self)@.i as int, bytes@),
                ..old(self)@
            }),
    {
        let at: usize = self.i as usize;
        if bytes.len() > MEMORY_SIZE || at > MEMORY_SIZE - bytes.len() {
            return Err(Fault::AddressOutOfRange);
        }
        let mut k: usize = 0;
        while k < bytes.len()
            invariant
                k <= bytes@.len(),
                at == old(self)@.i,
                at + bytes@.len() <= MEMORY_SIZE,
                self.same_host(old(self)),
                self@ == (MachineState { memory: self@.memory, ..old(self)@ }),
                forall|j: int|
                    0 <= j < 4096 && !(at <= j < at + k) ==> self@.memory[j] == old(
                        self,
                    )@.memory[j],
                forall|j: int| at <= j < at + k ==> self@.memory[j] == bytes@[j - at],
            decreases bytes@.len() - k,
        {
            self.memory[at + k] = bytes[k];
            k = k + 1;
        }
        assert(self@.memory =~= overwrite(old(self)@.memory, at as int, bytes@));
        Ok(())
    }

    /// Reads registers V0 to `last` from memory at I.
    fn load_regs(&mut self, last: u8) -> (result: Result<(), Fault>)
        requires
            old(self).wf(),
            last < 16,
        ensures
            final(self).wf(),
            final(self).same_host(old(self)),
            old(self).executed(Instruction::LoadRegsFromMem(last), 0, final(self), result),
    {
        let at: usize = self.i as usize;
        let count: usize = last as usize + 1;
        if at + count > MEMORY_SIZE {
            return Err(Fault::AddressOutOfRange);
        }
        let mut k: usize = 0;
        while k < count
            invariant
                k <= count <= 16,
                at == old(self)@.i,
                at + count <= MEMORY_SIZE,
                self.same_host(old(self)),
                self@ == (MachineState { registers: self@.registers, ..old(self)@ }),
                self@.registers.len() == 16,
                forall|j: int| k <= j < 16 ==> self@.registers[j] == old(self)@.registers[j],
                forall|j: int| 0 <= j < k ==> self@.registers[j] == old(self)@.memory[at + j],
            decreases count - k,
        {
            self.registers[k] = self.memory[at + k];
            k = k + 1;
        }
        assert(self@.registers =~= overwrite(
            old(self)@.registers,
            0,
            old(self)@.memory.subrange(at as int, at + count),
        ));
        Ok(())
    }

    /// Executes an instruction that moves the program counter or blanks
    /// the display.
    fn execute_flow(&mut self, instruction: Instruction) -> (result: Result<(), Fault>)
        requires
            old(self).wf(),
            instruction.wf(),
            is_flow(instruction),
        ensures
            final(self).wf(),
            final(self).same_host(old(self)),
            forall|random: u8| #[trigger] old(self).executed(instruction, random, final(self), result),
    {
        match instruction {
            Instruction::ClearDisplay => {
                self.clear_display();
                Ok(())
            },
            Instruction::Jump(addr) => {
                self.jump(addr);
                Ok(())
            },
            Instruction::ReturnFromSubroutine => self.ret(),
            Instruction::CallSubroutine(addr) => self.call(addr),
            Instruction::JumpV0PlusByte(addr) => {
                self.jump(self.registers[0x0] as u16 + addr);
                Ok(())
            },
            _ => unreached(),
        }
    }

    /// Executes a conditional skip.
    fn execute_skip(&mut self, instruction: Instruction) -> (result: Result<(), Fault>)
        requires
            old(self).wf(),
            instruction.wf(),
            is_skip(instruction),
        ensures
            final(self).wf(),
            final(self).same_host(old(self)),
            forall|random: u8| #[trigger] old(self).executed(instruction, random, final(self), result),
    {
        match instruction {
            Instruction::SkipRegEqByte(reg, val) => {
                self.skip_if(self.registers[reg as usize] == val);
            },
            Instruction::SkipRegNotEqByte(reg, val) => {
                self.skip_if(self.registers[reg as usize] != val);
            },
            Instruction::SkipRegEqReg(reg1, reg2) => {
                self.skip_if(self.registers[reg1 as usize] == self.registers[reg2 as usize]);
            },
            Instruction::SkipRegNotEqReg(reg1, reg2) => {
                self.skip_if(self.registers[reg1 as usize] != self.registers[reg2 as usize]);
            },
            Instruction::SkipIfKey(reg) => {
                self.skip_on_key(reg, true);
            },
            Instruction::SkipIfNotKey(reg) => {
                self.skip_on_key(reg, false);
            },
            _ => unreached(),
        }
        Ok(())
    }

    /// Executes an instruction that computes a register from registers,
    /// an immediate or the random byte.
    fn execute_arithmetic(&mut self, instruction: Instruction, random: u8) -> (result: Result<
        (),
        Fault,
    >)
        requires
            old(self).wf(),
            instruction.wf(),
            is_arithmetic(instruction),
        ensures
            final(self).wf(),
            final(self).same_host(old(self)),
            old(self).executed(instruction, random, final(self), result),
    {
        match instruction {
            Instruction::SetRegToByte(reg, val) => {
                self.set_reg(reg, val);
            },
            Instruction::AddByteToReg(reg, val) => {
                let (_, sum): (u8, u8) = add_with_carry(self.registers[reg as usize], val);
                self.set_reg(reg, sum);
            },
            Instruction::MoveValue(reg1, reg2) => {
                self.set_reg(reg1, self.registers[reg2 as usize]);
            },
            Instruction::OrRegs(reg1, reg2) => {
                self.set_reg(reg1, self.registers[reg1 as usize] | self.registers[reg2 as usize]);
            },
            Instruction::AndRegs(reg1, reg2) => {
                self.set_reg(reg1, self.registers[reg1 as usize] & self.registers[reg2 as usize]);
            },
            Instruction::XorRegs(reg1, reg2) => {
                self.set_reg(reg1, self.registers[reg1 as usize] ^ self.registers[reg2 as usize]);
            },
            Instruction::AddRegs(reg1, reg2) => {
                let (carry, sum): (u8, u8) = add_with_carry(
                    self.registers[reg1 as usize],
                    self.registers[reg2 as usize],
                );
                self.set_flag_and_reg(carry, reg1, sum);
            },
            Instruction::SubRegs(reg1, reg2) => {
                let (no_borrow, difference): (u8, u8) = sub_with_borrow(
                    self.registers[reg1 as usize],
                    self.registers[reg2 as usize],
                );
                self.set_flag_and_reg(no_borrow, reg1, difference);
            },
            Instruction::ShiftRight(reg) => {
                let (out, shifted): (u8, u8) = shift_right(self.registers[reg as usize]);
                self.set_flag_and_reg(out, reg, shifted);
            },
            Instruction::ReverseSubRegs(reg1, reg2) => {
                let (no_borrow, difference): (u8, u8) = sub_with_borrow(
                    self.registers[reg2 as usize],
                    self.registers[reg1 as usize],
                );
                self.set_flag_and_reg(no_borrow, reg1, difference);
            },
            Instruction::ShiftLeft(reg) => {
                let (out, shifted): (u8, u8) = shift_left(self.registers[reg as usize]);
                self.set_flag_and_reg(out, reg, shifted);
            },
            Instruction::SetRegToRandPlusByte(reg, val) => {
                self.set_reg(reg, random & val);
            },
            _ => unreached(),
        }
        Ok(())
    }

    /// Executes an instruction on the index register, the timers, the key
    /// wait, memory or the display.
    fn execute_transfer(&mut self, instruction: Instruction) -> (result: Result<(), Fault>)
        requires
            old(self).wf(),
            instruction.wf(),
            !is_flow(instruction),
            !is_skip(instruction),
            !is_arithmetic(instruction),
        ensures
            final(self).wf(),
            final(self).same_host(old(self)),
            forall|random: u8| #[trigger] old(self).executed(instruction, random, final(self), result),
    {
        match instruction {
            Instruction::SetI(addr) => {
                self.set_i(addr);
                Ok(())
            },
            Instruction::DrawSprite(reg_x, reg_y, size) => self.draw_sprite(reg_x, reg_y, size),
            Instruction::LoadDelayToReg(reg) => {
                self.set_reg(reg, self.delay_timer);
                Ok(())
            },
            Instruction::LoadKeyToReg(reg) => {
                self.take_or_await_key(reg);
                Ok(())
            },
            Instruction::SetDelayToReg(reg) => {
                self.set_timers(self.registers[reg as usize], self.sound_timer);
                Ok(())
            },
            Instruction::SetSoundToReg(reg) => {
                self.set_timers(self.delay_timer, self.registers[reg as usize]);
                Ok(())
            },
            Instruction::AddRegToI(reg) => {
                self.set_i(add_to_index(self.i, self.registers[reg as usize]));
                Ok(())
            },
            Instruction::SetIToDigitSpriteLoc(reg) => {
                self.set_i(self.registers[reg as usize] as u16 * 5);
                Ok(())
            },
            Instruction::StoreNumberFromRegToI(reg) => {
                let digits: [u8; 3] = decimal_digits(self.registers[reg as usize]);
                self.store(digits.as_slice())
            },
            Instruction::StoreRegsToMem(max_reg) => {
                let registers: [u8; 16] = self.registers;
                self.store(slice_subrange(registers.as_slice(), 0, max_reg as usize + 1))
            },
            Instruction::LoadRegsFromMem(max_reg) => self.load_regs(max_reg),
            _ => unreached(),
        }
    }

    /// Executes one instruction, with `random` as the byte that the
    /// random-and-mask instruction draws.
    pub fn execute_with(&mut self, instruction: Instruction, random: u8) -> (result: Result<
        (),
        Fault,
    >)
        requires
            old(self).wf(),
            instruction.wf(),
        ensures
            final(self).wf(),
            final(self).same_host(old(self)),
            old(self).executed(instruction, random, final(self), result),
    {
        match instruction {
            Instruction::ClearDisplay
            | Instruction::ReturnFromSubroutine
            | Instruction::Jump(_)
            | Instruction::CallSubroutine(_)
            | Instruction::JumpV0PlusByte(_) => self.execute_flow(instruction),
            Instruction::SkipRegEqByte(_, _)
            | Instruction::SkipRegNotEqByte(_, _)
            | Instruction::SkipRegEqReg(_, _)
            | Instruction::SkipRegNotEqReg(_, _)
            | Instruction::SkipIfKey(_)
            | Instruction::SkipIfNotKey(_) => self.execute_skip(instruction),
            Instruction::SetRegToByte(_, _)
            | Instruction::AddByteToReg(_, _)
            | Instruction::MoveValue(_, _)
            | Instruction::OrRegs(_, _)
            | Instruction::AndRegs(_, _)
            | Instruction::XorRegs(_, _)
            | Instruction::AddRegs(_, _)
            | Instruction::SubRegs(_, _)
            | Instruction::ShiftRight(_)
            | Instruction::ReverseSubRegs(_, _)
            | Instruction::ShiftLeft(_)
            | Instruction::SetRegToRandPlusByte(_, _) => self.execute_arithmetic(
                instruction,
                random,
            ),
            _ => self.execute_transfer(instruction),
        }
    }

    /// Executes one instruction. The random-and-mask instruction draws its
    /// byte from the host's generator and has the effect the model gives
    /// for that byte; every other instruction has the effect the model
    /// gives for the byte 0, which is its effect for any byte.
    pub fn execute(&mut self, instruction: Instruction) -> (result: Result<(), Fault>)
        requires
            old(self).wf(),
            instruction.wf(),
        ensures
            final(self).wf(),
            final(self).same_host(old(self)),
            exists|random: u8| #[trigger]
                old(self).executed(instruction, random, final(self), result) && (instruction
                    is SetRegToRandPlusByte || random == 0),
    {
        let random: u8 = match instruction {
            Instruction::SetRegToRandPlusByte(_, _) => random_byte(),
            _ => 0,
        };
        self.execute_with(instruction, random)
    }

    /// Reads the big-endian word at the program counter and moves the
    /// program counter past it.
    fn fetch(&mut self) -> (result: Result<u16, Fault>)
        requires
            old(self).wf(),
        ensures
            final(self).wf(),
            final(self).same_host(old(self)),
            old(self)@.pc + 2 > MEMORY_SIZE ==> result == Err::<u16, Fault>(
                Fault::AddressOutOfRange,
            ) && final(self)@ == old(self)@,
            old(self)@.pc + 2 <= MEMORY_SIZE ==> result == Ok::<u16, Fault>(
                old(self)@.word_at_pc(),
            ) && final(self)@ == (MachineState { pc: (old(self)@.pc + 2) as u16, ..old(self)@ }),
    {
        let pc: usize = self.pc as usize;
        if pc + 2 > MEMORY_SIZE {
            return Err(Fault::AddressOutOfRange);
        }
        let high: u8 = self.memory[pc];
        let low: u8 = self.memory[pc + 1];
        let mut instruction: u16 = high as u16;
        instruction <<= 8;
        instruction |= low as u16;
        assert(((high as u16) << 8) | (low as u16) == high * 0x100 + low) by (bit_vector);
        self.pc += 2;
        Ok(instruction)
    }

    /// Looks an instruction word up in the opcode table.
    fn decode(raw: u16) -> (instruction: Option<Instruction>)
        ensures
            instruction == decode(raw),
    {
        match Instruction::try_from(raw) {
            Ok(instr) => Some(instr),
            Err(_) => None,
        }
    }

    /// Whether the next cycle executes the random-and-mask instruction.
    fn next_draws_random(&self) -> (draws: bool)
        requires
            self.wf(),
        ensures
            draws == draws_random(self@),
    {
        let pc: usize = self.pc as usize;
        match self.state {
            RunState::AwaitingKey(_) => false,
            RunState::Running => {
                if pc + 2 > MEMORY_SIZE {
                    false
                } else {
                    let high: u8 = self.memory[pc];
                    let low: u8 = self.memory[pc + 1];
                    assert((high & 0xF0 == 0xC0) == (high / 0x10 == 0xC)) by (bit_vector);
                    high & 0xF0 == 0xC0
                }
            },
        }
    }

    /// Runs one instruction cycle, with `random` as the byte that the
    /// random-and-mask instruction draws. A cycle that ends in a fault
    /// changes nothing.
    pub fn step_with(&mut self, random: u8) -> (result: Result<(), Fault>)
        requires
            old(self).wf(),
        ensures
            final(self).wf(),
            final(self).same_host(old(self)),
            old(self).cycled(random, final(self), result),
    {
        match self.state {
            RunState::AwaitingKey(reg) => {
                if let Some(key) = self.pop_key() {
                    self.set_reg(reg, key);
                    self.state = RunState::Running;
                }
                Ok(())
            },
            RunState::Running => {
                let saved: u16 = self.pc;
                let raw_instruction: u16 = match self.fetch() {
                    Ok(raw) => raw,
                    Err(fault) => {
                        return Err(fault);
                    },
                };
                match Self::decode(raw_instruction) {
                    Some(instr) => {
                        proof {
                            crate::instruction::lemma_decoded_is_wf(raw_instruction);
                        }
                        let result = self.execute_with(instr, random);
                        if result.is_err() {
                            self.pc = saved;
                        }
                        result
                    },
                    None => Ok(()),
                }
            },
        }
    }

    /// Runs one instruction cycle. The random-and-mask instruction draws
    /// its byte from the host's generator and the cycle is the model's for
    /// that byte; a cycle that executes any other instruction, or none, is
    /// the model's cycle for the byte 0, which is its cycle for any byte.
    pub fn step(&mut self) -> (result: Result<(), Fault>)
        requires
            old(self).wf(),
        ensures
            final(self).wf(),
            final(self).same_host(old(self)),
            exists|random: u8| #[trigger]
                old(self).cycled(random, final(self), result) && (draws_random(old(self)@)
                    || random == 0),
    {
        let random: u8 = if self.next_draws_random() {
            random_byte()
        } else {
            0
        };
        self.step_with(random)
    }

    /// Looks at the timers `elapsed_nanos` after their last update. If an
    /// update is due, both count down by one, stopping at zero, and the
    /// present instant becomes that of the last update. Tells whether an
    /// update was due.
    pub fn update_timers(&mut self, elapsed_nanos: u128) -> (due: bool)
        requires
            old(self).wf(),
        ensures
            final(self).wf(),
            final(self).display() == old(self).display(),
            due == timers_due(elapsed_nanos),
            final(self)@ == decay(old(self)@, elapsed_nanos),
            !due ==> final(self).clock() == old(self).clock(),
    {
        if elapsed_nanos > TIMER_PERIOD_NANOS {
            if self.delay_timer > 0 {
                self.delay_timer -= 1;
            }
            if self.sound_timer > 0 {
                self.sound_timer -= 1;
            }
            self.last_clock = Instant::now();
            true
        } else {
            false
        }
    }

    /// One tick of the machine: an instruction cycle, then a frame on the
    /// render target, then the timers.
    ///
    /// The cycle is that of the model for some random byte (for the byte 0
    /// unless the random-and-mask instruction is executed); the frame shows
    /// the grid after the cycle, on a surface of some size; the timers are
    /// updated as for some elapsed time. The result is the run state after
    /// the tick: `AwaitingKey` says that no key has come yet. A cycle that
    /// ends in a fault ends the tick: nothing is drawn and nothing changes.
    pub fn tick(&mut self) -> (result: Result<RunState, Fault>)
        requires
            old(self).wf(),
        ensures
            final(self).wf(),
            exists|random: u8, elapsed_nanos: u128| #[trigger]
                old(self).ticked(random, elapsed_nanos, final(self), result) && (draws_random(
                    old(self)@,
                ) || random == 0),
            result is Err ==> final(self).same_host(old(self)),
            result is Ok ==> frame_drawn(
                old(self).display().drawn(),
                final(self).display().drawn(),
                final(self)@.pixels,
            ),
    {
        let ghost draws = draws_random(self@);
        match self.step() {
            Ok(()) => {},
            Err(fault) => {
                proof {
                    let random = choose|random: u8| #[trigger]
                        old(self).cycled(random, self, Err(fault)) && (draws || random == 0);
                    assert(old(self).ticked(random, 0, self, Err(fault)));
                }
                return Err(fault);
            },
        }
        let ghost stepped = *self;
        self.render();
        let elapsed_nanos: u128 = self.last_clock.elapsed().as_nanos();
        self.update_timers(elapsed_nanos);
        proof {
            let random = choose|random: u8| #[trigger]
                old(self).cycled(random, &stepped, Ok::<(), Fault>(())) && (draws || random == 0);
            assert(old(self).ticked(random, elapsed_nanos, self, Ok(self.state)));
        }
        Ok(self.state)
    }

    /// Draws the frame buffer on the render target.
    fn render(&mut self)
        requires
            old(self).wf(),
        ensures
            final(self).wf(),
            final(self)@ == old(self)@,
            final(self).clock() == old(self).clock(),
            frame_drawn(
                old(self).display().drawn(),
                final(self).display().drawn(),
                old(self)@.pixels,
            ),
    {
        self.display.render();
    }

    /// Queues a key press for the key-sensitive instructions.
    pub fn push_key(&mut self, keycode: &Keycode)
        requires
            old(self).wf(),
        ensures
            final(self).wf(),
            final(self).same_host(old(self)),
            final(self)@ == (MachineState {
                keys: old(self)@.keys.push(key_index(*keycode)),
                ..old(self)@
            }),
    {
        let key: u8 = keycode.index();
        self.events.push(key);
    }

    /// The registers V0 to VF.
    pub fn registers(&self) -> (registers: &[u8; 16])
        ensures
            registers@ == self@.registers,
    {
        &self.registers
    }

    /// The 4096 bytes of memory.
    pub fn memory(&self) -> (memory: &[u8; 4096])
        ensures
            memory@ == self@.memory,
    {
        &self.memory
    }

    /// The sixteen slots of the call stack.
    pub fn stack(&self) -> (stack: &[u16; 16])
        ensures
            stack@ == self@.stack,
    {
        &self.stack
    }

    /// The stack pointer.
    pub fn sp(&self) -> (sp: usize)
        ensures
            sp == self@.sp,
    {
        self.sp
    }

    /// The program counter.
    pub fn pc(&self) -> (pc: u16)
        ensures
            pc == self@.pc,
    {
        self.pc
    }

    /// The index register I.
    pub fn i(&self) -> (i: u16)
        ensures
            i == self@.i,
    {
        self.i
    }

    /// The delay timer.
    pub fn delay_timer(&self) -> (timer: u8)
        ensures
            timer == self@.delay_timer,
    {
        self.delay_timer
    }

    /// The sound timer.
    pub fn sound_timer(&self) -> (timer: u8)
        ensures
            timer == self@.sound_timer,
    {
        self.sound_timer
    }

    /// The pending key indices, oldest first.
    pub fn pending_keys(&self) -> (keys: &[u8])
        ensures
            keys@ == self@.keys,
    {
        self.events.as_slice()
    }

    /// Whether the machine runs or waits for a key.
    pub fn run_state(&self) -> (run: RunState)
        ensures
            run == self@.run,
    {
        self.state
    }

    /// `after` and `result` are what one instruction cycle makes of this
    /// machine: the state the model gives, or the model's fault with the
    /// state untouched.
    pub open spec fn cycled(&self, random: u8, after: &Self, result: Result<(), Fault>) -> bool {
        match cycle(self@, random) {
            Ok(next) => result == Ok::<(), Fault>(()) && after@ == next,
            Err(fault) => result == Err::<(), Fault>(fault) && after@ == self@,
        }
    }

    /// `after` and `result` are what one tick makes of this machine, given
    /// the random byte drawn and the time since the last timer update: the
    /// state after a cycle and a look at the timers, with the clock reset
    /// only if an update was due; or the cycle's fault, with the state
    /// untouched.
    pub open spec fn ticked(
        &self,
        random: u8,
        elapsed_nanos: u128,
        after: &Self,
        result: Result<RunState, Fault>,
    ) -> bool {
        match cycle(self@, random) {
            Ok(next) => {
                &&& after@ == decay(next, elapsed_nanos)
                &&& result == Ok::<RunState, Fault>(next.run)
                &&& (timers_due(elapsed_nanos) || after.clock() == self.clock())
            },
            Err(fault) => after@ == self@ && result == Err::<RunState, Fault>(fault),
        }
    }

    /// `after` and `result` are what `instruction` makes of this machine:
    /// the state the model gives, or the model's fault with the state
    /// untouched.
    pub open spec fn executed(
        &self,
        instruction: Instruction,
        random: u8,
        after: &Self,
        result: Result<(), Fault>,
    ) -> bool {
        match apply(self@, instruction, random) {
            Ok(next) => result == Ok::<(), Fault>(()) && after@ == next,
            Err(fault) => result == Err::<(), Fault>(fault) && after@ == self@,
        }
    }
}

/// The hundreds, tens and ones of a byte.
fn decimal_digits(val: u8) -> (digits: [u8; 3])
    ensures
        digits@ == bcd_digits(val),
{
    let hundreds: u8 = val / 100;
    let tens: u8 = (val - hundreds * 100) / 10;
    let ones: u8 = val - hundreds * 100 - tens * 10;
    let digits: [u8; 3] = [hundreds, tens, ones];
    assert(digits@ =~= bcd_digits(val));
    digits
}

/// Adds a register to the index register, wrapping at sixteen bits.
fn add_to_index(index: u16, val: u8) -> (sum: u16)
    ensures
        sum == wrap16(index + val),
{
    index.wrapping_add(val as u16)
}

/// Adds two bytes in a wider type: the status is 1 iff the sum does not
/// fit in eight bits, the result is its low eight bits.
fn add_with_carry(a: u8, b: u8) -> (out: (u8, u8))
    ensures
        out.0 == flag(a + b > 0xFF),
        out.1 == wrap8(a + b),
{
    let res: u16 = a as u16 + b as u16;
    assert(res & 0xFF == res % 0x100) by (bit_vector);
    (if res > 0xFF { 1 } else { 0 }, (res & 0xFF) as u8)
}

/// Subtracts `b` from `a`: the status is 1 iff nothing is borrowed, the
/// result wraps around below zero.
fn sub_with_borrow(a: u8, b: u8) -> (out: (u8, u8))
    ensures
        out.0 == flag(a >= b),
        out.1 == wrap8(a - b),
{
    (if a >= b { 1 } else { 0 }, a.wrapping_sub(b))
}

/// Shifts a byte right by one: the status is the bit that leaves at the
/// low end.
fn shift_right(a: u8) -> (out: (u8, u8))
    ensures
        out.0 == flag(a % 2 == 1),
        out.1 == a / 2,
{
    assert(a >> 1 == a / 2) by (bit_vector);
    (if a % 2 == 1 { 1 } else { 0 }, a >> 1)
}

/// Shifts a byte left by one: the status is the bit that leaves at the
/// high end.
fn shift_left(a: u8) -> (out: (u8, u8))
    ensures
        out.0 == flag(a >= 0x80),
        out.1 == wrap8(a * 2),
{
    assert((a & 0x80 != 0) == (a >= 0x80) && a << 1 == (a * 2) % 0x100) by (bit_vector);
    (if a & 0x80 != 0 { 1 } else { 0 }, a << 1)
}

/// Whether the next cycle of `state` executes the random-and-mask
/// instruction.
pub open spec fn draws_random(state: MachineState) -> bool {
    &&& state.run is Running
    &&& state.pc + 2 <= MEMORY_SIZE
    &&& state.memory[state.pc as int] / 0x10 == 0xC
}

/// The instructions that move the program counter or blank the display.
spec fn is_flow(instruction: Instruction) -> bool {
    ||| instruction is ClearDisplay
    ||| instruction is ReturnFromSubroutine
    ||| instruction is Jump
    ||| instruction is CallSubroutine
    ||| instruction is JumpV0PlusByte
}

/// The conditional skips.
spec fn is_skip(instruction: Instruction) -> bool {
    ||| instruction is SkipRegEqByte
    ||| instruction is SkipRegNotEqByte
    ||| instruction is SkipRegEqReg
    ||| instruction is SkipRegNotEqReg
    ||| instruction is SkipIfKey
    ||| instruction is SkipIfNotKey
}

/// The instructions that compute a register.
spec fn is_arithmetic(instruction: Instruction) -> bool {
    ||| instruction is SetRegToByte
    ||| instruction is AddByteToReg
    ||| instruction is MoveValue
    ||| instruction is OrRegs
    ||| instruction is AndRegs
    ||| instruction is XorRegs
    ||| instruction is AddRegs
    ||| instruction is SubRegs
    ||| instruction is ShiftRight
    ||| instruction is ReverseSubRegs
    ||| instruction is ShiftLeft
    ||| instruction is SetRegToRandPlusByte
}

} // verus!
