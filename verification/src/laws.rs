//! Laws of the machine model: what follows, for every state, from the
//! definitions in `machine`.

use crate::display::{blit, blit_collides, sprite_paints, CELLS};
use crate::instruction::{decode, Instruction};
use crate::machine::{
    apply, cycle, decay, loaded, Fault, MachineState, RunState, MEMORY_SIZE, PROGRAM_START,
};
use vstd::prelude::*;

verus! {

/// The outcome of applying one instruction `times` times in a row.
pub open spec fn apply_repeatedly(
    state: MachineState,
    instruction: Instruction,
    random: u8,
    times: nat,
) -> Result<MachineState, Fault>
    decreases times,
{
    if times == 0 {
        Ok(state)
    } else {
        match apply(state, instruction, random) {
            Ok(next) => apply_repeatedly(next, instruction, random, (times - 1) as nat),
            Err(fault) => Err(fault),
        }
    }
}

/// Storing the decimal digits of a register writes its hundreds, tens and
/// ones to memory at I, I+1 and I+2, and changes nothing else. The digits
/// are `v / 100`, `(v - 100 * (v / 100)) / 10` and what is left of `v`
/// after both are taken away.
pub proof fn law_store_number_writes_digits(state: MachineState, reg: u8, random: u8)
    requires
        state.wf(),
        reg < 16,
        state.i + 3 <= MEMORY_SIZE,
    ensures
        ({
            let v = state.v(reg) as int;
            let hundreds = v / 100;
            let tens = (v - 100 * hundreds) / 10;
            let ones = v - 100 * hundreds - 10 * tens;
            let at = state.i as int;
            &&& apply(state, Instruction::StoreNumberFromRegToI(reg), random) matches Ok(next)
            &&& next.memory.subrange(at, at + 3) == seq![hundreds as u8, tens as u8, ones as u8]
            &&& forall|k: int|
                0 <= k < MEMORY_SIZE && !(at <= k < at + 3) ==> next.memory[k] == state.memory[k]
            &&& next == (MachineState { memory: next.memory, ..state })
            &&& 0 <= hundreds <= 2 && 0 <= tens <= 9 && 0 <= ones <= 9
        }),
{
    let v = state.v(reg) as int;
    let hundreds = v / 100;
    let tens = (v - 100 * hundreds) / 10;
    let ones = v - 100 * hundreds - 10 * tens;
    let at = state.i as int;
    let next = apply(state, Instruction::StoreNumberFromRegToI(reg), random)->Ok_0;
    assert(tens == (v / 10) % 10);
    assert(ones == v % 10);
    assert(next.memory.subrange(at, at + 3) =~= seq![hundreds as u8, tens as u8, ones as u8]);
}

/// Adding two registers: the status flag is 1 exactly when the sum exceeds
/// 255, and the register holds the low eight bits of the sum. A sum of
/// exactly 256 gives flag 1 and result 0; a sum of 255 gives flag 0 and
/// result 255. The destination must not be the flag register itself,
/// which would keep the result and lose the flag.
pub proof fn law_add_sets_carry(state: MachineState, reg1: u8, reg2: u8, random: u8)
    requires
        state.wf(),
        reg1 < 15,
        reg2 < 16,
    ensures
        ({
            let sum = state.v(reg1) + state.v(reg2);
            &&& apply(state, Instruction::AddRegs(reg1, reg2), random) matches Ok(next)
            &&& next.v(0xF) == if sum > 255 { 1u8 } else { 0u8 }
            &&& next.v(reg1) == if sum > 255 { sum - 256 } else { sum }
            &&& sum == 256 ==> next.v(0xF) == 1 && next.v(reg1) == 0
            &&& sum == 255 ==> next.v(0xF) == 0 && next.v(reg1) == 255
        }),
{
}

/// Subtracting one register from another: the status flag is 1 exactly
/// when nothing is borrowed, that is when the first operand is at least the
/// second, and the result wraps around below zero. The destination must
/// not be the flag register itself.
pub proof fn law_sub_sets_no_borrow(state: MachineState, reg1: u8, reg2: u8, random: u8)
    requires
        state.wf(),
        reg1 < 15,
        reg2 < 16,
    ensures
        ({
            let a = state.v(reg1);
            let b = state.v(reg2);
            &&& apply(state, Instruction::SubRegs(reg1, reg2), random) matches Ok(next)
            &&& next.v(0xF) == if a >= b { 1u8 } else { 0u8 }
            &&& next.v(reg1) == if a >= b { a - b } else { 256 + a - b }
        }),
{
}

/// A program image that fits can be read back from memory, byte for byte,
/// at the program start.
pub proof fn law_loaded_image_reads_back(memory: Seq<u8>, image: Seq<u8>)
    requires
        memory.len() == MEMORY_SIZE,
        PROGRAM_START + image.len() <= MEMORY_SIZE,
    ensures
        loaded(memory, image).len() == MEMORY_SIZE,
        loaded(memory, image).subrange(PROGRAM_START as int, PROGRAM_START + image.len())
            == image,
        forall|k: int|
            0 <= k < MEMORY_SIZE && !(PROGRAM_START <= k < PROGRAM_START + image.len())
                ==> loaded(memory, image)[k] == memory[k],
{
    assert(loaded(memory, image).subrange(PROGRAM_START as int, PROGRAM_START + image.len())
        =~= image);
}

/// A key skip on an empty queue does nothing: no skip, nothing consumed,
/// the queue still empty, however often it is repeated.
pub proof fn law_key_skip_on_empty_queue(
    state: MachineState,
    instruction: Instruction,
    random: u8,
    times: nat,
)
    requires
        instruction is SkipIfKey || instruction is SkipIfNotKey,
        state.keys.len() == 0,
    ensures
        apply(state, instruction, random) == Ok::<MachineState, Fault>(state),
        apply_repeatedly(state, instruction, random, times) == Ok::<MachineState, Fault>(state),
    decreases times,
{
    if times > 0 {
        law_key_skip_on_empty_queue(state, instruction, random, (times - 1) as nat);
    }
}

/// Only the random-and-mask instruction looks at the random byte.
pub proof fn law_random_byte_only_masked(
    state: MachineState,
    instruction: Instruction,
    random1: u8,
    random2: u8,
)
    requires
        !(instruction is SetRegToRandPlusByte),
    ensures
        apply(state, instruction, random1) == apply(state, instruction, random2),
{
}

/// The random-and-mask instruction stores the drawn byte ANDed with the
/// mask: no bit outside the mask is ever set.
pub proof fn law_random_is_masked(state: MachineState, reg: u8, mask: u8, random: u8)
    requires
        state.wf(),
        reg < 16,
    ensures
        apply(state, Instruction::SetRegToRandPlusByte(reg, mask), random) matches Ok(next)
            && next.v(reg) == random & mask && next.v(reg) & !mask == 0,
{
    assert((random & mask) & !mask == 0) by (bit_vector);
}

/// An instruction with valid operands takes a well-formed state to a
/// well-formed state.
pub proof fn law_apply_keeps_wf(state: MachineState, instruction: Instruction, random: u8)
    requires
        state.wf(),
        instruction.wf(),
    ensures
        apply(state, instruction, random) matches Ok(next) ==> next.wf(),
{
    match apply(state, instruction, random) {
        Ok(next) => {
            assert(crate::machine::key_indices(next.keys));
            assert(next.pixels.len() == CELLS);
        },
        Err(_) => {},
    }
}

/// A cycle takes a well-formed state to a well-formed state, and so does a
/// timer update.
pub proof fn law_cycle_keeps_wf(state: MachineState, random: u8, elapsed_nanos: u128)
    requires
        state.wf(),
    ensures
        cycle(state, random) matches Ok(next) ==> next.wf(),
        decay(state, elapsed_nanos).wf(),
{
    match state.run {
        RunState::AwaitingKey(reg) => {
            if state.keys.len() > 0 {
                let next = cycle(state, random)->Ok_0;
                assert(crate::machine::key_indices(next.keys));
            }
        },
        RunState::Running => {
            if state.pc + 2 <= MEMORY_SIZE {
                let fetched = MachineState { pc: (state.pc + 2) as u16, ..state };
                match decode(state.word_at_pc()) {
                    Some(instruction) => {
                        crate::instruction::lemma_decoded_is_wf(state.word_at_pc());
                        law_apply_keeps_wf(fetched, instruction, random);
                    },
                    None => {},
                }
            }
        },
    }
}

/// The timers never catch up: however long ago the last update was, one
/// look at them takes at most one count off each, and never below zero.
pub proof fn law_timers_decay_by_one(state: MachineState, elapsed_nanos: u128)
    ensures
        ({
            let after = decay(state, elapsed_nanos);
            &&& after == (MachineState {
                delay_timer: after.delay_timer,
                sound_timer: after.sound_timer,
                ..state
            })
            &&& state.delay_timer - 1 <= after.delay_timer <= state.delay_timer
            &&& state.sound_timer - 1 <= after.sound_timer <= state.sound_timer
            &&& elapsed_nanos <= 16_000_000 ==> after == state
            &&& elapsed_nanos > 16_000_000 && state.delay_timer > 0 ==> after.delay_timer
                == state.delay_timer - 1
            &&& elapsed_nanos > 16_000_000 && state.sound_timer > 0 ==> after.sound_timer
                == state.sound_timer - 1
        }),
{
}

/// Blitting the same sprite twice at the same place restores the grid.
pub proof fn law_blit_twice_restores(pixels: Seq<bool>, x: u8, y: u8, sprite: Seq<u8>)
    ensures
        blit(blit(pixels, x, y, sprite), x, y, sprite) == pixels,
{
    assert(blit(blit(pixels, x, y, sprite), x, y, sprite) =~= pixels);
}

/// After a sprite is drawn, drawing it again at the same place reports a
/// collision exactly when the sprite has a set bit on a cell that was dark
/// before the first blit. So the second blit of a sprite collides whenever
/// the first one lit anything; it does not when every cell the sprite has
/// a set bit on was lit already, or when no row with a set bit fits into
/// the grid.
pub proof fn law_second_blit_collides(pixels: Seq<bool>, x: u8, y: u8, sprite: Seq<u8>)
    ensures
        blit_collides(blit(pixels, x, y, sprite), x, y, sprite) <==> exists|k: int|
            0 <= k < pixels.len() && !pixels[k] && #[trigger] sprite_paints(x, y, sprite, k),
{
    let once = blit(pixels, x, y, sprite);
    if blit_collides(once, x, y, sprite) {
        let k = choose|k: int|
            0 <= k < once.len() && once[k] && #[trigger] sprite_paints(x, y, sprite, k);
        assert(!pixels[k] && sprite_paints(x, y, sprite, k));
    }
    if exists|k: int|
        0 <= k < pixels.len() && !pixels[k] && #[trigger] sprite_paints(x, y, sprite, k) {
        let k = choose|k: int|
            0 <= k < pixels.len() && !pixels[k] && #[trigger] sprite_paints(x, y, sprite, k);
        assert(once[k] && sprite_paints(x, y, sprite, k));
    }
}

} // verus!
