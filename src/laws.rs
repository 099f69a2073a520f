//! Properties of the instruction set that hold for every machine state.
use vstd::prelude::*;
use crate::display::{collides, drawn, pixels_wf, sprite_covers, PIXEL_OFF, PIXEL_ON, DISPLAY_SIZE};
use crate::instruction::{decode_spec, family_of, n_of, Instruction};
use crate::machine::{
    Fault,
    bcd_digits, execute_spec, ticked, is_first_pressed, opcode_at, step_spec, Chip8State, FLAG_REGISTER,
    MEMORY_SIZE,
};

verus! {

/// `8xy4` stores `(Vx + Vy) mod 256` in `Vx` and sets `VF` to 1 exactly when
/// the sum exceeds 255 (when `x` is not `VF` itself, which the sum overwrites).
pub proof fn lemma_add_register(s: Chip8State, x: usize, y: usize, random: u8)
    requires
        s.wf(),
        x < 16,
        y < 16,
        x != FLAG_REGISTER,
    ensures
        ({
            let (a, b) = (s.registers[x as int] as int, s.registers[y as int] as int);
            execute_spec(s, Instruction::AddRegister(x, y), random) matches Ok(t) && t.registers[x as int]
                == (a + b) % 256 && t.registers[FLAG_REGISTER as int] == (if a + b > 255 {
                1u8
            } else {
                0u8
            })
        }),
{
}

/// `8xy5` stores `(Vx - Vy) mod 256` in `Vx` and sets `VF` to 1 exactly when
/// `Vx > Vy` (when `x` is not `VF` itself, which the difference overwrites).
pub proof fn lemma_sub(s: Chip8State, x: usize, y: usize, random: u8)
    requires
        s.wf(),
        x < 16,
        y < 16,
        x != FLAG_REGISTER,
    ensures
        ({
            let (a, b) = (s.registers[x as int] as int, s.registers[y as int] as int);
            execute_spec(s, Instruction::Sub(x, y), random) matches Ok(t) && t.registers[x as int] == (a
                - b) % 256 && t.registers[FLAG_REGISTER as int] == (if a > b {
                1u8
            } else {
                0u8
            })
        }),
{
}

/// Drawing onto a dark framebuffer lights exactly the pixels the sprite
/// covers and reports no collision.
pub proof fn lemma_draw_on_dark(display: Seq<u32>, rows: Seq<u8>, vx: u8, vy: u8)
    requires
        display.len() == DISPLAY_SIZE,
        forall|p: int| 0 <= p < display.len() ==> display[p] == PIXEL_OFF,
    ensures
        !collides(display, rows, vx, vy),
        forall|p: int|
            0 <= p < display.len() ==> (#[trigger] drawn(display, rows, vx, vy)[p] == PIXEL_ON
                <==> sprite_covers(rows, vx, vy, p)),
{
}

/// Drawing the same sprite at the same place twice restores the framebuffer,
/// and the second draw collides exactly when the first lit some pixel.
pub proof fn lemma_draw_twice(display: Seq<u32>, rows: Seq<u8>, vx: u8, vy: u8)
    requires
        pixels_wf(display),
    ensures
        drawn(drawn(display, rows, vx, vy), rows, vx, vy) == display,
        collides(drawn(display, rows, vx, vy), rows, vx, vy) <==> exists|p: int|
            0 <= p < display.len() && #[trigger] sprite_covers(rows, vx, vy, p) && display[p]
                == PIXEL_OFF,
{
    let once = drawn(display, rows, vx, vy);
    assert(drawn(once, rows, vx, vy) =~= display);
    if collides(once, rows, vx, vy) {
        let p = choose|p: int| 0 <= p < once.len() && #[trigger] sprite_covers(rows, vx, vy, p) && once[p] == PIXEL_ON;
        assert(display[p] == PIXEL_OFF);
    }
    if exists|p: int| 0 <= p < display.len() && #[trigger] sprite_covers(rows, vx, vy, p) && display[p] == PIXEL_OFF {
        let p = choose|p: int| 0 <= p < display.len() && #[trigger] sprite_covers(rows, vx, vy, p) && display[p] == PIXEL_OFF;
        assert(once[p] == PIXEL_ON);
    }
}

/// The three decimal digits of a byte are digits and spell the byte.
pub proof fn lemma_bcd_digits(v: u8)
    ensures
        ({
            let (h, t, o) = bcd_digits(v);
            h <= 2 && t < 10 && o < 10 && 100 * h + 10 * t + o == v
        }),
{
}

/// `Fx55` then `Fx65` with the same `x` and `I`, memory untouched between
/// them, brings back `V0..=Vx` whatever the registers held in between.
pub proof fn lemma_store_then_read(s: Chip8State, between: Chip8State, x: usize, random: u8)
    requires
        s.wf(),
        between.wf(),
        x < 16,
        s.index + x + 1 <= MEMORY_SIZE,
        execute_spec(s, Instruction::StoreRegisters(x), random) matches Ok(t) && between.memory
            == t.memory && between.index == t.index,
    ensures
        execute_spec(between, Instruction::ReadRegisters(x), random) matches Ok(u) && forall|r: int|
            0 <= r <= x ==> #[trigger] u.registers[r] == s.registers[r],
{
}

/// The machine after `n` timer ticks.
pub open spec fn ticked_times(s: Chip8State, n: nat) -> Chip8State
    decreases n,
{
    if n == 0 {
        s
    } else {
        ticked(ticked_times(s, (n - 1) as nat))
    }
}

/// After `n` ticks each timer has gone down by `n` but stopped at zero: a
/// timer at zero stays at zero, and the registers, memory and display are
/// as they were.
pub proof fn lemma_ticks_floor_at_zero(s: Chip8State, n: nat)
    ensures
        ticked_times(s, n).delay_timer == (if s.delay_timer >= n { s.delay_timer - n } else { 0 }),
        ticked_times(s, n).sound_timer == (if s.sound_timer >= n { s.sound_timer - n } else { 0 }),
        ticked_times(s, n) == (Chip8State {
            delay_timer: ticked_times(s, n).delay_timer,
            sound_timer: ticked_times(s, n).sound_timer,
            ..s
        }),
    decreases n,
{
    if n > 0 {
        lemma_ticks_floor_at_zero(s, (n - 1) as nat);
    }
}

/// With no key pressed, a step on `Fx0A` leaves the machine exactly as it
/// was, so it runs again next step; with a key pressed, the step moves past
/// it and stores the lowest pressed key in `Vx`.
pub proof fn lemma_wait_key_press(s: Chip8State, x: usize, random: u8)
    requires
        s.wf(),
        s.program_counter + 1 < MEMORY_SIZE,
        decode_spec(opcode_at(s.memory, s.program_counter as int)) == Some(Instruction::WaitKeyPress(x)),
    ensures
        (forall|k: int| 0 <= k < 16 ==> s.keypad[k] != 0xFF) ==> step_spec(s, random) == Ok::<Chip8State, Fault>(s),
        forall|k: int|
            #[trigger] is_first_pressed(s.keypad, k) ==> step_spec(s, random) == Ok::<Chip8State, Fault>(
                s.at(s.program_counter + 2).with_register(x as int, k as u8),
            ),
{
    assert forall|k: int| #[trigger] is_first_pressed(s.keypad, k) implies step_spec(s, random)
        == Ok::<Chip8State, Fault>(s.at(s.program_counter + 2).with_register(x as int, k as u8)) by {
        let c = choose|c: int| is_first_pressed(s.keypad, c);
        assert(c == k) by {
            if c < k {
                assert(s.keypad[c] != 0xFF);
            } else if c > k {
                assert(s.keypad[k] != 0xFF);
            }
        }
    }
    if forall|k: int| 0 <= k < 16 ==> s.keypad[k] != 0xFF {
        assert(s.at(s.program_counter + 2).at(s.program_counter + 2 - 2) == s);
    }
}

/// A `5xyn` or `9xyn` opcode whose low nibble is not zero decodes to nothing.
pub proof fn lemma_malformed_register_skip(op: u16)
    requires
        family_of(op) == 0x5 || family_of(op) == 0x9,
        n_of(op) != 0,
    ensures
        decode_spec(op) is None,
{
}

} // verus!
