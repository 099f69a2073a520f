//! The CHIP-8 machine: its state, its mathematical model, and execution.
use vstd::prelude::*;
use crate::display::{
    DISPLAY_SIZE, PIXEL_OFF, PIXEL_ON, collides, draw_sprite, drawn, pixels_wf,
};
use crate::entropy::random_byte;
use crate::instruction::{Instruction, decode_spec, nnn_of, n_of, x_of, y_of, kk_of};

verus! {

/// Number of general registers `V0..=VF`.
pub const NUMBER_OF_REGISTER: usize = 16;
/// The register that arithmetic, shifts and drawing overwrite with a flag.
pub const FLAG_REGISTER: usize = 0xF;
/// Bytes of addressable memory.
pub const MEMORY_SIZE: usize = 0xFFF;
/// Address at which a program is loaded and execution starts.
pub const START_PROGRAM_SPACE: usize = 0x200;
/// Slots of the call stack; slot 0 is never written, so calls nest 15 deep.
pub const STACK_SIZE: usize = 16;
pub const NUMBER_OF_KEYS: usize = 16;
/// Keypad entry of a key held down.
pub const KEY_PRESSED: u8 = 0xFF;
/// Keypad entry of a key released.
pub const KEY_NOT_PRESSED: u8 = 0x00;
/// Address of the glyph of digit 0.
pub const FONT_SET_ADDRESS_START: usize = 0x050;
pub const NUMBER_OF_BYTES_PER_CHARACTER: usize = 5;
pub const FONT_SET_SIZE: usize = 80;
/// The sixteen hexadecimal digit glyphs, five rows of four pixels each.
pub const FONT_SET: [u8; FONT_SET_SIZE] = [
    0xF0, 0x90, 0x90, 0x90, 0xF0, // 0
    0x20, 0x60, 0x20, 0x20, 0x70, // 1
    0xF0, 0x10, 0xF0, 0x80, 0xF0, // 2
    0xF0, 0x10, 0xF0, 0x10, 0xF0, // 3
    0x90, 0x90, 0xF0, 0x10, 0x10, // 4
    0xF0, 0x80, 0xF0, 0x10, 0xF0, // 5
    0xF0, 0x80, 0xF0, 0x90, 0xF0, // 6
    0xF0, 0x10, 0x20, 0x40, 0x40, // 7
    0xF0, 0x90, 0xF0, 0x90, 0xF0, // 8
    0xF0, 0x90, 0xF0, 0x10, 0xF0, // 9
    0xF0, 0x90, 0xF0, 0x90, 0x90, // A
    0xE0, 0x90, 0xE0, 0x90, 0xE0, // B
    0xF0, 0x80, 0x80, 0x80, 0xF0, // C
    0xE0, 0x90, 0x90, 0x90, 0xE0, // D
    0xF0, 0x80, 0xF0, 0x80, 0xF0, // E
    0xF0, 0x80, 0xF0, 0x80, 0x80, // F
];

/// Why a step, or loading a program, failed. A failed step changes nothing.
#[derive(Debug, Clone, Copy, PartialEq, Eq, Structural)]
pub enum Fault {
    /// The opcode encodes no instruction.
    InvalidOpcode(u16),
    /// A call with every stack slot in use.
    StackOverflow,
    /// A return with an empty stack.
    StackUnderflow,
    /// An instruction fetch or a memory access past the end of memory.
    MemoryOutOfRange,
    /// A key instruction names a key above `0xF`.
    InvalidKey(u8),
    /// The program does not fit between its load address and the end of memory.
    ImageTooLarge,
}

/// The mathematical model of a machine.
pub struct Chip8State {
    /// `V0..=VF`.
    pub registers: Seq<u8>,
    pub memory: Seq<u8>,
    /// The index register `I`.
    pub index: u16,
    /// Address of the next instruction.
    pub program_counter: u16,
    /// Return addresses; slot `stack_pointer` holds the latest one.
    pub stack: Seq<u16>,
    /// Number of open calls.
    pub stack_pointer: nat,
    pub delay_timer: u8,
    pub sound_timer: u8,
    /// One entry per key, `KEY_PRESSED` or `KEY_NOT_PRESSED`.
    pub keypad: Seq<u8>,
    /// Pixels row by row, `PIXEL_ON` or `PIXEL_OFF`.
    pub display: Seq<u32>,
}

impl Chip8State {
    /// Sizes are fixed, the stack pointer stays in its slots and every pixel
    /// is lit or dark.
    pub open spec fn wf(self) -> bool {
        &&& self.registers.len() == NUMBER_OF_REGISTER
        &&& self.memory.len() == MEMORY_SIZE
        &&& self.stack.len() == STACK_SIZE
        &&& self.stack_pointer < STACK_SIZE
        &&& self.keypad.len() == NUMBER_OF_KEYS
        &&& pixels_wf(self.display)
    }

    /// Register `x` holds `v`.
    pub open spec fn with_register(self, x: int, v: u8) -> Chip8State {
        Chip8State { registers: self.registers.update(x, v), ..self }
    }

    /// `VF` holds 1 when `f`, else 0.
    pub open spec fn with_flag(self, f: bool) -> Chip8State {
        self.with_register(FLAG_REGISTER as int, if f { 1 } else { 0 })
    }

    /// The next instruction is skipped when `c`.
    pub open spec fn skip_if(self, c: bool) -> Chip8State {
        if c {
            Chip8State { program_counter: (self.program_counter + 2) as u16, ..self }
        } else {
            self
        }
    }

    /// The machine with the program counter at `pc`.
    pub open spec fn at(self, pc: int) -> Chip8State {
        Chip8State { program_counter: pc as u16, ..self }
    }
}

/// The machine built around a program image.
pub open spec fn initial_state(rom: Seq<u8>) -> Chip8State {
    Chip8State {
        registers: Seq::new(NUMBER_OF_REGISTER as nat, |i: int| 0u8),
        memory: Seq::new(
            MEMORY_SIZE as nat,
            |a: int|
                if FONT_SET_ADDRESS_START <= a < FONT_SET_ADDRESS_START + FONT_SET_SIZE {
                    FONT_SET@[a - FONT_SET_ADDRESS_START]
                } else if START_PROGRAM_SPACE <= a < START_PROGRAM_SPACE + rom.len() {
                    rom[a - START_PROGRAM_SPACE]
                } else {
                    0u8
                },
        ),
        index: 0,
        program_counter: START_PROGRAM_SPACE as u16,
        stack: Seq::new(STACK_SIZE as nat, |i: int| 0u16),
        stack_pointer: 0,
        delay_timer: 0,
        sound_timer: 0,
        keypad: Seq::new(NUMBER_OF_KEYS as nat, |i: int| KEY_NOT_PRESSED),
        display: Seq::new(DISPLAY_SIZE as nat, |i: int| PIXEL_OFF),
    }
}

/// Key `k` is pressed and no key below it is.
pub open spec fn is_first_pressed(keypad: Seq<u8>, k: int) -> bool {
    &&& 0 <= k < keypad.len()
    &&& keypad[k] == KEY_PRESSED
    &&& forall|j: int| 0 <= j < k ==> keypad[j] != KEY_PRESSED
}

/// The machine after one timer tick: each timer above zero goes down by one,
/// nothing else changes.
pub open spec fn ticked(s: Chip8State) -> Chip8State {
    Chip8State {
        delay_timer: if s.delay_timer > 0 { (s.delay_timer - 1) as u8 } else { 0 },
        sound_timer: if s.sound_timer > 0 { (s.sound_timer - 1) as u8 } else { 0 },
        ..s
    }
}

/// The big-endian opcode at `pc`.
pub open spec fn opcode_at(memory: Seq<u8>, pc: int) -> u16 {
    (memory[pc] as int * 256 + memory[pc + 1] as int) as u16
}

/// Decimal digits of `v`: hundreds, tens, ones.
pub open spec fn bcd_digits(v: u8) -> (u8, u8, u8) {
    ((v / 100) as u8, ((v / 10) % 10) as u8, (v % 10) as u8)
}

/// The effect of one instruction on a machine whose program counter already
/// points past it.
pub open spec fn execute_spec(s: Chip8State, instr: Instruction, random: u8) -> Result<Chip8State, Fault> {
    let reg = s.registers;
    match instr {
        Instruction::Clear => Ok(Chip8State { display: Seq::new(DISPLAY_SIZE as nat, |p: int| PIXEL_OFF), ..s }),
        Instruction::Return => if s.stack_pointer == 0 {
            Err(Fault::StackUnderflow)
        } else {
            Ok(Chip8State {
                program_counter: s.stack[s.stack_pointer as int],
                stack_pointer: (s.stack_pointer - 1) as nat,
                ..s
            })
        },
        Instruction::Jump(nnn) => Ok(s.at(nnn as int)),
        Instruction::Call(nnn) => if s.stack_pointer + 1 >= STACK_SIZE {
            Err(Fault::StackOverflow)
        } else {
            Ok(Chip8State {
                stack: s.stack.update(s.stack_pointer + 1int, s.program_counter),
                stack_pointer: s.stack_pointer + 1,
                program_counter: nnn,
                ..s
            })
        },
        Instruction::SkipNextIfEqualByte(x, kk) => Ok(s.skip_if(reg[x as int] == kk)),
        Instruction::SkipNextIfNotEqualByte(x, kk) => Ok(s.skip_if(reg[x as int] != kk)),
        Instruction::SkipNextIfEqualRegister(x, y) => Ok(s.skip_if(reg[x as int] == reg[y as int])),
        Instruction::LoadByte(x, kk) => Ok(s.with_register(x as int, kk)),
        Instruction::AddByte(x, kk) => Ok(s.with_register(x as int, ((reg[x as int] + kk) % 256) as u8)),
        Instruction::LoadRegister(x, y) => Ok(s.with_register(x as int, reg[y as int])),
        Instruction::Or(x, y) => Ok(s.with_register(x as int, reg[x as int] | reg[y as int])),
        Instruction::And(x, y) => Ok(s.with_register(x as int, reg[x as int] & reg[y as int])),
        Instruction::Xor(x, y) => Ok(s.with_register(x as int, reg[x as int] ^ reg[y as int])),
        Instruction::AddRegister(x, y) => {
            let sum = reg[x as int] + reg[y as int];
            Ok(s.with_flag(sum > 255).with_register(x as int, (sum % 256) as u8))
        },
        Instruction::Sub(x, y) => {
            let (a, b) = (reg[x as int], reg[y as int]);
            Ok(s.with_flag(a > b).with_register(x as int, ((a - b) % 256) as u8))
        },
        Instruction::ShiftRight(x, _y) => {
            let a = reg[x as int];
            Ok(s.with_flag(a % 2 == 1).with_register(x as int, a / 2))
        },
        Instruction::SubFrom(x, y) => {
            let (a, b) = (reg[x as int], reg[y as int]);
            Ok(s.with_flag(b > a).with_register(x as int, ((b - a) % 256) as u8))
        },
        Instruction::ShiftLeft(x, _y) => {
            let a = reg[x as int];
            Ok(s.with_flag(a >= 0x80).with_register(x as int, ((a * 2) % 256) as u8))
        },
        Instruction::SkipNextIfNotEqualRegister(x, y) => Ok(s.skip_if(reg[x as int] != reg[y as int])),
        Instruction::SetIndex(nnn) => Ok(Chip8State { index: nnn, ..s }),
        Instruction::JumpOf(nnn) => Ok(s.at(nnn + reg[0])),
        Instruction::Random(x, kk) => Ok(s.with_register(x as int, random & kk)),
        Instruction::DisplaySprite(x, y, n) => if s.index + n > MEMORY_SIZE {
            Err(Fault::MemoryOutOfRange)
        } else {
            let rows = s.memory.subrange(s.index as int, s.index + n);
            let (vx, vy) = (reg[x as int], reg[y as int]);
            Ok(Chip8State { display: drawn(s.display, rows, vx, vy), ..s }.with_flag(
                collides(s.display, rows, vx, vy),
            ))
        },
        Instruction::SkipIfKeyPressed(x) => if reg[x as int] >= NUMBER_OF_KEYS {
            Err(Fault::InvalidKey(reg[x as int]))
        } else {
            Ok(s.skip_if(s.keypad[reg[x as int] as int] == KEY_PRESSED))
        },
        Instruction::SkipIfNotKeyPressed(x) => if reg[x as int] >= NUMBER_OF_KEYS {
            Err(Fault::InvalidKey(reg[x as int]))
        } else {
            Ok(s.skip_if(s.keypad[reg[x as int] as int] == KEY_NOT_PRESSED))
        },
        Instruction::LoadTimer(x) => Ok(s.with_register(x as int, s.delay_timer)),
        Instruction::WaitKeyPress(x) => if exists|k: int| is_first_pressed(s.keypad, k) {
            Ok(s.with_register(x as int, (choose|k: int| is_first_pressed(s.keypad, k)) as u8))
        } else {
            Ok(s.at(s.program_counter - 2))
        },
        Instruction::SetTimer(x) => Ok(Chip8State { delay_timer: reg[x as int], ..s }),
        Instruction::SetSoundTimer(x) => Ok(Chip8State { sound_timer: reg[x as int], ..s }),
        Instruction::AddIndex(x) => Ok(Chip8State { index: ((s.index + reg[x as int]) % 0x10000) as u16, ..s }),
        Instruction::LoadSpriteLocationIndex(x) => Ok(Chip8State {
            index: (FONT_SET_ADDRESS_START + reg[x as int] * NUMBER_OF_BYTES_PER_CHARACTER) as u16,
            ..s
        }),
        Instruction::BinaryCodedDecimal(x) => if s.index + 3 > MEMORY_SIZE {
            Err(Fault::MemoryOutOfRange)
        } else {
            let (h, t, o) = bcd_digits(reg[x as int]);
            let i = s.index as int;
            Ok(Chip8State { memory: s.memory.update(i, h).update(i + 1, t).update(i + 2, o), ..s })
        },
        Instruction::StoreRegisters(x) => if s.index + x + 1 > MEMORY_SIZE {
            Err(Fault::MemoryOutOfRange)
        } else {
            Ok(Chip8State { memory: stored(s.memory, reg, s.index as int, x as int), ..s })
        },
        Instruction::ReadRegisters(x) => if s.index + x + 1 > MEMORY_SIZE {
            Err(Fault::MemoryOutOfRange)
        } else {
            Ok(Chip8State { registers: loaded(reg, s.memory, s.index as int, x as int), ..s })
        },
    }
}

/// Memory with `registers[0..=x]` written from address `base`.
pub open spec fn stored(memory: Seq<u8>, registers: Seq<u8>, base: int, x: int) -> Seq<u8> {
    Seq::new(memory.len(), |a: int| if base <= a <= base + x { registers[a - base] } else { memory[a] })
}

/// Registers with `V0..=Vx` read from memory at `base`.
pub open spec fn loaded(registers: Seq<u8>, memory: Seq<u8>, base: int, x: int) -> Seq<u8> {
    Seq::new(registers.len(), |r: int| if r <= x { memory[base + r] } else { registers[r] })
}

/// One fetch-decode-execute cycle; `random` is the byte that `Cxkk` draws.
pub open spec fn step_spec(s: Chip8State, random: u8) -> Result<Chip8State, Fault> {
    if s.program_counter + 1 >= MEMORY_SIZE {
        Err(Fault::MemoryOutOfRange)
    } else {
        let op = opcode_at(s.memory, s.program_counter as int);
        match decode_spec(op) {
            None => Err(Fault::InvalidOpcode(op)),
            Some(instr) => execute_spec(s.at(s.program_counter + 2), instr, random),
        }
    }
}

/// `new` is the outcome `res` foretold from `old`, and `r` reports it: on a
/// fault nothing changed.
pub open spec fn outcome(old: Chip8State, res: Result<Chip8State, Fault>, r: Result<(), Fault>, new: Chip8State) -> bool {
    match res {
        Ok(s) => r is Ok && new == s,
        Err(e) => r == Err::<(), Fault>(e) && new == old,
    }
}

/// The instruction at the program counter draws a random byte.
pub open spec fn draws_random(s: Chip8State) -> bool {
    s.program_counter + 1 < MEMORY_SIZE && decode_spec(opcode_at(s.memory, s.program_counter as int)) matches Some(Instruction::Random(_, _))
}


/// The machine that executes CHIP-8 programs.
pub struct Chip8 {
    registers: [u8; NUMBER_OF_REGISTER],
    memory: [u8; MEMORY_SIZE],
    index: u16,
    program_counter: u16,
    stack: [u16; STACK_SIZE],
    stack_pointer: usize,
    delay_timer: u8,
    sound_timer: u8,
    keypad: [u8; NUMBER_OF_KEYS],
    display: [u32; DISPLAY_SIZE],
}

impl View for Chip8 {
    type V = Chip8State;

    closed spec fn view(&self) -> Chip8State {
        Chip8State {
            registers: self.registers@,
            memory: self.memory@,
            index: self.index,
            program_counter: self.program_counter,
            stack: self.stack@,
            stack_pointer: self.stack_pointer as nat,
            delay_timer: self.delay_timer,
            sound_timer: self.sound_timer,
            keypad: self.keypad@,
            display: self.display@,
        }
    }
}

impl Chip8 {
    pub open spec fn wf(&self) -> bool {
        self@.wf()
    }

    /// Builds a machine: font glyphs at their address, `rom` at the program
    /// address, everything else zero, execution starting at the program.
    pub fn new(rom: Vec<u8>) -> (r: Self)
        requires
            START_PROGRAM_SPACE + rom@.len() <= MEMORY_SIZE,
        ensures
            r.wf(),
            r@ == initial_state(rom@),
    {
        let mut memory = [0u8; MEMORY_SIZE];
        let mut i: usize = 0;
        while i < FONT_SET_SIZE
            invariant
                i <= FONT_SET_SIZE,
                forall|a: int|
                    0 <= a < MEMORY_SIZE ==> #[trigger] memory@[a] == if FONT_SET_ADDRESS_START <= a
                        < FONT_SET_ADDRESS_START + i {
                        FONT_SET@[a - FONT_SET_ADDRESS_START]
                    } else {
                        0u8
                    },
            decreases FONT_SET_SIZE - i,
        {
            memory[FONT_SET_ADDRESS_START + i] = FONT_SET[i];
            i += 1;
        }
        let mut i: usize = 0;
        while i < rom.len()
            invariant
                i <= rom@.len(),
                START_PROGRAM_SPACE + rom@.len() <= MEMORY_SIZE,
                forall|a: int|
                    0 <= a < MEMORY_SIZE ==> #[trigger] memory@[a] == if FONT_SET_ADDRESS_START <= a
                        < FONT_SET_ADDRESS_START + FONT_SET_SIZE {
                        FONT_SET@[a - FONT_SET_ADDRESS_START]
                    } else if START_PROGRAM_SPACE <= a < START_PROGRAM_SPACE + i {
                        rom@[a - START_PROGRAM_SPACE]
                    } else {
                        0u8
                    },
            decreases rom@.len() - i,
        {
            memory[START_PROGRAM_SPACE + i] = rom[i];
            i += 1;
        }
        let r = Chip8 {
            registers: [0u8; NUMBER_OF_REGISTER],
            memory,
            index: 0,
            program_counter: START_PROGRAM_SPACE as u16,
            stack: [0u16; STACK_SIZE],
            stack_pointer: 0,
            delay_timer: 0,
            sound_timer: 0,
            keypad: [KEY_NOT_PRESSED; NUMBER_OF_KEYS],
            display: [PIXEL_OFF; DISPLAY_SIZE],
        };
        assert(r@.registers =~= initial_state(rom@).registers);
        assert(r@.memory =~= initial_state(rom@).memory);
        assert(r@.stack =~= initial_state(rom@).stack);
        assert(r@.keypad =~= initial_state(rom@).keypad);
        assert(r@.display =~= initial_state(rom@).display);
        r
    }

    /// Builds a machine as `new` does, or reports a program too large for
    /// memory.
    pub fn try_new(rom: Vec<u8>) -> (r: Result<Self, Fault>)
        ensures
            START_PROGRAM_SPACE + rom@.len() <= MEMORY_SIZE <==> r is Ok,
            r matches Ok(m) ==> m.wf() && m@ == initial_state(rom@),
            r matches Err(e) ==> e == Fault::ImageTooLarge,
    {
        if rom.len() > MEMORY_SIZE - START_PROGRAM_SPACE {
            Err(Fault::ImageTooLarge)
        } else {
            Ok(Self::new(rom))
        }
    }

    /// A copy of the framebuffer, row by row.
    pub fn get_display(&self) -> (r: [u32; DISPLAY_SIZE])
        ensures
            r@ == self@.display,
    {
        self.display
    }

    /// One 60 Hz timer tick: each timer above zero goes down by one.
    pub fn tick(&mut self)
        requires
            old(self).wf(),
        ensures
            final(self).wf(),
            final(self)@ == ticked(old(self)@),
    {
        if self.sound_timer > 0 {
            self.sound_timer -= 1;
        }
        if self.delay_timer > 0 {
            self.delay_timer -= 1;
        }
    }

    /// One fetch-decode-execute cycle, drawing a random byte for `Cxkk`.
    pub fn step(&mut self) -> (r: Result<(), Fault>)
        requires
            old(self).wf(),
        ensures
            final(self).wf(),
            exists|v: u8| outcome(old(self)@, step_spec(old(self)@, v), r, final(self)@),
            !draws_random(old(self)@) ==> outcome(old(self)@, step_spec(old(self)@, 0), r, final(self)@),
    {
        let random = random_byte();
        let r = self.step_with_random(random);
        proof {
            if !draws_random(old(self)@) {
                lemma_step_ignores_random(old(self)@, random);
            }
        }
        r
    }

    /// One fetch-decode-execute cycle; `random` is the byte that `Cxkk`
    /// masks. On a fault nothing changes.
    pub fn step_with_random(&mut self, random: u8) -> (r: Result<(), Fault>)
        requires
            old(self).wf(),
        ensures
            final(self).wf(),
            outcome(old(self)@, step_spec(old(self)@, random), r, final(self)@),
    {
        let pc = self.program_counter;
        if pc as usize + 1 >= MEMORY_SIZE {
            return Err(Fault::MemoryOutOfRange);
        }
        let opcode = self.fetch();
        match Self::decode(opcode) {
            None => {
                self.program_counter = pc;
                assert(self@ == old(self)@);
                Err(Fault::InvalidOpcode(opcode))
            },
            Some(instruction) => {
                let r = self.execute(instruction, random);
                if r.is_err() {
                    self.program_counter = pc;
                    assert(self@ == old(self)@);
                }
                r
            },
        }
    }

    /// Replaces the whole keypad snapshot.
    pub fn set_keypad(&mut self, keys: [u8; NUMBER_OF_KEYS])
        requires
            old(self).wf(),
        ensures
            final(self).wf(),
            final(self)@ == (Chip8State { keypad: keys@, ..old(self)@ }),
    {
        self.keypad = keys;
    }

    /// The sound timer is running.
    pub fn is_playing_sound(&self) -> (r: bool)
        ensures
            r == (self@.sound_timer > 0),
    {
        self.sound_timer > 0
    }

    /// A copy of the general registers `V0..=VF`.
    pub fn registers(&self) -> (r: [u8; NUMBER_OF_REGISTER])
        ensures
            r@ == self@.registers,
    {
        self.registers
    }

    /// A copy of memory.
    pub fn memory(&self) -> (r: [u8; MEMORY_SIZE])
        ensures
            r@ == self@.memory,
    {
        self.memory
    }

    /// The index register `I`.
    pub fn index(&self) -> (r: u16)
        ensures
            r == self@.index,
    {
        self.index
    }

    /// The address of the next instruction.
    pub fn program_counter(&self) -> (r: u16)
        ensures
            r == self@.program_counter,
    {
        self.program_counter
    }

    /// The number of the top stack slot; 0 when no call is open.
    pub fn stack_pointer(&self) -> (r: usize)
        ensures
            r == self@.stack_pointer,
    {
        self.stack_pointer
    }

    /// The delay timer.
    pub fn delay_timer(&self) -> (r: u8)
        ensures
            r == self@.delay_timer,
    {
        self.delay_timer
    }

    /// The sound timer.
    pub fn sound_timer(&self) -> (r: u8)
        ensures
            r == self@.sound_timer,
    {
        self.sound_timer
    }

    /// Reads the opcode at the program counter and moves past it.
    fn fetch(&mut self) -> (r: u16)
        requires
            old(self)@.program_counter + 1 < MEMORY_SIZE,
        ensures
            r == opcode_at(old(self)@.memory, old(self)@.program_counter as int),
            final(self)@ == old(self)@.at(old(self)@.program_counter + 2),
    {
        let pc = self.program_counter as usize;
        let higher_byte = self.memory[pc];
        let lower_byte = self.memory[pc + 1];
        self.program_counter = self.program_counter + 2;
        (higher_byte as u16) * 256 + (lower_byte as u16)
    }

    /// Sets register `x` to `v`.
    fn set_register(&mut self, x: usize, v: u8)
        requires
            x < NUMBER_OF_REGISTER,
        ensures
            final(self)@ == old(self)@.with_register(x as int, v),
    {
        self.registers[x] = v;
    }

    /// Skips the next instruction when `c`.
    fn skip_if(&mut self, c: bool)
        requires
            old(self)@.program_counter + 2 <= u16::MAX,
        ensures
            final(self)@ == old(self)@.skip_if(c),
    {
        if c {
            self.program_counter = self.program_counter + 2;
        }
    }

    /// Applies one decoded instruction to a machine whose program counter
    /// already points past it. On a fault nothing changes.
    fn execute(&mut self, instruction: Instruction, random: u8) -> (r: Result<(), Fault>)
        requires
            old(self).wf(),
            instruction.wf(),
            2 <= old(self)@.program_counter <= MEMORY_SIZE,
        ensures
            final(self).wf(),
            outcome(old(self)@, execute_spec(old(self)@, instruction, random), r, final(self)@),
    {
        match instruction {
            Instruction::Clear => {
                self.display = [PIXEL_OFF; DISPLAY_SIZE];
                assert(self@.display =~= Seq::new(DISPLAY_SIZE as nat, |p: int| PIXEL_OFF));
            },
            Instruction::Return => {
                if self.stack_pointer == 0 {
                    return Err(Fault::StackUnderflow);
                }
                self.program_counter = self.stack[self.stack_pointer];
                self.stack_pointer = self.stack_pointer - 1;
            },
            Instruction::Jump(nnn) => {
                self.program_counter = nnn;
            },
            Instruction::Call(nnn) => {
                if self.stack_pointer + 1 >= STACK_SIZE {
                    return Err(Fault::StackOverflow);
                }
                self.stack_pointer = self.stack_pointer + 1;
                self.stack[self.stack_pointer] = self.program_counter;
                self.program_counter = nnn;
            },
            Instruction::SkipNextIfEqualByte(x, kk) => {
                let c = self.registers[x] == kk;
                self.skip_if(c);
            },
            Instruction::SkipNextIfNotEqualByte(x, kk) => {
                let c = self.registers[x] != kk;
                self.skip_if(c);
            },
            Instruction::SkipNextIfEqualRegister(x, y) => {
                let c = self.registers[x] == self.registers[y];
                self.skip_if(c);
            },
            Instruction::LoadByte(..)
            | Instruction::AddByte(..)
            | Instruction::LoadRegister(..)
            | Instruction::Or(..)
            | Instruction::And(..)
            | Instruction::Xor(..)
            | Instruction::AddRegister(..)
            | Instruction::Sub(..)
            | Instruction::ShiftRight(..)
            | Instruction::SubFrom(..)
            | Instruction::ShiftLeft(..)
            | Instruction::Random(..) => {
                return self.execute_register(instruction, random);
            },
            Instruction::SkipNextIfNotEqualRegister(x, y) => {
                let c = self.registers[x] != self.registers[y];
                self.skip_if(c);
            },
            Instruction::SetIndex(nnn) => {
                self.index = nnn;
            },
            Instruction::JumpOf(nnn) => {
                self.program_counter = nnn + self.registers[0] as u16;
            },
            Instruction::DisplaySprite(x, y, n) => {
                return self.display_sprite(x, y, n);
            },
            Instruction::SkipIfKeyPressed(x) => {
                let key = self.registers[x];
                if key as usize >= NUMBER_OF_KEYS {
                    return Err(Fault::InvalidKey(key));
                }
                let c = self.keypad[key as usize] == KEY_PRESSED;
                self.skip_if(c);
            },
            Instruction::SkipIfNotKeyPressed(x) => {
                let key = self.registers[x];
                if key as usize >= NUMBER_OF_KEYS {
                    return Err(Fault::InvalidKey(key));
                }
                let c = self.keypad[key as usize] == KEY_NOT_PRESSED;
                self.skip_if(c);
            },
            Instruction::LoadTimer(x) => {
                let v = self.delay_timer;
                self.set_register(x, v);
            },
            Instruction::WaitKeyPress(x) => {
                return self.wait_key_press(x);
            },
            Instruction::SetTimer(x) => {
                self.delay_timer = self.registers[x];
            },
            Instruction::SetSoundTimer(x) => {
                self.sound_timer = self.registers[x];
            },
            Instruction::AddIndex(x) => {
                self.index = ((self.index as u32 + self.registers[x] as u32) % 0x10000) as u16;
            },
            Instruction::LoadSpriteLocationIndex(x) => {
                let v = self.registers[x] as usize;
                self.index = (FONT_SET_ADDRESS_START + v * NUMBER_OF_BYTES_PER_CHARACTER) as u16;
            },
            Instruction::BinaryCodedDecimal(x) => {
                let base = self.index as usize;
                if base + 3 > MEMORY_SIZE {
                    return Err(Fault::MemoryOutOfRange);
                }
                let v = self.registers[x];
                self.memory[base] = v / 100;
                self.memory[base + 1] = (v / 10) % 10;
                self.memory[base + 2] = v % 10;
            },
            Instruction::StoreRegisters(x) => {
                return self.store_registers(x);
            },
            Instruction::ReadRegisters(x) => {
                return self.read_registers(x);
            },
        }
        Ok(())
    }

    /// The instructions that compute a register value.
    fn execute_register(&mut self, instruction: Instruction, random: u8) -> (r: Result<(), Fault>)
        requires
            old(self).wf(),
            instruction.wf(),
            instruction is LoadByte || instruction is AddByte || instruction is LoadRegister
                || instruction is Or || instruction is And || instruction is Xor
                || instruction is AddRegister || instruction is Sub || instruction is ShiftRight
                || instruction is SubFrom || instruction is ShiftLeft || instruction is Random,
        ensures
            final(self).wf(),
            outcome(old(self)@, execute_spec(old(self)@, instruction, random), r, final(self)@),
    {
        match instruction {
            Instruction::LoadByte(x, kk) => {
                self.set_register(x, kk);
            },
            Instruction::AddByte(x, kk) => {
                let v = ((self.registers[x] as u16 + kk as u16) % 256) as u8;
                self.set_register(x, v);
            },
            Instruction::LoadRegister(x, y) => {
                let v = self.registers[y];
                self.set_register(x, v);
            },
            Instruction::Or(x, y) => {
                let v = self.registers[x] | self.registers[y];
                self.set_register(x, v);
            },
            Instruction::And(x, y) => {
                let v = self.registers[x] & self.registers[y];
                self.set_register(x, v);
            },
            Instruction::Xor(x, y) => {
                let v = self.registers[x] ^ self.registers[y];
                self.set_register(x, v);
            },
            Instruction::AddRegister(x, y) => {
                let sum = self.registers[x] as u16 + self.registers[y] as u16;
                self.set_register(FLAG_REGISTER, if sum > 255 { 1 } else { 0 });
                self.set_register(x, (sum % 256) as u8);
            },
            Instruction::Sub(x, y) => {
                let a = self.registers[x];
                let b = self.registers[y];
                self.set_register(FLAG_REGISTER, if a > b { 1 } else { 0 });
                self.set_register(x, ((a as u16 + 256 - b as u16) % 256) as u8);
            },
            Instruction::ShiftRight(x, _y) => {
                let a = self.registers[x];
                self.set_register(FLAG_REGISTER, a % 2);
                self.set_register(x, a / 2);
            },
            Instruction::SubFrom(x, y) => {
                let a = self.registers[x];
                let b = self.registers[y];
                self.set_register(FLAG_REGISTER, if b > a { 1 } else { 0 });
                self.set_register(x, ((b as u16 + 256 - a as u16) % 256) as u8);
            },
            Instruction::ShiftLeft(x, _y) => {
                let a = self.registers[x];
                self.set_register(FLAG_REGISTER, if a >= 0x80 { 1 } else { 0 });
                self.set_register(x, ((a as u16 * 2) % 256) as u8);
            },
            Instruction::Random(x, kk) => {
                self.set_register(x, random & kk);
            },
            _ => {},
        }
        Ok(())
    }

    /// `Dxyn`.
    fn display_sprite(&mut self, x: usize, y: usize, n: u8) -> (r: Result<(), Fault>)
        requires
            old(self).wf(),
            x < NUMBER_OF_REGISTER,
            y < NUMBER_OF_REGISTER,
            n < 16,
        ensures
            final(self).wf(),
            outcome(old(self)@, execute_spec(old(self)@, Instruction::DisplaySprite(x, y, n), 0), r, final(self)@),
    {
        let start = self.index as usize;
        if start + n as usize > MEMORY_SIZE {
            return Err(Fault::MemoryOutOfRange);
        }
        let vx = self.registers[x];
        let vy = self.registers[y];
        let ghost before = self@.display;
        let collided = draw_sprite(&mut self.display, &self.memory, start, n as usize, vx, vy);
        assert forall|p: int| 0 <= p < self@.display.len() implies #[trigger] self@.display[p] == PIXEL_ON
            || self@.display[p] == PIXEL_OFF by {
            assert(before[p] == PIXEL_ON || before[p] == PIXEL_OFF);
        }
        self.set_register(FLAG_REGISTER, if collided { 1 } else { 0 });
        Ok(())
    }

    /// `Fx0A`.
    fn wait_key_press(&mut self, x: usize) -> (r: Result<(), Fault>)
        requires
            old(self).wf(),
            x < NUMBER_OF_REGISTER,
            2 <= old(self)@.program_counter,
        ensures
            final(self).wf(),
            outcome(old(self)@, execute_spec(old(self)@, Instruction::WaitKeyPress(x), 0), r, final(self)@),
    {
        let mut k: usize = 0;
        while k < NUMBER_OF_KEYS
            invariant
                k <= NUMBER_OF_KEYS,
                x < NUMBER_OF_REGISTER,
                old(self).wf(),
                self@ == old(self)@,
                forall|j: int| 0 <= j < k ==> self@.keypad[j] != KEY_PRESSED,
            decreases NUMBER_OF_KEYS - k,
        {
            if self.keypad[k] == KEY_PRESSED {
                proof {
                    let kp = self@.keypad;
                    assert(is_first_pressed(kp, k as int));
                    let c = choose|c: int| is_first_pressed(kp, c);
                    assert(c == k) by {
                        if c < k {
                            assert(kp[c] != KEY_PRESSED);
                        } else if c > k {
                            assert(kp[k as int] != KEY_PRESSED);
                        }
                    }
                }
                self.set_register(x, k as u8);
                return Ok(());
            }
            k += 1;
        }
        self.program_counter = self.program_counter - 2;
        Ok(())
    }

    /// `Fx55`.
    fn store_registers(&mut self, x: usize) -> (r: Result<(), Fault>)
        requires
            old(self).wf(),
            x < NUMBER_OF_REGISTER,
        ensures
            final(self).wf(),
            outcome(old(self)@, execute_spec(old(self)@, Instruction::StoreRegisters(x), 0), r, final(self)@),
    {
        let base = self.index as usize;
        if base + x + 1 > MEMORY_SIZE {
            return Err(Fault::MemoryOutOfRange);
        }
        let mut i: usize = 0;
        while i <= x
            invariant
                x < NUMBER_OF_REGISTER,
                base == old(self)@.index,
                base + x + 1 <= MEMORY_SIZE,
                i <= x + 1,
                self@ == (Chip8State { memory: self@.memory, ..old(self)@ }),
                self@.memory.len() == MEMORY_SIZE,
                forall|a: int|
                    0 <= a < MEMORY_SIZE ==> #[trigger] self@.memory[a] == if base <= a < base + i {
                        old(self)@.registers[a - base]
                    } else {
                        old(self)@.memory[a]
                    },
            decreases x + 1 - i,
        {
            self.memory[base + i] = self.registers[i];
            i += 1;
        }
        assert(self@.memory =~= stored(old(self)@.memory, old(self)@.registers, base as int, x as int));
        Ok(())
    }

    /// `Fx65`.
    fn read_registers(&mut self, x: usize) -> (r: Result<(), Fault>)
        requires
            old(self).wf(),
            x < NUMBER_OF_REGISTER,
        ensures
            final(self).wf(),
            outcome(old(self)@, execute_spec(old(self)@, Instruction::ReadRegisters(x), 0), r, final(self)@),
    {
        let base = self.index as usize;
        if base + x + 1 > MEMORY_SIZE {
            return Err(Fault::MemoryOutOfRange);
        }
        let mut i: usize = 0;
        while i <= x
            invariant
                x < NUMBER_OF_REGISTER,
                base == old(self)@.index,
                base + x + 1 <= MEMORY_SIZE,
                i <= x + 1,
                self@ == (Chip8State { registers: self@.registers, ..old(self)@ }),
                self@.registers.len() == NUMBER_OF_REGISTER,
                forall|r: int|
                    0 <= r < NUMBER_OF_REGISTER ==> #[trigger] self@.registers[r] == if r < i {
                        old(self)@.memory[base + r]
                    } else {
                        old(self)@.registers[r]
                    },
            decreases x + 1 - i,
        {
            self.registers[i] = self.memory[base + i];
            i += 1;
        }
        assert(self@.registers =~= loaded(old(self)@.registers, old(self)@.memory, base as int, x as int));
        Ok(())
    }

    /// Decodes an opcode into an instruction; `None` when no instruction has
    /// that encoding.
    pub fn decode(opcode: u16) -> (r: Option<Instruction>)
        ensures
            r == decode_spec(opcode),
            r matches Some(i) ==> i.wf(),
    {
        let nnn = Self::get_nnn(opcode);
        let n = Self::get_n(opcode);
        let x = Self::get_x(opcode);
        let y = Self::get_y(opcode);
        let kk = Self::get_kk(opcode);
        let family = opcode / 0x1000;
        if opcode == 0x00E0 {
            Some(Instruction::Clear)
        } else if opcode == 0x00EE {
            Some(Instruction::Return)
        } else if family == 0x1 {
            Some(Instruction::Jump(nnn))
        } else if family == 0x2 {
            Some(Instruction::Call(nnn))
        } else if family == 0x3 {
            Some(Instruction::SkipNextIfEqualByte(x, kk))
        } else if family == 0x4 {
            Some(Instruction::SkipNextIfNotEqualByte(x, kk))
        } else if family == 0x5 {
            if n == 0 {
                Some(Instruction::SkipNextIfEqualRegister(x, y))
            } else {
                None
            }
        } else if family == 0x6 {
            Some(Instruction::LoadByte(x, kk))
        } else if family == 0x7 {
            Some(Instruction::AddByte(x, kk))
        } else if family == 0x8 {
            if n == 0x0 {
                Some(Instruction::LoadRegister(x, y))
            } else if n == 0x1 {
                Some(Instruction::Or(x, y))
            } else if n == 0x2 {
                Some(Instruction::And(x, y))
            } else if n == 0x3 {
                Some(Instruction::Xor(x, y))
            } else if n == 0x4 {
                Some(Instruction::AddRegister(x, y))
            } else if n == 0x5 {
                Some(Instruction::Sub(x, y))
            } else if n == 0x6 {
                Some(Instruction::ShiftRight(x, y))
            } else if n == 0x7 {
                Some(Instruction::SubFrom(x, y))
            } else if n == 0xE {
                Some(Instruction::ShiftLeft(x, y))
            } else {
                None
            }
        } else if family == 0x9 {
            if n == 0 {
                Some(Instruction::SkipNextIfNotEqualRegister(x, y))
            } else {
                None
            }
        } else if family == 0xA {
            Some(Instruction::SetIndex(nnn))
        } else if family == 0xB {
            Some(Instruction::JumpOf(nnn))
        } else if family == 0xC {
            Some(Instruction::Random(x, kk))
        } else if family == 0xD {
            Some(Instruction::DisplaySprite(x, y, n))
        } else if family == 0xE {
            if kk == 0x9E {
                Some(Instruction::SkipIfKeyPressed(x))
            } else if kk == 0xA1 {
                Some(Instruction::SkipIfNotKeyPressed(x))
            } else {
                None
            }
        } else if family == 0xF {
            if kk == 0x07 {
                Some(Instruction::LoadTimer(x))
            } else if kk == 0x0A {
                Some(Instruction::WaitKeyPress(x))
            } else if kk == 0x15 {
                Some(Instruction::SetTimer(x))
            } else if kk == 0x18 {
                Some(Instruction::SetSoundTimer(x))
            } else if kk == 0x1E {
                Some(Instruction::AddIndex(x))
            } else if kk == 0x29 {
                Some(Instruction::LoadSpriteLocationIndex(x))
            } else if kk == 0x33 {
                Some(Instruction::BinaryCodedDecimal(x))
            } else if kk == 0x55 {
                Some(Instruction::StoreRegisters(x))
            } else if kk == 0x65 {
                Some(Instruction::ReadRegisters(x))
            } else {
                None
            }
        } else {
            None
        }
    }

    fn get_nnn(opcode: u16) -> (r: u16)
        ensures
            r == nnn_of(opcode),
    {
        opcode % 0x1000
    }

    fn get_n(opcode: u16) -> (r: u8)
        ensures
            r == n_of(opcode),
            r < 16,
    {
        (opcode % 0x10) as u8
    }

    fn get_x(opcode: u16) -> (r: usize)
        ensures
            r == x_of(opcode),
            r < 16,
    {
        ((opcode / 0x100) % 0x10) as usize
    }

    fn get_y(opcode: u16) -> (r: usize)
        ensures
            r == y_of(opcode),
            r < 16,
    {
        ((opcode / 0x10) % 0x10) as usize
    }

    fn get_kk(opcode: u16) -> (r: u8)
        ensures
            r == kk_of(opcode),
    {
        (opcode % 0x100) as u8
    }
}

/// Only `Cxkk` reads the random byte.
proof fn lemma_step_ignores_random(s: Chip8State, v: u8)
    requires
        !draws_random(s),
    ensures
        step_spec(s, v) == step_spec(s, 0),
{
}

} // verus!
