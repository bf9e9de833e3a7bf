use crate::instruction::{decode, opcode_word, ProcessorInstruction};
use vstd::prelude::*;

verus! {

/// Memory size of the machine, in bytes.
pub const MEMORY_SIZE: usize = 4096;

/// Number of general purpose registers.
pub const NUMBER_OF_REGISTERS: usize = 16;

/// Address at which the font sprite table is loaded.
pub const FONT_BASE: usize = 0xF0;

/// Address at which ROMs are loaded and execution starts.
pub const ROM_BASE: usize = 0x200;

/// A fatal interpreter error. CHIP-8 programs are trusted, so every failure
/// either aborts the run or, for an unknown opcode, is ignored by the caller.
#[derive(Debug, Clone, Copy, PartialEq, Eq, Structural)]
pub enum Chip8Error {
    /// The program counter points past the end of memory, or an instruction
    /// would move it outside the 16-bit address space.
    ProgramCounterOutOfRange,
    /// Return was executed with an empty call stack.
    StackUnderflow,
    /// An instruction addresses memory past the end through the index
    /// register.
    MemoryOutOfRange,
    /// A ROM image is larger than the memory that lies above the load
    /// address.
    RomTooLarge,
}

/// The mathematical state of the CHIP-8 machine: the model that every
/// contract of [`crate::emulator::Emulator`] speaks about.
#[verifier::ext_equal]
pub ghost struct Chip8View {
    /// All 4096 bytes of memory.
    pub memory: Seq<u8>,
    /// The sixteen general purpose registers V0..VF.
    pub registers: Seq<u8>,
    /// The index register.
    pub index_register: u16,
    /// The program counter.
    pub program_counter: u16,
    /// The delay timer.
    pub delay_timer: u8,
    /// The sound timer.
    pub sound_timer: u8,
    /// The return address stack, oldest entry first.
    pub stack: Seq<u16>,
    /// The 64x32 framebuffer, row-major.
    pub display_data: Seq<bool>,
    /// The key recorded as pressed, if any.
    pub last_key_pressed: Option<u8>,
}

impl Chip8View {
    /// The fixed sizes of the machine's storage.
    pub open spec fn wf(self) -> bool {
        &&& self.memory.len() == 4096
        &&& self.registers.len() == 16
        &&& self.display_data.len() == 2048
    }
}

/// The 16-glyph font sprite table, five bytes per glyph.
pub open spec fn font_sprites_spec() -> Seq<u8> {
    seq![
        0xF0u8, 0x90, 0x90, 0x90, 0xF0, // 0
        0x20, 0x60, 0x20, 0x20, 0x70, // 1
        0xF0, 0x10, 0xF0, 0x80, 0xF0, // 2
        0xF0, 0x10, 0xF0, 0x10, 0xF0, // 3
        0x90, 0x90, 0xF0, 0x10, 0x10, // 4
        0xF0, 0x80, 0xF0, 0x10, 0xF0, // 5
        0xF0, 0x80, 0xF0, 0x90, 0xF0, // 6
        0xF0, 0x10, 0x20, 0x40, 0x40, // 7
        0xF0, 0x90, 0xF0, 0x90, 0xF0, // 8
        0xF0, 0x90, 0xF0, 0x10, 0xF0, // 9
        0xF0, 0x90, 0xF0, 0x90, 0x90, // A
        0xE0, 0x90, 0xE0, 0x90, 0xE0, // B
        0xF0, 0x80, 0x80, 0x80, 0xF0, // C
        0xE0, 0x90, 0x90, 0x90, 0xE0, // D
        0xF0, 0x80, 0xF0, 0x80, 0xF0, // E
        0xF0, 0x80, 0xF0, 0x80, 0x80, // F
    ]
}

/// The machine state right after construction: zeroed registers and
/// framebuffer, and the font table at its base address.
pub open spec fn initial_view() -> Chip8View {
    Chip8View {
        memory: Seq::new(4096, |i: int|
            if FONT_BASE <= i < FONT_BASE + 80 {
                font_sprites_spec()[i - FONT_BASE]
            } else {
                0u8
            }),
        registers: Seq::new(16, |i: int| 0u8),
        index_register: 0,
        program_counter: 0,
        delay_timer: 0,
        sound_timer: 0,
        stack: Seq::empty(),
        display_data: Seq::new(2048, |i: int| false),
        last_key_pressed: None,
    }
}

/// Memory after a ROM image is copied in at the load address; everything
/// below and above the image is untouched.
pub open spec fn memory_with_rom(memory: Seq<u8>, rom: Seq<u8>) -> Seq<u8> {
    Seq::new(memory.len(), |i: int|
        if ROM_BASE <= i < ROM_BASE + rom.len() {
            rom[i - ROM_BASE]
        } else {
            memory[i]
        })
}

/// 8-bit wrapping addition.
pub open spec fn wrap_add8(a: u8, b: u8) -> u8 {
    ((a + b) % 256) as u8
}

/// 8-bit wrapping subtraction.
pub open spec fn wrap_sub8(a: u8, b: u8) -> u8 {
    if a >= b {
        (a - b) as u8
    } else {
        (a - b + 256) as u8
    }
}

/// One 60 Hz tick of a timer register: decremented while nonzero, and held
/// at zero once it reaches zero.
pub open spec fn tick_timer(t: u8) -> u8 {
    if t > 0 {
        (t - 1) as u8
    } else {
        t
    }
}

/// Both timers after one 60 Hz tick.
pub open spec fn tick_timers(s: Chip8View) -> Chip8View {
    Chip8View {
        delay_timer: tick_timer(s.delay_timer),
        sound_timer: tick_timer(s.sound_timer),
        ..s
    }
}

/// A timer ticked `n` times, never falling below zero.
pub open spec fn tick_timer_n(t: u8, n: nat) -> u8
    decreases n,
{
    if n == 0 {
        t
    } else {
        tick_timer(tick_timer_n(t, (n - 1) as nat))
    }
}

/// Timer decrement floor: however often a timer is ticked, it stops at zero
/// and never underflows.
pub proof fn lemma_timer_floor(t: u8, n: nat)
    ensures
        tick_timer_n(t, n) == if n >= t { 0u8 } else { (t - n) as u8 },
    decreases n,
{
    if n > 0 {
        lemma_timer_floor(t, (n - 1) as nat);
    }
}

/// The program counter moved forward by two, which fails when it would leave
/// the 16-bit address space.
pub open spec fn advance_pc(s: Chip8View) -> Result<Chip8View, Chip8Error> {
    if s.program_counter + 2 > 0xFFFF {
        Err(Chip8Error::ProgramCounterOutOfRange)
    } else {
        Ok(Chip8View { program_counter: (s.program_counter + 2) as u16, ..s })
    }
}

/// Whether the sprite byte has its bit for column `col` set; bit 7 maps to
/// the leftmost column.
pub open spec fn sprite_bit(byte: u8, col: u8) -> bool {
    byte & (0x80u8 >> col) != 0
}

/// The framebuffer cell index of wrapped coordinates: the sprite pixel at
/// column `col` of a row drawn at (`x0`, `y`).
pub open spec fn cell_index(x0: u8, col: int, y: int) -> int {
    (x0 + col) % 64 + 64 * y
}

/// The framebuffer and collision flag after the first `ncols` columns of one
/// sprite row byte are XOR-drawn at row `y` (already wrapped), starting at
/// horizontal position `x0`.
pub open spec fn draw_cols(fb: Seq<bool>, byte: u8, x0: u8, y: int, ncols: int) -> (Seq<bool>,
    bool)
    decreases ncols,
{
    if ncols <= 0 {
        (fb, false)
    } else {
        let prev = draw_cols(fb, byte, x0, y, ncols - 1);
        let col = ncols - 1;
        if sprite_bit(byte, col as u8) {
            let idx = cell_index(x0, col, y);
            (prev.0.update(idx, !prev.0[idx]), prev.1 || prev.0[idx])
        } else {
            prev
        }
    }
}

/// The framebuffer and collision flag after the first `nrows` rows of a
/// sprite at memory address `index` are XOR-drawn at (`x0`, `y0`), with both
/// coordinates wrapping.
pub open spec fn draw_rows(
    fb: Seq<bool>,
    memory: Seq<u8>,
    index: u16,
    x0: u8,
    y0: u8,
    nrows: int,
) -> (Seq<bool>, bool)
    decreases nrows,
{
    if nrows <= 0 {
        (fb, false)
    } else {
        let prev = draw_rows(fb, memory, index, x0, y0, nrows - 1);
        let row = nrows - 1;
        let byte = memory[index + row];
        let y = (y0 + row) % 32;
        let cols = draw_cols(prev.0, byte, x0, y, 8);
        (cols.0, prev.1 || cols.1)
    }
}

/// Drawing one row of columns touches only cells of that row and keeps the
/// framebuffer size.
pub proof fn lemma_draw_cols_len(fb: Seq<bool>, byte: u8, x0: u8, y: int, ncols: int)
    requires
        fb.len() == 2048,
        0 <= y < 32,
    ensures
        draw_cols(fb, byte, x0, y, ncols).0.len() == 2048,
    decreases ncols,
{
    if ncols > 0 {
        lemma_draw_cols_len(fb, byte, x0, y, ncols - 1);
    }
}

/// Drawing any number of sprite rows keeps the framebuffer size.
pub proof fn lemma_draw_rows_len(
    fb: Seq<bool>,
    memory: Seq<u8>,
    index: u16,
    x0: u8,
    y0: u8,
    nrows: int,
)
    requires
        fb.len() == 2048,
    ensures
        draw_rows(fb, memory, index, x0, y0, nrows).0.len() == 2048,
    decreases nrows,
{
    if nrows > 0 {
        lemma_draw_rows_len(fb, memory, index, x0, y0, nrows - 1);
        lemma_draw_cols_len(
            draw_rows(fb, memory, index, x0, y0, nrows - 1).0,
            memory[index + nrows - 1],
            x0,
            ((y0 + nrows - 1) % 32),
            8,
        );
    }
}

/// The transition relation of the execute stage: the state after one decoded
/// instruction is executed in state `s`. The program counter has already
/// been advanced past the instruction by the fetch stage. `rand_byte` stands
/// for the byte drawn by the host's random number source; every instruction
/// except the random-number one ignores it.
#[verifier::opaque]
pub open spec fn step(s: Chip8View, pi: ProcessorInstruction, rand_byte: u8) -> Result<
    Chip8View,
    Chip8Error,
> {
    match pi {
        ProcessorInstruction::ClearScreen => Ok(
            Chip8View { display_data: Seq::new(2048, |i: int| false), ..s },
        ),
        ProcessorInstruction::Jump { address } => Ok(
            Chip8View { program_counter: address, ..s },
        ),
        ProcessorInstruction::SetRegister { register, data } => Ok(
            Chip8View { registers: s.registers.update(register as int, data), ..s },
        ),
        ProcessorInstruction::AddValueToRegister { register, value } => Ok(
            Chip8View {
                registers: s.registers.update(
                    register as int,
                    wrap_add8(s.registers[register as int], value),
                ),
                ..s
            },
        ),
        ProcessorInstruction::SetIndexRegister { data } => Ok(
            Chip8View { index_register: data, ..s },
        ),
        ProcessorInstruction::Draw { vx, vy, rows } => {
            if s.index_register + rows > 4096 {
                Err(Chip8Error::MemoryOutOfRange)
            } else {
                let drawn = draw_rows(
                    s.display_data,
                    s.memory,
                    s.index_register,
                    s.registers[vx as int],
                    s.registers[vy as int],
                    rows as int,
                );
                Ok(
                    Chip8View {
                        display_data: drawn.0,
                        registers: s.registers.update(0xF, if drawn.1 { 1u8 } else { 0u8 }),
                        ..s
                    },
                )
            }
        },
        ProcessorInstruction::Return => {
            if s.stack.len() == 0 {
                Err(Chip8Error::StackUnderflow)
            } else {
                Ok(
                    Chip8View {
                        program_counter: s.stack.last(),
                        stack: s.stack.drop_last(),
                        ..s
                    },
                )
            }
        },
        ProcessorInstruction::Call { address } => Ok(
            Chip8View {
                stack: s.stack.push(s.program_counter),
                program_counter: address,
                ..s
            },
        ),
        ProcessorInstruction::SetVXToVY { vx, vy } => Ok(
            Chip8View {
                registers: s.registers.update(vx as int, s.registers[vy as int]),
                ..s
            },
        ),
        ProcessorInstruction::BinaryOr { vx, vy } => Ok(
            Chip8View {
                registers: s.registers.update(
                    vx as int,
                    s.registers[vx as int] | s.registers[vy as int],
                ),
                ..s
            },
        ),
        ProcessorInstruction::BinaryAnd { vx, vy } => Ok(
            Chip8View {
                registers: s.registers.update(
                    vx as int,
                    s.registers[vx as int] & s.registers[vy as int],
                ),
                ..s
            },
        ),
        ProcessorInstruction::BinaryXor { vx, vy } => Ok(
            Chip8View {
                registers: s.registers.update(
                    vx as int,
                    s.registers[vx as int] ^ s.registers[vy as int],
                ),
                ..s
            },
        ),
        ProcessorInstruction::Add { vx, vy } => {
            let sum = s.registers[vx as int] + s.registers[vy as int];
            let regs = s.registers.update(vx as int, (sum % 256) as u8);
            Ok(
                Chip8View {
                    registers: regs.update(0xF, if sum > 255 { 1u8 } else { 0u8 }),
                    ..s
                },
            )
        },
        ProcessorInstruction::SubtractVX { vx, vy } => {
            // The borrow flag is written before the subtraction reads its
            // operands, so a subtraction that names VF sees the flag value.
            let flag: u8 = if s.registers[vx as int] > s.registers[vy as int] {
                1
            } else {
                0
            };
            let regs = s.registers.update(0xF, flag);
            Ok(
                Chip8View {
                    registers: regs.update(
                        vx as int,
                        wrap_sub8(regs[vx as int], regs[vy as int]),
                    ),
                    ..s
                },
            )
        },
        ProcessorInstruction::SubtractVY { vx, vy } => {
            let flag: u8 = if s.registers[vy as int] > s.registers[vx as int] {
                1
            } else {
                0
            };
            let regs = s.registers.update(0xF, flag);
            Ok(
                Chip8View {
                    registers: regs.update(
                        vx as int,
                        wrap_sub8(regs[vy as int], regs[vx as int]),
                    ),
                    ..s
                },
            )
        },
        ProcessorInstruction::ShiftLeft { vx, vy } => {
            let flag: u8 = (s.registers[vx as int] >> 7) & 1;
            let regs = s.registers.update(0xF, flag);
            Ok(
                Chip8View { registers: regs.update(vx as int, regs[vx as int] << 1), ..s },
            )
        },
        ProcessorInstruction::ShiftRight { vx, vy } => {
            let flag: u8 = s.registers[vx as int] & 0x1;
            let regs = s.registers.update(0xF, flag);
            Ok(
                Chip8View { registers: regs.update(vx as int, regs[vx as int] >> 1), ..s },
            )
        },
        ProcessorInstruction::JumpWithOffset { address } => Ok(
            Chip8View { program_counter: (address + s.registers[0]) as u16, ..s },
        ),
        ProcessorInstruction::GenerateRandomNumber { vx, mask } => Ok(
            Chip8View { registers: s.registers.update(vx as int, rand_byte & mask), ..s },
        ),
        ProcessorInstruction::SkipEqualVXData { vx, data } => {
            if s.registers[vx as int] == data {
                advance_pc(s)
            } else {
                Ok(s)
            }
        },
        ProcessorInstruction::SkipNotEqualVXData { vx, data } => {
            if s.registers[vx as int] != data {
                advance_pc(s)
            } else {
                Ok(s)
            }
        },
        ProcessorInstruction::SkipEqualVXVY { vx, vy } => {
            if s.registers[vx as int] == s.registers[vy as int] {
                advance_pc(s)
            } else {
                Ok(s)
            }
        },
        ProcessorInstruction::SkipNotEqualVXVY { vx, vy } => {
            if s.registers[vx as int] != s.registers[vy as int] {
                advance_pc(s)
            } else {
                Ok(s)
            }
        },
        ProcessorInstruction::SetVXToDelayTimer { vx } => Ok(
            Chip8View { registers: s.registers.update(vx as int, s.delay_timer), ..s },
        ),
        ProcessorInstruction::SetDelayTimer { vx } => Ok(
            Chip8View { delay_timer: s.registers[vx as int], ..s },
        ),
        ProcessorInstruction::SetSoundTimer { vx } => Ok(
            Chip8View { sound_timer: s.registers[vx as int], ..s },
        ),
        ProcessorInstruction::AddToIndex { vx } => {
            let sum = s.index_register + s.registers[vx as int];
            Ok(
                Chip8View {
                    index_register: (sum % 0x10000) as u16,
                    registers: s.registers.update(0xF, if sum > 0xFFFF { 1u8 } else { 0u8 }),
                    ..s
                },
            )
        },
        ProcessorInstruction::FontCharacter { vx } => Ok(
            Chip8View {
                index_register: (0xF0 + (s.registers[vx as int] & 0xF) * 5) as u16,
                ..s
            },
        ),
        ProcessorInstruction::BinaryCodedDecimalConversion { vx } => {
            if s.index_register + 2 >= 4096 {
                Err(Chip8Error::MemoryOutOfRange)
            } else {
                let number = s.registers[vx as int];
                Ok(
                    Chip8View {
                        memory: s.memory.update(s.index_register as int, number / 100).update(
                            s.index_register + 1,
                            (number / 10) % 10,
                        ).update(s.index_register + 2, (number % 100) % 10),
                        ..s
                    },
                )
            }
        },
        ProcessorInstruction::LoadMemory { vx } => {
            if s.index_register + vx >= 4096 {
                Err(Chip8Error::MemoryOutOfRange)
            } else {
                Ok(
                    Chip8View {
                        registers: Seq::new(16, |j: int|
                            if j <= vx {
                                s.memory[s.index_register + j]
                            } else {
                                s.registers[j]
                            }),
                        ..s
                    },
                )
            }
        },
        ProcessorInstruction::StoreMemory { vx } => {
            if s.index_register + vx >= 4096 {
                Err(Chip8Error::MemoryOutOfRange)
            } else {
                Ok(
                    Chip8View {
                        memory: Seq::new(4096, |a: int|
                            if s.index_register <= a <= s.index_register + vx {
                                s.registers[a - s.index_register]
                            } else {
                                s.memory[a]
                            }),
                        ..s
                    },
                )
            }
        },
        ProcessorInstruction::GetKeyBlocking { vx } => {
            match s.last_key_pressed {
                Some(key) => Ok(
                    Chip8View { registers: s.registers.update(vx as int, key), ..s },
                ),
                None => {
                    if s.program_counter < 2 {
                        Err(Chip8Error::ProgramCounterOutOfRange)
                    } else {
                        Ok(
                            Chip8View {
                                program_counter: (s.program_counter - 2) as u16,
                                ..s
                            },
                        )
                    }
                },
            }
        },
        ProcessorInstruction::SkipIfKeyIsPressed { vx } => {
            match s.last_key_pressed {
                Some(key) => {
                    if s.registers[vx as int] == key {
                        advance_pc(s)
                    } else {
                        Ok(s)
                    }
                },
                None => Ok(s),
            }
        },
        ProcessorInstruction::SkipIfKeyIsNotPressed { vx } => {
            match s.last_key_pressed {
                Some(key) => {
                    if s.registers[vx as int] != key {
                        advance_pc(s)
                    } else {
                        Ok(s)
                    }
                },
                None => advance_pc(s),
            }
        },
        ProcessorInstruction::UnknownInstruction => Ok(s),
    }
}

/// One fetch-decode-execute cycle: the two bytes at the program counter are
/// read big-endian, the program counter moves past them, and the decoded
/// instruction is executed. On failure the returned state is the one the
/// machine is left in: untouched for a fetch failure, advanced past the
/// instruction for an execute failure.
pub open spec fn machine_step(s: Chip8View, rand_byte: u8) -> Result<
    Chip8View,
    (Chip8View, Chip8Error),
> {
    if s.program_counter + 1 >= 4096 {
        Err((s, Chip8Error::ProgramCounterOutOfRange))
    } else {
        let word = opcode_word(
            s.memory[s.program_counter as int],
            s.memory[s.program_counter + 1],
        );
        let fetched = Chip8View { program_counter: (s.program_counter + 2) as u16, ..s };
        match step(fetched, decode(word), rand_byte) {
            Ok(next) => Ok(next),
            Err(e) => Err((fetched, e)),
        }
    }
}

/// A batch of fetch-decode-execute cycles, one per entry of `rand_bytes`,
/// stopping at the first failure. Returns the final state and the error, if
/// one occurred.
pub open spec fn run_steps(s: Chip8View, rand_bytes: Seq<u8>) -> (Chip8View, Option<Chip8Error>)
    decreases rand_bytes.len(),
{
    if rand_bytes.len() == 0 {
        (s, None)
    } else {
        match machine_step(s, rand_bytes[0]) {
            Ok(next) => run_steps(next, rand_bytes.drop_first()),
            Err(stopped) => (stopped.0, Some(stopped.1)),
        }
    }
}

/// Skip semantics: executing a skip-if-equal-to-immediate instruction moves
/// the program counter forward by an extra two exactly when the register
/// equals the immediate, and changes nothing else.
pub proof fn lemma_skip_equal_pc_delta(s: Chip8View, vx: u8, data: u8)
    requires
        s.wf(),
        vx <= 0xF,
        s.program_counter + 2 <= 0xFFFF,
    ensures
        (step(s, ProcessorInstruction::SkipEqualVXData { vx, data }, 0) matches Ok(next)
            && next.program_counter == s.program_counter + (
        if s.registers[vx as int] == data {
            2int
        } else {
            0int
        }) && next == (Chip8View { program_counter: next.program_counter, ..s })),
{
    reveal(step);
}

/// Blocking key read semantics: with no key recorded the instruction undoes
/// the fetch stage's increment, so one whole fetch-execute cycle leaves the
/// program counter unchanged; with a key recorded the target register
/// receives it and the cycle advances the program counter by two.
pub proof fn lemma_get_key_blocking(s: Chip8View, rand_byte: u8, vx: u8)
    requires
        s.wf(),
        vx <= 0xF,
        s.program_counter + 1 < 4096,
        decode(
            opcode_word(s.memory[s.program_counter as int], s.memory[s.program_counter + 1]),
        ) == (ProcessorInstruction::GetKeyBlocking { vx }),
    ensures
        (machine_step(s, rand_byte) matches Ok(next) && match s.last_key_pressed {
            None => next == s,
            Some(key) => next == (Chip8View {
                program_counter: (s.program_counter + 2) as u16,
                registers: s.registers.update(vx as int, key),
                ..s
            }),
        }),
{
    reveal(step);
    let fetched = Chip8View { program_counter: (s.program_counter + 2) as u16, ..s };
    if s.last_key_pressed is None {
        let stepped = step(fetched, ProcessorInstruction::GetKeyBlocking { vx }, rand_byte);
        assert(stepped matches Ok(next) && next =~= s);
    }
}


/// Font invariant at construction: the freshly constructed machine holds the
/// font table at its base address.
pub proof fn lemma_font_loaded_at_construction()
    ensures
        forall|k: int|
            0 <= k < 80 ==> #[trigger] initial_view().memory[FONT_BASE + k]
                == font_sprites_spec()[k],
{
}

/// Font invariant: loading a ROM never touches the font region, so the font
/// table written at construction is still in place afterwards.
pub proof fn lemma_rom_load_preserves_font(memory: Seq<u8>, rom: Seq<u8>)
    requires
        memory.len() == 4096,
        rom.len() <= 4096 - ROM_BASE,
    ensures
        forall|k: int|
            0 <= k < 80 ==> #[trigger] memory_with_rom(memory, rom)[FONT_BASE + k] == memory[
                FONT_BASE + k
            ],
{
}


/// How one execute call relates pre- and post-state: the executed
/// instruction either takes the machine to the state the transition relation
/// gives, or fails and leaves the state untouched.
pub open spec fn step_outcome_matches(
    pre: Chip8View,
    post: Chip8View,
    r: Result<(), Chip8Error>,
    pi: ProcessorInstruction,
    rand_byte: u8,
) -> bool {
    match step(pre, pi, rand_byte) {
        Ok(next) => r is Ok && post == next,
        Err(e) => r == Err::<(), Chip8Error>(e) && post == pre,
    }
}

/// How one fetch-decode-execute cycle relates pre- and post-state.
pub open spec fn cycle_outcome_matches(
    pre: Chip8View,
    post: Chip8View,
    r: Result<(), Chip8Error>,
    rand_byte: u8,
) -> bool {
    match machine_step(pre, rand_byte) {
        Ok(next) => r is Ok && post == next,
        Err(stopped) => r == Err::<(), Chip8Error>(stopped.1) && post == stopped.0,
    }
}

/// Running a batch that completes without an error and then a further batch
/// is the same as running the two batches as one.
pub proof fn lemma_run_steps_append(s: Chip8View, first: Seq<u8>, second: Seq<u8>)
    requires
        run_steps(s, first).1 is None,
    ensures
        run_steps(s, first + second) == run_steps(run_steps(s, first).0, second),
    decreases first.len(),
{
    if first.len() == 0 {
        assert(first + second =~= second);
    } else {
        match machine_step(s, first[0]) {
            Ok(next) => {
                assert((first + second).drop_first() =~= first.drop_first() + second);
                lemma_run_steps_append(next, first.drop_first(), second);
            },
            Err(stopped) => {},
        }
    }
}


/// A batch that has completed without error, extended by one more
/// successful cycle.
pub proof fn lemma_run_steps_extend_ok(
    start: Chip8View,
    consumed: Seq<u8>,
    pre: Chip8View,
    post: Chip8View,
    r: Result<(), Chip8Error>,
    b: u8,
)
    requires
        run_steps(start, consumed) == (pre, None::<Chip8Error>),
        cycle_outcome_matches(pre, post, r, b),
        r is Ok,
    ensures
        run_steps(start, consumed.push(b)) == (post, None::<Chip8Error>),
{
    lemma_run_steps_append(start, consumed, seq![b]);
    assert(consumed.push(b) =~= consumed + seq![b]);
    assert(seq![b].len() == 1 && seq![b][0] == b);
    assert(seq![b].drop_first() =~= Seq::<u8>::empty());
    assert(run_steps(post, Seq::<u8>::empty()) == (post, None::<Chip8Error>));
    assert(run_steps(pre, seq![b]) == (post, None::<Chip8Error>));
}

/// A failing batch padded to its full length: the consumed prefix, the
/// failing cycle's byte, and zeroes for the cycles never reached.
pub open spec fn padded_batch(consumed: Seq<u8>, b: u8, pad: nat) -> Seq<u8> {
    consumed + seq![b] + Seq::new(pad, |j: int| 0u8)
}

/// A batch that has completed without error, extended by one failing cycle
/// and padded with zero entries: the run stops at the failure.
pub proof fn lemma_run_steps_extend_err(
    start: Chip8View,
    consumed: Seq<u8>,
    pre: Chip8View,
    post: Chip8View,
    e: Chip8Error,
    b: u8,
    pad: nat,
)
    requires
        run_steps(start, consumed) == (pre, None::<Chip8Error>),
        cycle_outcome_matches(pre, post, Err::<(), Chip8Error>(e), b),
    ensures
        padded_batch(consumed, b, pad).len() == consumed.len() + 1 + pad,
        run_steps(start, padded_batch(consumed, b, pad)) == (post, Some(e)),
        forall|i: int|
            0 <= i < consumed.len() + 1 + pad ==> #[trigger] padded_batch(consumed, b, pad)[i]
                == (if i < consumed.len() {
                consumed[i]
            } else if i == consumed.len() {
                b
            } else {
                0u8
            }),
{
    let rest = Seq::new(pad, |j: int| 0u8);
    let tail = seq![b] + rest;
    assert(padded_batch(consumed, b, pad) =~= consumed + tail);
    lemma_run_steps_append(start, consumed, tail);
    assert(tail[0] == b);
    assert(run_steps(pre, tail) == (post, Some(e)));
}

} // verus!
