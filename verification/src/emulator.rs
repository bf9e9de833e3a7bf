use crate::instruction::{
    lemma_decode_operands_bounded, opcode_word, Instruction, ProcessorInstruction,
};
use crate::semantics::{
    cycle_outcome_matches, draw_cols, draw_rows, font_sprites_spec, initial_view, lemma_draw_cols_len,
    lemma_draw_rows_len, lemma_run_steps_extend_err, lemma_run_steps_extend_ok, memory_with_rom,
    run_steps, step_outcome_matches, tick_timers, Chip8Error, Chip8View, FONT_BASE, MEMORY_SIZE,
    NUMBER_OF_REGISTERS, ROM_BASE,
};
use crate::stack::Stack;
use crate::timing::{duration_as_millis, duration_since, instant_now};
use rand::Rng;
use vstd::prelude::*;

verus! {

/// Emulator emulates the Chip8 CPU.
pub struct Emulator {
    /// Memory represents the emulator's memory.
    memory: Vec<u8>,
    /// Registers holds the general purpose registers.
    registers: Vec<u8>,
    /// The index register stores memory addresses.
    index_register: u16,
    /// The program counter register tracks the currently executing instruction.
    program_counter: u16,
    /// The delay timer register. It is decremented at a rate of 60 Hz until it reaches 0.
    delay_timer: u8,
    /// The sound timer register. It is decremented at a rate of 60 Hz until it reaches 0.
    /// A beeping sound plays while its value is different from 0.
    sound_timer: u8,
    /// The stack of the emulator.
    stack: Stack<u16>,
    /// Holds the display data, each entry corresponds to a pixel.
    display_data: Vec<bool>,
    /// Tracks the last key pressed by the user.
    last_key_pressed: Option<u8>,
    /// The target FPS of the emulator, default 60.
    target_fps: u128,
    /// The instant of the last timer tick.
    last_tick_time: Option<std::time::Instant>,
}

impl View for Emulator {
    type V = Chip8View;

    closed spec fn view(&self) -> Chip8View {
        Chip8View {
            memory: self.memory@,
            registers: self.registers@,
            index_register: self.index_register,
            program_counter: self.program_counter,
            delay_timer: self.delay_timer,
            sound_timer: self.sound_timer,
            stack: self.stack@,
            display_data: self.display_data@,
            last_key_pressed: self.last_key_pressed,
        }
    }
}

/// Relies on rand::thread_rng and rand::Rng::gen_range: a byte drawn from
/// the half-open range below 0xFF. The value depends on the generator's
/// state, so only its range is assumed.
#[verifier::external_body]
fn random_byte() -> (r: u8)
    ensures
        r < 0xFF,
{
    rand::thread_rng().gen_range(0x00u8..0xFFu8)
}

/// A framebuffer with every pixel cleared.
fn blank_display() -> (r: Vec<bool>)
    ensures
        r@ == Seq::new(2048, |i: int| false),
{
    let mut display_data: Vec<bool> = Vec::new();
    while display_data.len() < 2048
        invariant
            display_data@ =~= Seq::new(display_data.len() as nat, |i: int| false),
            display_data.len() <= 2048,
        decreases 2048 - display_data.len(),
    {
        display_data.push(false);
    }
    proof {
        assert(display_data@ =~= Seq::new(2048, |i: int| false));
    }
    display_data
}

/// XOR-draws a sprite of `rows` scanlines stored at memory address `index`
/// onto the framebuffer at (`x0`, `y0`), wrapping both coordinates, and
/// reports whether any lit pixel was cleared.
#[verifier::loop_isolation(false)]
fn draw_sprite(
    display_data: &mut Vec<bool>,
    memory: &Vec<u8>,
    index: u16,
    x0: u8,
    y0: u8,
    rows: u8,
) -> (collision: bool)
    requires
        old(display_data)@.len() == 2048,
        memory@.len() == 4096,
        index + rows <= 4096,
    ensures
        final(display_data)@ == draw_rows(
            old(display_data)@,
            memory@,
            index,
            x0,
            y0,
            rows as int,
        ).0,
        collision == draw_rows(old(display_data)@, memory@, index, x0, y0, rows as int).1,
{
    let ghost fb0 = display_data@;
    let mut flipped = false;
    let mut y_line: u8 = 0;
    while y_line < rows
        invariant
            y_line <= rows,
            display_data@ == draw_rows(fb0, memory@, index, x0, y0, y_line as int).0,
            flipped == draw_rows(fb0, memory@, index, x0, y0, y_line as int).1,
        decreases rows - y_line,
    {
        proof {
            lemma_draw_rows_len(fb0, memory@, index, x0, y0, y_line as int);
        }
        let addr = index + y_line as u16;
        let pixels = memory[addr as usize];
        let y = ((y0 as usize) + (y_line as usize)) % 32;
        let ghost row_fb = display_data@;
        let ghost row_flipped = flipped;
        let mut x_line: u8 = 0;
        while x_line < 8
            invariant
                x_line <= 8,
                display_data@ == draw_cols(
                    row_fb,
                    pixels,
                    x0,
                    y as int,
                    x_line as int,
                ).0,
                flipped == (row_flipped || draw_cols(
                    row_fb,
                    pixels,
                    x0,
                    y as int,
                    x_line as int,
                ).1),
            decreases 8 - x_line,
        {
            proof {
                lemma_draw_cols_len(row_fb, pixels, x0, y as int, x_line as int);
            }
            if pixels & (0x80u8 >> x_line) != 0 {
                let x = ((x0 as usize) + (x_line as usize)) % 64;
                let idx = x + 64 * y;
                let prev = display_data[idx];
                flipped = flipped || prev;
                display_data[idx] = !prev;
            }
            x_line += 1;
        }
        y_line += 1;
    }
    flipped
}

/// The font sprite table as bytes: 16 glyphs of five bytes each.
#[verifier::rlimit(100)]
pub fn font_sprites() -> (r: Vec<u8>)
    ensures
        r@ == font_sprites_spec(),
{
    let mut table: Vec<u8> = Vec::new();
    table.push(0xF0); table.push(0x90); table.push(0x90); table.push(0x90); table.push(0xF0); // 0
    table.push(0x20); table.push(0x60); table.push(0x20); table.push(0x20); table.push(0x70); // 1
    table.push(0xF0); table.push(0x10); table.push(0xF0); table.push(0x80); table.push(0xF0); // 2
    table.push(0xF0); table.push(0x10); table.push(0xF0); table.push(0x10); table.push(0xF0); // 3
    table.push(0x90); table.push(0x90); table.push(0xF0); table.push(0x10); table.push(0x10); // 4
    table.push(0xF0); table.push(0x80); table.push(0xF0); table.push(0x10); table.push(0xF0); // 5
    table.push(0xF0); table.push(0x80); table.push(0xF0); table.push(0x90); table.push(0xF0); // 6
    table.push(0xF0); table.push(0x10); table.push(0x20); table.push(0x40); table.push(0x40); // 7
    table.push(0xF0); table.push(0x90); table.push(0xF0); table.push(0x90); table.push(0xF0); // 8
    table.push(0xF0); table.push(0x90); table.push(0xF0); table.push(0x10); table.push(0xF0); // 9
    table.push(0xF0); table.push(0x90); table.push(0xF0); table.push(0x90); table.push(0x90); // A
    table.push(0xE0); table.push(0x90); table.push(0xE0); table.push(0x90); table.push(0xE0); // B
    table.push(0xF0); table.push(0x80); table.push(0x80); table.push(0x80); table.push(0xF0); // C
    table.push(0xE0); table.push(0x90); table.push(0x90); table.push(0x90); table.push(0xE0); // D
    table.push(0xF0); table.push(0x80); table.push(0xF0); table.push(0x80); table.push(0xF0); // E
    table.push(0xF0); table.push(0x80); table.push(0xF0); table.push(0x80); table.push(0x80); // F
    proof {
        assert(table@ =~= font_sprites_spec());
    }
    table
}

impl Emulator {
    /// The sizes of the emulator's storage never change, and the tick rate
    /// is never zero.
    pub open spec fn wf(&self) -> bool {
        &&& self@.wf()
        &&& self.spec_target_fps() > 0
    }

    /// The configured tick rate, as a spec-level projection.
    pub closed spec fn spec_target_fps(&self) -> u128 {
        self.target_fps
    }

    /// Creates a new `Emulator` instance with zeroed registers and the font
    /// table loaded at its base address.
    pub fn new() -> (r: Emulator)
        ensures
            r.wf(),
            r@ == initial_view(),
    {
        let mut memory: Vec<u8> = Vec::new();
        while memory.len() < MEMORY_SIZE
            invariant
                memory@ =~= Seq::new(memory.len() as nat, |i: int| 0u8),
                memory.len() <= MEMORY_SIZE,
            decreases MEMORY_SIZE - memory.len(),
        {
            memory.push(0);
        }
        let mut registers: Vec<u8> = Vec::new();
        while registers.len() < NUMBER_OF_REGISTERS
            invariant
                registers@ =~= Seq::new(registers.len() as nat, |i: int| 0u8),
                registers.len() <= NUMBER_OF_REGISTERS,
            decreases NUMBER_OF_REGISTERS - registers.len(),
        {
            registers.push(0);
        }
        let display_data = blank_display();
        let mut emulator = Emulator {
            memory,
            registers,
            index_register: 0,
            program_counter: 0,
            delay_timer: 0,
            sound_timer: 0,
            stack: Stack::new(),
            display_data,
            last_key_pressed: None,
            target_fps: 60,
            last_tick_time: None,
        };
        emulator.load_font_data();
        proof {
            assert(emulator@ =~= initial_view());
        }
        emulator
    }

    /// Copies the font sprite table into memory at its base address.
    fn load_font_data(&mut self)
        requires
            old(self).wf(),
        ensures
            final(self).wf(),
            final(self)@ == (Chip8View {
                memory: Seq::new(4096, |i: int|
                    if FONT_BASE <= i < FONT_BASE + 80 {
                        font_sprites_spec()[i - FONT_BASE]
                    } else {
                        old(self)@.memory[i]
                    }),
                ..old(self)@
            }),
    {
        let ghost pre = self@;
        let font = font_sprites();
        let mut k: usize = 0;
        while k < 80
            invariant
                k <= 80,
                font@ == font_sprites_spec(),
                self@.memory.len() == 4096,
                forall|i: int|
                    FONT_BASE <= i < FONT_BASE + k ==> self@.memory[i] == font_sprites_spec()[i
                        - FONT_BASE],
                forall|i: int|
                    0 <= i < 4096 && !(FONT_BASE <= i < FONT_BASE + k) ==> self@.memory[i]
                        == pre.memory[i],
                self@ == (Chip8View { memory: self@.memory, ..pre }),
                self.spec_target_fps() > 0,
            decreases 80 - k,
        {
            self.memory[FONT_BASE + k] = font[k];
            k += 1;
        }
        proof {
            assert(self@.memory =~= Seq::new(4096, |i: int|
                if FONT_BASE <= i < FONT_BASE + 80 {
                    font_sprites_spec()[i - FONT_BASE]
                } else {
                    pre.memory[i]
                }));
            assert(self@ =~= (Chip8View {
                memory: Seq::new(4096, |i: int|
                    if FONT_BASE <= i < FONT_BASE + 80 {
                        font_sprites_spec()[i - FONT_BASE]
                    } else {
                        pre.memory[i]
                    }),
                ..pre
            }));
        }
    }

    /// Handles the timers logic: each timer is decremented while nonzero and
    /// held at zero afterwards.
    pub fn handle_timers(&mut self)
        requires
            old(self).wf(),
        ensures
            final(self).wf(),
            final(self)@ == tick_timers(old(self)@),
    {
        if self.delay_timer > 0 {
            self.delay_timer = self.delay_timer - 1;
        }
        if self.sound_timer > 0 {
            self.sound_timer = self.sound_timer - 1;
        }
    }

    /// should_beep will return true if the emulator should beep: the sound
    /// timer is nonzero. This is a level signal, not an event.
    pub fn should_beep(&self) -> (r: bool)
        ensures
            r == (self@.sound_timer > 0),
    {
        self.sound_timer > 0
    }

    /// Handle the input: records the low nibble of the pressed key, clears
    /// the recorded key when none is pressed, and reports whether the host
    /// signalled a quit request with the sentinel 0xFF.
    pub fn handle_input(&mut self, key_pressed: Option<u16>) -> (quit: bool)
        requires
            old(self).wf(),
        ensures
            final(self).wf(),
            match key_pressed {
                None => !quit && final(self)@ == (Chip8View {
                    last_key_pressed: None,
                    ..old(self)@
                }),
                Some(key) => {
                    if key == 0xFF {
                        quit && final(self)@ == old(self)@
                    } else {
                        !quit && final(self)@ == (Chip8View {
                            last_key_pressed: Some((key & 0xF) as u8),
                            ..old(self)@
                        })
                    }
                },
            },
    {
        match key_pressed {
            Some(key_pressed) => {
                if key_pressed == 0xFF {
                    true
                } else {
                    self.last_key_pressed = Some((key_pressed & 0xF) as u8);
                    false
                }
            },
            None => {
                self.last_key_pressed = None;
                false
            },
        }
    }

    /// Returns the display buffer of the emulator as a fresh copy.
    pub fn get_display_buffer(&self) -> (r: Vec<bool>)
        ensures
            r@ == self@.display_data,
    {
        let mut buffer: Vec<bool> = Vec::new();
        let mut i: usize = 0;
        while i < self.display_data.len()
            invariant
                i <= self.display_data.len(),
                buffer@ =~= self.display_data@.take(i as int),
            decreases self.display_data.len() - i,
        {
            buffer.push(self.display_data[i]);
            i += 1;
        }
        proof {
            assert(buffer@ =~= self@.display_data);
        }
        buffer
    }

    /// Loads a ROM image into memory at the load address, byte for byte, and
    /// points the program counter at its start. An image larger than the
    /// memory above the load address is rejected and nothing is changed.
    pub fn load_rom(&mut self, rom: &Vec<u8>) -> (r: Result<(), Chip8Error>)
        requires
            old(self).wf(),
        ensures
            final(self).wf(),
            rom@.len() <= 4096 - ROM_BASE ==> r is Ok && final(self)@ == (Chip8View {
                memory: memory_with_rom(old(self)@.memory, rom@),
                program_counter: 0x200u16,
                ..old(self)@
            }),
            rom@.len() > 4096 - ROM_BASE ==> r == Err::<(), Chip8Error>(Chip8Error::RomTooLarge)
                && final(self)@ == old(self)@,
    {
        if rom.len() > MEMORY_SIZE - ROM_BASE {
            return Err(Chip8Error::RomTooLarge);
        }
        let ghost pre = self@;
        let mut k: usize = 0;
        while k < rom.len()
            invariant
                k <= rom@.len(),
                rom@.len() <= 4096 - ROM_BASE,
                self@.memory.len() == 4096,
                forall|i: int|
                    ROM_BASE <= i < ROM_BASE + k ==> self@.memory[i] == rom@[i - ROM_BASE],
                forall|i: int|
                    0 <= i < 4096 && !(ROM_BASE <= i < ROM_BASE + k) ==> self@.memory[i]
                        == pre.memory[i],
                self@ == (Chip8View { memory: self@.memory, ..pre }),
                self.spec_target_fps() > 0,
            decreases rom@.len() - k,
        {
            self.memory[ROM_BASE + k] = rom[k];
            k += 1;
        }
        self.program_counter = 0x200;
        proof {
            assert(self@.memory =~= memory_with_rom(pre.memory, rom@));
            assert(self@ =~= (Chip8View {
                memory: memory_with_rom(pre.memory, rom@),
                program_counter: 0x200u16,
                ..pre
            }));
        }
        Ok(())
    }

    /// Loads registers V0..VX inclusive from memory starting at the index
    /// register; the index register itself is not advanced.
    #[verifier::loop_isolation(false)]
    fn exec_load_memory(&mut self, vx: u8)
        requires
            old(self).wf(),
            vx <= 0xF,
            old(self)@.index_register + vx < 4096,
        ensures
            final(self).wf(),
            final(self)@ == (Chip8View {
                registers: Seq::new(16, |j: int|
                    if j <= vx {
                        old(self)@.memory[old(self)@.index_register + j]
                    } else {
                        old(self)@.registers[j]
                    }),
                ..old(self)@
            }),
    {
        let ghost pre = self@;
        let mut i: u8 = 0;
        while i <= vx
            invariant
                i <= vx + 1,
                forall|j: int| 0 <= j < i ==> self@.registers[j] == pre.memory[pre.index_register + j],
                forall|j: int| i <= j < 16 ==> self@.registers[j] == pre.registers[j],
                self@ == (Chip8View { registers: self@.registers, ..pre }),
                self@.registers.len() == 16,
                self.spec_target_fps() == old(self).spec_target_fps(),
            decreases vx + 1 - i,
        {
            let memory_index = (self.index_register + (i as u16)) as usize;
            self.registers[i as usize] = self.memory[memory_index];
            i += 1;
        }
        proof {
            assert(self@.registers =~= Seq::new(16, |j: int|
                if j <= vx {
                    pre.memory[pre.index_register + j]
                } else {
                    pre.registers[j]
                }));
            assert(self@ =~= (Chip8View {
                registers: Seq::new(16, |j: int|
                    if j <= vx {
                        pre.memory[pre.index_register + j]
                    } else {
                        pre.registers[j]
                    }),
                ..pre
            }));
        }
    }

    /// Stores registers V0..VX inclusive into memory starting at the index
    /// register; the index register itself is not advanced.
    #[verifier::loop_isolation(false)]
    fn exec_store_memory(&mut self, vx: u8)
        requires
            old(self).wf(),
            vx <= 0xF,
            old(self)@.index_register + vx < 4096,
        ensures
            final(self).wf(),
            final(self)@ == (Chip8View {
                memory: Seq::new(4096, |a: int|
                    if old(self)@.index_register <= a <= old(self)@.index_register + vx {
                        old(self)@.registers[a - old(self)@.index_register]
                    } else {
                        old(self)@.memory[a]
                    }),
                ..old(self)@
            }),
    {
        let ghost pre = self@;
        let mut i: u8 = 0;
        while i <= vx
            invariant
                i <= vx + 1,
                forall|a: int|
                    pre.index_register <= a < pre.index_register + i ==> self@.memory[a]
                        == pre.registers[a - pre.index_register],
                forall|a: int|
                    0 <= a < 4096 && !(pre.index_register <= a < pre.index_register + i)
                        ==> self@.memory[a] == pre.memory[a],
                self@ == (Chip8View { memory: self@.memory, ..pre }),
                self@.memory.len() == 4096,
                self.spec_target_fps() == old(self).spec_target_fps(),
            decreases vx + 1 - i,
        {
            let memory_index = (self.index_register + (i as u16)) as usize;
            self.memory[memory_index] = self.registers[i as usize];
            i += 1;
        }
        proof {
            assert(self@.memory =~= Seq::new(4096, |a: int|
                if pre.index_register <= a <= pre.index_register + vx {
                    pre.registers[a - pre.index_register]
                } else {
                    pre.memory[a]
                }));
            assert(self@ =~= (Chip8View {
                memory: Seq::new(4096, |a: int|
                    if pre.index_register <= a <= pre.index_register + vx {
                        pre.registers[a - pre.index_register]
                    } else {
                        pre.memory[a]
                    }),
                ..pre
            }));
        }
    }

    /// Executes one decoded instruction against the machine state. The
    /// program counter is expected to have been advanced past the
    /// instruction already. Fails exactly where the transition relation
    /// fails: a return on an empty stack, a memory access past the end
    /// through the index register, or a program counter move that leaves the
    /// address space; a failed instruction changes nothing. The random byte
    /// drawn for the random-number instruction is the one the contract's
    /// witness speaks about.
    pub fn execute_instruction(&mut self, instruction: Instruction) -> (r: Result<(), Chip8Error>)
        requires
            old(self).wf(),
            instruction.wf(),
        ensures
            final(self).wf(),
            (exists|b: u8|
                b < 0xFF && #[trigger] step_outcome_matches(
                    old(self)@,
                    final(self)@,
                    r,
                    instruction.spec_instruction(),
                    b,
                )),
    {
        proof {
            reveal(crate::semantics::step);
            lemma_decode_operands_bounded(instruction.spec_raw());
        }
        let ghost pre = self@;
        let ghost pi = instruction.spec_instruction();
        match instruction.processor_instruction() {
            ProcessorInstruction::ClearScreen => {
                self.display_data = blank_display();
                proof {
                    assert(step_outcome_matches(pre, self@, Result::<(), Chip8Error>::Ok(()), pi, 0));
                }
                Ok(())
            },
            ProcessorInstruction::Jump { address } => {
                self.program_counter = address;
                proof {
                    assert(step_outcome_matches(pre, self@, Result::<(), Chip8Error>::Ok(()), pi, 0));
                }
                Ok(())
            },
            ProcessorInstruction::SetRegister { register, data } => {
                self.registers[register as usize] = data;
                proof {
                    assert(step_outcome_matches(pre, self@, Result::<(), Chip8Error>::Ok(()), pi, 0));
                }
                Ok(())
            },
            ProcessorInstruction::AddValueToRegister { register, value } => {
                let cur = self.registers[register as usize];
                let sum: u16 = cur as u16 + value as u16;
                self.registers[register as usize] = (sum % 256) as u8;
                proof {
                    assert(step_outcome_matches(pre, self@, Result::<(), Chip8Error>::Ok(()), pi, 0));
                }
                Ok(())
            },
            ProcessorInstruction::SetIndexRegister { data } => {
                self.index_register = data;
                proof {
                    assert(step_outcome_matches(pre, self@, Result::<(), Chip8Error>::Ok(()), pi, 0));
                }
                Ok(())
            },
            ProcessorInstruction::Draw { vx, vy, rows } => {
                if self.index_register as usize + rows as usize > MEMORY_SIZE {
                    proof {
                        assert(step_outcome_matches(
                            pre,
                            self@,
                            Result::<(), Chip8Error>::Err(Chip8Error::MemoryOutOfRange),
                            pi,
                            0,
                        ));
                    }
                    Err(Chip8Error::MemoryOutOfRange)
                } else {
                    let x_coordinate = self.registers[vx as usize];
                    let y_coordinate = self.registers[vy as usize];
                    let collision = draw_sprite(
                        &mut self.display_data,
                        &self.memory,
                        self.index_register,
                        x_coordinate,
                        y_coordinate,
                        rows,
                    );
                    if collision {
                        self.registers[0xF] = 1;
                    } else {
                        self.registers[0xF] = 0;
                    }
                    proof {
                        lemma_draw_rows_len(
                            pre.display_data,
                            pre.memory,
                            pre.index_register,
                            pre.registers[vx as int],
                            pre.registers[vy as int],
                            rows as int,
                        );
                        assert(step_outcome_matches(pre, self@, Result::<(), Chip8Error>::Ok(()), pi, 0));
                    }
                    Ok(())
                }
            },
            ProcessorInstruction::Return => {
                match self.stack.pop() {
                    Some(value) => {
                        self.program_counter = value;
                        proof {
                            assert(step_outcome_matches(pre, self@, Result::<(), Chip8Error>::Ok(()), pi, 0));
                        }
                        Ok(())
                    },
                    None => {
                        proof {
                            assert(step_outcome_matches(
                                pre,
                                self@,
                                Result::<(), Chip8Error>::Err(Chip8Error::StackUnderflow),
                                pi,
                                0,
                            ));
                        }
                        Err(Chip8Error::StackUnderflow)
                    },
                }
            },
            ProcessorInstruction::Call { address } => {
                self.stack.push(self.program_counter);
                self.program_counter = address;
                proof {
                    assert(step_outcome_matches(pre, self@, Result::<(), Chip8Error>::Ok(()), pi, 0));
                }
                Ok(())
            },
            ProcessorInstruction::SetVXToVY { vx, vy } => {
                let vyv = self.registers[vy as usize];
                self.registers[vx as usize] = vyv;
                proof {
                    assert(step_outcome_matches(pre, self@, Result::<(), Chip8Error>::Ok(()), pi, 0));
                }
                Ok(())
            },
            ProcessorInstruction::BinaryOr { vx, vy } => {
                let vxv = self.registers[vx as usize];
                let vyv = self.registers[vy as usize];
                self.registers[vx as usize] = vxv | vyv;
                proof {
                    assert(step_outcome_matches(pre, self@, Result::<(), Chip8Error>::Ok(()), pi, 0));
                }
                Ok(())
            },
            ProcessorInstruction::BinaryAnd { vx, vy } => {
                let vxv = self.registers[vx as usize];
                let vyv = self.registers[vy as usize];
                self.registers[vx as usize] = vxv & vyv;
                proof {
                    assert(step_outcome_matches(pre, self@, Result::<(), Chip8Error>::Ok(()), pi, 0));
                }
                Ok(())
            },
            ProcessorInstruction::BinaryXor { vx, vy } => {
                let vxv = self.registers[vx as usize];
                let vyv = self.registers[vy as usize];
                self.registers[vx as usize] = vxv ^ vyv;
                proof {
                    assert(step_outcome_matches(pre, self@, Result::<(), Chip8Error>::Ok(()), pi, 0));
                }
                Ok(())
            },
            ProcessorInstruction::Add { vx, vy } => {
                let vxv = self.registers[vx as usize];
                let vyv = self.registers[vy as usize];
                let sum: u16 = vxv as u16 + vyv as u16;
                self.registers[vx as usize] = (sum % 256) as u8;
                if sum > 255 {
                    self.registers[0xF] = 1;
                } else {
                    self.registers[0xF] = 0;
                }
                proof {
                    assert(step_outcome_matches(pre, self@, Result::<(), Chip8Error>::Ok(()), pi, 0));
                }
                Ok(())
            },
            ProcessorInstruction::SubtractVX { vx, vy } => {
                let vxv = self.registers[vx as usize];
                let vyv = self.registers[vy as usize];
                // VF is written before the subtraction reads its operands,
                // so a subtraction that names VF sees the flag value.
                if vxv > vyv {
                    self.registers[0xF] = 1;
                } else {
                    self.registers[0xF] = 0;
                }
                let a = self.registers[vx as usize];
                let b = self.registers[vy as usize];
                let result = if a >= b {
                    a - b
                } else {
                    ((a as u16 + 256) - b as u16) as u8
                };
                self.registers[vx as usize] = result;
                proof {
                    assert(step_outcome_matches(pre, self@, Result::<(), Chip8Error>::Ok(()), pi, 0));
                }
                Ok(())
            },
            ProcessorInstruction::SubtractVY { vx, vy } => {
                let vxv = self.registers[vx as usize];
                let vyv = self.registers[vy as usize];
                if vyv > vxv {
                    self.registers[0xF] = 1;
                } else {
                    self.registers[0xF] = 0;
                }
                let a = self.registers[vx as usize];
                let b = self.registers[vy as usize];
                let result = if b >= a {
                    b - a
                } else {
                    ((b as u16 + 256) - a as u16) as u8
                };
                self.registers[vx as usize] = result;
                proof {
                    assert(step_outcome_matches(pre, self@, Result::<(), Chip8Error>::Ok(()), pi, 0));
                }
                Ok(())
            },
            ProcessorInstruction::ShiftLeft { vx, vy } => {
                let vxv = self.registers[vx as usize];
                self.registers[0xF] = (vxv >> 7) & 1;
                let cur = self.registers[vx as usize];
                self.registers[vx as usize] = cur << 1;
                proof {
                    assert(step_outcome_matches(pre, self@, Result::<(), Chip8Error>::Ok(()), pi, 0));
                }
                Ok(())
            },
            ProcessorInstruction::ShiftRight { vx, vy } => {
                let vxv = self.registers[vx as usize];
                self.registers[0xF] = vxv & 0x1;
                let cur = self.registers[vx as usize];
                self.registers[vx as usize] = cur >> 1;
                proof {
                    assert(step_outcome_matches(pre, self@, Result::<(), Chip8Error>::Ok(()), pi, 0));
                }
                Ok(())
            },
            ProcessorInstruction::JumpWithOffset { address } => {
                let offset = self.registers[0];
                self.program_counter = address + offset as u16;
                proof {
                    assert(step_outcome_matches(pre, self@, Result::<(), Chip8Error>::Ok(()), pi, 0));
                }
                Ok(())
            },
            ProcessorInstruction::GenerateRandomNumber { vx, mask } => {
                let drawn = random_byte();
                self.registers[vx as usize] = drawn & mask;
                proof {
                    assert(step_outcome_matches(pre, self@, Result::<(), Chip8Error>::Ok(()), pi, drawn));
                }
                Ok(())
            },
            ProcessorInstruction::SkipEqualVXData { vx, data } => {
                let vx_data = self.registers[vx as usize];
                if vx_data == data {
                    if self.program_counter > 0xFFFF - 2 {
                        proof {
                            assert(step_outcome_matches(
                                pre,
                                self@,
                                Result::<(), Chip8Error>::Err(Chip8Error::ProgramCounterOutOfRange),
                                pi,
                                0,
                            ));
                        }
                        return Err(Chip8Error::ProgramCounterOutOfRange);
                    }
                    self.program_counter = self.program_counter + 2;
                }
                proof {
                    assert(step_outcome_matches(pre, self@, Result::<(), Chip8Error>::Ok(()), pi, 0));
                }
                Ok(())
            },
            ProcessorInstruction::SkipNotEqualVXData { vx, data } => {
                let vx_data = self.registers[vx as usize];
                if vx_data != data {
                    if self.program_counter > 0xFFFF - 2 {
                        proof {
                            assert(step_outcome_matches(
                                pre,
                                self@,
                                Result::<(), Chip8Error>::Err(Chip8Error::ProgramCounterOutOfRange),
                                pi,
                                0,
                            ));
                        }
                        return Err(Chip8Error::ProgramCounterOutOfRange);
                    }
                    self.program_counter = self.program_counter + 2;
                }
                proof {
                    assert(step_outcome_matches(pre, self@, Result::<(), Chip8Error>::Ok(()), pi, 0));
                }
                Ok(())
            },
            ProcessorInstruction::SkipEqualVXVY { vx, vy } => {
                let vx_data = self.registers[vx as usize];
                let vy_data = self.registers[vy as usize];
                if vx_data == vy_data {
                    if self.program_counter > 0xFFFF - 2 {
                        proof {
                            assert(step_outcome_matches(
                                pre,
                                self@,
                                Result::<(), Chip8Error>::Err(Chip8Error::ProgramCounterOutOfRange),
                                pi,
                                0,
                            ));
                        }
                        return Err(Chip8Error::ProgramCounterOutOfRange);
                    }
                    self.program_counter = self.program_counter + 2;
                }
                proof {
                    assert(step_outcome_matches(pre, self@, Result::<(), Chip8Error>::Ok(()), pi, 0));
                }
                Ok(())
            },
            ProcessorInstruction::SkipNotEqualVXVY { vx, vy } => {
                let vx_data = self.registers[vx as usize];
                let vy_data = self.registers[vy as usize];
                if vx_data != vy_data {
                    if self.program_counter > 0xFFFF - 2 {
                        proof {
                            assert(step_outcome_matches(
                                pre,
                                self@,
                                Result::<(), Chip8Error>::Err(Chip8Error::ProgramCounterOutOfRange),
                                pi,
                                0,
                            ));
                        }
                        return Err(Chip8Error::ProgramCounterOutOfRange);
                    }
                    self.program_counter = self.program_counter + 2;
                }
                proof {
                    assert(step_outcome_matches(pre, self@, Result::<(), Chip8Error>::Ok(()), pi, 0));
                }
                Ok(())
            },
            ProcessorInstruction::SetVXToDelayTimer { vx } => {
                self.registers[vx as usize] = self.delay_timer;
                proof {
                    assert(step_outcome_matches(pre, self@, Result::<(), Chip8Error>::Ok(()), pi, 0));
                }
                Ok(())
            },
            ProcessorInstruction::SetDelayTimer { vx } => {
                self.delay_timer = self.registers[vx as usize];
                proof {
                    assert(step_outcome_matches(pre, self@, Result::<(), Chip8Error>::Ok(()), pi, 0));
                }
                Ok(())
            },
            ProcessorInstruction::SetSoundTimer { vx } => {
                self.sound_timer = self.registers[vx as usize];
                proof {
                    assert(step_outcome_matches(pre, self@, Result::<(), Chip8Error>::Ok(()), pi, 0));
                }
                Ok(())
            },
            ProcessorInstruction::AddToIndex { vx } => {
                let vxv = self.registers[vx as usize];
                let sum: u32 = self.index_register as u32 + vxv as u32;
                self.index_register = (sum % 0x10000) as u16;
                if sum > 0xFFFF {
                    self.registers[0xF] = 1;
                } else {
                    self.registers[0xF] = 0;
                }
                proof {
                    assert(step_outcome_matches(pre, self@, Result::<(), Chip8Error>::Ok(()), pi, 0));
                }
                Ok(())
            },
            ProcessorInstruction::FontCharacter { vx } => {
                let vxv = self.registers[vx as usize];
                proof {
                    assert((vxv & 0xF) <= 0xF) by (bit_vector);
                }
                self.index_register = 0xF0 + ((vxv & 0xF) as u16) * 5;
                proof {
                    assert(step_outcome_matches(pre, self@, Result::<(), Chip8Error>::Ok(()), pi, 0));
                }
                Ok(())
            },
            ProcessorInstruction::BinaryCodedDecimalConversion { vx } => {
                if self.index_register as usize + 2 >= MEMORY_SIZE {
                    proof {
                        assert(step_outcome_matches(
                            pre,
                            self@,
                            Result::<(), Chip8Error>::Err(Chip8Error::MemoryOutOfRange),
                            pi,
                            0,
                        ));
                    }
                    Err(Chip8Error::MemoryOutOfRange)
                } else {
                    let number = self.registers[vx as usize];
                    let base = self.index_register as usize;
                    self.memory[base] = number / 100;
                    self.memory[base + 1] = (number / 10) % 10;
                    self.memory[base + 2] = (number % 100) % 10;
                    proof {
                        assert(step_outcome_matches(pre, self@, Result::<(), Chip8Error>::Ok(()), pi, 0));
                    }
                    Ok(())
                }
            },
            ProcessorInstruction::LoadMemory { vx } => {
                if self.index_register as usize + vx as usize >= MEMORY_SIZE {
                    proof {
                        assert(step_outcome_matches(
                            pre,
                            self@,
                            Result::<(), Chip8Error>::Err(Chip8Error::MemoryOutOfRange),
                            pi,
                            0,
                        ));
                    }
                    Err(Chip8Error::MemoryOutOfRange)
                } else {
                    self.exec_load_memory(vx);
                    proof {
                        assert(step_outcome_matches(pre, self@, Result::<(), Chip8Error>::Ok(()), pi, 0));
                    }
                    Ok(())
                }
            },
            ProcessorInstruction::StoreMemory { vx } => {
                if self.index_register as usize + vx as usize >= MEMORY_SIZE {
                    proof {
                        assert(step_outcome_matches(
                            pre,
                            self@,
                            Result::<(), Chip8Error>::Err(Chip8Error::MemoryOutOfRange),
                            pi,
                            0,
                        ));
                    }
                    Err(Chip8Error::MemoryOutOfRange)
                } else {
                    self.exec_store_memory(vx);
                    proof {
                        assert(step_outcome_matches(pre, self@, Result::<(), Chip8Error>::Ok(()), pi, 0));
                    }
                    Ok(())
                }
            },
            ProcessorInstruction::GetKeyBlocking { vx } => {
                match self.last_key_pressed {
                    Some(key) => {
                        self.registers[vx as usize] = key;
                        proof {
                            assert(step_outcome_matches(pre, self@, Result::<(), Chip8Error>::Ok(()), pi, 0));
                        }
                        Ok(())
                    },
                    None => {
                        if self.program_counter < 2 {
                            proof {
                                assert(step_outcome_matches(
                                    pre,
                                    self@,
                                    Result::<(), Chip8Error>::Err(Chip8Error::ProgramCounterOutOfRange),
                                    pi,
                                    0,
                                ));
                            }
                            return Err(Chip8Error::ProgramCounterOutOfRange);
                        }
                        self.program_counter = self.program_counter - 2;
                        proof {
                            assert(step_outcome_matches(pre, self@, Result::<(), Chip8Error>::Ok(()), pi, 0));
                        }
                        Ok(())
                    },
                }
            },
            ProcessorInstruction::SkipIfKeyIsPressed { vx } => {
                match self.last_key_pressed {
                    Some(key) => {
                        if self.registers[vx as usize] == key {
                            if self.program_counter > 0xFFFF - 2 {
                                proof {
                                    assert(step_outcome_matches(
                                        pre,
                                        self@,
                                        Result::<(), Chip8Error>::Err(Chip8Error::ProgramCounterOutOfRange),
                                        pi,
                                        0,
                                    ));
                                }
                                return Err(Chip8Error::ProgramCounterOutOfRange);
                            }
                            self.program_counter = self.program_counter + 2;
                        }
                    },
                    None => {},
                }
                proof {
                    assert(step_outcome_matches(pre, self@, Result::<(), Chip8Error>::Ok(()), pi, 0));
                }
                Ok(())
            },
            ProcessorInstruction::SkipIfKeyIsNotPressed { vx } => {
                let skip = match self.last_key_pressed {
                    Some(key) => self.registers[vx as usize] != key,
                    None => true,
                };
                if skip {
                    if self.program_counter > 0xFFFF - 2 {
                        proof {
                            assert(step_outcome_matches(
                                pre,
                                self@,
                                Result::<(), Chip8Error>::Err(Chip8Error::ProgramCounterOutOfRange),
                                pi,
                                0,
                            ));
                        }
                        return Err(Chip8Error::ProgramCounterOutOfRange);
                    }
                    self.program_counter = self.program_counter + 2;
                }
                proof {
                    assert(step_outcome_matches(pre, self@, Result::<(), Chip8Error>::Ok(()), pi, 0));
                }
                Ok(())
            },
            ProcessorInstruction::UnknownInstruction => {
                proof {
                    assert(step_outcome_matches(pre, self@, Result::<(), Chip8Error>::Ok(()), pi, 0));
                }
                Ok(())
            },
        }
    }

    /// One fetch-decode-execute cycle: reads the two bytes at the program
    /// counter, moves the program counter past them, and executes the
    /// decoded instruction.
    fn run_cycle(&mut self) -> (r: Result<(), Chip8Error>)
        requires
            old(self).wf(),
        ensures
            final(self).wf(),
            (exists|b: u8|
                b < 0xFF && #[trigger] cycle_outcome_matches(old(self)@, final(self)@, r, b)),
    {
        let ghost pre = self@;
        let instruction = match self.fetch_instruction() {
            Ok(instruction) => instruction,
            Err(e) => {
                proof {
                    assert(cycle_outcome_matches(
                        pre,
                        self@,
                        Result::<(), Chip8Error>::Err(Chip8Error::ProgramCounterOutOfRange),
                        0,
                    ));
                }
                return Err(e);
            },
        };
        self.program_counter = self.program_counter + 2;
        let ghost fetched = self@;
        let r = self.execute_instruction(instruction);
        proof {
            let b = choose|b: u8|
                b < 0xFF && step_outcome_matches(
                    fetched,
                    self@,
                    r,
                    instruction.spec_instruction(),
                    b,
                );
            assert(fetched =~= (Chip8View {
                program_counter: (pre.program_counter + 2) as u16,
                ..pre
            }));
            assert(cycle_outcome_matches(pre, self@, r, b));
        }
        r
    }

    /// Executes a batch of eight fetch-decode-execute cycles, the throughput
    /// the host gets per 60 Hz tick, stopping at the first fatal error. The
    /// contract's witness sequence carries the bytes drawn by the random
    /// number source, one per cycle.
    #[verifier::rlimit(100)]
    pub fn execute_and_fetch(&mut self) -> (r: Result<(), Chip8Error>)
        requires
            old(self).wf(),
        ensures
            final(self).wf(),
            (exists|rand_bytes: Seq<u8>|
                #![trigger run_steps(old(self)@, rand_bytes)]
                {
                    &&& rand_bytes.len() == 8
                    &&& (forall|i: int| 0 <= i < 8 ==> rand_bytes[i] < 0xFF)
                    &&& final(self)@ == run_steps(old(self)@, rand_bytes).0
                    &&& match run_steps(old(self)@, rand_bytes).1 {
                        None => r is Ok,
                        Some(e) => r == Err::<(), Chip8Error>(e),
                    }
                }),
    {
        let ghost start = self@;
        let ghost mut consumed: Seq<u8> = Seq::empty();
        let mut counter: u8 = 0;
        while counter < 8
            invariant
                self.wf(),
                counter <= 8,
                consumed.len() == counter as nat,
                forall|i: int| 0 <= i < consumed.len() ==> consumed[i] < 0xFF,
                run_steps(start, consumed) == (self@, None::<Chip8Error>),
                start == old(self)@,
            decreases 8 - counter,
        {
            let ghost loop_pre = self@;
            let res = self.run_cycle();
            match res {
                Ok(()) => {
                    proof {
                        let b = choose|b: u8|
                            b < 0xFF && cycle_outcome_matches(loop_pre, self@, res, b);
                        lemma_run_steps_extend_ok(start, consumed, loop_pre, self@, res, b);
                        consumed = consumed.push(b);
                    }
                    counter = counter + 1;
                },
                Err(e) => {
                    proof {
                        let b = choose|b: u8|
                            b < 0xFF && cycle_outcome_matches(loop_pre, self@, res, b);
                        let pad = (7 - counter) as nat;
                        lemma_run_steps_extend_err(start, consumed, loop_pre, self@, e, b, pad);
                        let full = crate::semantics::padded_batch(consumed, b, pad);
                        assert(full.len() == 8);
                        assert(forall|i: int| 0 <= i < 8 ==> full[i] < 0xFF);
                        assert(run_steps(old(self)@, full) == (self@, Some(e)));
                    }
                    return Err(e);
                },
            }
        }
        proof {
            assert(run_steps(old(self)@, consumed) == (self@, None::<Chip8Error>));
        }
        Ok(())
    }

    /// Tick drives the 60 Hz timer discipline: when at least one sixtieth of
    /// a second has passed since the last tick, both timers are decremented
    /// once and true is returned; otherwise nothing changes. The first call
    /// only records the current instant. Whether a tick is due depends on
    /// the clock; what a tick does to the machine does not.
    pub fn tick(&mut self) -> (r: bool)
        requires
            old(self).wf(),
        ensures
            final(self).wf(),
            r ==> final(self)@ == tick_timers(old(self)@),
            !r ==> final(self)@ == old(self)@,
    {
        let mut return_value = false;
        let elapsed_ms: Option<u128> = match &self.last_tick_time {
            Some(earlier) => {
                let now = instant_now();
                let elapsed = duration_since(&now, earlier);
                Some(duration_as_millis(&elapsed))
            },
            None => None,
        };
        match elapsed_ms {
            Some(elapsed_ms) => {
                if elapsed_ms >= 1000 / self.target_fps {
                    self.last_tick_time = Some(instant_now());
                    self.handle_timers();
                    return_value = true;
                }
            },
            None => {
                self.last_tick_time = Some(instant_now());
            },
        }
        return_value
    }

    /// The value of a general purpose register.
    pub fn get_register(&self, index: u8) -> (r: u8)
        requires
            self.wf(),
            index <= 0xF,
        ensures
            r == self@.registers[index as int],
    {
        self.registers[index as usize]
    }

    /// Overwrites a general purpose register.
    pub fn set_register(&mut self, index: u8, value: u8)
        requires
            old(self).wf(),
            index <= 0xF,
        ensures
            final(self).wf(),
            final(self)@ == (Chip8View {
                registers: old(self)@.registers.update(index as int, value),
                ..old(self)@
            }),
    {
        self.registers[index as usize] = value;
    }

    /// The current program counter.
    pub fn get_program_counter(&self) -> (r: u16)
        ensures
            r == self@.program_counter,
    {
        self.program_counter
    }

    /// Points the program counter at an address.
    pub fn set_program_counter(&mut self, program_counter: u16)
        requires
            old(self).wf(),
        ensures
            final(self).wf(),
            final(self)@ == (Chip8View { program_counter, ..old(self)@ }),
    {
        self.program_counter = program_counter;
    }

    /// The current index register.
    pub fn get_index_register(&self) -> (r: u16)
        ensures
            r == self@.index_register,
    {
        self.index_register
    }

    /// Overwrites the index register.
    pub fn set_index_register(&mut self, index_register: u16)
        requires
            old(self).wf(),
        ensures
            final(self).wf(),
            final(self)@ == (Chip8View { index_register, ..old(self)@ }),
    {
        self.index_register = index_register;
    }

    /// The current delay timer value.
    pub fn get_delay_timer(&self) -> (r: u8)
        ensures
            r == self@.delay_timer,
    {
        self.delay_timer
    }

    /// Overwrites the delay timer.
    pub fn set_delay_timer(&mut self, delay_timer: u8)
        requires
            old(self).wf(),
        ensures
            final(self).wf(),
            final(self)@ == (Chip8View { delay_timer, ..old(self)@ }),
    {
        self.delay_timer = delay_timer;
    }

    /// The current sound timer value.
    pub fn get_sound_timer(&self) -> (r: u8)
        ensures
            r == self@.sound_timer,
    {
        self.sound_timer
    }

    /// Overwrites the sound timer.
    pub fn set_sound_timer(&mut self, sound_timer: u8)
        requires
            old(self).wf(),
        ensures
            final(self).wf(),
            final(self)@ == (Chip8View { sound_timer, ..old(self)@ }),
    {
        self.sound_timer = sound_timer;
    }

    /// One byte of memory.
    pub fn memory_byte(&self, address: usize) -> (r: u8)
        requires
            self.wf(),
            address < 4096,
        ensures
            r == self@.memory[address as int],
    {
        self.memory[address]
    }

    /// Overwrites one byte of memory.
    pub fn set_memory_byte(&mut self, address: usize, value: u8)
        requires
            old(self).wf(),
            address < 4096,
        ensures
            final(self).wf(),
            final(self)@ == (Chip8View {
                memory: old(self)@.memory.update(address as int, value),
                ..old(self)@
            }),
    {
        self.memory[address] = value;
    }

    /// Overwrites one framebuffer pixel.
    pub fn set_pixel(&mut self, index: usize, value: bool)
        requires
            old(self).wf(),
            index < 2048,
        ensures
            final(self).wf(),
            final(self)@ == (Chip8View {
                display_data: old(self)@.display_data.update(index as int, value),
                ..old(self)@
            }),
    {
        self.display_data[index] = value;
    }

    /// Pushes a return address onto the call stack.
    pub fn stack_push(&mut self, address: u16)
        requires
            old(self).wf(),
        ensures
            final(self).wf(),
            final(self)@ == (Chip8View { stack: old(self)@.stack.push(address), ..old(self)@ }),
    {
        self.stack.push(address);
    }

    /// The topmost return address, if any.
    pub fn stack_peek(&self) -> (r: Option<u16>)
        ensures
            self@.stack.len() == 0 ==> r is None,
            self@.stack.len() > 0 ==> r == Some(self@.stack.last()),
    {
        match self.stack.peek() {
            Some(address) => Some(*address),
            None => None,
        }
    }

    /// The number of return addresses on the call stack.
    pub fn stack_size(&self) -> (r: usize)
        ensures
            r == self@.stack.len(),
    {
        self.stack.size()
    }

    /// Records which key, if any, is considered pressed.
    pub fn set_last_key_pressed(&mut self, key: Option<u8>)
        requires
            old(self).wf(),
        ensures
            final(self).wf(),
            final(self)@ == (Chip8View { last_key_pressed: key, ..old(self)@ }),
    {
        self.last_key_pressed = key;
    }

    /// Fetches the current instruction from the memory without incrementing
    /// the program counter. Fails when the program counter does not point at
    /// two readable bytes.
    pub fn fetch_instruction(&self) -> (r: Result<Instruction, Chip8Error>)
        requires
            self.wf(),
        ensures
            self@.program_counter + 1 < 4096 ==> (r matches Ok(inst) && inst.wf()
                && inst.spec_raw() == opcode_word(
                self@.memory[self@.program_counter as int],
                self@.memory[self@.program_counter + 1],
            )),
            self@.program_counter + 1 >= 4096 ==> r == Err::<Instruction, Chip8Error>(
                Chip8Error::ProgramCounterOutOfRange,
            ),
    {
        if self.program_counter as usize >= self.memory.len() - 1 {
            return Err(Chip8Error::ProgramCounterOutOfRange);
        }
        Ok(Instruction::new([
            self.memory[self.program_counter as usize],
            self.memory[self.program_counter as usize + 1],
        ]))
    }
}

} // verus!
