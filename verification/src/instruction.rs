use vstd::prelude::*;

verus! {

/// One decoded CHIP-8 instruction.
///
/// An opcode word is made of four nibbles. The second nibble (X) and the
/// third nibble (Y) select one of the sixteen registers, the fourth nibble
/// (N) is a 4-bit count, the low byte (NN) an 8-bit immediate and the low
/// twelve bits (NNN) a memory address.
#[derive(Debug, Clone, Copy, PartialEq, Eq, Structural)]
pub enum ProcessorInstruction {
    /// Clears the screen
    ClearScreen,
    /// Jumps to a given address
    Jump { address: u16 },
    /// Sets the register in the first argument to the given value
    SetRegister { register: u8, data: u8 },
    /// Adds the value to the register
    AddValueToRegister { register: u8, value: u8 },
    /// Sets the index register
    SetIndexRegister { data: u16 },
    /// Draws to the screen.
    Draw { vx: u8, vy: u8, rows: u8 },
    /// Call sets PC to the address and saves the return address on the stack
    Call { address: u16 },
    /// Pops the stack and sets the PC
    Return,
    /// Set VX to the value of VY
    SetVXToVY { vx: u8, vy: u8 },
    /// Or VX with VY and store in VX.
    BinaryOr { vx: u8, vy: u8 },
    /// And VX with VY and store in VX.
    BinaryAnd { vx: u8, vy: u8 },
    /// XOR VX with VY and store in VX.
    BinaryXor { vx: u8, vy: u8 },
    /// Add VX with VY and store in VX, if addition overflows set the carry flag 0xVF
    Add { vx: u8, vy: u8 },
    /// Subtract VX from VY and set to VX. VX = VX - VY. Affects the carry flag.
    SubtractVX { vx: u8, vy: u8 },
    /// Subtract VY from VX and set to VX. VX = VY - VX. Affects the carry flag.
    SubtractVY { vx: u8, vy: u8 },
    /// Set VX = VX >> 1. VF is set to the bit that is shifted out.
    ShiftRight { vx: u8, vy: u8 },
    /// Set VX = VX << 1. VF is set to the bit that is shifted out.
    ShiftLeft { vx: u8, vy: u8 },
    /// Jumps to the address and adds V0 offset.
    JumpWithOffset { address: u16 },
    /// Generates a random number ANDed with the data and stores it in VX.
    GenerateRandomNumber { vx: u8, mask: u8 },
    /// Skips the next instruction if VX is equal to data.
    SkipEqualVXData { vx: u8, data: u8 },
    /// Skip the next instruction if VX is not equal to data.
    SkipNotEqualVXData { vx: u8, data: u8 },
    /// Skips the next instruction if VX is equal to VY.
    SkipEqualVXVY { vx: u8, vy: u8 },
    /// Skip the next instruction if VX is not equal to VY.
    SkipNotEqualVXVY { vx: u8, vy: u8 },
    /// Sets the value of the VX instruction to the current value of the delay timer.
    SetVXToDelayTimer { vx: u8 },
    /// Sets the delay timer to the value in VX.
    SetDelayTimer { vx: u8 },
    /// Sets the sound timer to the value in VX.
    SetSoundTimer { vx: u8 },
    /// Adds the value of VX to the index register and sets the overflow flag.
    AddToIndex { vx: u8 },
    /// Sets the index register to the hexadecimal character in VX.
    FontCharacter { vx: u8 },
    /// Converts the number in VX to 3 digits.
    BinaryCodedDecimalConversion { vx: u8 },
    /// Stores the general purpose registers in memory at index register address.
    StoreMemory { vx: u8 },
    /// Loads the general purpose registers from memory at index register address.
    LoadMemory { vx: u8 },
    /// Blocks execution and waits for input. If a key is pressed it will be put in VX.
    GetKeyBlocking { vx: u8 },
    /// Skips one instruction if a key value stored in VX is pressed. Doesn't block execution.
    SkipIfKeyIsPressed { vx: u8 },
    /// Skips one instruction if a key value stored in VX is NOT pressed. Doesn't block execution.
    SkipIfKeyIsNotPressed { vx: u8 },
    /// Unknown instruction
    UnknownInstruction,
}

/// The highest nibble of an opcode word: the instruction family.
pub open spec fn zeroth_nibble(data: u16) -> u8 {
    ((data & 0xF000) >> 12) as u8
}

/// The second nibble of an opcode word: the X register operand.
pub open spec fn first_nibble(data: u16) -> u8 {
    ((data & 0x0F00) >> 8) as u8
}

/// The third nibble of an opcode word: the Y register operand.
pub open spec fn middle_nibble(data: u16) -> u8 {
    ((data & 0x00F0) >> 4) as u8
}

/// The lowest nibble of an opcode word: the N operand.
pub open spec fn last_nibble(data: u16) -> u8 {
    (data & 0x000F) as u8
}

/// The low byte of an opcode word: the NN immediate.
pub open spec fn last_byte(data: u16) -> u8 {
    (data & 0x00FF) as u8
}

/// The low twelve bits of an opcode word: the NNN address.
pub open spec fn inner_data(data: u16) -> u16 {
    data & 0x0FFF
}

/// The 16-bit opcode word formed from two bytes read big-endian.
pub open spec fn opcode_word(high: u8, low: u8) -> u16 {
    (((high as u16) << 8) | (low as u16)) as u16
}

/// The meaning of a 16-bit opcode word: the decoder as a mathematical
/// function. Decoding inspects the four nibbles; any word that matches no
/// known pattern maps to the explicit unknown variant.
pub open spec fn decode(data: u16) -> ProcessorInstruction {
    let d1 = zeroth_nibble(data);
    let d2 = first_nibble(data);
    let d3 = middle_nibble(data);
    let d4 = last_nibble(data);
    if d1 == 0x0 && d2 == 0x0 && d3 == 0xE && d4 == 0x0 {
        ProcessorInstruction::ClearScreen
    } else if d1 == 0x0 && d2 == 0x0 && d3 == 0xE && d4 == 0xE {
        ProcessorInstruction::Return
    } else if d1 == 0x1 {
        ProcessorInstruction::Jump { address: inner_data(data) }
    } else if d1 == 0x2 {
        ProcessorInstruction::Call { address: inner_data(data) }
    } else if d1 == 0x3 {
        ProcessorInstruction::SkipEqualVXData { vx: d2, data: last_byte(data) }
    } else if d1 == 0x4 {
        ProcessorInstruction::SkipNotEqualVXData { vx: d2, data: last_byte(data) }
    } else if d1 == 0x5 && d4 == 0x0 {
        ProcessorInstruction::SkipEqualVXVY { vx: d2, vy: d3 }
    } else if d1 == 0x6 {
        ProcessorInstruction::SetRegister { register: d2, data: last_byte(data) }
    } else if d1 == 0x7 {
        ProcessorInstruction::AddValueToRegister { register: d2, value: last_byte(data) }
    } else if d1 == 0x8 && d4 == 0x0 {
        ProcessorInstruction::SetVXToVY { vx: d2, vy: d3 }
    } else if d1 == 0x8 && d4 == 0x1 {
        ProcessorInstruction::BinaryOr { vx: d2, vy: d3 }
    } else if d1 == 0x8 && d4 == 0x2 {
        ProcessorInstruction::BinaryAnd { vx: d2, vy: d3 }
    } else if d1 == 0x8 && d4 == 0x3 {
        ProcessorInstruction::BinaryXor { vx: d2, vy: d3 }
    } else if d1 == 0x8 && d4 == 0x4 {
        ProcessorInstruction::Add { vx: d2, vy: d3 }
    } else if d1 == 0x8 && d4 == 0x5 {
        ProcessorInstruction::SubtractVX { vx: d2, vy: d3 }
    } else if d1 == 0x8 && d4 == 0x6 {
        ProcessorInstruction::ShiftRight { vx: d2, vy: d3 }
    } else if d1 == 0x8 && d4 == 0x7 {
        ProcessorInstruction::SubtractVY { vx: d2, vy: d3 }
    } else if d1 == 0x8 && d4 == 0xE {
        ProcessorInstruction::ShiftLeft { vx: d2, vy: d3 }
    } else if d1 == 0x9 && d4 == 0x0 {
        ProcessorInstruction::SkipNotEqualVXVY { vx: d2, vy: d3 }
    } else if d1 == 0xA {
        ProcessorInstruction::SetIndexRegister { data: inner_data(data) }
    } else if d1 == 0xB {
        ProcessorInstruction::JumpWithOffset { address: inner_data(data) }
    } else if d1 == 0xC {
        ProcessorInstruction::GenerateRandomNumber { vx: d2, mask: last_byte(data) }
    } else if d1 == 0xD {
        ProcessorInstruction::Draw { vx: d2, vy: d3, rows: d4 }
    } else if d1 == 0xE && d3 == 0x9 && d4 == 0xE {
        ProcessorInstruction::SkipIfKeyIsPressed { vx: d2 }
    } else if d1 == 0xE && d3 == 0xA && d4 == 0x1 {
        ProcessorInstruction::SkipIfKeyIsNotPressed { vx: d2 }
    } else if d1 == 0xF && d3 == 0x0 && d4 == 0x7 {
        ProcessorInstruction::SetVXToDelayTimer { vx: d2 }
    } else if d1 == 0xF && d3 == 0x0 && d4 == 0xA {
        ProcessorInstruction::GetKeyBlocking { vx: d2 }
    } else if d1 == 0xF && d3 == 0x1 && d4 == 0x5 {
        ProcessorInstruction::SetDelayTimer { vx: d2 }
    } else if d1 == 0xF && d3 == 0x1 && d4 == 0x8 {
        ProcessorInstruction::SetSoundTimer { vx: d2 }
    } else if d1 == 0xF && d3 == 0x1 && d4 == 0xE {
        ProcessorInstruction::AddToIndex { vx: d2 }
    } else if d1 == 0xF && d3 == 0x2 && d4 == 0x9 {
        ProcessorInstruction::FontCharacter { vx: d2 }
    } else if d1 == 0xF && d3 == 0x3 && d4 == 0x3 {
        ProcessorInstruction::BinaryCodedDecimalConversion { vx: d2 }
    } else if d1 == 0xF && d3 == 0x5 && d4 == 0x5 {
        ProcessorInstruction::StoreMemory { vx: d2 }
    } else if d1 == 0xF && d3 == 0x6 && d4 == 0x5 {
        ProcessorInstruction::LoadMemory { vx: d2 }
    } else {
        ProcessorInstruction::UnknownInstruction
    }
}

/// Every register index carried by a decoded instruction selects one of the
/// sixteen registers, every address fits in twelve bits and every row count
/// fits in a nibble.
pub open spec fn instruction_operands_bounded(pi: ProcessorInstruction) -> bool {
    match pi {
        ProcessorInstruction::ClearScreen => true,
        ProcessorInstruction::Jump { address } => address <= 0xFFF,
        ProcessorInstruction::SetRegister { register, data } => register <= 0xF,
        ProcessorInstruction::AddValueToRegister { register, value } => register <= 0xF,
        ProcessorInstruction::SetIndexRegister { data } => data <= 0xFFF,
        ProcessorInstruction::Draw { vx, vy, rows } => vx <= 0xF && vy <= 0xF && rows <= 0xF,
        ProcessorInstruction::Call { address } => address <= 0xFFF,
        ProcessorInstruction::Return => true,
        ProcessorInstruction::SetVXToVY { vx, vy } => vx <= 0xF && vy <= 0xF,
        ProcessorInstruction::BinaryOr { vx, vy } => vx <= 0xF && vy <= 0xF,
        ProcessorInstruction::BinaryAnd { vx, vy } => vx <= 0xF && vy <= 0xF,
        ProcessorInstruction::BinaryXor { vx, vy } => vx <= 0xF && vy <= 0xF,
        ProcessorInstruction::Add { vx, vy } => vx <= 0xF && vy <= 0xF,
        ProcessorInstruction::SubtractVX { vx, vy } => vx <= 0xF && vy <= 0xF,
        ProcessorInstruction::SubtractVY { vx, vy } => vx <= 0xF && vy <= 0xF,
        ProcessorInstruction::ShiftRight { vx, vy } => vx <= 0xF && vy <= 0xF,
        ProcessorInstruction::ShiftLeft { vx, vy } => vx <= 0xF && vy <= 0xF,
        ProcessorInstruction::JumpWithOffset { address } => address <= 0xFFF,
        ProcessorInstruction::GenerateRandomNumber { vx, mask } => vx <= 0xF,
        ProcessorInstruction::SkipEqualVXData { vx, data } => vx <= 0xF,
        ProcessorInstruction::SkipNotEqualVXData { vx, data } => vx <= 0xF,
        ProcessorInstruction::SkipEqualVXVY { vx, vy } => vx <= 0xF && vy <= 0xF,
        ProcessorInstruction::SkipNotEqualVXVY { vx, vy } => vx <= 0xF && vy <= 0xF,
        ProcessorInstruction::SetVXToDelayTimer { vx } => vx <= 0xF,
        ProcessorInstruction::SetDelayTimer { vx } => vx <= 0xF,
        ProcessorInstruction::SetSoundTimer { vx } => vx <= 0xF,
        ProcessorInstruction::AddToIndex { vx } => vx <= 0xF,
        ProcessorInstruction::FontCharacter { vx } => vx <= 0xF,
        ProcessorInstruction::BinaryCodedDecimalConversion { vx } => vx <= 0xF,
        ProcessorInstruction::StoreMemory { vx } => vx <= 0xF,
        ProcessorInstruction::LoadMemory { vx } => vx <= 0xF,
        ProcessorInstruction::GetKeyBlocking { vx } => vx <= 0xF,
        ProcessorInstruction::SkipIfKeyIsPressed { vx } => vx <= 0xF,
        ProcessorInstruction::SkipIfKeyIsNotPressed { vx } => vx <= 0xF,
        ProcessorInstruction::UnknownInstruction => true,
    }
}

/// The nibble and byte fields extracted from an opcode word stay within
/// their widths.
pub proof fn lemma_field_bounds(data: u16)
    ensures
        zeroth_nibble(data) <= 0xF,
        first_nibble(data) <= 0xF,
        middle_nibble(data) <= 0xF,
        last_nibble(data) <= 0xF,
        inner_data(data) <= 0xFFF,
{
    assert(((data & 0xF000) >> 12) <= 0xF) by (bit_vector);
    assert(((data & 0x0F00) >> 8) <= 0xF) by (bit_vector);
    assert(((data & 0x00F0) >> 4) <= 0xF) by (bit_vector);
    assert((data & 0x000F) <= 0xF) by (bit_vector);
    assert((data & 0x0FFF) <= 0xFFF) by (bit_vector);
}

/// Decoding keeps every operand within its width.
pub proof fn lemma_decode_operands_bounded(data: u16)
    ensures
        instruction_operands_bounded(decode(data)),
{
    lemma_field_bounds(data);
}

/// Decoding is pure and deterministic: the same opcode word always decodes
/// to the same tagged variant.
pub proof fn lemma_decode_deterministic(first: u16, second: u16)
    requires
        first == second,
    ensures
        decode(first) == decode(second),
{
}

/// A fetched instruction: the raw opcode word together with its decoded
/// meaning.
#[derive(Debug, Clone, Copy)]
pub struct Instruction {
    data: u16,
    processor_instruction: ProcessorInstruction,
}

impl Instruction {
    /// The raw opcode word, as a spec-level projection.
    pub closed spec fn spec_raw(self) -> u16 {
        self.data
    }

    /// The decoded meaning, as a spec-level projection.
    pub closed spec fn spec_instruction(self) -> ProcessorInstruction {
        self.processor_instruction
    }

    /// The decoded field always agrees with the raw word.
    pub open spec fn wf(self) -> bool {
        self.spec_instruction() == decode(self.spec_raw())
    }

    /// Creates a new instruction instance from the two bytes of the opcode
    /// word, high byte first.
    pub fn new(data: [u8; 2]) -> (r: Self)
        ensures
            r.spec_raw() == opcode_word(data@[0], data@[1]),
            r.wf(),
    {
        let word: u16 = ((data[0] as u16) << 8) | (data[1] as u16);
        Instruction { data: word, processor_instruction: Self::decode_instruction(word) }
    }

    /// raw returns the raw instruction data.
    pub fn raw(&self) -> (r: u16)
        ensures
            r == self.spec_raw(),
    {
        self.data
    }

    /// Returns the processor instruction.
    pub fn processor_instruction(&self) -> (r: ProcessorInstruction)
        ensures
            r == self.spec_instruction(),
    {
        self.processor_instruction
    }

    /// Decodes the raw instruction data into a processor instruction.
    pub fn decode_instruction(data: u16) -> (r: ProcessorInstruction)
        ensures
            r == decode(data),
    {
        let digit1 = Self::grab_zeroth_nibble(data);
        let digit2 = Self::grab_first_nibble(data);
        let digit3 = Self::grab_middle_nibble(data);
        let digit4 = Self::grab_last_nibble(data);
        match (digit1, digit2, digit3, digit4) {
            (0x0, 0x0, 0xE, 0x0) => ProcessorInstruction::ClearScreen,
            (0x0, 0x0, 0xE, 0xE) => ProcessorInstruction::Return,
            (0x1, _, _, _) => ProcessorInstruction::Jump {
                address: Self::grab_inner_data(data),
            },
            (0x2, _, _, _) => ProcessorInstruction::Call {
                address: Self::grab_inner_data(data),
            },
            (0x3, _, _, _) => ProcessorInstruction::SkipEqualVXData {
                vx: digit2,
                data: Self::grab_last_byte(data),
            },
            (0x4, _, _, _) => ProcessorInstruction::SkipNotEqualVXData {
                vx: digit2,
                data: Self::grab_last_byte(data),
            },
            (0x5, _, _, 0x0) => ProcessorInstruction::SkipEqualVXVY { vx: digit2, vy: digit3 },
            (0x6, _, _, _) => ProcessorInstruction::SetRegister {
                register: digit2,
                data: Self::grab_last_byte(data),
            },
            (0x7, _, _, _) => ProcessorInstruction::AddValueToRegister {
                register: digit2,
                value: Self::grab_last_byte(data),
            },
            (0x8, _, _, 0x0) => ProcessorInstruction::SetVXToVY { vx: digit2, vy: digit3 },
            (0x8, _, _, 0x1) => ProcessorInstruction::BinaryOr { vx: digit2, vy: digit3 },
            (0x8, _, _, 0x2) => ProcessorInstruction::BinaryAnd { vx: digit2, vy: digit3 },
            (0x8, _, _, 0x3) => ProcessorInstruction::BinaryXor { vx: digit2, vy: digit3 },
            (0x8, _, _, 0x4) => ProcessorInstruction::Add { vx: digit2, vy: digit3 },
            (0x8, _, _, 0x5) => ProcessorInstruction::SubtractVX { vx: digit2, vy: digit3 },
            (0x8, _, _, 0x6) => ProcessorInstruction::ShiftRight { vx: digit2, vy: digit3 },
            (0x8, _, _, 0x7) => ProcessorInstruction::SubtractVY { vx: digit2, vy: digit3 },
            (0x8, _, _, 0xE) => ProcessorInstruction::ShiftLeft { vx: digit2, vy: digit3 },
            (0x9, _, _, 0x0) => ProcessorInstruction::SkipNotEqualVXVY { vx: digit2, vy: digit3 },
            (0xA, _, _, _) => ProcessorInstruction::SetIndexRegister {
                data: Self::grab_inner_data(data),
            },
            (0xB, _, _, _) => ProcessorInstruction::JumpWithOffset {
                address: Self::grab_inner_data(data),
            },
            (0xC, _, _, _) => ProcessorInstruction::GenerateRandomNumber {
                vx: digit2,
                mask: Self::grab_last_byte(data),
            },
            (0xD, _, _, _) => ProcessorInstruction::Draw {
                vx: digit2,
                vy: digit3,
                rows: digit4,
            },
            (0xE, _, 0x9, 0xE) => ProcessorInstruction::SkipIfKeyIsPressed { vx: digit2 },
            (0xE, _, 0xA, 0x1) => ProcessorInstruction::SkipIfKeyIsNotPressed { vx: digit2 },
            (0xF, _, 0x0, 0x7) => ProcessorInstruction::SetVXToDelayTimer { vx: digit2 },
            (0xF, _, 0x0, 0xA) => ProcessorInstruction::GetKeyBlocking { vx: digit2 },
            (0xF, _, 0x1, 0x5) => ProcessorInstruction::SetDelayTimer { vx: digit2 },
            (0xF, _, 0x1, 0x8) => ProcessorInstruction::SetSoundTimer { vx: digit2 },
            (0xF, _, 0x1, 0xE) => ProcessorInstruction::AddToIndex { vx: digit2 },
            (0xF, _, 0x2, 0x9) => ProcessorInstruction::FontCharacter { vx: digit2 },
            (0xF, _, 0x3, 0x3) => ProcessorInstruction::BinaryCodedDecimalConversion {
                vx: digit2,
            },
            (0xF, _, 0x5, 0x5) => ProcessorInstruction::StoreMemory { vx: digit2 },
            (0xF, _, 0x6, 0x5) => ProcessorInstruction::LoadMemory { vx: digit2 },
            _ => ProcessorInstruction::UnknownInstruction,
        }
    }

    /// Grabs the inner data from the data, ignores the opcode.
    fn grab_inner_data(data: u16) -> (r: u16)
        ensures
            r == inner_data(data),
    {
        data & 0x0FFF
    }

    /// Grabs the last byte from the data.
    fn grab_last_byte(data: u16) -> (r: u8)
        ensures
            r == last_byte(data),
    {
        (data & 0x00FF) as u8
    }

    /// Grabs the zeroth nibble from the data.
    fn grab_zeroth_nibble(data: u16) -> (r: u8)
        ensures
            r == zeroth_nibble(data),
    {
        ((data & 0xF000) >> 12) as u8
    }

    /// Grabs the first nibble from the data.
    fn grab_first_nibble(data: u16) -> (r: u8)
        ensures
            r == first_nibble(data),
    {
        ((data & 0x0F00) >> 8) as u8
    }

    /// Grabs the middle nibble from the data.
    fn grab_middle_nibble(data: u16) -> (r: u8)
        ensures
            r == middle_nibble(data),
    {
        ((data & 0x00F0) >> 4) as u8
    }

    /// Grabs the last nibble from the data.
    fn grab_last_nibble(data: u16) -> (r: u8)
        ensures
            r == last_nibble(data),
    {
        (data & 0x000F) as u8
    }
}

impl PartialEq<u16> for Instruction {
    fn eq(&self, other: &u16) -> (r: bool)
        ensures
            r == (self.spec_raw() == *other),
    {
        self.data == *other
    }
}

impl vstd::std_specs::cmp::PartialEqSpecImpl<u16> for Instruction {
    open spec fn obeys_eq_spec() -> bool {
        true
    }

    open spec fn eq_spec(&self, other: &u16) -> bool {
        self.spec_raw() == *other
    }
}

} // verus!
