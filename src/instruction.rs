use vstd::prelude::*;

verus! {

/// One decoded CHIP-8 instruction. `x` and `y` name V-registers (0..=15),
/// `nn` is the low byte of the word, `addr` its low twelve bits.
#[derive(Clone, Copy, Debug, PartialEq, Eq, Structural)]
pub enum Instruction {
    /// 0x0000
    Nop,
    /// 0x00E0
    ClearScreen,
    /// 0x00EE
    Return,
    /// 0x1NNN
    Jump { addr: u16 },
    /// 0x2NNN
    Call { addr: u16 },
    /// 0x3XNN
    SkipEqByte { x: usize, nn: u8 },
    /// 0x4XNN
    SkipNeByte { x: usize, nn: u8 },
    /// 0x5XY0
    SkipEqReg { x: usize, y: usize },
    /// 0x6XNN
    LoadByte { x: usize, nn: u8 },
    /// 0x7XNN
    AddByte { x: usize, nn: u8 },
    /// 0x8XY0
    Move { x: usize, y: usize },
    /// 0x8XY1
    Or { x: usize, y: usize },
    /// 0x8XY2
    And { x: usize, y: usize },
    /// 0x8XY3
    Xor { x: usize, y: usize },
    /// 0x8XY4
    AddReg { x: usize, y: usize },
    /// 0x8XY5
    SubReg { x: usize, y: usize },
    /// 0x8XY6
    ShiftRight { x: usize },
    /// 0x8XY7
    SubRev { x: usize, y: usize },
    /// 0x8XYE
    ShiftLeft { x: usize },
    /// 0x9XY0
    SkipNeReg { x: usize, y: usize },
    /// 0xANNN
    LoadIndex { addr: u16 },
    /// 0xBNNN
    JumpOffset { addr: u16 },
    /// 0xCXNN
    Random { x: usize, nn: u8 },
    /// 0xDXYN
    Draw { x: usize, y: usize, n: u8 },
    /// 0xEX9E
    SkipKeyDown { x: usize },
    /// 0xEXA1
    SkipKeyUp { x: usize },
    /// 0xFX07
    ReadDelay { x: usize },
    /// 0xFX0A
    WaitKey { x: usize },
    /// 0xFX15
    SetDelay { x: usize },
    /// 0xFX18
    SetSound { x: usize },
    /// 0xFX1E
    AddIndex { x: usize },
    /// 0xFX29
    FontGlyph { x: usize },
    /// 0xFX33
    StoreBcd { x: usize },
    /// 0xFX55
    StoreRegs { x: usize },
    /// 0xFX65
    LoadRegs { x: usize },
    /// Any word that names no instruction.
    Unknown { op: u16 },
}

/// The four nibbles of an instruction word, most significant first.
pub open spec fn nibble(op: u16, k: int) -> u16 {
    if k == 0 {
        (op >> 12u16) & 0xFu16
    } else if k == 1 {
        (op >> 8u16) & 0xFu16
    } else if k == 2 {
        (op >> 4u16) & 0xFu16
    } else {
        op & 0xFu16
    }
}

/// The instruction that a word encodes, by the CHIP-8 opcode table.
/// `8XY1` and `9XY0` read their second register from the third nibble.
pub open spec fn decode_spec(op: u16) -> Instruction {
    let d1 = nibble(op, 0);
    let d2 = nibble(op, 1);
    let d3 = nibble(op, 2);
    let d4 = nibble(op, 3);
    let x = d2 as usize;
    let y = d3 as usize;
    let nn = (op & 0xFFu16) as u8;
    let addr = op & 0xFFFu16;
    if op == 0x0000 {
        Instruction::Nop
    } else if op == 0x00E0 {
        Instruction::ClearScreen
    } else if op == 0x00EE {
        Instruction::Return
    } else if d1 == 1 {
        Instruction::Jump { addr }
    } else if d1 == 2 {
        Instruction::Call { addr }
    } else if d1 == 3 {
        Instruction::SkipEqByte { x, nn }
    } else if d1 == 4 {
        Instruction::SkipNeByte { x, nn }
    } else if d1 == 5 && d4 == 0 {
        Instruction::SkipEqReg { x, y }
    } else if d1 == 6 {
        Instruction::LoadByte { x, nn }
    } else if d1 == 7 {
        Instruction::AddByte { x, nn }
    } else if d1 == 8 && d4 == 0 {
        Instruction::Move { x, y }
    } else if d1 == 8 && d4 == 1 {
        Instruction::Or { x, y }
    } else if d1 == 8 && d4 == 2 {
        Instruction::And { x, y }
    } else if d1 == 8 && d4 == 3 {
        Instruction::Xor { x, y }
    } else if d1 == 8 && d4 == 4 {
        Instruction::AddReg { x, y }
    } else if d1 == 8 && d4 == 5 {
        Instruction::SubReg { x, y }
    } else if d1 == 8 && d4 == 6 {
        Instruction::ShiftRight { x }
    } else if d1 == 8 && d4 == 7 {
        Instruction::SubRev { x, y }
    } else if d1 == 8 && d4 == 0xE {
        Instruction::ShiftLeft { x }
    } else if d1 == 9 && d4 == 0 {
        Instruction::SkipNeReg { x, y }
    } else if d1 == 0xA {
        Instruction::LoadIndex { addr }
    } else if d1 == 0xB {
        Instruction::JumpOffset { addr }
    } else if d1 == 0xC {
        Instruction::Random { x, nn }
    } else if d1 == 0xD {
        Instruction::Draw { x, y, n: d4 as u8 }
    } else if d1 == 0xE && d3 == 9 && d4 == 0xE {
        Instruction::SkipKeyDown { x }
    } else if d1 == 0xE && d3 == 0xA && d4 == 1 {
        Instruction::SkipKeyUp { x }
    } else if d1 == 0xF && d3 == 0 && d4 == 7 {
        Instruction::ReadDelay { x }
    } else if d1 == 0xF && d3 == 0 && d4 == 0xA {
        Instruction::WaitKey { x }
    } else if d1 == 0xF && d3 == 1 && d4 == 5 {
        Instruction::SetDelay { x }
    } else if d1 == 0xF && d3 == 1 && d4 == 8 {
        Instruction::SetSound { x }
    } else if d1 == 0xF && d3 == 1 && d4 == 0xE {
        Instruction::AddIndex { x }
    } else if d1 == 0xF && d3 == 2 && d4 == 9 {
        Instruction::FontGlyph { x }
    } else if d1 == 0xF && d3 == 3 && d4 == 3 {
        Instruction::StoreBcd { x }
    } else if d1 == 0xF && d3 == 5 && d4 == 5 {
        Instruction::StoreRegs { x }
    } else if d1 == 0xF && d3 == 6 && d4 == 5 {
        Instruction::LoadRegs { x }
    } else {
        Instruction::Unknown { op }
    }
}

/// Every register index that a decoded instruction names is below 16, and
/// every address fits in twelve bits.
pub open spec fn operands_in_range(ins: Instruction) -> bool {
    match ins {
        Instruction::SkipEqByte { x, .. } | Instruction::SkipNeByte { x, .. }
        | Instruction::LoadByte { x, .. } | Instruction::AddByte { x, .. }
        | Instruction::Random { x, .. } | Instruction::ShiftRight { x }
        | Instruction::ShiftLeft { x } | Instruction::SkipKeyDown { x }
        | Instruction::SkipKeyUp { x } | Instruction::ReadDelay { x }
        | Instruction::WaitKey { x } | Instruction::SetDelay { x }
        | Instruction::SetSound { x } | Instruction::AddIndex { x }
        | Instruction::FontGlyph { x } | Instruction::StoreBcd { x }
        | Instruction::StoreRegs { x } | Instruction::LoadRegs { x } => x < 16,
        Instruction::SkipEqReg { x, y } | Instruction::Move { x, y }
        | Instruction::Or { x, y } | Instruction::And { x, y }
        | Instruction::Xor { x, y } | Instruction::AddReg { x, y }
        | Instruction::SubReg { x, y } | Instruction::SubRev { x, y }
        | Instruction::SkipNeReg { x, y } => x < 16 && y < 16,
        Instruction::Draw { x, y, n } => x < 16 && y < 16 && n < 16,
        Instruction::Jump { addr } | Instruction::Call { addr }
        | Instruction::LoadIndex { addr } | Instruction::JumpOffset { addr } => addr < 0x1000,
        _ => true,
    }
}

/// Splits an instruction word into its nibbles and names the instruction.
pub fn decode(op: u16) -> (r: Instruction)
    ensures
        r == decode_spec(op),
        operands_in_range(r),
{
    let d1 = (op >> 12u16) & 0xFu16;
    let d2 = (op >> 8u16) & 0xFu16;
    let d3 = (op >> 4u16) & 0xFu16;
    let d4 = op & 0xFu16;
    assert(d1 < 16 && d2 < 16 && d3 < 16 && d4 < 16 && (d1 == 0) == (op < 0x1000u16)
        && op & 0xFFu16 < 256 && op & 0xFFFu16 < 0x1000) by (bit_vector)
        requires
            d1 == (op >> 12u16) & 0xFu16,
            d2 == (op >> 8u16) & 0xFu16,
            d3 == (op >> 4u16) & 0xFu16,
            d4 == op & 0xFu16,
    ;
    let x = d2 as usize;
    let y = d3 as usize;
    let nn = (op & 0xFFu16) as u8;
    let addr = op & 0xFFFu16;
    match (d1, d4) {
        (0, _) => {
            if op == 0x0000 {
                Instruction::Nop
            } else if op == 0x00E0 {
                Instruction::ClearScreen
            } else if op == 0x00EE {
                Instruction::Return
            } else {
                Instruction::Unknown { op }
            }
        },
        (1, _) => Instruction::Jump { addr },
        (2, _) => Instruction::Call { addr },
        (3, _) => Instruction::SkipEqByte { x, nn },
        (4, _) => Instruction::SkipNeByte { x, nn },
        (5, 0) => Instruction::SkipEqReg { x, y },
        (6, _) => Instruction::LoadByte { x, nn },
        (7, _) => Instruction::AddByte { x, nn },
        (8, 0) => Instruction::Move { x, y },
        (8, 1) => Instruction::Or { x, y },
        (8, 2) => Instruction::And { x, y },
        (8, 3) => Instruction::Xor { x, y },
        (8, 4) => Instruction::AddReg { x, y },
        (8, 5) => Instruction::SubReg { x, y },
        (8, 6) => Instruction::ShiftRight { x },
        (8, 7) => Instruction::SubRev { x, y },
        (8, 0xE) => Instruction::ShiftLeft { x },
        (9, 0) => Instruction::SkipNeReg { x, y },
        (0xA, _) => Instruction::LoadIndex { addr },
        (0xB, _) => Instruction::JumpOffset { addr },
        (0xC, _) => Instruction::Random { x, nn },
        (0xD, _) => Instruction::Draw { x, y, n: d4 as u8 },
        (0xE, 0xE) if d3 == 9 => Instruction::SkipKeyDown { x },
        (0xE, 1) if d3 == 0xA => Instruction::SkipKeyUp { x },
        (0xF, 7) if d3 == 0 => Instruction::ReadDelay { x },
        (0xF, 0xA) if d3 == 0 => Instruction::WaitKey { x },
        (0xF, 5) if d3 == 1 => Instruction::SetDelay { x },
        (0xF, 8) if d3 == 1 => Instruction::SetSound { x },
        (0xF, 0xE) if d3 == 1 => Instruction::AddIndex { x },
        (0xF, 9) if d3 == 2 => Instruction::FontGlyph { x },
        (0xF, 3) if d3 == 3 => Instruction::StoreBcd { x },
        (0xF, 5) if d3 == 5 => Instruction::StoreRegs { x },
        (0xF, 5) if d3 == 6 => Instruction::LoadRegs { x },
        _ => Instruction::Unknown { op },
    }
}

} // verus!
