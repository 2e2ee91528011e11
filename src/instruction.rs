//! Decoding of 16-bit instruction words into tagged operations.
use vstd::prelude::*;

verus! {

/// One decoded instruction. `x` and `y` name registers, `nn` is a byte
/// immediate, `n` a nibble and `nnn` a 12-bit address.
#[derive(Debug, Clone, Copy, PartialEq, Eq, Structural)]
pub enum Instruction {
    /// 00E0
    Clear,
    /// 00EE
    Return,
    /// 1nnn
    Jump { nnn: u16 },
    /// 2nnn
    Call { nnn: u16 },
    /// 3xnn
    SkipEqByte { x: u8, nn: u8 },
    /// 4xnn
    SkipNeByte { x: u8, nn: u8 },
    /// 5xy0
    SkipEqReg { x: u8, y: u8 },
    /// 6xnn
    LoadByte { x: u8, nn: u8 },
    /// 7xnn
    AddByte { x: u8, nn: u8 },
    /// 8xy0
    Move { x: u8, y: u8 },
    /// 8xy1
    Or { x: u8, y: u8 },
    /// 8xy2
    And { x: u8, y: u8 },
    /// 8xy3
    Xor { x: u8, y: u8 },
    /// 8xy4
    Add { x: u8, y: u8 },
    /// 8xy5
    Sub { x: u8, y: u8 },
    /// 8xy6
    ShiftRight { x: u8, y: u8 },
    /// 8xy7
    SubReverse { x: u8, y: u8 },
    /// 8xyE
    ShiftLeft { x: u8, y: u8 },
    /// 9xy0
    SkipNeReg { x: u8, y: u8 },
    /// Annn
    LoadIndex { nnn: u16 },
    /// Bnnn
    JumpOffset { nnn: u16 },
    /// Cxnn
    Random { x: u8, nn: u8 },
    /// Dxyn
    Draw { x: u8, y: u8, n: u8 },
    /// Ex9E
    SkipKeyPressed { x: u8 },
    /// ExA1
    SkipKeyReleased { x: u8 },
    /// Fx07
    ReadDelay { x: u8 },
    /// Fx0A
    WaitKey { x: u8 },
    /// Fx15
    SetDelay { x: u8 },
    /// Fx18
    SetSound { x: u8 },
    /// Fx1E
    AddIndex { x: u8 },
    /// Fx29
    FontChar { x: u8 },
    /// Fx33
    StoreBcd { x: u8 },
    /// Fx55
    StoreRegs { x: u8 },
    /// Fx65
    LoadRegs { x: u8 },
}

/// The instruction that the word `op` encodes, if any.
pub open spec fn decoded(op: u16) -> Option<Instruction> {
    let family = op >> 12u16;
    let x = ((op >> 8u16) & 0xFu16) as u8;
    let y = ((op >> 4u16) & 0xFu16) as u8;
    let n = (op & 0xFu16) as u8;
    let nn = (op & 0xFFu16) as u8;
    let nnn = op & 0xFFFu16;
    if family == 0 {
        if op == 0x00E0 {
            Some(Instruction::Clear)
        } else if op == 0x00EE {
            Some(Instruction::Return)
        } else {
            None
        }
    } else if family == 1 {
        Some(Instruction::Jump { nnn })
    } else if family == 2 {
        Some(Instruction::Call { nnn })
    } else if family == 3 {
        Some(Instruction::SkipEqByte { x, nn })
    } else if family == 4 {
        Some(Instruction::SkipNeByte { x, nn })
    } else if family == 5 {
        if n == 0 { Some(Instruction::SkipEqReg { x, y }) } else { None }
    } else if family == 6 {
        Some(Instruction::LoadByte { x, nn })
    } else if family == 7 {
        Some(Instruction::AddByte { x, nn })
    } else if family == 8 {
        if n == 0 {
            Some(Instruction::Move { x, y })
        } else if n == 1 {
            Some(Instruction::Or { x, y })
        } else if n == 2 {
            Some(Instruction::And { x, y })
        } else if n == 3 {
            Some(Instruction::Xor { x, y })
        } else if n == 4 {
            Some(Instruction::Add { x, y })
        } else if n == 5 {
            Some(Instruction::Sub { x, y })
        } else if n == 6 {
            Some(Instruction::ShiftRight { x, y })
        } else if n == 7 {
            Some(Instruction::SubReverse { x, y })
        } else if n == 0xE {
            Some(Instruction::ShiftLeft { x, y })
        } else {
            None
        }
    } else if family == 9 {
        if n == 0 { Some(Instruction::SkipNeReg { x, y }) } else { None }
    } else if family == 0xA {
        Some(Instruction::LoadIndex { nnn })
    } else if family == 0xB {
        Some(Instruction::JumpOffset { nnn })
    } else if family == 0xC {
        Some(Instruction::Random { x, nn })
    } else if family == 0xD {
        Some(Instruction::Draw { x, y, n })
    } else if family == 0xE {
        if nn == 0x9E {
            Some(Instruction::SkipKeyPressed { x })
        } else if nn == 0xA1 {
            Some(Instruction::SkipKeyReleased { x })
        } else {
            None
        }
    } else {
        if nn == 0x07 {
            Some(Instruction::ReadDelay { x })
        } else if nn == 0x0A {
            Some(Instruction::WaitKey { x })
        } else if nn == 0x15 {
            Some(Instruction::SetDelay { x })
        } else if nn == 0x18 {
            Some(Instruction::SetSound { x })
        } else if nn == 0x1E {
            Some(Instruction::AddIndex { x })
        } else if nn == 0x29 {
            Some(Instruction::FontChar { x })
        } else if nn == 0x33 {
            Some(Instruction::StoreBcd { x })
        } else if nn == 0x55 {
            Some(Instruction::StoreRegs { x })
        } else if nn == 0x65 {
            Some(Instruction::LoadRegs { x })
        } else {
            None
        }
    }
}

/// Whether every register operand of `ins` is one of the sixteen registers.
pub open spec fn operands_in_range(ins: Instruction) -> bool {
    match ins {
        Instruction::Clear | Instruction::Return | Instruction::Jump { .. } | Instruction::Call { .. }
        | Instruction::LoadIndex { .. } | Instruction::JumpOffset { .. } => true,
        Instruction::SkipEqReg { x, y } | Instruction::Move { x, y } | Instruction::Or { x, y }
        | Instruction::And { x, y } | Instruction::Xor { x, y } | Instruction::Add { x, y }
        | Instruction::Sub { x, y } | Instruction::ShiftRight { x, y } | Instruction::SubReverse { x, y }
        | Instruction::ShiftLeft { x, y } | Instruction::SkipNeReg { x, y } => x < 16 && y < 16,
        Instruction::Draw { x, y, n } => x < 16 && y < 16 && n < 16,
        Instruction::SkipEqByte { x, .. } | Instruction::SkipNeByte { x, .. }
        | Instruction::LoadByte { x, .. } | Instruction::AddByte { x, .. }
        | Instruction::Random { x, .. } | Instruction::SkipKeyPressed { x }
        | Instruction::SkipKeyReleased { x } | Instruction::ReadDelay { x } | Instruction::WaitKey { x }
        | Instruction::SetDelay { x } | Instruction::SetSound { x } | Instruction::AddIndex { x }
        | Instruction::FontChar { x } | Instruction::StoreBcd { x } | Instruction::StoreRegs { x }
        | Instruction::LoadRegs { x } => x < 16,
    }
}

/// Every field taken from an instruction word is a nibble, a byte or 12 bits wide.
pub proof fn lemma_decoded_operands(op: u16)
    ensures
        decoded(op) is Some ==> operands_in_range(decoded(op)->0),
        decoded(op) matches Some(Instruction::Jump { nnn }) ==> nnn <= 0xFFF,
        decoded(op) matches Some(Instruction::Call { nnn }) ==> nnn <= 0xFFF,
        decoded(op) matches Some(Instruction::LoadIndex { nnn }) ==> nnn <= 0xFFF,
        decoded(op) matches Some(Instruction::JumpOffset { nnn }) ==> nnn <= 0xFFF,
{
    assert(((op >> 8u16) & 0xFu16) < 16) by (bit_vector);
    assert(((op >> 4u16) & 0xFu16) < 16) by (bit_vector);
    assert((op & 0xFu16) < 16) by (bit_vector);
    assert((op & 0xFFFu16) <= 0xFFF) by (bit_vector);
}

/// Decodes the instruction word `op`, or `None` where it matches no instruction.
pub fn decode(op: u16) -> (r: Option<Instruction>)
    ensures
        r == decoded(op),
        r is Some ==> operands_in_range(r->0),
{
    proof {
        lemma_decoded_operands(op);
    }
    let family = op >> 12u16;
    let x = ((op >> 8u16) & 0xFu16) as u8;
    let y = ((op >> 4u16) & 0xFu16) as u8;
    let n = (op & 0xFu16) as u8;
    let nn = (op & 0xFFu16) as u8;
    let nnn = op & 0xFFFu16;
    match family {
        0 => {
            if op == 0x00E0 {
                Some(Instruction::Clear)
            } else if op == 0x00EE {
                Some(Instruction::Return)
            } else {
                None
            }
        },
        1 => Some(Instruction::Jump { nnn }),
        2 => Some(Instruction::Call { nnn }),
        3 => Some(Instruction::SkipEqByte { x, nn }),
        4 => Some(Instruction::SkipNeByte { x, nn }),
        5 => if n == 0 { Some(Instruction::SkipEqReg { x, y }) } else { None },
        6 => Some(Instruction::LoadByte { x, nn }),
        7 => Some(Instruction::AddByte { x, nn }),
        8 => match n {
            0 => Some(Instruction::Move { x, y }),
            1 => Some(Instruction::Or { x, y }),
            2 => Some(Instruction::And { x, y }),
            3 => Some(Instruction::Xor { x, y }),
            4 => Some(Instruction::Add { x, y }),
            5 => Some(Instruction::Sub { x, y }),
            6 => Some(Instruction::ShiftRight { x, y }),
            7 => Some(Instruction::SubReverse { x, y }),
            0xE => Some(Instruction::ShiftLeft { x, y }),
            _ => None,
        },
        9 => if n == 0 { Some(Instruction::SkipNeReg { x, y }) } else { None },
        0xA => Some(Instruction::LoadIndex { nnn }),
        0xB => Some(Instruction::JumpOffset { nnn }),
        0xC => Some(Instruction::Random { x, nn }),
        0xD => Some(Instruction::Draw { x, y, n }),
        0xE => match nn {
            0x9E => Some(Instruction::SkipKeyPressed { x }),
            0xA1 => Some(Instruction::SkipKeyReleased { x }),
            _ => None,
        },
        _ => match nn {
            0x07 => Some(Instruction::ReadDelay { x }),
            0x0A => Some(Instruction::WaitKey { x }),
            0x15 => Some(Instruction::SetDelay { x }),
            0x18 => Some(Instruction::SetSound { x }),
            0x1E => Some(Instruction::AddIndex { x }),
            0x29 => Some(Instruction::FontChar { x }),
            0x33 => Some(Instruction::StoreBcd { x }),
            0x55 => Some(Instruction::StoreRegs { x }),
            0x65 => Some(Instruction::LoadRegs { x }),
            _ => None,
        },
    }
}

} // verus!
