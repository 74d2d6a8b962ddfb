use vstd::prelude::*;

verus! {

/// One decoded instruction. `x` and `y` name registers, `kk` is an 8-bit
/// immediate, `nnn` a 12-bit address and `n` a sprite height.
#[derive(Clone, Copy, Debug, PartialEq, Eq, Structural)]
pub enum Instruction {
    ClearScreen,
    Return,
    Jump { nnn: u16 },
    Call { nnn: u16 },
    SkipEqImm { x: u8, kk: u8 },
    SkipNeImm { x: u8, kk: u8 },
    SkipEqReg { x: u8, y: u8 },
    LoadImm { x: u8, kk: u8 },
    AddImm { x: u8, kk: u8 },
    Copy { x: u8, y: u8 },
    Or { x: u8, y: u8 },
    And { x: u8, y: u8 },
    Xor { x: u8, y: u8 },
    Add { x: u8, y: u8 },
    Sub { x: u8, y: u8 },
    ShiftRight { x: u8 },
    SubFrom { x: u8, y: u8 },
    ShiftLeft { x: u8 },
    SkipNeReg { x: u8, y: u8 },
    LoadIndex { nnn: u16 },
    JumpOffset { nnn: u16 },
    Random { x: u8, kk: u8 },
    Draw { x: u8, y: u8, n: u8 },
    SkipKey { x: u8 },
    SkipNoKey { x: u8 },
    ReadDelay { x: u8 },
    WaitKey { x: u8 },
    SetDelay { x: u8 },
    SetSound { x: u8 },
    AddIndex { x: u8 },
    Glyph { x: u8 },
    Bcd { x: u8 },
    StoreRegs { x: u8 },
    LoadRegs { x: u8 },
    Unknown,
}

/// The instruction that the word `op` encodes, by its four nibbles.
pub open spec fn decode_spec(op: u16) -> Instruction {
    let a = op / 4096;
    let x = ((op / 256) % 16) as u8;
    let y = ((op / 16) % 16) as u8;
    let n = (op % 16) as u8;
    let kk = (op % 256) as u8;
    let nnn = op % 4096;
    if a == 0 {
        if op == 0x00E0 {
            Instruction::ClearScreen
        } else if op == 0x00EE {
            Instruction::Return
        } else {
            Instruction::Unknown
        }
    } else if a == 1 {
        Instruction::Jump { nnn }
    } else if a == 2 {
        Instruction::Call { nnn }
    } else if a == 3 {
        Instruction::SkipEqImm { x, kk }
    } else if a == 4 {
        Instruction::SkipNeImm { x, kk }
    } else if a == 5 {
        if n == 0 { Instruction::SkipEqReg { x, y } } else { Instruction::Unknown }
    } else if a == 6 {
        Instruction::LoadImm { x, kk }
    } else if a == 7 {
        Instruction::AddImm { x, kk }
    } else if a == 8 {
        if n == 0 {
            Instruction::Copy { x, y }
        } else if n == 1 {
            Instruction::Or { x, y }
        } else if n == 2 {
            Instruction::And { x, y }
        } else if n == 3 {
            Instruction::Xor { x, y }
        } else if n == 4 {
            Instruction::Add { x, y }
        } else if n == 5 {
            Instruction::Sub { x, y }
        } else if n == 6 {
            Instruction::ShiftRight { x }
        } else if n == 7 {
            Instruction::SubFrom { x, y }
        } else if n == 0xE {
            Instruction::ShiftLeft { x }
        } else {
            Instruction::Unknown
        }
    } else if a == 9 {
        if n == 0 { Instruction::SkipNeReg { x, y } } else { Instruction::Unknown }
    } else if a == 0xA {
        Instruction::LoadIndex { nnn }
    } else if a == 0xB {
        Instruction::JumpOffset { nnn }
    } else if a == 0xC {
        Instruction::Random { x, kk }
    } else if a == 0xD {
        Instruction::Draw { x, y, n }
    } else if a == 0xE {
        if kk == 0x9E {
            Instruction::SkipKey { x }
        } else if kk == 0xA1 {
            Instruction::SkipNoKey { x }
        } else {
            Instruction::Unknown
        }
    } else {
        if kk == 0x07 {
            Instruction::ReadDelay { x }
        } else if kk == 0x0A {
            Instruction::WaitKey { x }
        } else if kk == 0x15 {
            Instruction::SetDelay { x }
        } else if kk == 0x18 {
            Instruction::SetSound { x }
        } else if kk == 0x1E {
            Instruction::AddIndex { x }
        } else if kk == 0x29 {
            Instruction::Glyph { x }
        } else if kk == 0x33 {
            Instruction::Bcd { x }
        } else if kk == 0x55 {
            Instruction::StoreRegs { x }
        } else if kk == 0x65 {
            Instruction::LoadRegs { x }
        } else {
            Instruction::Unknown
        }
    }
}

/// Register and height fields of a decoded instruction are nibbles.
pub open spec fn nibbles_ok(ins: Instruction) -> bool {
    match ins {
        Instruction::Jump { nnn } | Instruction::Call { nnn } | Instruction::LoadIndex { nnn }
        | Instruction::JumpOffset { nnn } => nnn < 4096,
        Instruction::SkipEqImm { x, .. } | Instruction::SkipNeImm { x, .. }
        | Instruction::LoadImm { x, .. } | Instruction::AddImm { x, .. }
        | Instruction::Random { x, .. } | Instruction::ShiftRight { x }
        | Instruction::ShiftLeft { x } | Instruction::SkipKey { x }
        | Instruction::SkipNoKey { x } | Instruction::ReadDelay { x }
        | Instruction::WaitKey { x } | Instruction::SetDelay { x }
        | Instruction::SetSound { x } | Instruction::AddIndex { x }
        | Instruction::Glyph { x } | Instruction::Bcd { x }
        | Instruction::StoreRegs { x } | Instruction::LoadRegs { x } => x < 16,
        Instruction::SkipEqReg { x, y } | Instruction::Copy { x, y } | Instruction::Or { x, y }
        | Instruction::And { x, y } | Instruction::Xor { x, y } | Instruction::Add { x, y }
        | Instruction::Sub { x, y } | Instruction::SubFrom { x, y }
        | Instruction::SkipNeReg { x, y } => x < 16 && y < 16,
        Instruction::Draw { x, y, n } => x < 16 && y < 16 && n < 16,
        _ => true,
    }
}

/// Splits an instruction word into its fields and picks the instruction;
/// words that match no instruction decode to `Unknown`.
pub fn decode(op: u16) -> (r: Instruction)
    ensures
        r == decode_spec(op),
        nibbles_ok(r),
{
    let a = op / 4096;
    let x = ((op / 256) % 16) as u8;
    let y = ((op / 16) % 16) as u8;
    let n = (op % 16) as u8;
    let kk = (op % 256) as u8;
    let nnn = op % 4096;
    match (a, n) {
        (0, _) => {
            if op == 0x00E0 {
                Instruction::ClearScreen
            } else if op == 0x00EE {
                Instruction::Return
            } else {
                Instruction::Unknown
            }
        },
        (1, _) => Instruction::Jump { nnn },
        (2, _) => Instruction::Call { nnn },
        (3, _) => Instruction::SkipEqImm { x, kk },
        (4, _) => Instruction::SkipNeImm { x, kk },
        (5, 0) => Instruction::SkipEqReg { x, y },
        (6, _) => Instruction::LoadImm { x, kk },
        (7, _) => Instruction::AddImm { x, kk },
        (8, 0) => Instruction::Copy { x, y },
        (8, 1) => Instruction::Or { x, y },
        (8, 2) => Instruction::And { x, y },
        (8, 3) => Instruction::Xor { x, y },
        (8, 4) => Instruction::Add { x, y },
        (8, 5) => Instruction::Sub { x, y },
        (8, 6) => Instruction::ShiftRight { x },
        (8, 7) => Instruction::SubFrom { x, y },
        (8, 0xE) => Instruction::ShiftLeft { x },
        (9, 0) => Instruction::SkipNeReg { x, y },
        (0xA, _) => Instruction::LoadIndex { nnn },
        (0xB, _) => Instruction::JumpOffset { nnn },
        (0xC, _) => Instruction::Random { x, kk },
        (0xD, _) => Instruction::Draw { x, y, n },
        (0xE, _) => {
            if kk == 0x9E {
                Instruction::SkipKey { x }
            } else if kk == 0xA1 {
                Instruction::SkipNoKey { x }
            } else {
                Instruction::Unknown
            }
        },
        (0xF, _) => {
            if kk == 0x07 {
                Instruction::ReadDelay { x }
            } else if kk == 0x0A {
                Instruction::WaitKey { x }
            } else if kk == 0x15 {
                Instruction::SetDelay { x }
            } else if kk == 0x18 {
                Instruction::SetSound { x }
            } else if kk == 0x1E {
                Instruction::AddIndex { x }
            } else if kk == 0x29 {
                Instruction::Glyph { x }
            } else if kk == 0x33 {
                Instruction::Bcd { x }
            } else if kk == 0x55 {
                Instruction::StoreRegs { x }
            } else if kk == 0x65 {
                Instruction::LoadRegs { x }
            } else {
                Instruction::Unknown
            }
        },
        _ => Instruction::Unknown,
    }
}

} // verus!
