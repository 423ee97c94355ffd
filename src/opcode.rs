use vstd::prelude::*;

verus! {

/// One instruction word split into its four nibbles, high nibble first.
#[derive(Clone, Copy, Debug, PartialEq, Eq, Structural)]
pub struct Opcode {
    pub d1: u16,
    pub d2: u16,
    pub d3: u16,
    pub d4: u16,
}

/// A decoded instruction. `x` and `y` name registers, `kk` is an 8-bit
/// immediate, `nnn` a 12-bit address and `n` a nibble.
#[derive(Clone, Copy, Debug, PartialEq, Eq, Structural)]
pub enum Instruction {
    Clear,
    Return,
    Jump { nnn: u16 },
    Call { nnn: u16 },
    SkipEqImm { x: u8, kk: u8 },
    SkipNeImm { x: u8, kk: u8 },
    SkipEqReg { x: u8, y: u8 },
    LoadImm { x: u8, kk: u8 },
    AddImm { x: u8, kk: u8 },
    Move { x: u8, y: u8 },
    Or { x: u8, y: u8 },
    And { x: u8, y: u8 },
    Xor { x: u8, y: u8 },
    AddReg { x: u8, y: u8 },
    SubReg { x: u8, y: u8 },
    ShiftRight { x: u8 },
    SubRev { x: u8, y: u8 },
    ShiftLeft { x: u8 },
    SkipNeReg { x: u8, y: u8 },
    LoadIndex { nnn: u16 },
    JumpOffset { nnn: u16 },
    Random { x: u8, kk: u8 },
    Draw { x: u8, y: u8, n: u8 },
    SkipKeyDown { x: u8 },
    SkipKeyUp { x: u8 },
    LoadDelay { x: u8 },
    WaitKey { x: u8 },
    SetDelay { x: u8 },
    SetSound { x: u8 },
    AddIndex { x: u8 },
    FontIndex { x: u8 },
    StoreBcd { x: u8 },
    StoreRegs { x: u8 },
    LoadRegs { x: u8 },
    Unknown { word: u16 },
}

impl Opcode {
    pub open spec fn wf(&self) -> bool {
        self.d1 < 16 && self.d2 < 16 && self.d3 < 16 && self.d4 < 16
    }

    /// The instruction word the nibbles spell.
    pub open spec fn word(&self) -> u16 {
        (self.d1 * 4096 + self.d2 * 256 + self.d3 * 16 + self.d4) as u16
    }

    /// `nnn`: the low three nibbles.
    pub open spec fn addr(&self) -> u16 {
        (self.d2 * 256 + self.d3 * 16 + self.d4) as u16
    }

    /// `kk`: the low two nibbles.
    pub open spec fn byte(&self) -> u8 {
        (self.d3 * 16 + self.d4) as u8
    }

    /// The instruction that the nibble pattern denotes.
    pub open spec fn spec_instruction(&self) -> Instruction {
        let (d1, d2, d3, d4) = (self.d1, self.d2, self.d3, self.d4);
        let x = d2 as u8;
        let y = d3 as u8;
        if d1 == 0 && d2 == 0 && d3 == 0xE && d4 == 0 {
            Instruction::Clear
        } else if d1 == 0 && d2 == 0 && d3 == 0xE && d4 == 0xE {
            Instruction::Return
        } else if d1 == 1 {
            Instruction::Jump { nnn: self.addr() }
        } else if d1 == 2 {
            Instruction::Call { nnn: self.addr() }
        } else if d1 == 3 {
            Instruction::SkipEqImm { x, kk: self.byte() }
        } else if d1 == 4 {
            Instruction::SkipNeImm { x, kk: self.byte() }
        } else if d1 == 5 && d4 == 0 {
            Instruction::SkipEqReg { x, y }
        } else if d1 == 6 {
            Instruction::LoadImm { x, kk: self.byte() }
        } else if d1 == 7 {
            Instruction::AddImm { x, kk: self.byte() }
        } else if d1 == 8 && d4 == 0 {
            Instruction::Move { x, y }
        } else if d1 == 8 && d4 == 1 {
            Instruction::Or { x, y }
        } else if d1 == 8 && d4 == 2 {
            Instruction::And { x, y }
        } else if d1 == 8 && d4 == 3 {
            Instruction::Xor { x, y }
        } else if d1 == 8 && d4 == 4 {
            Instruction::AddReg { x, y }
        } else if d1 == 8 && d4 == 5 {
            Instruction::SubReg { x, y }
        } else if d1 == 8 && d4 == 6 {
            Instruction::ShiftRight { x }
        } else if d1 == 8 && d4 == 7 {
            Instruction::SubRev { x, y }
        } else if d1 == 8 && d4 == 0xE {
            Instruction::ShiftLeft { x }
        } else if d1 == 9 && d4 == 0 {
            Instruction::SkipNeReg { x, y }
        } else if d1 == 0xA {
            Instruction::LoadIndex { nnn: self.addr() }
        } else if d1 == 0xB {
            Instruction::JumpOffset { nnn: self.addr() }
        } else if d1 == 0xC {
            Instruction::Random { x, kk: self.byte() }
        } else if d1 == 0xD {
            Instruction::Draw { x, y, n: d4 as u8 }
        } else if d1 == 0xE && d3 == 9 && d4 == 0xE {
            Instruction::SkipKeyDown { x }
        } else if d1 == 0xE && d3 == 0xA && d4 == 1 {
            Instruction::SkipKeyUp { x }
        } else if d1 == 0xF && d3 == 0 && d4 == 7 {
            Instruction::LoadDelay { x }
        } else if d1 == 0xF && d3 == 0 && d4 == 0xA {
            Instruction::WaitKey { x }
        } else if d1 == 0xF && d3 == 1 && d4 == 5 {
            Instruction::SetDelay { x }
        } else if d1 == 0xF && d3 == 1 && d4 == 8 {
            Instruction::SetSound { x }
        } else if d1 == 0xF && d3 == 1 && d4 == 0xE {
            Instruction::AddIndex { x }
        } else if d1 == 0xF && d3 == 2 && d4 == 9 {
            Instruction::FontIndex { x }
        } else if d1 == 0xF && d3 == 3 && d4 == 3 {
            Instruction::StoreBcd { x }
        } else if d1 == 0xF && d3 == 5 && d4 == 5 {
            Instruction::StoreRegs { x }
        } else if d1 == 0xF && d3 == 6 && d4 == 5 {
            Instruction::LoadRegs { x }
        } else {
            Instruction::Unknown { word: self.word() }
        }
    }

    /// Splits the word made of `hb` (high byte) and `lb` into nibbles.
    pub fn decode(hb: u8, lb: u8) -> (r: Opcode)
        ensures
            r.wf(),
            r.d1 == hb / 16,
            r.d2 == hb % 16,
            r.d3 == lb / 16,
            r.d4 == lb % 16,
            r.word() == hb as int * 256 + lb as int,
    {
        Opcode {
            d1: (hb / 16) as u16,
            d2: (hb % 16) as u16,
            d3: (lb / 16) as u16,
            d4: (lb % 16) as u16,
        }
    }

    /// The instruction that the nibble pattern denotes.
    pub fn instruction(&self) -> (r: Instruction)
        requires
            self.wf(),
        ensures
            r == self.spec_instruction(),
            r.wf(),
    {
        let d1 = self.d1;
        let d2 = self.d2;
        let d3 = self.d3;
        let d4 = self.d4;
        let x = d2 as u8;
        let y = d3 as u8;
        let nnn: u16 = d2 * 256 + d3 * 16 + d4;
        let kk: u8 = (d3 * 16 + d4) as u8;
        if d1 == 0 && d2 == 0 && d3 == 0xE && d4 == 0 {
            Instruction::Clear
        } else if d1 == 0 && d2 == 0 && d3 == 0xE && d4 == 0xE {
            Instruction::Return
        } else if d1 == 1 {
            Instruction::Jump { nnn }
        } else if d1 == 2 {
            Instruction::Call { nnn }
        } else if d1 == 3 {
            Instruction::SkipEqImm { x, kk }
        } else if d1 == 4 {
            Instruction::SkipNeImm { x, kk }
        } else if d1 == 5 && d4 == 0 {
            Instruction::SkipEqReg { x, y }
        } else if d1 == 6 {
            Instruction::LoadImm { x, kk }
        } else if d1 == 7 {
            Instruction::AddImm { x, kk }
        } else if d1 == 8 && d4 == 0 {
            Instruction::Move { x, y }
        } else if d1 == 8 && d4 == 1 {
            Instruction::Or { x, y }
        } else if d1 == 8 && d4 == 2 {
            Instruction::And { x, y }
        } else if d1 == 8 && d4 == 3 {
            Instruction::Xor { x, y }
        } else if d1 == 8 && d4 == 4 {
            Instruction::AddReg { x, y }
        } else if d1 == 8 && d4 == 5 {
            Instruction::SubReg { x, y }
        } else if d1 == 8 && d4 == 6 {
            Instruction::ShiftRight { x }
        } else if d1 == 8 && d4 == 7 {
            Instruction::SubRev { x, y }
        } else if d1 == 8 && d4 == 0xE {
            Instruction::ShiftLeft { x }
        } else if d1 == 9 && d4 == 0 {
            Instruction::SkipNeReg { x, y }
        } else if d1 == 0xA {
            Instruction::LoadIndex { nnn }
        } else if d1 == 0xB {
            Instruction::JumpOffset { nnn }
        } else if d1 == 0xC {
            Instruction::Random { x, kk }
        } else if d1 == 0xD {
            Instruction::Draw { x, y, n: d4 as u8 }
        } else if d1 == 0xE && d3 == 9 && d4 == 0xE {
            Instruction::SkipKeyDown { x }
        } else if d1 == 0xE && d3 == 0xA && d4 == 1 {
            Instruction::SkipKeyUp { x }
        } else if d1 == 0xF && d3 == 0 && d4 == 7 {
            Instruction::LoadDelay { x }
        } else if d1 == 0xF && d3 == 0 && d4 == 0xA {
            Instruction::WaitKey { x }
        } else if d1 == 0xF && d3 == 1 && d4 == 5 {
            Instruction::SetDelay { x }
        } else if d1 == 0xF && d3 == 1 && d4 == 8 {
            Instruction::SetSound { x }
        } else if d1 == 0xF && d3 == 1 && d4 == 0xE {
            Instruction::AddIndex { x }
        } else if d1 == 0xF && d3 == 2 && d4 == 9 {
            Instruction::FontIndex { x }
        } else if d1 == 0xF && d3 == 3 && d4 == 3 {
            Instruction::StoreBcd { x }
        } else if d1 == 0xF && d3 == 5 && d4 == 5 {
            Instruction::StoreRegs { x }
        } else if d1 == 0xF && d3 == 6 && d4 == 5 {
            Instruction::LoadRegs { x }
        } else {
            Instruction::Unknown { word: d1 * 4096 + d2 * 256 + d3 * 16 + d4 }
        }
    }
}

impl Instruction {
    /// Register indices fit the register file, addresses the memory, and a
    /// sprite has at most fifteen rows.
    pub open spec fn wf(&self) -> bool {
        match *self {
            Instruction::Jump { nnn } | Instruction::Call { nnn } | Instruction::LoadIndex { nnn }
            | Instruction::JumpOffset { nnn } => nnn < 4096,
            Instruction::SkipEqImm { x, .. } | Instruction::SkipNeImm { x, .. }
            | Instruction::LoadImm { x, .. } | Instruction::AddImm { x, .. }
            | Instruction::Random { x, .. } => x < 16,
            Instruction::SkipEqReg { x, y } | Instruction::Move { x, y } | Instruction::Or { x, y }
            | Instruction::And { x, y } | Instruction::Xor { x, y } | Instruction::AddReg { x, y }
            | Instruction::SubReg { x, y } | Instruction::SubRev { x, y }
            | Instruction::SkipNeReg { x, y } => x < 16 && y < 16,
            Instruction::Draw { x, y, n } => x < 16 && y < 16 && n < 16,
            Instruction::ShiftRight { x } | Instruction::ShiftLeft { x }
            | Instruction::SkipKeyDown { x } | Instruction::SkipKeyUp { x }
            | Instruction::LoadDelay { x } | Instruction::WaitKey { x }
            | Instruction::SetDelay { x } | Instruction::SetSound { x }
            | Instruction::AddIndex { x } | Instruction::FontIndex { x }
            | Instruction::StoreBcd { x } | Instruction::StoreRegs { x }
            | Instruction::LoadRegs { x } => x < 16,
            _ => true,
        }
    }
}

} // verus!
