use vstd::prelude::*;

use crate::fault::Fault;

verus! {

/// One decoded instruction. Register operands are register numbers (0 to 15),
/// addresses are 12-bit immediates.
#[derive(Clone, Copy, Debug, PartialEq, Eq, Structural)]
pub enum Instruction {
    ScrollDown(u16),
    ScrollUp(u16),
    Clear,
    Return,
    ScrollRight,
    ScrollLeft,
    Lores,
    Hires,
    Jump(u16),
    Call(u16),
    SkipEqualConst(usize, u8),
    SkipUnequalConst(usize, u8),
    SkipEqualReg(usize, usize),
    SaveRange(usize, usize),
    LoadRange(usize, usize),
    SetConst(usize, u8),
    AddConst(usize, u8),
    SetReg(usize, usize),
    Or(usize, usize),
    And(usize, usize),
    Xor(usize, usize),
    AddReg(usize, usize),
    SubRFromL(usize, usize),
    RShift(usize, usize),
    SubLFromR(usize, usize),
    LShift(usize, usize),
    SkipUnequalReg(usize, usize),
    SetIndex(u16),
    JumpOffset(u16),
    Rand(usize, u8),
    Draw(usize, usize, usize),
    SkipKey(usize),
    SkipNotKey(usize),
    SetIndexWide,
    Audio,
    GetDelay(usize),
    GetKey(usize),
    SetDelay(usize),
    SetSound(usize),
    AddIndex(usize),
    Font(usize),
    ConvertToDecimal(usize),
    SetPitch(u16),
    Store(usize),
    Load(usize),
}

/// The second nibble of a word: the first register operand.
pub open spec fn field_x(w: u16) -> usize {
    ((w as int / 256) % 16) as usize
}

/// The third nibble of a word: the second register operand.
pub open spec fn field_y(w: u16) -> usize {
    ((w as int / 16) % 16) as usize
}

/// The low nibble of a word.
pub open spec fn field_n(w: u16) -> u16 {
    (w as int % 16) as u16
}

/// The low byte of a word.
pub open spec fn field_kk(w: u16) -> u8 {
    (w as int % 256) as u8
}

/// The low 12 bits of a word.
pub open spec fn field_nnn(w: u16) -> u16 {
    (w as int % 4096) as u16
}

/// The instruction table: what each word decodes to, dispatched on the top
/// nibble and, for the packed families, on the low nibble or low byte.
pub open spec fn decoded(w: u16) -> Result<Instruction, Fault> {
    let x = field_x(w);
    let y = field_y(w);
    let n = field_n(w);
    let kk = field_kk(w);
    let nnn = field_nnn(w);
    let bad = Err(Fault::Malformed(w));
    let top = (w as int / 4096) as u8;
    match top {
        0 => if 0xC0 <= w <= 0xCF {
            Ok(Instruction::ScrollDown(n))
        } else if 0xD0 <= w <= 0xDF {
            Ok(Instruction::ScrollUp(n))
        } else if w == 0xE0 {
            Ok(Instruction::Clear)
        } else if w == 0xEE {
            Ok(Instruction::Return)
        } else if w == 0xFB {
            Ok(Instruction::ScrollRight)
        } else if w == 0xFC {
            Ok(Instruction::ScrollLeft)
        } else if w == 0xFE {
            Ok(Instruction::Lores)
        } else if w == 0xFF {
            Ok(Instruction::Hires)
        } else {
            bad
        },
        1 => Ok(Instruction::Jump(nnn)),
        2 => Ok(Instruction::Call(nnn)),
        3 => Ok(Instruction::SkipEqualConst(x, kk)),
        4 => Ok(Instruction::SkipUnequalConst(x, kk)),
        5 => if n == 0 {
            Ok(Instruction::SkipEqualReg(x, y))
        } else if n == 2 {
            Ok(Instruction::SaveRange(x, y))
        } else if n == 3 {
            Ok(Instruction::LoadRange(x, y))
        } else {
            bad
        },
        6 => Ok(Instruction::SetConst(x, kk)),
        7 => Ok(Instruction::AddConst(x, kk)),
        8 => if n == 0 {
            Ok(Instruction::SetReg(x, y))
        } else if n == 1 {
            Ok(Instruction::Or(x, y))
        } else if n == 2 {
            Ok(Instruction::And(x, y))
        } else if n == 3 {
            Ok(Instruction::Xor(x, y))
        } else if n == 4 {
            Ok(Instruction::AddReg(x, y))
        } else if n == 5 {
            Ok(Instruction::SubRFromL(x, y))
        } else if n == 6 {
            Ok(Instruction::RShift(x, y))
        } else if n == 7 {
            Ok(Instruction::SubLFromR(x, y))
        } else if n == 0xE {
            Ok(Instruction::LShift(x, y))
        } else {
            bad
        },
        9 => if n == 0 {
            Ok(Instruction::SkipUnequalReg(x, y))
        } else {
            bad
        },
        0xA => Ok(Instruction::SetIndex(nnn)),
        0xB => Ok(Instruction::JumpOffset(nnn)),
        0xC => Ok(Instruction::Rand(x, kk)),
        0xD => Ok(Instruction::Draw(x, y, n as usize)),
        0xE => if kk == 0x9E {
            Ok(Instruction::SkipKey(x))
        } else if kk == 0xA1 {
            Ok(Instruction::SkipNotKey(x))
        } else {
            bad
        },
        _ => if w == 0xF000 {
            Ok(Instruction::SetIndexWide)
        } else if w == 0xF002 {
            Ok(Instruction::Audio)
        } else if kk == 0x07 {
            Ok(Instruction::GetDelay(x))
        } else if kk == 0x0A {
            Ok(Instruction::GetKey(x))
        } else if kk == 0x15 {
            Ok(Instruction::SetDelay(x))
        } else if kk == 0x18 {
            Ok(Instruction::SetSound(x))
        } else if kk == 0x1E {
            Ok(Instruction::AddIndex(x))
        } else if kk == 0x29 {
            Ok(Instruction::Font(x))
        } else if kk == 0x33 {
            Ok(Instruction::ConvertToDecimal(x))
        } else if kk == 0x3A {
            Ok(Instruction::SetPitch(x as u16))
        } else if kk == 0x55 {
            Ok(Instruction::Store(x))
        } else if kk == 0x65 {
            Ok(Instruction::Load(x))
        } else {
            bad
        },
    }
}

impl Instruction {
    /// Every register number and every small count is below 16, and every
    /// address fits in 12 bits.
    pub open spec fn wf(self) -> bool {
        match self {
            Instruction::ScrollDown(n) | Instruction::ScrollUp(n) => n < 16,
            Instruction::SkipEqualConst(x, _) | Instruction::SkipUnequalConst(x, _)
            | Instruction::SetConst(x, _) | Instruction::AddConst(x, _)
            | Instruction::Rand(x, _) => x < 16,
            Instruction::SkipEqualReg(x, y) | Instruction::SaveRange(x, y)
            | Instruction::LoadRange(x, y) | Instruction::SetReg(x, y) | Instruction::Or(x, y)
            | Instruction::And(x, y) | Instruction::Xor(x, y) | Instruction::AddReg(x, y)
            | Instruction::SubRFromL(x, y) | Instruction::RShift(x, y)
            | Instruction::SubLFromR(x, y) | Instruction::LShift(x, y)
            | Instruction::SkipUnequalReg(x, y) => x < 16 && y < 16,
            Instruction::Draw(x, y, n) => x < 16 && y < 16 && n < 16,
            Instruction::SkipKey(x) | Instruction::SkipNotKey(x) | Instruction::GetDelay(x)
            | Instruction::GetKey(x) | Instruction::SetDelay(x) | Instruction::SetSound(x)
            | Instruction::AddIndex(x) | Instruction::Font(x)
            | Instruction::ConvertToDecimal(x) | Instruction::Store(x)
            | Instruction::Load(x) => x < 16,
            Instruction::SetPitch(x) => x < 16,
            Instruction::Jump(a) | Instruction::Call(a) | Instruction::SetIndex(a)
            | Instruction::JumpOffset(a) => a < 4096,
            _ => true,
        }
    }

    /// Decodes one instruction word; a word outside the table is
    /// `Fault::Malformed` carrying the word.
    pub fn decode(word: u16) -> (r: Result<Instruction, Fault>)
        ensures
            r == decoded(word),
            r is Ok ==> r->Ok_0.wf(),
    {
        let top = word >> 12u16;
        let xw = (word & 0xF00) >> 8u16;
        let yw = (word & 0xF0) >> 4u16;
        let n = word & 0xF;
        let kkw = word & 0xFF;
        let nnn = word & 0xFFF;
        proof {
            assert(word >> 12u16 == word / 4096u16) by (bit_vector);
            assert((word & 0xF00u16) >> 8u16 == (word / 256u16) % 16u16) by (bit_vector);
            assert((word & 0xF0u16) >> 4u16 == (word / 16u16) % 16u16) by (bit_vector);
            assert(word & 0xFu16 == word % 16u16) by (bit_vector);
            assert(word & 0xFFu16 == word % 256u16) by (bit_vector);
            assert(word & 0xFFFu16 == word % 4096u16) by (bit_vector);
        }
        let x = xw as usize;
        let y = yw as usize;
        let kk = kkw as u8;
        let bad = Err(Fault::Malformed(word));
        if top == 0 {
            if 0xC0 <= word && word <= 0xCF {
                Ok(Instruction::ScrollDown(n))
            } else if 0xD0 <= word && word <= 0xDF {
                Ok(Instruction::ScrollUp(n))
            } else if word == 0xE0 {
                Ok(Instruction::Clear)
            } else if word == 0xEE {
                Ok(Instruction::Return)
            } else if word == 0xFB {
                Ok(Instruction::ScrollRight)
            } else if word == 0xFC {
                Ok(Instruction::ScrollLeft)
            } else if word == 0xFE {
                Ok(Instruction::Lores)
            } else if word == 0xFF {
                Ok(Instruction::Hires)
            } else {
                bad
            }
        } else if top == 1 {
            Ok(Instruction::Jump(nnn))
        } else if top == 2 {
            Ok(Instruction::Call(nnn))
        } else if top == 3 {
            Ok(Instruction::SkipEqualConst(x, kk))
        } else if top == 4 {
            Ok(Instruction::SkipUnequalConst(x, kk))
        } else if top == 5 {
            match n {
                0 => Ok(Instruction::SkipEqualReg(x, y)),
                2 => Ok(Instruction::SaveRange(x, y)),
                3 => Ok(Instruction::LoadRange(x, y)),
                _ => bad,
            }
        } else if top == 6 {
            Ok(Instruction::SetConst(x, kk))
        } else if top == 7 {
            Ok(Instruction::AddConst(x, kk))
        } else if top == 8 {
            match n {
                0 => Ok(Instruction::SetReg(x, y)),
                1 => Ok(Instruction::Or(x, y)),
                2 => Ok(Instruction::And(x, y)),
                3 => Ok(Instruction::Xor(x, y)),
                4 => Ok(Instruction::AddReg(x, y)),
                5 => Ok(Instruction::SubRFromL(x, y)),
                6 => Ok(Instruction::RShift(x, y)),
                7 => Ok(Instruction::SubLFromR(x, y)),
                0xE => Ok(Instruction::LShift(x, y)),
                _ => bad,
            }
        } else if top == 9 {
            if n == 0 {
                Ok(Instruction::SkipUnequalReg(x, y))
            } else {
                bad
            }
        } else if top == 0xA {
            Ok(Instruction::SetIndex(nnn))
        } else if top == 0xB {
            Ok(Instruction::JumpOffset(nnn))
        } else if top == 0xC {
            Ok(Instruction::Rand(x, kk))
        } else if top == 0xD {
            Ok(Instruction::Draw(x, y, n as usize))
        } else if top == 0xE {
            match kk {
                0x9E => Ok(Instruction::SkipKey(x)),
                0xA1 => Ok(Instruction::SkipNotKey(x)),
                _ => bad,
            }
        } else if word == 0xF000 {
            Ok(Instruction::SetIndexWide)
        } else if word == 0xF002 {
            Ok(Instruction::Audio)
        } else {
            match kk {
                0x07 => Ok(Instruction::GetDelay(x)),
                0x0A => Ok(Instruction::GetKey(x)),
                0x15 => Ok(Instruction::SetDelay(x)),
                0x18 => Ok(Instruction::SetSound(x)),
                0x1E => Ok(Instruction::AddIndex(x)),
                0x29 => Ok(Instruction::Font(x)),
                0x33 => Ok(Instruction::ConvertToDecimal(x)),
                0x3A => Ok(Instruction::SetPitch(xw)),
                0x55 => Ok(Instruction::Store(x)),
                0x65 => Ok(Instruction::Load(x)),
                _ => bad,
            }
        }
    }
}

} // verus!
