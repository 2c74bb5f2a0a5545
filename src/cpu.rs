use vstd::prelude::*;

use crate::display::{Display, DisplayView, key_down};
use crate::fault::Fault;
use crate::instruction::{Instruction, decoded};

verus! {

/// Size of the address space.
pub const MEM_LIMIT: usize = 65536;
/// Where programs are loaded and where execution starts.
pub const PROGRAM_START: u16 = 0x200;
/// Where the sixteen five-byte glyphs of the font start.
pub const FONT_START: u16 = 0x50;

/// The compatibility profile, fixed when the machine is built.
#[derive(Clone, Copy, Debug, PartialEq, Eq, Structural)]
pub enum Mode {
    Cosmac,
    Super,
    Xo,
}

/// What the driver is asked to do once an instruction has run.
#[derive(Debug, PartialEq, Eq)]
pub enum Effect {
    /// Nothing: go on with the next instruction.
    Done,
    /// The instruction could not proceed yet; the program counter is back on
    /// it, so the next fetch retries it.
    Wait,
    /// Hand this 16-byte waveform pattern to the audio output.
    Pattern(Vec<u8>),
    /// Hand this pitch to the audio output.
    Pitch(u8),
}

/// An `Effect` as the contracts see it.
pub enum Outcome {
    Done,
    Wait,
    Pattern(Seq<u8>),
    Pitch(u8),
}

impl View for Effect {
    type V = Outcome;

    open spec fn view(&self) -> Outcome {
        match self {
            Effect::Done => Outcome::Done,
            Effect::Wait => Outcome::Wait,
            Effect::Pattern(p) => Outcome::Pattern(p@),
            Effect::Pitch(p) => Outcome::Pitch(*p),
        }
    }
}

pub open spec fn result_view(r: Result<Effect, Fault>) -> Result<Outcome, Fault> {
    match r {
        Ok(e) => Ok(e@),
        Err(f) => Err(f),
    }
}

/// The machine state as the contracts see it.
pub struct CpuView {
    pub mem: Seq<u8>,
    pub pc: u16,
    pub index: u16,
    pub stack: Seq<u16>,
    pub delay: u8,
    pub sound: u8,
    pub mode: Mode,
    pub regs: Seq<u8>,
}

/// The state, what the display became, and what the instruction asks of the driver.
pub type Step = (CpuView, DisplayView, Result<Outcome, Fault>);

/// The built-in font: one 5-byte glyph for each hexadecimal digit.
pub open spec fn font() -> Seq<u8> {
    seq![
        0xF0u8, 0x90, 0x90, 0x90, 0xF0, 0x20, 0x60, 0x20, 0x20, 0x70,
        0xF0, 0x10, 0xF0, 0x80, 0xF0, 0xF0, 0x10, 0xF0, 0x10, 0xF0,
        0x90, 0x90, 0xF0, 0x10, 0x10, 0xF0, 0x80, 0xF0, 0x10, 0xF0,
        0xF0, 0x80, 0xF0, 0x90, 0xF0, 0xF0, 0x10, 0x20, 0x40, 0x40,
        0xF0, 0x90, 0xF0, 0x90, 0xF0, 0xF0, 0x90, 0xF0, 0x10, 0xF0,
        0xF0, 0x90, 0xF0, 0x90, 0x90, 0xE0, 0x90, 0xE0, 0x90, 0xE0,
        0xF0, 0x80, 0x80, 0x80, 0xF0, 0xE0, 0x90, 0x90, 0x90, 0xE0,
        0xF0, 0x80, 0xF0, 0x80, 0xF0, 0xF0, 0x80, 0xF0, 0x80, 0x80,
    ]
}

/// The state of a new machine in mode `mode`.
pub open spec fn initial(mode: Mode) -> CpuView {
    CpuView {
        mem: Seq::new(
            MEM_LIMIT as nat,
            |a: int| if FONT_START <= a < FONT_START + 80 { font()[a - FONT_START] } else { 0u8 },
        ),
        pc: PROGRAM_START,
        index: 0,
        stack: Seq::empty(),
        delay: 0,
        sound: 0,
        mode,
        regs: Seq::new(16, |i: int| 0u8),
    }
}

/// The capability table: which instructions each mode offers.
pub open spec fn supports(mode: Mode, ins: Instruction) -> bool {
    match ins {
        Instruction::ScrollDown(_)
        | Instruction::ScrollUp(_)
        | Instruction::Lores
        | Instruction::Hires => mode != Mode::Cosmac,
        Instruction::SaveRange(_, _)
        | Instruction::LoadRange(_, _)
        | Instruction::SetIndexWide
        | Instruction::Audio
        | Instruction::SetPitch(_) => mode == Mode::Xo,
        _ => true,
    }
}

/// Bit `c` (from the left) of row `r` of the sprite at `index`: one byte per
/// row, or two bytes per row for a wide sprite.
pub open spec fn sprite_bit(mem: Seq<u8>, index: u16, wide: bool, r: int, c: int) -> bool {
    let a = if wide {
        index + 2 * r + (if c < 8 { 0int } else { 1int })
    } else {
        index + r
    };
    let shift = if c < 8 { 7 - c } else { 15 - c };
    (mem[a] >> (shift as u8)) & 1u8 == 1u8
}

pub open spec fn sprite_of(mem: Seq<u8>, index: u16, wide: bool) -> spec_fn(int, int) -> bool {
    |r: int, c: int| sprite_bit(mem, index, wide, r, c)
}

/// The lowest key at or above `k` that is down in `keys`.
pub open spec fn first_key_from(keys: u16, k: int) -> Option<u8>
    decreases 16 - k,
{
    if k >= 16 || k < 0 {
        None
    } else if key_down(keys, k as u8) {
        Some(k as u8)
    } else {
        first_key_from(keys, k + 1)
    }
}

impl CpuView {
    pub open spec fn wf(self) -> bool {
        self.mem.len() == MEM_LIMIT && self.regs.len() == 16
    }

    pub open spec fn with_regs(self, regs: Seq<u8>) -> CpuView {
        CpuView { regs, ..self }
    }

    pub open spec fn with_pc(self, pc: u16) -> CpuView {
        CpuView { pc, ..self }
    }

    pub open spec fn with_index(self, index: u16) -> CpuView {
        CpuView { index, ..self }
    }

    pub open spec fn with_mem(self, mem: Seq<u8>) -> CpuView {
        CpuView { mem, ..self }
    }

    /// Whether `len` bytes from the index register lie inside memory.
    pub open spec fn fits(self, len: int) -> bool {
        self.index + len <= MEM_LIMIT
    }
}

pub open spec fn done(c: CpuView, d: DisplayView) -> Step {
    (c, d, Ok(Outcome::Done))
}

pub open spec fn fail(c: CpuView, d: DisplayView, f: Fault) -> Step {
    (c, d, Err(f))
}

/// Skips the next instruction when `cond` holds; `d2` is the display
/// reached when no fault stops the instruction.
pub open spec fn skip_if(c: CpuView, d: DisplayView, cond: bool, d2: DisplayView) -> Step {
    if !cond {
        done(c, d2)
    } else if c.pc > 0xFFFD {
        fail(c, d, Fault::AddressOutOfRange)
    } else {
        done(c.with_pc((c.pc + 2) as u16), d2)
    }
}

/// Puts the program counter back on the instruction just fetched, so that it
/// runs again; `c2` and `d2` are the state and display otherwise reached.
pub open spec fn wait(c: CpuView, d: DisplayView, c2: CpuView, d2: DisplayView) -> Step {
    if c.pc < 2 {
        fail(c, d, Fault::AddressOutOfRange)
    } else {
        (c2.with_pc((c.pc - 2) as u16), d2, Ok(Outcome::Wait))
    }
}

/// Registers after register `x` gets `v` and the flag register gets `f`.
pub open spec fn set_with_flag(regs: Seq<u8>, x: usize, v: int, f: int) -> Seq<u8> {
    regs.update(x as int, v as u8).update(15, f as u8)
}

/// Memory after `vals` is written from address `at` on.
pub open spec fn written(mem: Seq<u8>, at: int, vals: Seq<u8>) -> Seq<u8> {
    Seq::new(mem.len(), |a: int| if at <= a < at + vals.len() { vals[a - at] } else { mem[a] })
}

/// Registers after `vals` is loaded from register `first` on.
pub open spec fn loaded(regs: Seq<u8>, first: int, vals: Seq<u8>) -> Seq<u8> {
    Seq::new(
        regs.len(),
        |i: int| if first <= i < first + vals.len() { vals[i - first] } else { regs[i] },
    )
}

/// Registers `first` to `last` inclusive (none when `last < first`).
pub open spec fn reg_range(regs: Seq<u8>, first: int, last: int) -> Seq<u8> {
    if last < first {
        Seq::empty()
    } else {
        regs.subrange(first, last + 1)
    }
}

/// What one instruction does, given the key state `keys` (bit k for key k)
/// and the random byte `rnd` that a random instruction would draw. On a
/// fault, neither the state nor the display changes.
pub open spec fn step(c: CpuView, d: DisplayView, ins: Instruction, keys: u16, rnd: u8) -> Step {
    let r = c.regs;
    if !supports(c.mode, ins) {
        fail(c, d, Fault::Unsupported)
    } else {
        match ins {
            Instruction::ScrollDown(n) => done(c, d.scrolled_down(n + 1)),
            Instruction::ScrollUp(n) => done(c, d.scrolled_up(n + 1)),
            Instruction::Clear => done(c, d.cleared()),
            Instruction::Return => if c.stack.len() == 0 {
                fail(c, d, Fault::StackUnderflow)
            } else {
                done(
                    CpuView { pc: c.stack.last(), stack: c.stack.drop_last(), ..c },
                    d,
                )
            },
            Instruction::ScrollRight => done(c, d.scrolled_right()),
            Instruction::ScrollLeft => done(c, d.scrolled_left()),
            Instruction::Lores => {
                let d2 = if c.mode == Mode::Xo { d.cleared() } else { d };
                done(c, DisplayView { hires: false, ..d2 })
            },
            Instruction::Hires => {
                let d2 = if c.mode == Mode::Xo { d.cleared() } else { d };
                done(c, DisplayView { hires: true, ..d2 })
            },
            Instruction::Jump(a) => done(c.with_pc(a), d),
            Instruction::Call(a) => done(
                CpuView { pc: a, stack: c.stack.push(c.pc), ..c },
                d,
            ),
            Instruction::SkipEqualConst(x, v) => skip_if(c, d, r[x as int] == v, d),
            Instruction::SkipUnequalConst(x, v) => skip_if(c, d, r[x as int] != v, d),
            Instruction::SkipEqualReg(x, y) => skip_if(c, d, r[x as int] == r[y as int], d),
            Instruction::SkipUnequalReg(x, y) => skip_if(c, d, r[x as int] != r[y as int], d),
            Instruction::SaveRange(x, y) => {
                let vals = reg_range(r, x as int, y as int);
                if !c.fits(vals.len() as int) {
                    fail(c, d, Fault::AddressOutOfRange)
                } else {
                    done(c.with_mem(written(c.mem, c.index as int, vals)), d)
                }
            },
            Instruction::LoadRange(x, y) => {
                let len = if y < x { 0 } else { y - x + 1 };
                if !c.fits(len) {
                    fail(c, d, Fault::AddressOutOfRange)
                } else {
                    let vals = c.mem.subrange(c.index as int, c.index + len);
                    done(c.with_regs(loaded(r, x as int, vals)), d)
                }
            },
            Instruction::SetConst(x, v) => done(c.with_regs(r.update(x as int, v)), d),
            Instruction::AddConst(x, v) => done(
                c.with_regs(r.update(x as int, ((r[x as int] + v) % 256) as u8)),
                d,
            ),
            Instruction::SetReg(x, y) => done(c.with_regs(r.update(x as int, r[y as int])), d),
            Instruction::Or(x, y) => done(
                c.with_regs(set_with_flag(r, x, (r[x as int] | r[y as int]) as int, 0)),
                d,
            ),
            Instruction::And(x, y) => done(
                c.with_regs(set_with_flag(r, x, (r[x as int] & r[y as int]) as int, 0)),
                d,
            ),
            Instruction::Xor(x, y) => done(
                c.with_regs(set_with_flag(r, x, (r[x as int] ^ r[y as int]) as int, 0)),
                d,
            ),
            Instruction::AddReg(x, y) => {
                let sum = r[x as int] + r[y as int];
                done(
                    c.with_regs(set_with_flag(r, x, sum % 256, if sum > 255 { 1 } else { 0 })),
                    d,
                )
            },
            Instruction::SubRFromL(x, y) => {
                let diff = r[x as int] - r[y as int];
                done(
                    c.with_regs(set_with_flag(r, x, diff % 256, if diff >= 0 { 1 } else { 0 })),
                    d,
                )
            },
            Instruction::SubLFromR(x, y) => {
                let diff = r[y as int] - r[x as int];
                done(
                    c.with_regs(set_with_flag(r, x, diff % 256, if diff >= 0 { 1 } else { 0 })),
                    d,
                )
            },
            Instruction::RShift(x, y) => {
                let src = if c.mode == Mode::Cosmac { r[y as int] as int } else { r[x as int] as int };
                done(c.with_regs(set_with_flag(r, x, src as int / 2, src as int % 2)), d)
            },
            Instruction::LShift(x, y) => {
                let src = if c.mode == Mode::Cosmac { r[y as int] as int } else { r[x as int] as int };
                done(
                    c.with_regs(
                        set_with_flag(r, x, (src * 2) % 256, if src >= 128 { 1 } else { 0 }),
                    ),
                    d,
                )
            },
            Instruction::SetIndex(a) => done(c.with_index(a), d),
            Instruction::JumpOffset(a) => done(c.with_pc((a + r[0]) as u16), d),
            Instruction::Rand(x, v) => done(c.with_regs(r.update(x as int, v & rnd)), d),
            Instruction::Draw(rx, ry, n) => step_draw(c, d, rx, ry, n),
            Instruction::SkipKey(x) => {
                let down = key_down(keys, r[x as int]);
                skip_if(c, d, down, DisplayView { just_pressed_key: down, ..d })
            },
            Instruction::SkipNotKey(x) => {
                let down = key_down(keys, r[x as int]);
                skip_if(c, d, !down, DisplayView { just_pressed_key: down, ..d })
            },
            Instruction::SetIndexWide => if c.pc > 0xFFFD {
                fail(c, d, Fault::AddressOutOfRange)
            } else {
                done(
                    CpuView {
                        pc: (c.pc + 2) as u16,
                        index: (c.mem[c.pc as int] * 256 + c.mem[c.pc + 1]) as u16,
                        ..c
                    },
                    d,
                )
            },
            Instruction::Audio => if !c.fits(16) {
                fail(c, d, Fault::AddressOutOfRange)
            } else {
                (c, d, Ok(Outcome::Pattern(c.mem.subrange(c.index as int, c.index + 16))))
            },
            Instruction::GetDelay(x) => done(c.with_regs(r.update(x as int, c.delay)), d),
            Instruction::GetKey(x) => step_get_key(c, d, x, keys),
            Instruction::SetDelay(x) => done(CpuView { delay: r[x as int], ..c }, d),
            Instruction::SetSound(x) => done(CpuView { sound: r[x as int], ..c }, d),
            Instruction::AddIndex(x) => done(
                c.with_index(((c.index + r[x as int]) % 0x10000) as u16),
                d,
            ),
            Instruction::Font(x) => done(
                c.with_index((FONT_START + (r[x as int] % 16) * 5) as u16),
                d,
            ),
            Instruction::ConvertToDecimal(x) => if !c.fits(3) {
                fail(c, d, Fault::AddressOutOfRange)
            } else {
                let v = r[x as int];
                let digits = seq![(v / 100) as u8, (v / 10 % 10) as u8, (v % 10) as u8];
                done(c.with_mem(written(c.mem, c.index as int, digits)), d)
            },
            Instruction::SetPitch(x) => (c, d, Ok(Outcome::Pitch(r[x as int]))),
            Instruction::Store(x) => if !c.fits(x + 1) {
                fail(c, d, Fault::AddressOutOfRange)
            } else {
                let c2 = c.with_mem(written(c.mem, c.index as int, r.subrange(0, x + 1)));
                if c.mode == Mode::Cosmac {
                    done(c2.with_index(((c.index + x + 1) % 0x10000) as u16), d)
                } else {
                    done(c2, d)
                }
            },
            Instruction::Load(x) => if !c.fits(x + 1) {
                fail(c, d, Fault::AddressOutOfRange)
            } else {
                let vals = c.mem.subrange(c.index as int, c.index + x + 1);
                let c2 = c.with_regs(loaded(r, 0, vals));
                if c.mode == Mode::Cosmac {
                    done(c2.with_index(((c.index + x + 1) % 0x10000) as u16), d)
                } else {
                    done(c2, d)
                }
            },
        }
    }
}

/// A sprite draw. It waits for a presented frame; then it clears the flag
/// register and, unless it is a zero-height draw in Cosmac mode, draws the
/// sprite at the index register (8 wide and `n` high, or 16 by 16 for a
/// zero height) at the register coordinates wrapped to the view, setting
/// the flag register on a collision.
pub open spec fn step_draw(c: CpuView, d: DisplayView, rx: usize, ry: usize, n: usize) -> Step {
    if !d.just_updated {
        wait(c, d, c, d)
    } else {
        let d1 = DisplayView { just_updated: false, ..d };
        let regs = c.regs.update(15, 0);
        let wide = n == 0;
        if wide && c.mode == Mode::Cosmac {
            done(c.with_regs(regs), d1)
        } else if !c.fits(if wide { 32 } else { n as int }) {
            fail(c, d, Fault::AddressOutOfRange)
        } else {
            let x = regs[rx as int] as int % d.width();
            let y = regs[ry as int] as int % d.height();
            let w = if wide { 16int } else { 8int };
            let h = if wide { 16int } else { n as int };
            let sprite = sprite_of(c.mem, c.index, wide);
            let hit = d1.collides(sprite, x, y, w, h);
            done(
                c.with_regs(regs.update(15, if hit { 1u8 } else { 0u8 })),
                d1.drawn(sprite, x, y, w, h),
            )
        }
    }
}

/// A key wait. With the latch set and register `x`'s key up, the wait is
/// over. Otherwise the lowest key that is down, if any, goes into register
/// `x`, the latch records whether one was, and the instruction runs again.
pub open spec fn step_get_key(c: CpuView, d: DisplayView, x: usize, keys: u16) -> Step {
    let r = c.regs;
    if d.just_pressed_key && !key_down(keys, r[x as int]) {
        done(c, DisplayView { just_pressed_key: false, ..d })
    } else {
        let found = first_key_from(keys, 0);
        let c2 = match found {
            Some(k) => c.with_regs(r.update(x as int, k)),
            None => c,
        };
        wait(c, d, c2, DisplayView { just_pressed_key: found is Some, ..d })
    }
}

/// The instruction word stored big-endian at address `a`.
pub open spec fn word_at(mem: Seq<u8>, a: int) -> u16 {
    (mem[a] * 256 + mem[a + 1]) as u16
}

/// Relies on rand::random_range: a byte drawn from the thread-local generator
/// over the whole range 0 to 255, which is never empty.
#[verifier::external_body]
fn random_byte() -> u8 {
    rand::random_range(0..=0xFFu8)
}

/// Whether key `key` is down in the key state `keys` (bit k for key k).
pub fn key_is_down(keys: u16, key: u8) -> (r: bool)
    ensures
        r == key_down(keys, key),
{
    key < 16 && (keys >> (key as u16)) & 1 == 1
}

/// Whether mode `mode` offers instruction `ins`.
pub fn supported(mode: Mode, ins: &Instruction) -> (r: bool)
    ensures
        r == supports(mode, *ins),
{
    match ins {
        Instruction::ScrollDown(_)
        | Instruction::ScrollUp(_)
        | Instruction::Lores
        | Instruction::Hires => mode != Mode::Cosmac,
        Instruction::SaveRange(_, _)
        | Instruction::LoadRange(_, _)
        | Instruction::SetIndexWide
        | Instruction::Audio
        | Instruction::SetPitch(_) => mode == Mode::Xo,
        _ => true,
    }
}

fn font_bytes() -> (r: Vec<u8>)
    ensures
        r@ == font(),
{
    let r = vec![
        0xF0u8, 0x90, 0x90, 0x90, 0xF0, 0x20, 0x60, 0x20, 0x20, 0x70,
        0xF0, 0x10, 0xF0, 0x80, 0xF0, 0xF0, 0x10, 0xF0, 0x10, 0xF0,
        0x90, 0x90, 0xF0, 0x10, 0x10, 0xF0, 0x80, 0xF0, 0x10, 0xF0,
        0xF0, 0x80, 0xF0, 0x90, 0xF0, 0xF0, 0x10, 0x20, 0x40, 0x40,
        0xF0, 0x90, 0xF0, 0x90, 0xF0, 0xF0, 0x90, 0xF0, 0x10, 0xF0,
        0xF0, 0x90, 0xF0, 0x90, 0x90, 0xE0, 0x90, 0xE0, 0x90, 0xE0,
        0xF0, 0x80, 0x80, 0x80, 0xF0, 0xE0, 0x90, 0x90, 0x90, 0xE0,
        0xF0, 0x80, 0xF0, 0x80, 0xF0, 0xF0, 0x80, 0xF0, 0x80, 0x80,
    ];
    assert(r@ =~= font());
    r
}

/// The machine: memory, registers, index register, program counter, call
/// stack, the two timers and the mode.
pub struct Cpu {
    mem: Vec<u8>,
    pc: u16,
    index: u16,
    stack: Vec<u16>,
    delay: u8,
    sound: u8,
    mode: Mode,
    regs: Vec<u8>,
}

impl View for Cpu {
    type V = CpuView;

    closed spec fn view(&self) -> CpuView {
        CpuView {
            mem: self.mem@,
            pc: self.pc,
            index: self.index,
            stack: self.stack@,
            delay: self.delay,
            sound: self.sound,
            mode: self.mode,
            regs: self.regs@,
        }
    }
}

impl Cpu {
    pub open spec fn wf(&self) -> bool {
        self@.wf()
    }

    /// A machine in mode `mode`: memory cleared but for the font at 0x50,
    /// the program counter at 0x200, everything else zero or empty.
    pub fn with_mode(mode: Mode) -> (r: Cpu)
        ensures
            r.wf(),
            r@ == initial(mode),
    {
        let glyphs = font_bytes();
        let mut mem: Vec<u8> = Vec::new();
        let mut a: usize = 0;
        while a < MEM_LIMIT
            invariant
                a <= MEM_LIMIT,
                glyphs@ == font(),
                mem@.len() == a,
                forall|j: int| 0 <= j < a ==> #[trigger] mem@[j] == initial(mode).mem[j],
            decreases MEM_LIMIT - a,
        {
            if 0x50 <= a && a < 0xA0 {
                mem.push(glyphs[a - 0x50]);
            } else {
                mem.push(0);
            }
            a += 1;
        }
        let mut regs: Vec<u8> = Vec::new();
        let mut i: usize = 0;
        while i < 16
            invariant
                i <= 16,
                regs@.len() == i,
                forall|j: int| 0 <= j < i ==> regs@[j] == 0,
            decreases 16 - i,
        {
            regs.push(0);
            i += 1;
        }
        let r = Cpu {
            mem,
            pc: PROGRAM_START,
            index: 0,
            stack: Vec::new(),
            delay: 0,
            sound: 0,
            mode,
            regs,
        };
        assert(r@.mem =~= initial(mode).mem);
        assert(r@.regs =~= initial(mode).regs);
        assert(r@.stack =~= initial(mode).stack);
        r
    }

    pub fn pc(&self) -> (r: u16)
        ensures
            r == self@.pc,
    {
        self.pc
    }

    pub fn index(&self) -> (r: u16)
        ensures
            r == self@.index,
    {
        self.index
    }

    pub fn mode(&self) -> (r: Mode)
        ensures
            r == self@.mode,
    {
        self.mode
    }

    pub fn delay(&self) -> (r: u8)
        ensures
            r == self@.delay,
    {
        self.delay
    }

    pub fn sound(&self) -> (r: u8)
        ensures
            r == self@.sound,
    {
        self.sound
    }

    /// Register `i`.
    pub fn reg(&self, i: usize) -> (r: u8)
        requires
            self.wf(),
            i < 16,
        ensures
            r == self@.regs[i as int],
    {
        self.regs[i]
    }

    /// The byte at address `a`.
    pub fn mem_at(&self, a: u16) -> (r: u8)
        requires
            self.wf(),
        ensures
            r == self@.mem[a as int],
    {
        self.mem[a as usize]
    }

    /// The number of return addresses on the call stack.
    pub fn stack_depth(&self) -> (r: usize)
        ensures
            r == self@.stack.len(),
    {
        self.stack.len()
    }

    /// Copies a program into memory from the program counter on, as much of
    /// it as fits below the end of memory, and says how many bytes it copied.
    pub fn load(&mut self, rom: &[u8]) -> (r: usize)
        requires
            old(self).wf(),
        ensures
            final(self).wf(),
            r == if rom@.len() <= MEM_LIMIT - old(self)@.pc {
                rom@.len() as int
            } else {
                MEM_LIMIT - old(self)@.pc
            },
            final(self)@ == old(self)@.with_mem(
                written(old(self)@.mem, old(self)@.pc as int, rom@.subrange(0, r as int)),
            ),
    {
        let start = self.pc as usize;
        let room = MEM_LIMIT - start;
        let n = if rom.len() <= room {
            rom.len()
        } else {
            room
        };
        let ghost before = self.mem@;
        let mut k: usize = 0;
        while k < n
            invariant
                k <= n,
                n <= rom@.len(),
                start + n <= MEM_LIMIT,
                start == old(self)@.pc,
                self.mem@.len() == MEM_LIMIT,
                self@ == old(self)@.with_mem(self.mem@),
                forall|a: int|
                    0 <= a < MEM_LIMIT ==> #[trigger] self.mem@[a] == if start <= a < start + k {
                        rom@[a - start]
                    } else {
                        before[a]
                    },
            decreases n - k,
        {
            self.mem[start + k] = rom[k];
            k += 1;
        }
        assert(self.mem@ =~= written(before, start as int, rom@.subrange(0, n as int)));
        n
    }

    /// Takes one tick off each timer that is running, and says whether the
    /// sound timer is still running, that is whether sound should play.
    pub fn dec_timers(&mut self) -> (r: bool)
        ensures
            final(self)@ == (CpuView {
                delay: if old(self)@.delay > 0 { (old(self)@.delay - 1) as u8 } else { 0 },
                sound: if old(self)@.sound > 0 { (old(self)@.sound - 1) as u8 } else { 0 },
                ..old(self)@
            }),
            r == (final(self)@.sound > 0),
    {
        if self.delay > 0 {
            self.delay -= 1;
        }
        if self.sound > 0 {
            self.sound -= 1;
        }
        self.sound > 0
    }

    /// Reads and decodes the word at the program counter and moves past it.
    /// A program counter past 0xFFFD is out of range; a word outside the
    /// table is malformed. On a fault the state is left as it was.
    pub fn fetch(&mut self) -> (r: Result<Instruction, Fault>)
        requires
            old(self).wf(),
        ensures
            final(self).wf(),
            old(self)@.pc > 0xFFFD ==> r == Err::<Instruction, Fault>(Fault::AddressOutOfRange)
                && final(self)@ == old(self)@,
            old(self)@.pc <= 0xFFFD ==> r == decoded(word_at(old(self)@.mem, old(self)@.pc as int)),
            old(self)@.pc <= 0xFFFD && r is Ok ==> final(self)@ == old(self)@.with_pc(
                (old(self)@.pc + 2) as u16,
            ),
            r is Err ==> final(self)@ == old(self)@,
            r is Ok ==> r->Ok_0.wf(),
    {
        if self.pc > 0xFFFD {
            return Err(Fault::AddressOutOfRange);
        }
        let a = self.pc as usize;
        let word = (self.mem[a] as u16) * 256 + self.mem[a + 1] as u16;
        let r = Instruction::decode(word);
        if r.is_ok() {
            self.pc = self.pc + 2;
        }
        r
    }

    /// Skips the next instruction when `cond` holds.
    fn skip_if(&mut self, cond: bool) -> (r: Result<Effect, Fault>)
        requires
            old(self).wf(),
        ensures
            final(self).wf(),
            !cond ==> final(self)@ == old(self)@ && r == Ok::<Effect, Fault>(Effect::Done),
            cond && old(self)@.pc > 0xFFFD ==> final(self)@ == old(self)@ && r == Err::<
                Effect,
                Fault,
            >(Fault::AddressOutOfRange),
            cond && old(self)@.pc <= 0xFFFD ==> final(self)@ == old(self)@.with_pc(
                (old(self)@.pc + 2) as u16,
            ) && r == Ok::<Effect, Fault>(Effect::Done),
    {
        if !cond {
            Ok(Effect::Done)
        } else if self.pc > 0xFFFD {
            Err(Fault::AddressOutOfRange)
        } else {
            self.pc = self.pc + 2;
            Ok(Effect::Done)
        }
    }

    /// Scrolling, clearing and resolution changes.
    #[verifier::rlimit(40)]
    fn exec_screen(&mut self, ins: &Instruction, disp: &mut Display) -> (r: Result<Effect, Fault>)
        requires
            old(self).wf(),
            old(disp).wf(),
            ins.wf(),
            supports(old(self)@.mode, *ins),
            ins is ScrollDown || ins is ScrollUp || ins is Clear || ins is ScrollRight
                || ins is ScrollLeft || ins is Lores || ins is Hires,
        ensures
            final(self).wf(),
            final(disp).wf(),
            (final(self)@, final(disp)@, result_view(r)) == step(
                old(self)@,
                old(disp)@,
                *ins,
                0,
                0,
            ),
    {
        match ins {
            Instruction::ScrollDown(n) => {
                disp.scroll_down();
                let mut k: u16 = 1;
                while k <= *n
                    invariant
                        1 <= k <= *n + 1,
                        *n < 16,
                        disp.wf(),
                        disp@ == old(disp)@.scrolled_down(k as int),
                    decreases *n + 1 - k,
                {
                    disp.scroll_down();
                    assert(disp@.cells =~~= old(disp)@.scrolled_down(k + 1).cells);
                    k += 1;
                }
            },
            Instruction::ScrollUp(n) => {
                disp.scroll_up();
                let mut k: u16 = 1;
                while k <= *n
                    invariant
                        1 <= k <= *n + 1,
                        *n < 16,
                        disp.wf(),
                        disp@ == old(disp)@.scrolled_up(k as int),
                    decreases *n + 1 - k,
                {
                    disp.scroll_up();
                    assert(disp@.cells =~~= old(disp)@.scrolled_up(k + 1).cells);
                    k += 1;
                }
            },
            Instruction::Clear => disp.clear(),
            Instruction::ScrollRight => disp.scroll_right(),
            Instruction::ScrollLeft => disp.scroll_left(),
            Instruction::Lores => {
                if self.mode == Mode::Xo {
                    disp.clear();
                }
                disp.set_lores();
            },
            _ => {
                if self.mode == Mode::Xo {
                    disp.clear();
                }
                disp.set_hires();
            },
        }
        Ok(Effect::Done)
    }

    /// Jumps, calls, returns and skips.
    #[verifier::rlimit(40)]
    fn exec_flow(&mut self, ins: &Instruction, disp: &mut Display, keys: u16) -> (r: Result<
        Effect,
        Fault,
    >)
        requires
            old(self).wf(),
            old(disp).wf(),
            ins.wf(),
            ins is Return || ins is Jump || ins is Call || ins is SkipEqualConst
                || ins is SkipUnequalConst || ins is SkipEqualReg || ins is SkipUnequalReg
                || ins is JumpOffset || ins is SkipKey || ins is SkipNotKey,
        ensures
            final(self).wf(),
            final(disp).wf(),
            (final(self)@, final(disp)@, result_view(r)) == step(
                old(self)@,
                old(disp)@,
                *ins,
                keys,
                0,
            ),
    {
        match ins {
            Instruction::Return => {
                match self.stack.pop() {
                    Some(a) => {
                        self.pc = a;
                        Ok(Effect::Done)
                    },
                    None => Err(Fault::StackUnderflow),
                }
            },
            Instruction::Jump(a) => {
                self.pc = *a;
                Ok(Effect::Done)
            },
            Instruction::Call(a) => {
                self.stack.push(self.pc);
                self.pc = *a;
                Ok(Effect::Done)
            },
            Instruction::SkipEqualConst(x, v) => {
                let cond = self.regs[*x] == *v;
                self.skip_if(cond)
            },
            Instruction::SkipUnequalConst(x, v) => {
                let cond = self.regs[*x] != *v;
                self.skip_if(cond)
            },
            Instruction::SkipEqualReg(x, y) => {
                let cond = self.regs[*x] == self.regs[*y];
                self.skip_if(cond)
            },
            Instruction::SkipUnequalReg(x, y) => {
                let cond = self.regs[*x] != self.regs[*y];
                self.skip_if(cond)
            },
            Instruction::JumpOffset(a) => {
                self.pc = *a + self.regs[0] as u16;
                Ok(Effect::Done)
            },
            Instruction::SkipKey(x) => {
                let latch = disp.just_pressed_key();
                let down = disp.key_pressed(keys, self.regs[*x]);
                let r = self.skip_if(down);
                if r.is_err() {
                    disp.set_just_pressed_key(latch);
                }
                r
            },
            Instruction::SkipNotKey(x) => {
                let latch = disp.just_pressed_key();
                let down = disp.key_pressed(keys, self.regs[*x]);
                let r = self.skip_if(!down);
                if r.is_err() {
                    disp.set_just_pressed_key(latch);
                }
                r
            },
            _ => Err(Fault::Unsupported),
        }
    }

    /// Register moves, logic, timers and the pitch.
    #[verifier::rlimit(40)]
    fn exec_regs(&mut self, ins: &Instruction, disp: &Display, rnd: u8) -> (r: Result<
        Effect,
        Fault,
    >)
        requires
            old(self).wf(),
            disp.wf(),
            ins.wf(),
            supports(old(self)@.mode, *ins),
            ins is SetConst || ins is SetReg || ins is Or || ins is And || ins is Xor
                || ins is Rand || ins is GetDelay || ins is SetDelay || ins is SetSound
                || ins is SetIndex || ins is SetPitch,
        ensures
            final(self).wf(),
            (final(self)@, disp@, result_view(r)) == step(old(self)@, disp@, *ins, 0, rnd),
    {
        match ins {
            Instruction::SetConst(x, v) => {
                self.regs[*x] = *v;
            },
            Instruction::SetReg(x, y) => {
                let v = self.regs[*y];
                self.regs[*x] = v;
            },
            Instruction::Or(x, y) => {
                let v = self.regs[*x] | self.regs[*y];
                self.regs[*x] = v;
                self.regs[15] = 0;
            },
            Instruction::And(x, y) => {
                let v = self.regs[*x] & self.regs[*y];
                self.regs[*x] = v;
                self.regs[15] = 0;
            },
            Instruction::Xor(x, y) => {
                let v = self.regs[*x] ^ self.regs[*y];
                self.regs[*x] = v;
                self.regs[15] = 0;
            },
            Instruction::Rand(x, v) => {
                self.regs[*x] = *v & rnd;
            },
            Instruction::GetDelay(x) => {
                self.regs[*x] = self.delay;
            },
            Instruction::SetDelay(x) => {
                self.delay = self.regs[*x];
            },
            Instruction::SetSound(x) => {
                self.sound = self.regs[*x];
            },
            Instruction::SetIndex(a) => {
                self.index = *a;
            },
            Instruction::SetPitch(x) => {
                return Ok(Effect::Pitch(self.regs[*x as usize]));
            },
            _ => {
                return Err(Fault::Unsupported);
            },
        }
        Ok(Effect::Done)
    }

    /// Additions.
    #[verifier::rlimit(40)]
    fn exec_add(&mut self, ins: &Instruction, disp: &Display) -> (r: Result<Effect, Fault>)
        requires
            old(self).wf(),
            disp.wf(),
            ins.wf(),
            ins is AddConst || ins is AddReg,
        ensures
            final(self).wf(),
            (final(self)@, disp@, result_view(r)) == step(old(self)@, disp@, *ins, 0, 0),
    {
        match ins {
            Instruction::AddConst(x, v) => {
                let s = self.regs[*x] as u16 + *v as u16;
                self.regs[*x] = (s % 256) as u8;
            },
            Instruction::AddReg(x, y) => {
                let s = self.regs[*x] as u16 + self.regs[*y] as u16;
                self.regs[*x] = (s % 256) as u8;
                self.regs[15] = if s > 255 { 1 } else { 0 };
            },
            _ => {
                return Err(Fault::Unsupported);
            },
        }
        Ok(Effect::Done)
    }

    /// Subtractions, with the flag set when nothing was borrowed.
    #[verifier::rlimit(40)]
    fn exec_sub(&mut self, ins: &Instruction, disp: &Display) -> (r: Result<Effect, Fault>)
        requires
            old(self).wf(),
            disp.wf(),
            ins.wf(),
            ins is SubRFromL || ins is SubLFromR,
        ensures
            final(self).wf(),
            (final(self)@, disp@, result_view(r)) == step(old(self)@, disp@, *ins, 0, 0),
    {
        match ins {
            Instruction::SubRFromL(x, y) => {
                let a = self.regs[*x];
                let b = self.regs[*y];
                let v = ((a as u16 + 256 - b as u16) % 256) as u8;
                assert(v == ((a - b) % 256) as u8);
                self.regs[*x] = v;
                self.regs[15] = if a >= b { 1 } else { 0 };
            },
            Instruction::SubLFromR(x, y) => {
                let a = self.regs[*x];
                let b = self.regs[*y];
                let v = ((b as u16 + 256 - a as u16) % 256) as u8;
                assert(v == ((b - a) % 256) as u8);
                self.regs[*x] = v;
                self.regs[15] = if b >= a { 1 } else { 0 };
            },
            _ => {
                return Err(Fault::Unsupported);
            },
        }
        Ok(Effect::Done)
    }

    /// Shifts, with the flag taking the bit shifted out.
    #[verifier::rlimit(40)]
    fn exec_shift(&mut self, ins: &Instruction, disp: &Display) -> (r: Result<Effect, Fault>)
        requires
            old(self).wf(),
            disp.wf(),
            ins.wf(),
            ins is RShift || ins is LShift,
        ensures
            final(self).wf(),
            (final(self)@, disp@, result_view(r)) == step(old(self)@, disp@, *ins, 0, 0),
    {
        match ins {
            Instruction::RShift(x, y) => {
                let src = if self.mode == Mode::Cosmac { self.regs[*y] } else { self.regs[*x] };
                self.regs[*x] = src / 2;
                self.regs[15] = src % 2;
            },
            Instruction::LShift(x, y) => {
                let src = if self.mode == Mode::Cosmac { self.regs[*y] } else { self.regs[*x] };
                self.regs[*x] = ((src as u16 * 2) % 256) as u8;
                self.regs[15] = if src >= 128 { 1 } else { 0 };
            },
            _ => {
                return Err(Fault::Unsupported);
            },
        }
        Ok(Effect::Done)
    }

    /// Index register arithmetic.
    #[verifier::rlimit(40)]
    fn exec_index(&mut self, ins: &Instruction, disp: &Display) -> (r: Result<Effect, Fault>)
        requires
            old(self).wf(),
            disp.wf(),
            ins.wf(),
            ins is AddIndex || ins is Font,
        ensures
            final(self).wf(),
            (final(self)@, disp@, result_view(r)) == step(old(self)@, disp@, *ins, 0, 0),
    {
        match ins {
            Instruction::AddIndex(x) => {
                self.index = ((self.index as u32 + self.regs[*x] as u32) % 0x10000) as u16;
            },
            Instruction::Font(x) => {
                let d = (self.regs[*x] % 16) as u16;
                self.index = FONT_START + d * 5;
            },
            _ => {
                return Err(Fault::Unsupported);
            },
        }
        Ok(Effect::Done)
    }

    /// Writes registers `first` to `first + count - 1` to memory from the
    /// index register on.
    fn regs_to_mem(&mut self, first: usize, count: usize)
        requires
            old(self).wf(),
            first + count <= 16,
            old(self)@.fits(count as int),
        ensures
            final(self).wf(),
            final(self)@ == old(self)@.with_mem(
                written(
                    old(self)@.mem,
                    old(self)@.index as int,
                    old(self)@.regs.subrange(first as int, first + count),
                ),
            ),
    {
        let start = self.index as usize;
        let ghost before = self.mem@;
        let mut k: usize = 0;
        while k < count
            invariant
                k <= count,
                first + count <= 16,
                start + count <= MEM_LIMIT,
                start == old(self)@.index,
                self.mem@.len() == MEM_LIMIT,
                self.regs@.len() == 16,
                self@ == old(self)@.with_mem(self.mem@),
                forall|a: int|
                    0 <= a < MEM_LIMIT ==> #[trigger] self.mem@[a] == if start <= a < start + k {
                        self.regs@[first + a - start]
                    } else {
                        before[a]
                    },
            decreases count - k,
        {
            let v = self.regs[first + k];
            self.mem[start + k] = v;
            k += 1;
        }
        assert(self.mem@ =~= written(
            before,
            start as int,
            old(self)@.regs.subrange(first as int, first + count),
        ));
    }

    /// Loads registers `first` to `first + count - 1` from memory from the
    /// index register on.
    fn mem_to_regs(&mut self, first: usize, count: usize)
        requires
            old(self).wf(),
            first + count <= 16,
            old(self)@.fits(count as int),
        ensures
            final(self).wf(),
            final(self)@ == old(self)@.with_regs(
                loaded(
                    old(self)@.regs,
                    first as int,
                    old(self)@.mem.subrange(
                        old(self)@.index as int,
                        old(self)@.index + count,
                    ),
                ),
            ),
    {
        let start = self.index as usize;
        let ghost before = self.regs@;
        let mut k: usize = 0;
        while k < count
            invariant
                k <= count,
                first + count <= 16,
                start + count <= MEM_LIMIT,
                start == old(self)@.index,
                self.regs@.len() == 16,
                self.mem@.len() == MEM_LIMIT,
                self@ == old(self)@.with_regs(self.regs@),
                forall|i: int|
                    0 <= i < 16 ==> #[trigger] self.regs@[i] == if first <= i < first + k {
                        self.mem@[start + i - first]
                    } else {
                        before[i]
                    },
            decreases count - k,
        {
            let v = self.mem[start + k];
            self.regs[first + k] = v;
            k += 1;
        }
        assert(self.regs@ =~= loaded(
            before,
            first as int,
            old(self)@.mem.subrange(start as int, start + count),
        ));
    }

    /// Register ranges to and from memory, decimal conversion, the audio
    /// pattern and the wide index load.
    #[verifier::rlimit(40)]
    fn exec_memory(&mut self, ins: &Instruction, disp: &Display) -> (r: Result<Effect, Fault>)
        requires
            old(self).wf(),
            disp.wf(),
            ins.wf(),
            supports(old(self)@.mode, *ins),
            ins is SaveRange || ins is LoadRange || ins is Store || ins is Load
                || ins is ConvertToDecimal || ins is Audio || ins is SetIndexWide,
        ensures
            final(self).wf(),
            (final(self)@, disp@, result_view(r)) == step(old(self)@, disp@, *ins, 0, 0),
    {
        let start = self.index as usize;
        match ins {
            Instruction::SaveRange(x, y) => {
                let count = if *y < *x { 0 } else { *y - *x + 1 };
                if start + count > MEM_LIMIT {
                    return Err(Fault::AddressOutOfRange);
                }
                assert(old(self)@.regs.subrange(*x as int, *x + count) =~= reg_range(
                    old(self)@.regs,
                    *x as int,
                    *y as int,
                ));
                self.regs_to_mem(*x, count);
            },
            Instruction::LoadRange(x, y) => {
                let count = if *y < *x { 0 } else { *y - *x + 1 };
                if start + count > MEM_LIMIT {
                    return Err(Fault::AddressOutOfRange);
                }
                self.mem_to_regs(*x, count);
            },
            Instruction::Store(x) => {
                if start + *x + 1 > MEM_LIMIT {
                    return Err(Fault::AddressOutOfRange);
                }
                self.regs_to_mem(0, *x + 1);
                if self.mode == Mode::Cosmac {
                    self.index = ((start + *x + 1) % 0x10000) as u16;
                }
            },
            Instruction::Load(x) => {
                if start + *x + 1 > MEM_LIMIT {
                    return Err(Fault::AddressOutOfRange);
                }
                self.mem_to_regs(0, *x + 1);
                if self.mode == Mode::Cosmac {
                    self.index = ((start + *x + 1) % 0x10000) as u16;
                }
            },
            Instruction::ConvertToDecimal(x) => {
                if start + 3 > MEM_LIMIT {
                    return Err(Fault::AddressOutOfRange);
                }
                let v = self.regs[*x];
                self.mem[start] = v / 100;
                self.mem[start + 1] = v / 10 % 10;
                self.mem[start + 2] = v % 10;
                assert(self.mem@ =~= written(
                    old(self)@.mem,
                    start as int,
                    seq![(v / 100) as u8, (v / 10 % 10) as u8, (v % 10) as u8],
                ));
            },
            Instruction::Audio => {
                if start + 16 > MEM_LIMIT {
                    return Err(Fault::AddressOutOfRange);
                }
                let mut pattern: Vec<u8> = Vec::new();
                let mut k: usize = 0;
                while k < 16
                    invariant
                        k <= 16,
                        start + 16 <= MEM_LIMIT,
                        self.mem@.len() == MEM_LIMIT,
                        pattern@ =~= self.mem@.subrange(start as int, start + k),
                    decreases 16 - k,
                {
                    pattern.push(self.mem[start + k]);
                    k += 1;
                }
                return Ok(Effect::Pattern(pattern));
            },
            Instruction::SetIndexWide => {
                if self.pc > 0xFFFD {
                    return Err(Fault::AddressOutOfRange);
                }
                let a = self.pc as usize;
                self.index = (self.mem[a] as u16) * 256 + self.mem[a + 1] as u16;
                self.pc = self.pc + 2;
            },
            _ => {
                return Err(Fault::Unsupported);
            },
        }
        Ok(Effect::Done)
    }

    /// Puts the program counter back by one instruction.
    fn rewind(&mut self) -> (r: Result<Effect, Fault>)
        requires
            old(self).wf(),
        ensures
            final(self).wf(),
            old(self)@.pc < 2 ==> final(self)@ == old(self)@ && r == Err::<Effect, Fault>(
                Fault::AddressOutOfRange,
            ),
            old(self)@.pc >= 2 ==> final(self)@ == old(self)@.with_pc((old(self)@.pc - 2) as u16)
                && r == Ok::<Effect, Fault>(Effect::Wait),
    {
        if self.pc < 2 {
            Err(Fault::AddressOutOfRange)
        } else {
            self.pc = self.pc - 2;
            Ok(Effect::Wait)
        }
    }

    /// A sprite draw, as `step_draw` states it.
    fn exec_draw(&mut self, disp: &mut Display, rx: usize, ry: usize, n: usize) -> (r: Result<
        Effect,
        Fault,
    >)
        requires
            old(self).wf(),
            old(disp).wf(),
            rx < 16,
            ry < 16,
            n < 16,
        ensures
            final(self).wf(),
            final(disp).wf(),
            (final(self)@, final(disp)@, result_view(r)) == step_draw(
                old(self)@,
                old(disp)@,
                rx,
                ry,
                n,
            ),
    {
        if !disp.just_updated() {
            return self.rewind();
        }
        let wide = n == 0;
        if wide && self.mode == Mode::Cosmac {
            self.regs[15] = 0;
            disp.set_just_updated(false);
            return Ok(Effect::Done);
        }
        let start = self.index as usize;
        let bytes = if wide {
            32
        } else {
            n
        };
        if start + bytes > MEM_LIMIT {
            return Err(Fault::AddressOutOfRange);
        }
        self.regs[15] = 0;
        let x = self.regs[rx] as usize % disp.width();
        let y = self.regs[ry] as usize % disp.height();
        disp.set_just_updated(false);
        let w: usize = if wide {
            16
        } else {
            8
        };
        let h: usize = if wide {
            16
        } else {
            n
        };
        let ghost d0 = disp@;
        let ghost cpu0 = self@;
        let ghost sprite = sprite_of(self@.mem, self@.index, wide);
        proof {
            disp.lemma_shaped();
            assert(d0.drawn_upto(sprite, x as int, y as int, w as int, 0, 0).cells =~~= d0.cells);
        }
        let mut hit = false;
        let mut r: usize = 0;
        while r < h
            invariant
                self.wf(),
                disp.wf(),
                self@ == cpu0,
                r <= h,
                h <= 16,
                w == (if wide { 16usize } else { 8usize }),
                h == (if wide { 16usize } else { n }),
                start + (if wide { 32 } else { h }) <= MEM_LIMIT,
                start == cpu0.index,
                x < d0.width(),
                y < d0.height(),
                sprite == sprite_of(cpu0.mem, cpu0.index, wide),
                disp@ == d0.drawn_upto(sprite, x as int, y as int, w as int, r as int, 0),
                hit == d0.collides_upto(sprite, x as int, y as int, w as int, r as int, 0),
            decreases h - r,
        {
            let mut c: usize = 0;
            while c < w
                invariant
                    self.wf(),
                    disp.wf(),
                    self@ == cpu0,
                    r < h,
                    c <= w,
                    h <= 16,
                    w == (if wide { 16usize } else { 8usize }),
                    h == (if wide { 16usize } else { n }),
                    start + (if wide { 32 } else { h }) <= MEM_LIMIT,
                    start == cpu0.index,
                    x < d0.width(),
                    y < d0.height(),
                    sprite == sprite_of(cpu0.mem, cpu0.index, wide),
                    disp@ == d0.drawn_upto(sprite, x as int, y as int, w as int, r as int, c as int),
                    hit == d0.collides_upto(sprite, x as int, y as int, w as int, r as int, c as int),
                decreases w - c,
            {
                let a = if wide {
                    start + 2 * r + (if c < 8 {
                        0
                    } else {
                        1
                    })
                } else {
                    start + r
                };
                let shift: u8 = if c < 8 {
                    (7 - c) as u8
                } else {
                    (15 - c) as u8
                };
                let bit = (self.mem[a] >> shift) & 1 == 1;
                proof {
                    d0.lemma_draw_step(sprite, x as int, y as int, w as int, r as int, c as int);
                }
                assert(bit == sprite(r as int, c as int));
                if bit {
                    if disp.draw_at(x + c, y + r) {
                        hit = true;
                    }
                }
                c += 1;
            }
            proof {
                d0.lemma_draw_row(sprite, x as int, y as int, w as int, r as int);
            }
            r += 1;
        }
        self.regs[15] = if hit {
            1
        } else {
            0
        };
        Ok(Effect::Done)
    }

    /// A key wait, as `step_get_key` states it.
    fn exec_get_key(&mut self, disp: &mut Display, x: usize, keys: u16) -> (r: Result<
        Effect,
        Fault,
    >)
        requires
            old(self).wf(),
            old(disp).wf(),
            x < 16,
        ensures
            final(self).wf(),
            final(disp).wf(),
            (final(self)@, final(disp)@, result_view(r)) == step_get_key(
                old(self)@,
                old(disp)@,
                x,
                keys,
            ),
    {
        let reg = self.regs[x];
        if disp.just_pressed_key() && !key_is_down(keys, reg) {
            disp.set_just_pressed_key(false);
            return Ok(Effect::Done);
        }
        if self.pc < 2 {
            return Err(Fault::AddressOutOfRange);
        }
        let mut found: Option<u8> = None;
        let mut k: u8 = 0;
        while k < 16
            invariant
                k <= 16,
                found is None ==> first_key_from(keys, 0) == first_key_from(keys, k as int),
                found is Some ==> found == first_key_from(keys, 0),
            decreases 16 - k,
        {
            if found.is_none() && key_is_down(keys, k) {
                found = Some(k);
            }
            k += 1;
        }
        match found {
            Some(key) => {
                self.regs[x] = key;
            },
            None => {},
        }
        disp.set_just_pressed_key(found.is_some());
        self.pc = self.pc - 2;
        Ok(Effect::Wait)
    }

    /// Runs one decoded instruction with the key state `keys` (bit k for key
    /// k) and `rnd` as the byte a random instruction draws. An instruction
    /// the mode does not offer is `Fault::Unsupported`; on any fault neither
    /// the machine nor the display changes.
    #[verifier::rlimit(60)]
    pub fn execute_with(&mut self, ins: &Instruction, disp: &mut Display, keys: u16, rnd: u8) -> (r:
        Result<Effect, Fault>)
        requires
            old(self).wf(),
            old(disp).wf(),
            ins.wf(),
        ensures
            final(self).wf(),
            final(disp).wf(),
            (final(self)@, final(disp)@, result_view(r)) == step(
                old(self)@,
                old(disp)@,
                *ins,
                keys,
                rnd,
            ),
    {
        if !supported(self.mode, ins) {
            return Err(Fault::Unsupported);
        }
        match ins {
            Instruction::ScrollDown(_)
            | Instruction::ScrollUp(_)
            | Instruction::Clear
            | Instruction::ScrollRight
            | Instruction::ScrollLeft
            | Instruction::Lores
            | Instruction::Hires => self.exec_screen(ins, disp),
            Instruction::Return
            | Instruction::Jump(_)
            | Instruction::Call(_)
            | Instruction::SkipEqualConst(_, _)
            | Instruction::SkipUnequalConst(_, _)
            | Instruction::SkipEqualReg(_, _)
            | Instruction::SkipUnequalReg(_, _)
            | Instruction::JumpOffset(_)
            | Instruction::SkipKey(_)
            | Instruction::SkipNotKey(_) => self.exec_flow(ins, disp, keys),
            Instruction::SetConst(_, _)
            | Instruction::SetReg(_, _)
            | Instruction::Or(_, _)
            | Instruction::And(_, _)
            | Instruction::Xor(_, _)
            | Instruction::Rand(_, _)
            | Instruction::GetDelay(_)
            | Instruction::SetDelay(_)
            | Instruction::SetSound(_)
            | Instruction::SetIndex(_)
            | Instruction::SetPitch(_) => self.exec_regs(ins, disp, rnd),
            Instruction::AddConst(_, _) | Instruction::AddReg(_, _) => self.exec_add(ins, disp),
            Instruction::SubRFromL(_, _) | Instruction::SubLFromR(_, _) => self.exec_sub(ins, disp),
            Instruction::RShift(_, _) | Instruction::LShift(_, _) => self.exec_shift(ins, disp),
            Instruction::AddIndex(_) | Instruction::Font(_) => self.exec_index(ins, disp),
            Instruction::SaveRange(_, _)
            | Instruction::LoadRange(_, _)
            | Instruction::Store(_)
            | Instruction::Load(_)
            | Instruction::ConvertToDecimal(_)
            | Instruction::Audio
            | Instruction::SetIndexWide => self.exec_memory(ins, disp),
            Instruction::Draw(rx, ry, n) => self.exec_draw(disp, *rx, *ry, *n),
            Instruction::GetKey(x) => self.exec_get_key(disp, *x, keys),
        }
    }

    /// Runs one decoded instruction with the key state `keys`; a random
    /// instruction draws its byte from the thread-local generator.
    pub fn execute(&mut self, ins: &Instruction, disp: &mut Display, keys: u16) -> (r: Result<
        Effect,
        Fault,
    >)
        requires
            old(self).wf(),
            old(disp).wf(),
            ins.wf(),
        ensures
            final(self).wf(),
            final(disp).wf(),
            exists|rnd: u8|
                (final(self)@, final(disp)@, result_view(r)) == #[trigger] step(
                    old(self)@,
                    old(disp)@,
                    *ins,
                    keys,
                    rnd,
                ),
    {
        let rnd = match ins {
            Instruction::Rand(_, _) => random_byte(),
            _ => 0,
        };
        self.execute_with(ins, disp, keys, rnd)
    }

    /// Fetches, decodes and runs the instruction at the program counter. A
    /// fetch fault leaves everything as it was.
    pub fn cycle(&mut self, disp: &mut Display, keys: u16) -> (r: Result<Effect, Fault>)
        requires
            old(self).wf(),
            old(disp).wf(),
        ensures
            final(self).wf(),
            final(disp).wf(),
            old(self)@.pc > 0xFFFD ==> r == Err::<Effect, Fault>(Fault::AddressOutOfRange)
                && final(self)@ == old(self)@ && final(disp)@ == old(disp)@,
            old(self)@.pc <= 0xFFFD ==> match decoded(
                word_at(old(self)@.mem, old(self)@.pc as int),
            ) {
                Err(f) => r == Err::<Effect, Fault>(f) && final(self)@ == old(self)@
                    && final(disp)@ == old(disp)@,
                Ok(ins) => exists|rnd: u8|
                    (final(self)@, final(disp)@, result_view(r)) == #[trigger] step(
                        old(self)@.with_pc((old(self)@.pc + 2) as u16),
                        old(disp)@,
                        ins,
                        keys,
                        rnd,
                    ),
            },
    {
        match self.fetch() {
            Ok(ins) => self.execute(&ins, disp, keys),
            Err(f) => Err(f),
        }
    }
}

} // verus!