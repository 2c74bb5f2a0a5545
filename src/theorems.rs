use vstd::prelude::*;

use crate::cpu::{CpuView, Mode, Outcome, step, sprite_of};
use crate::display::DisplayView;
use crate::fault::Fault;
use crate::instruction::Instruction;

verus! {

/// Drawing a one-row sprite of eight set pixels twice at the same place,
/// with a frame presented in between, brings the grid back to what it was,
/// and the second draw sets the flag register: each pixel the first draw lit
/// is turned off again. (When every pixel of the sprite that lands in the
/// view started lit, the first draw lit nothing and there is no collision.)
pub proof fn draw_twice_restores(
    c: CpuView,
    d: DisplayView,
    rx: usize,
    ry: usize,
    keys: u16,
    rnd: u8,
)
    requires
        c.wf(),
        d.shaped(),
        rx < 16,
        ry < 16,
        d.just_updated,
        c.fits(1),
        c.mem[c.index as int] == 0xFF,
        ({
            let regs = c.regs.update(15, 0);
            let x = regs[rx as int] as int % d.width();
            let y = regs[ry as int] as int % d.height();
            exists|col: int|
                0 <= col < 8 && d.in_view(x + col, y) && !#[trigger] d.anchor_lit(x + col, y)
        }),
    ensures
        ({
            let (c1, d1, r1) = step(c, d, Instruction::Draw(rx, ry, 1), keys, rnd);
            let (c2, d2, r2) = step(
                c1,
                DisplayView { just_updated: true, ..d1 },
                Instruction::Draw(rx, ry, 1),
                keys,
                rnd,
            );
            &&& r1 == Ok::<Outcome, Fault>(Outcome::Done)
            &&& r2 == Ok::<Outcome, Fault>(Outcome::Done)
            &&& d2.cells == d.cells
            &&& c2.regs[15] == 1
        }),
{
    let (c1, d1, r1) = step(c, d, Instruction::Draw(rx, ry, 1), keys, rnd);
    let d1p = DisplayView { just_updated: true, ..d1 };
    let (c2, d2, r2) = step(c1, d1p, Instruction::Draw(rx, ry, 1), keys, rnd);
    let regs = c.regs.update(15, 0);
    let x = regs[rx as int] as int % d.width();
    let y = regs[ry as int] as int % d.height();
    let sprite = sprite_of(c.mem, c.index, false);
    assert(c1.regs.update(15, 0) =~= regs);
    assert forall|col: int| 0 <= col < 8 implies #[trigger] sprite(0, col) by {
        let s = (7 - col) as u8;
        assert(s < 8 ==> (0xFFu8 >> s) & 1u8 == 1u8) by (bit_vector);
    }
    let e0 = DisplayView { just_updated: false, ..d };
    let e1 = DisplayView { just_updated: false, ..d1p };
    assert(d2.cells =~~= d.cells);
    let col = choose|col: int|
        0 <= col < 8 && d.in_view(x + col, y) && !#[trigger] d.anchor_lit(x + col, y);
    assert(sprite(0, col));
    assert(e1.anchor_lit(x + col, y));
    assert(e1.collides(sprite, x, y, 8, 1));
}

/// The wide index load and the audio pattern exist in Xo mode only: Cosmac
/// mode refuses them, and Xo mode carries them out (where the bytes they read
/// lie in memory) without touching the display, so `just_updated` stays.
pub proof fn xo_only_gating(c: CpuView, d: DisplayView, keys: u16, rnd: u8)
    requires
        c.wf(),
    ensures
        c.mode == Mode::Cosmac ==> step(c, d, Instruction::SetIndexWide, keys, rnd).2 == Err::<
            Outcome,
            Fault,
        >(Fault::Unsupported),
        c.mode == Mode::Cosmac ==> step(c, d, Instruction::Audio, keys, rnd).2 == Err::<
            Outcome,
            Fault,
        >(Fault::Unsupported),
        c.mode == Mode::Xo && c.pc <= 0xFFFD ==> step(
            c,
            d,
            Instruction::SetIndexWide,
            keys,
            rnd,
        ).2 is Ok && step(c, d, Instruction::SetIndexWide, keys, rnd).1 == d,
        c.mode == Mode::Xo && c.fits(16) ==> step(c, d, Instruction::Audio, keys, rnd).2 is Ok
            && step(c, d, Instruction::Audio, keys, rnd).1 == d,
{
}

/// A resolution switch in Xo mode leaves no cell lit; in Super mode it keeps
/// every cell as it was.
pub proof fn resolution_switch(c: CpuView, d: DisplayView, keys: u16, rnd: u8)
    requires
        c.wf(),
    ensures
        c.mode == Mode::Xo ==> forall|x: int, y: int|
            0 <= x < 128 && 0 <= y < 64 ==> !#[trigger] step(
                c,
                d,
                Instruction::Hires,
                keys,
                rnd,
            ).1.lit(x, y) && !step(c, d, Instruction::Lores, keys, rnd).1.lit(x, y),
        c.mode == Mode::Super ==> step(c, d, Instruction::Hires, keys, rnd).1.cells == d.cells
            && step(c, d, Instruction::Lores, keys, rnd).1.cells == d.cells,
        c.mode != Mode::Cosmac ==> step(c, d, Instruction::Hires, keys, rnd).1.hires && !step(
            c,
            d,
            Instruction::Lores,
            keys,
            rnd,
        ).1.hires,
{
}

/// Storing registers 0 to 5 and loading them back from the same address,
/// whatever the registers held in between, gives back their values. Cosmac
/// mode advances the index register by 6 on each of the two; the other modes
/// leave it where it was.
pub proof fn store_load_round_trip(c: CpuView, d: DisplayView, between: Seq<u8>, keys: u16, rnd: u8)
    requires
        c.wf(),
        between.len() == 16,
        c.fits(6),
    ensures
        ({
            let (c1, _d1, r1) = step(c, d, Instruction::Store(5), keys, rnd);
            let c2 = CpuView { regs: between, index: c.index, ..c1 };
            let (c3, _d3, r3) = step(c2, d, Instruction::Load(5), keys, rnd);
            let moved = if c.mode == Mode::Cosmac {
                ((c.index + 6) % 0x10000) as u16
            } else {
                c.index
            };
            &&& r1 == Ok::<Outcome, Fault>(Outcome::Done)
            &&& r3 == Ok::<Outcome, Fault>(Outcome::Done)
            &&& c1.index == moved
            &&& c3.index == moved
            &&& c3.regs.subrange(0, 6) == c.regs.subrange(0, 6)
        }),
{
    let (c1, _d1, r1) = step(c, d, Instruction::Store(5), keys, rnd);
    let c2 = CpuView { regs: between, index: c.index, ..c1 };
    let (c3, _d3, r3) = step(c2, d, Instruction::Load(5), keys, rnd);
    assert(c3.regs.subrange(0, 6) =~= c.regs.subrange(0, 6));
}

} // verus!
