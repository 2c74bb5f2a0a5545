use vstd::prelude::*;

verus! {

/// Width of the physical grid, which is also the high-resolution width.
pub const HI_WIDTH: usize = 128;
/// Height of the physical grid, which is also the high-resolution height.
pub const HI_HEIGHT: usize = 64;
/// Logical width in low resolution.
pub const LO_WIDTH: usize = 64;
/// Logical height in low resolution.
pub const LO_HEIGHT: usize = 32;

/// The number of physical cells.
const CELLS: usize = 8192;

/// A display as the contracts see it: the physical grid as rows of cells
/// (`cells[y][x]`), the resolution and the two flags.
pub struct DisplayView {
    pub cells: Seq<Seq<bool>>,
    pub hires: bool,
    pub just_updated: bool,
    pub just_pressed_key: bool,
}

/// A physical grid whose cell (x, y) is `f(x, y)`.
pub open spec fn grid(f: spec_fn(int, int) -> bool) -> Seq<Seq<bool>> {
    Seq::new(HI_HEIGHT as nat, |y: int| Seq::new(HI_WIDTH as nat, |x: int| f(x, y)))
}

/// Whether key `key` is down in `keys`, where bit k stands for key k.
pub open spec fn key_down(keys: u16, key: u8) -> bool {
    key < 16 && (keys >> (key as u16)) & 1u16 == 1u16
}

impl DisplayView {
    /// The grid has 64 rows of 128 cells.
    pub open spec fn shaped(self) -> bool {
        self.cells.len() == HI_HEIGHT && forall|y: int|
            0 <= y < HI_HEIGHT ==> #[trigger] self.cells[y].len() == HI_WIDTH
    }

    pub open spec fn lit(self, x: int, y: int) -> bool {
        self.cells[y][x]
    }

    /// The logical width.
    pub open spec fn width(self) -> int {
        if self.hires { HI_WIDTH as int } else { LO_WIDTH as int }
    }

    /// The logical height.
    pub open spec fn height(self) -> int {
        if self.hires { HI_HEIGHT as int } else { LO_HEIGHT as int }
    }

    /// The logical coordinate of physical coordinate `p` (two cells per pixel
    /// in low resolution).
    pub open spec fn logical(self, p: int) -> int {
        if self.hires { p } else { p / 2 }
    }

    pub open spec fn in_view(self, lx: int, ly: int) -> bool {
        0 <= lx < self.width() && 0 <= ly < self.height()
    }

    /// Whether the top-left physical cell of logical pixel (lx, ly) is lit.
    pub open spec fn anchor_lit(self, lx: int, ly: int) -> bool {
        if self.hires { self.lit(lx, ly) } else { self.lit(2 * lx, 2 * ly) }
    }

    pub open spec fn with_cells(self, cells: Seq<Seq<bool>>) -> DisplayView {
        DisplayView { cells, ..self }
    }

    pub open spec fn cleared(self) -> DisplayView {
        self.with_cells(grid(|x: int, y: int| false))
    }

    /// Every row moved down by `n`; the top rows come in unlit.
    pub open spec fn scrolled_down(self, n: int) -> DisplayView {
        self.with_cells(grid(|x: int, y: int| y >= n && self.lit(x, y - n)))
    }

    /// Every row moved up by `n`; the bottom rows come in unlit.
    pub open spec fn scrolled_up(self, n: int) -> DisplayView {
        self.with_cells(grid(|x: int, y: int| y + n < HI_HEIGHT && self.lit(x, y + n)))
    }

    /// Every column moved left by four; the right columns come in unlit.
    pub open spec fn scrolled_left(self) -> DisplayView {
        self.with_cells(grid(|x: int, y: int| x + 4 < HI_WIDTH && self.lit(x + 4, y)))
    }

    /// Every column moved right by four; the left columns come in unlit.
    pub open spec fn scrolled_right(self) -> DisplayView {
        self.with_cells(grid(|x: int, y: int| x >= 4 && self.lit(x - 4, y)))
    }

    /// Logical pixel (lx, ly) flipped: one cell in high resolution, a 2x2
    /// block in low resolution; nothing for a pixel outside the view.
    pub open spec fn toggled(self, lx: int, ly: int) -> DisplayView {
        if self.in_view(lx, ly) {
            self.with_cells(
                grid(
                    |x: int, y: int|
                        self.lit(x, y) != (self.logical(x) == lx && self.logical(y) == ly),
                ),
            )
        } else {
            self
        }
    }

    /// Whether flipping logical pixel (lx, ly) turns a lit pixel off.
    pub open spec fn toggle_collides(self, lx: int, ly: int) -> bool {
        self.in_view(lx, ly) && self.anchor_lit(lx, ly)
    }

    /// Whether the sprite pixel in row r, column c of a sprite `w` wide drawn
    /// at (x, y) is among the first ones drawn: the rows before `r0`, and the
    /// columns before `c0` of row `r0`.
    pub open spec fn drawn_before(w: int, r0: int, c0: int, r: int, c: int) -> bool {
        0 <= r && 0 <= c < w && (r < r0 || (r == r0 && c < c0))
    }

    /// Whether logical pixel (lx, ly) is flipped by the first pixels of the sprite.
    pub open spec fn hit_by(
        self,
        sprite: spec_fn(int, int) -> bool,
        x: int,
        y: int,
        w: int,
        r0: int,
        c0: int,
        lx: int,
        ly: int,
    ) -> bool {
        Self::drawn_before(w, r0, c0, ly - y, lx - x) && self.in_view(lx, ly) && sprite(
            ly - y,
            lx - x,
        )
    }

    /// The grid after the first pixels of a sprite have been drawn at (x, y):
    /// each set sprite pixel inside the view flips its logical pixel, and
    /// pixels past the right or bottom edge are clipped.
    pub open spec fn drawn_upto(
        self,
        sprite: spec_fn(int, int) -> bool,
        x: int,
        y: int,
        w: int,
        r0: int,
        c0: int,
    ) -> DisplayView {
        self.with_cells(
            grid(
                |px: int, py: int|
                    self.lit(px, py) != self.hit_by(
                        sprite,
                        x,
                        y,
                        w,
                        r0,
                        c0,
                        self.logical(px),
                        self.logical(py),
                    ),
            ),
        )
    }

    /// Whether one of the first pixels of the sprite turns a lit pixel off.
    pub open spec fn collides_upto(
        self,
        sprite: spec_fn(int, int) -> bool,
        x: int,
        y: int,
        w: int,
        r0: int,
        c0: int,
    ) -> bool {
        exists|r: int, c: int|
            #![trigger sprite(r, c)]
            Self::drawn_before(w, r0, c0, r, c) && self.in_view(x + c, y + r) && sprite(r, c)
                && self.anchor_lit(x + c, y + r)
    }

    /// The grid after a whole sprite `w` wide and `h` high is drawn at (x, y).
    pub open spec fn drawn(
        self,
        sprite: spec_fn(int, int) -> bool,
        x: int,
        y: int,
        w: int,
        h: int,
    ) -> DisplayView {
        self.drawn_upto(sprite, x, y, w, h, 0)
    }

    /// Whether drawing the whole sprite turns a lit pixel off.
    pub open spec fn collides(
        self,
        sprite: spec_fn(int, int) -> bool,
        x: int,
        y: int,
        w: int,
        h: int,
    ) -> bool {
        self.collides_upto(sprite, x, y, w, h, 0)
    }
}

impl DisplayView {
    /// Drawing one more sprite pixel: a set pixel flips its logical pixel
    /// and collides where its anchor cell was lit before the sprite began; an
    /// unset pixel changes nothing.
    pub proof fn lemma_draw_step(
        self,
        sprite: spec_fn(int, int) -> bool,
        x: int,
        y: int,
        w: int,
        r: int,
        c: int,
    )
        requires
            0 <= r,
            0 <= c < w,
            0 <= x,
            0 <= y,
        ensures
            sprite(r, c) ==> self.drawn_upto(sprite, x, y, w, r, c).toggled(x + c, y + r)
                == self.drawn_upto(sprite, x, y, w, r, c + 1),
            !sprite(r, c) ==> self.drawn_upto(sprite, x, y, w, r, c) == self.drawn_upto(
                sprite,
                x,
                y,
                w,
                r,
                c + 1,
            ),
            self.drawn_upto(sprite, x, y, w, r, c).toggle_collides(x + c, y + r)
                == self.toggle_collides(x + c, y + r),
            self.collides_upto(sprite, x, y, w, r, c + 1) == (self.collides_upto(
                sprite,
                x,
                y,
                w,
                r,
                c,
            ) || (sprite(r, c) && self.toggle_collides(x + c, y + r))),
    {
        let before = self.drawn_upto(sprite, x, y, w, r, c);
        let after = self.drawn_upto(sprite, x, y, w, r, c + 1);
        if sprite(r, c) {
            if before.in_view(x + c, y + r) {
                assert(before.toggled(x + c, y + r).cells =~~= after.cells);
            } else {
                assert(before.cells =~~= after.cells);
            }
        } else {
            assert(before.cells =~~= after.cells);
        }
        if self.collides_upto(sprite, x, y, w, r, c + 1) {
            let (r1, c1) = choose|r1: int, c1: int|
                #![trigger sprite(r1, c1)]
                Self::drawn_before(w, r, c + 1, r1, c1) && self.in_view(x + c1, y + r1) && sprite(
                    r1,
                    c1,
                ) && self.anchor_lit(x + c1, y + r1);
            if !(r1 == r && c1 == c) {
                assert(Self::drawn_before(w, r, c, r1, c1) && sprite(r1, c1));
            }
        }
        if self.collides_upto(sprite, x, y, w, r, c) {
            let (r1, c1) = choose|r1: int, c1: int|
                #![trigger sprite(r1, c1)]
                Self::drawn_before(w, r, c, r1, c1) && self.in_view(x + c1, y + r1) && sprite(
                    r1,
                    c1,
                ) && self.anchor_lit(x + c1, y + r1);
            assert(Self::drawn_before(w, r, c + 1, r1, c1) && sprite(r1, c1));
        }
        if sprite(r, c) && self.toggle_collides(x + c, y + r) {
            assert(Self::drawn_before(w, r, c + 1, r, c) && sprite(r, c));
        }
    }

    /// Finishing a row of the sprite is starting the next one.
    pub proof fn lemma_draw_row(
        self,
        sprite: spec_fn(int, int) -> bool,
        x: int,
        y: int,
        w: int,
        r: int,
    )
        requires
            0 <= r,
            0 <= w,
        ensures
            self.drawn_upto(sprite, x, y, w, r, w) == self.drawn_upto(sprite, x, y, w, r + 1, 0),
            self.collides_upto(sprite, x, y, w, r, w) == self.collides_upto(
                sprite,
                x,
                y,
                w,
                r + 1,
                0,
            ),
    {
        assert(self.drawn_upto(sprite, x, y, w, r, w).cells =~~= self.drawn_upto(
            sprite,
            x,
            y,
            w,
            r + 1,
            0,
        ).cells);
        assert forall|r1: int, c1: int|
            Self::drawn_before(w, r, w, r1, c1) == Self::drawn_before(w, r + 1, 0, r1, c1) by {}
    }
}

/// The framebuffer: a 128x64 grid of cells, the resolution, and the flags
/// that throttle drawing and key waits.
pub struct Display {
    cells: Vec<bool>,
    hires: bool,
    /// Set when a frame has been presented, consumed by the next draw.
    just_updated: bool,
    /// Whether the most recent key probe found its key down.
    just_pressed_key: bool,
}

impl View for Display {
    type V = DisplayView;

    closed spec fn view(&self) -> DisplayView {
        DisplayView {
            cells: grid(|x: int, y: int| self.cells@[y * 128 + x]),
            hires: self.hires,
            just_updated: self.just_updated,
            just_pressed_key: self.just_pressed_key,
        }
    }
}

impl Display {
    pub closed spec fn wf(&self) -> bool {
        self.cells@.len() == CELLS
    }

    /// Every display's grid has 64 rows of 128 cells.
    pub proof fn lemma_shaped(&self)
        ensures
            self@.shaped(),
    {
    }

    /// A blank low-resolution display, ready for the first draw.
    pub fn new() -> (r: Display)
        ensures
            r.wf(),
            r@ == (DisplayView {
                cells: grid(|x: int, y: int| false),
                hires: false,
                just_updated: true,
                just_pressed_key: false,
            }),
    {
        let mut cells: Vec<bool> = Vec::new();
        let mut i: usize = 0;
        while i < CELLS
            invariant
                i <= CELLS,
                cells@.len() == i,
                forall|j: int| 0 <= j < i ==> !cells@[j],
            decreases CELLS - i,
        {
            cells.push(false);
            i += 1;
        }
        let r = Display { cells, hires: false, just_updated: true, just_pressed_key: false };
        assert(r@.cells =~~= grid(|x: int, y: int| false));
        r
    }

    /// The logical width.
    pub fn width(&self) -> (r: usize)
        ensures
            r == self@.width(),
    {
        if self.hires {
            HI_WIDTH
        } else {
            LO_WIDTH
        }
    }

    /// The logical height.
    pub fn height(&self) -> (r: usize)
        ensures
            r == self@.height(),
    {
        if self.hires {
            HI_HEIGHT
        } else {
            LO_HEIGHT
        }
    }

    pub fn is_hires(&self) -> (r: bool)
        ensures
            r == self@.hires,
    {
        self.hires
    }

    /// Whether physical cell (x, y) is lit.
    pub fn is_lit(&self, x: usize, y: usize) -> (r: bool)
        requires
            self.wf(),
            x < HI_WIDTH,
            y < HI_HEIGHT,
        ensures
            r == self@.lit(x as int, y as int),
    {
        self.cells[y * HI_WIDTH + x]
    }

    /// Unlights every cell.
    pub fn clear(&mut self)
        requires
            old(self).wf(),
        ensures
            final(self).wf(),
            final(self)@ == old(self)@.cleared(),
    {
        let mut i: usize = 0;
        while i < CELLS
            invariant
                i <= CELLS,
                self.cells@.len() == CELLS,
                self.hires == old(self).hires,
                self.just_updated == old(self).just_updated,
                self.just_pressed_key == old(self).just_pressed_key,
                forall|j: int| 0 <= j < i ==> !self.cells@[j],
            decreases CELLS - i,
        {
            self.cells[i] = false;
            i += 1;
        }
        assert(self@.cells =~~= old(self)@.cleared().cells);
    }

    /// Flips one cell.
    fn flip(&mut self, i: usize)
        requires
            old(self).wf(),
            i < CELLS,
        ensures
            final(self).wf(),
            final(self).cells@ == old(self).cells@.update(i as int, !old(self).cells@[i as int]),
            final(self).hires == old(self).hires,
            final(self).just_updated == old(self).just_updated,
            final(self).just_pressed_key == old(self).just_pressed_key,
    {
        let v = self.cells[i];
        self.cells[i] = !v;
    }

    /// Flips logical pixel (x, y) and reports whether it turned a lit pixel
    /// off; a pixel outside the current resolution is left alone.
    pub fn draw_at(&mut self, x: usize, y: usize) -> (r: bool)
        requires
            old(self).wf(),
        ensures
            final(self).wf(),
            final(self)@ == old(self)@.toggled(x as int, y as int),
            r == old(self)@.toggle_collides(x as int, y as int),
    {
        if x >= self.width() || y >= self.height() {
            return false;
        }
        let ghost before = self.cells@;
        if self.hires {
            let i = x + y * HI_WIDTH;
            self.flip(i);
            let r = !self.cells[i];
            assert(self@.cells =~~= old(self)@.toggled(x as int, y as int).cells);
            r
        } else {
            let i = 2 * x + 2 * y * HI_WIDTH;
            self.flip(i);
            self.flip(i + 1);
            self.flip(i + HI_WIDTH);
            self.flip(i + HI_WIDTH + 1);
            let r = !self.cells[i];
            assert forall|px: int, py: int| 0 <= px < 128 && 0 <= py < 64 implies
                #[trigger] self.cells@[py * 128 + px] == (before[py * 128 + px] != (px / 2
                    == x && py / 2 == y)) by {
                assert(py * 128 + px == i <==> (px == 2 * x && py == 2 * y));
                assert(py * 128 + px == i + 1 <==> (px == 2 * x + 1 && py == 2 * y));
                assert(py * 128 + px == i + 128 <==> (px == 2 * x && py == 2 * y + 1));
                assert(py * 128 + px == i + 129 <==> (px == 2 * x + 1 && py == 2 * y + 1));
            }
            assert(self@.cells =~~= old(self)@.toggled(x as int, y as int).cells);
            r
        }
    }

    /// Probes key `key` against the key state `keys` (bit k for key k),
    /// latching the answer in `just_pressed_key`. A code above 0xF is never down.
    pub fn key_pressed(&mut self, keys: u16, key: u8) -> (r: bool)
        ensures
            r == key_down(keys, key),
            final(self)@ == (DisplayView { just_pressed_key: r, ..old(self)@ }),
            final(self).wf() == old(self).wf(),
    {
        self.just_pressed_key = key < 16 && (keys >> (key as u16)) & 1 == 1;
        self.just_pressed_key
    }

    /// Moves the grid down by one row.
    pub fn scroll_down(&mut self)
        requires
            old(self).wf(),
        ensures
            final(self).wf(),
            final(self)@ == old(self)@.scrolled_down(1),
    {
        let ghost before = self.cells@;
        let mut i: usize = CELLS;
        while i > HI_WIDTH
            invariant
                HI_WIDTH <= i <= CELLS,
                self.cells@.len() == CELLS,
                self.hires == old(self).hires,
                self.just_updated == old(self).just_updated,
                self.just_pressed_key == old(self).just_pressed_key,
                forall|j: int| 0 <= j < i ==> self.cells@[j] == before[j],
                forall|j: int| i <= j < CELLS ==> self.cells@[j] == before[j - 128],
            decreases i,
        {
            i -= 1;
            let v = self.cells[i - HI_WIDTH];
            self.cells[i] = v;
        }
        let mut k: usize = 0;
        while k < HI_WIDTH
            invariant
                k <= HI_WIDTH,
                self.cells@.len() == CELLS,
                self.hires == old(self).hires,
                self.just_updated == old(self).just_updated,
                self.just_pressed_key == old(self).just_pressed_key,
                forall|j: int| 0 <= j < k ==> !self.cells@[j],
                forall|j: int| k <= j < 128 ==> self.cells@[j] == before[j],
                forall|j: int| 128 <= j < CELLS ==> self.cells@[j] == before[j - 128],
            decreases HI_WIDTH - k,
        {
            self.cells[k] = false;
            k += 1;
        }
        assert forall|px: int, py: int| 0 <= px < 128 && 0 <= py < 64 implies
            #[trigger] self.cells@[py * 128 + px] == (py >= 1 && before[(py - 1) * 128 + px]) by {
            if py >= 1 {
                assert(py * 128 + px >= 128);
                assert(py * 128 + px - 128 == (py - 1) * 128 + px);
            }
        }
        assert(self@.cells =~~= old(self)@.scrolled_down(1).cells);
    }

    /// Moves the grid up by one row.
    pub fn scroll_up(&mut self)
        requires
            old(self).wf(),
        ensures
            final(self).wf(),
            final(self)@ == old(self)@.scrolled_up(1),
    {
        let ghost before = self.cells@;
        let mut i: usize = 0;
        while i < CELLS - HI_WIDTH
            invariant
                i <= CELLS - HI_WIDTH,
                self.cells@.len() == CELLS,
                self.hires == old(self).hires,
                self.just_updated == old(self).just_updated,
                self.just_pressed_key == old(self).just_pressed_key,
                forall|j: int| 0 <= j < i ==> self.cells@[j] == before[j + 128],
                forall|j: int| i <= j < CELLS ==> self.cells@[j] == before[j],
            decreases CELLS - i,
        {
            let v = self.cells[i + HI_WIDTH];
            self.cells[i] = v;
            i += 1;
        }
        while i < CELLS
            invariant
                CELLS - HI_WIDTH <= i <= CELLS,
                self.cells@.len() == CELLS,
                self.hires == old(self).hires,
                self.just_updated == old(self).just_updated,
                self.just_pressed_key == old(self).just_pressed_key,
                forall|j: int| 0 <= j < CELLS - 128 ==> self.cells@[j] == before[j + 128],
                forall|j: int| CELLS - 128 <= j < i ==> !self.cells@[j],
            decreases CELLS - i,
        {
            self.cells[i] = false;
            i += 1;
        }
        assert forall|px: int, py: int| 0 <= px < 128 && 0 <= py < 64 implies
            #[trigger] self.cells@[py * 128 + px] == (py + 1 < 64 && before[(py + 1) * 128
                + px]) by {
            assert(py * 128 + px + 128 == (py + 1) * 128 + px);
        }
        assert(self@.cells =~~= old(self)@.scrolled_up(1).cells);
    }

    /// Moves every row four cells to the left.
    pub fn scroll_left(&mut self)
        requires
            old(self).wf(),
        ensures
            final(self).wf(),
            final(self)@ == old(self)@.scrolled_left(),
    {
        let ghost before = self.cells@;
        let mut y: usize = 0;
        while y < HI_HEIGHT
            invariant
                y <= HI_HEIGHT,
                self.cells@.len() == CELLS,
                self.hires == old(self).hires,
                self.just_updated == old(self).just_updated,
                self.just_pressed_key == old(self).just_pressed_key,
                forall|py: int, px: int|
                    0 <= py < y && 0 <= px < 128 ==> #[trigger] self.cells@[py * 128 + px] == (px
                        + 4 < 128 && before[py * 128 + px + 4]),
                forall|j: int| y * 128 <= j < CELLS ==> self.cells@[j] == before[j],
            decreases HI_HEIGHT - y,
        {
            let row = y * HI_WIDTH;
            let mut x: usize = 0;
            while x < HI_WIDTH
                invariant
                    y < HI_HEIGHT,
                    row == y * 128,
                    x <= HI_WIDTH,
                    self.cells@.len() == CELLS,
                    self.hires == old(self).hires,
                    self.just_updated == old(self).just_updated,
                    self.just_pressed_key == old(self).just_pressed_key,
                    forall|py: int, px: int|
                        0 <= py < y && 0 <= px < 128 ==> #[trigger] self.cells@[py * 128 + px]
                            == (px + 4 < 128 && before[py * 128 + px + 4]),
                    forall|px: int|
                        0 <= px < x ==> #[trigger] self.cells@[row + px] == (px + 4 < 128
                            && before[row + px + 4]),
                    forall|j: int| row + x <= j < CELLS ==> self.cells@[j] == before[j],
                decreases HI_WIDTH - x,
            {
                if x + 4 < HI_WIDTH {
                    let v = self.cells[row + x + 4];
                    self.cells[row + x] = v;
                } else {
                    self.cells[row + x] = false;
                }
                x += 1;
            }
            y += 1;
        }
        assert(self@.cells =~~= old(self)@.scrolled_left().cells);
    }

    /// Moves every row four cells to the right.
    pub fn scroll_right(&mut self)
        requires
            old(self).wf(),
        ensures
            final(self).wf(),
            final(self)@ == old(self)@.scrolled_right(),
    {
        let ghost before = self.cells@;
        let mut y: usize = 0;
        while y < HI_HEIGHT
            invariant
                y <= HI_HEIGHT,
                self.cells@.len() == CELLS,
                self.hires == old(self).hires,
                self.just_updated == old(self).just_updated,
                self.just_pressed_key == old(self).just_pressed_key,
                forall|py: int, px: int|
                    0 <= py < y && 0 <= px < 128 ==> #[trigger] self.cells@[py * 128 + px] == (px
                        >= 4 && before[py * 128 + px - 4]),
                forall|j: int| y * 128 <= j < CELLS ==> self.cells@[j] == before[j],
            decreases HI_HEIGHT - y,
        {
            let row = y * HI_WIDTH;
            let mut x: usize = HI_WIDTH;
            while x > 0
                invariant
                    y < HI_HEIGHT,
                    row == y * 128,
                    x <= HI_WIDTH,
                    self.cells@.len() == CELLS,
                    self.hires == old(self).hires,
                    self.just_updated == old(self).just_updated,
                    self.just_pressed_key == old(self).just_pressed_key,
                    forall|py: int, px: int|
                        0 <= py < y && 0 <= px < 128 ==> #[trigger] self.cells@[py * 128 + px]
                            == (px >= 4 && before[py * 128 + px - 4]),
                    forall|px: int|
                        x <= px < 128 ==> #[trigger] self.cells@[row + px] == (px >= 4
                            && before[row + px - 4]),
                    forall|j: int| row <= j < row + x ==> self.cells@[j] == before[j],
                    forall|j: int| row + 128 <= j < CELLS ==> self.cells@[j] == before[j],
                decreases x,
            {
                x -= 1;
                if x >= 4 {
                    let v = self.cells[row + x - 4];
                    self.cells[row + x] = v;
                } else {
                    self.cells[row + x] = false;
                }
            }
            y += 1;
        }
        assert(self@.cells =~~= old(self)@.scrolled_right().cells);
    }

    /// Switches to 128x64 logical pixels; the cells stay as they are.
    pub fn set_hires(&mut self)
        ensures
            final(self)@ == (DisplayView { hires: true, ..old(self)@ }),
            final(self).wf() == old(self).wf(),
    {
        self.hires = true;
    }

    /// Switches to 64x32 logical pixels; the cells stay as they are.
    pub fn set_lores(&mut self)
        ensures
            final(self)@ == (DisplayView { hires: false, ..old(self)@ }),
            final(self).wf() == old(self).wf(),
    {
        self.hires = false;
    }

    /// Whether a frame has been presented since the last draw.
    pub fn just_updated(&self) -> (r: bool)
        ensures
            r == self@.just_updated,
    {
        self.just_updated
    }

    /// Whether the most recent key probe found its key down.
    pub fn just_pressed_key(&self) -> (r: bool)
        ensures
            r == self@.just_pressed_key,
    {
        self.just_pressed_key
    }

    pub fn set_just_updated(&mut self, v: bool)
        ensures
            final(self)@ == (DisplayView { just_updated: v, ..old(self)@ }),
            final(self).wf() == old(self).wf(),
    {
        self.just_updated = v;
    }

    pub fn set_just_pressed_key(&mut self, v: bool)
        ensures
            final(self)@ == (DisplayView { just_pressed_key: v, ..old(self)@ }),
            final(self).wf() == old(self).wf(),
    {
        self.just_pressed_key = v;
    }

    /// Records that the current grid has been presented, which lets the next
    /// draw proceed.
    pub fn update(&mut self)
        ensures
            final(self)@ == (DisplayView { just_updated: true, ..old(self)@ }),
            final(self).wf() == old(self).wf(),
    {
        self.just_updated = true;
    }
}

} // verus!
