//! The framebuffer: two bit planes, 64x32 and 128x64, of which one is active.
//!
//! Each scanline is held as an unsigned integer. Column `c` of a row of width
//! `w` is bit `w - 1 - c`, so the leftmost pixel is the most significant bit.
//! The 64-pixel plane keeps its rows in the low 64 bits of a `u128`, which lets
//! one set of row operations serve both planes.

use vstd::prelude::*;

verus! {

/// Rows of the standard plane.
pub const LO_HEIGHT: usize = 32;

/// Rows of the extended plane.
pub const HI_HEIGHT: usize = 64;

/// Columns of the standard plane.
pub const LO_WIDTH: u32 = 64;

/// Columns of the extended plane.
pub const HI_WIDTH: u32 = 128;

/// The bits a row of the standard plane may use.
pub const LO_MASK: u128 = 0xffff_ffff_ffff_ffff;

/// The bits a row of the extended plane may use.
pub const HI_MASK: u128 = 0xffff_ffff_ffff_ffff_ffff_ffff_ffff_ffff;

/// Whether pixel `x` of a row of `width` columns is set.
pub open spec fn row_pixel(row: u128, width: u32, x: int) -> bool {
    (row >> ((width - 1 - x) as u32)) & 1 == 1
}

/// The row pattern of one sprite byte placed with its leftmost pixel at
/// column `x`: the byte's most significant bit lands on column `x`, and the
/// pixels that would fall past the right edge are dropped.
pub open spec fn sprite_row(byte: u8, x: u8, width: u32) -> u128 {
    if x as u32 >= width {
        0
    } else {
        ((byte as u128) << ((width - 8) as u32)) >> (x as u32)
    }
}

/// The rows after XOR-ing `sprite` into them, its first byte at row `y`.
/// Sprite rows that fall below the last row are dropped.
pub open spec fn draw_rows(rows: Seq<u128>, x: u8, y: int, sprite: Seq<u8>, width: u32) -> Seq<u128> {
    Seq::new(
        rows.len(),
        |r: int|
            if y <= r < y + sprite.len() {
                rows[r] ^ sprite_row(sprite[r - y], x, width)
            } else {
                rows[r]
            },
    )
}

/// Whether drawing `sprite` at (`x`, `y`) turns off a pixel that was set.
pub open spec fn draw_collides(rows: Seq<u128>, x: u8, y: int, sprite: Seq<u8>, width: u32) -> bool {
    exists|i: int|
        0 <= i < sprite.len() && y + i < rows.len() && #[trigger] (rows[y + i] & sprite_row(
            sprite[i],
            x,
            width,
        )) != 0
}

/// `n` rows of zero.
pub open spec fn blank_rows(n: nat) -> Seq<u128> {
    Seq::new(n, |r: int| 0u128)
}

/// The rows moved `n` places toward the bottom; the top `n` rows are zero.
pub open spec fn scrolled_down(rows: Seq<u128>, n: nat) -> Seq<u128> {
    Seq::new(rows.len(), |k: int| if k >= n { rows[k - n] } else { 0u128 })
}

/// Every row moved four pixels to the left, within `mask`.
pub open spec fn scrolled_left(rows: Seq<u128>, mask: u128) -> Seq<u128> {
    Seq::new(rows.len(), |k: int| (rows[k] << 4u32) & mask)
}

/// Every row moved four pixels to the right.
pub open spec fn scrolled_right(rows: Seq<u128>) -> Seq<u128> {
    Seq::new(rows.len(), |k: int| rows[k] >> 4u32)
}

/// Every row fits in `mask`.
pub open spec fn rows_fit(rows: Seq<u128>, mask: u128) -> bool {
    forall|r: int| 0 <= r < rows.len() ==> #[trigger] rows[r] & mask == rows[r]
}

/// What a framebuffer holds: the mode, the dirty flag and both planes.
pub struct Screen {
    pub hi_mode: bool,
    pub changed: bool,
    pub lo: Seq<u128>,
    pub hi: Seq<u128>,
}

impl Screen {
    /// Row count of the active plane.
    pub open spec fn height(self) -> nat {
        if self.hi_mode {
            HI_HEIGHT as nat
        } else {
            LO_HEIGHT as nat
        }
    }

    /// Column count of the active plane.
    pub open spec fn width(self) -> u32 {
        if self.hi_mode {
            HI_WIDTH
        } else {
            LO_WIDTH
        }
    }

    /// The bits a row of the active plane may use.
    pub open spec fn mask(self) -> u128 {
        if self.hi_mode {
            HI_MASK
        } else {
            LO_MASK
        }
    }

    /// The rows of the active plane.
    pub open spec fn rows(self) -> Seq<u128> {
        if self.hi_mode {
            self.hi
        } else {
            self.lo
        }
    }

    /// The active plane replaced by `rows`, marked dirty.
    pub open spec fn with_rows(self, rows: Seq<u128>) -> Screen {
        if self.hi_mode {
            Screen { hi: rows, changed: true, ..self }
        } else {
            Screen { lo: rows, changed: true, ..self }
        }
    }

    /// Whether the pixel at column `x`, row `y` of the active plane is set.
    pub open spec fn pixel(self, x: int, y: int) -> bool {
        row_pixel(self.rows()[y], self.width(), x)
    }

    /// Whether `frame`, a list of rows of pixels, top row first and leftmost
    /// pixel first, is the active plane.
    pub open spec fn shows(self, frame: Seq<Vec<bool>>) -> bool {
        &&& frame.len() == self.height()
        &&& forall|y: int| 0 <= y < frame.len() ==> #[trigger] frame[y]@.len() == self.width()
        &&& forall|x: int, y: int|
            0 <= y < frame.len() && 0 <= x < self.width() ==> #[trigger] frame[y]@[x] == self.pixel(
                x,
                y,
            )
    }

    /// Both planes have their row counts, and each row stays within its width.
    pub open spec fn wf(self) -> bool {
        &&& self.lo.len() == LO_HEIGHT
        &&& self.hi.len() == HI_HEIGHT
        &&& rows_fit(self.lo, LO_MASK)
    }

    /// A blank framebuffer in the standard mode.
    pub open spec fn blank() -> Screen {
        Screen {
            hi_mode: false,
            changed: false,
            lo: blank_rows(LO_HEIGHT as nat),
            hi: blank_rows(HI_HEIGHT as nat),
        }
    }

    /// The screen after XOR-ing `sprite` into the active plane at (`x`, `y`).
    pub open spec fn drawn(self, x: u8, y: int, sprite: Seq<u8>) -> Screen {
        self.with_rows(draw_rows(self.rows(), x, y, sprite, self.width()))
    }

    /// Whether drawing `sprite` at (`x`, `y`) turns off a set pixel of the
    /// active plane.
    pub open spec fn draw_hits(self, x: u8, y: int, sprite: Seq<u8>) -> bool {
        draw_collides(self.rows(), x, y, sprite, self.width())
    }

    /// The active plane cleared.
    pub open spec fn cleared(self) -> Screen {
        self.with_rows(blank_rows(self.height()))
    }
}

/// A framebuffer with a standard (64x32) and an extended (128x64) plane.
#[derive(Debug)]
pub struct Display {
    changed: bool,
    hi_mode: bool,
    lo_res: Vec<u128>,
    hi_res: Vec<u128>,
}

impl View for Display {
    type V = Screen;

    closed spec fn view(&self) -> Screen {
        Screen { hi_mode: self.hi_mode, changed: self.changed, lo: self.lo_res@, hi: self.hi_res@ }
    }
}

/// `n` rows of zero.
fn blank_plane(n: usize) -> (r: Vec<u128>)
    ensures
        r@ == blank_rows(n as nat),
{
    let mut rows: Vec<u128> = Vec::new();
    let mut k: usize = 0;
    while k < n
        invariant
            k <= n,
            rows@ == blank_rows(k as nat),
        decreases n - k,
    {
        rows.push(0);
        k += 1;
        assert(rows@ =~= blank_rows(k as nat));
    }
    rows
}

/// Sets every row of `rows` to zero.
fn clear_plane(rows: &mut Vec<u128>)
    ensures
        final(rows)@ == blank_rows(old(rows)@.len()),
{
    let n = rows.len();
    let mut k: usize = 0;
    while k < n
        invariant
            k <= n,
            rows@.len() == n,
            forall|r: int| 0 <= r < k ==> rows@[r] == 0,
        decreases n - k,
    {
        rows.set(k, 0);
        k += 1;
    }
    assert(rows@ =~= blank_rows(n as nat));
}

/// The row pattern of `byte` at column `x` in a row of `width` columns.
fn sprite_pattern(byte: u8, x: u8, width: u32) -> (r: u128)
    requires
        width == LO_WIDTH || width == HI_WIDTH,
    ensures
        r == sprite_row(byte, x, width),
{
    if x as u32 >= width {
        0
    } else {
        ((byte as u128) << (width - 8)) >> (x as u32)
    }
}

/// XORs `sprite` into `rows` at (`x`, `y`) and tells whether a set pixel was
/// turned off.
fn draw_plane(rows: &mut Vec<u128>, x: u8, y: usize, sprite: &Vec<u8>, width: u32) -> (hit: bool)
    requires
        width == LO_WIDTH || width == HI_WIDTH,
    ensures
        final(rows)@ == draw_rows(old(rows)@, x, y as int, sprite@, width),
        hit == draw_collides(old(rows)@, x, y as int, sprite@, width),
{
    let height = rows.len();
    let count: usize = if y >= height {
        0
    } else if sprite.len() < height - y {
        sprite.len()
    } else {
        height - y
    };
    let ghost start = rows@;
    let mut hit = false;
    let mut i: usize = 0;
    while i < count
        invariant
            width == LO_WIDTH || width == HI_WIDTH,
            i <= count,
            count <= sprite@.len(),
            count > 0 ==> y + count <= height,
            count == sprite@.len() || y + count >= height,
            height == start.len(),
            rows@.len() == height,
            forall|r: int|
                0 <= r < height ==> #[trigger] rows@[r] == if y <= r < y + i {
                    start[r] ^ sprite_row(sprite@[r - y], x, width)
                } else {
                    start[r]
                },
            hit == exists|j: int|
                0 <= j < i && #[trigger] (start[y + j] & sprite_row(sprite@[j], x, width)) != 0,
        decreases count - i,
    {
        let pattern = sprite_pattern(sprite[i], x, width);
        let target = y + i;
        let current = rows[target];
        if current & pattern != 0 {
            hit = true;
        }
        rows.set(target, current ^ pattern);
        i += 1;
    }
    assert(rows@ =~= draw_rows(start, x, y as int, sprite@, width));
    hit
}

/// Moves every row `n` places toward the bottom, zeroing the top `n` rows.
fn scroll_down_plane(rows: &mut Vec<u128>, n: usize)
    ensures
        final(rows)@ == scrolled_down(old(rows)@, n as nat),
{
    let height = rows.len();
    let mut moved: Vec<u128> = Vec::new();
    let mut k: usize = 0;
    while k < height
        invariant
            k <= height,
            rows@.len() == height,
            moved@.len() == k,
            forall|r: int| 0 <= r < k ==> #[trigger] moved@[r] == scrolled_down(rows@, n as nat)[r],
        decreases height - k,
    {
        if k >= n {
            moved.push(rows[k - n]);
        } else {
            moved.push(0);
        }
        k += 1;
    }
    assert(moved@ =~= scrolled_down(rows@, n as nat));
    *rows = moved;
}

/// Moves every row four pixels to the left, keeping the bits within `mask`.
fn scroll_left_plane(rows: &mut Vec<u128>, mask: u128)
    ensures
        final(rows)@ == scrolled_left(old(rows)@, mask),
{
    let n = rows.len();
    let ghost start = rows@;
    let mut k: usize = 0;
    while k < n
        invariant
            k <= n,
            n == start.len(),
            rows@.len() == n,
            forall|r: int| 0 <= r < k ==> #[trigger] rows@[r] == (start[r] << 4u32) & mask,
            forall|r: int| k <= r < n ==> #[trigger] rows@[r] == start[r],
        decreases n - k,
    {
        let row = rows[k];
        rows.set(k, (row << 4u32) & mask);
        k += 1;
    }
    assert(rows@ =~= scrolled_left(start, mask));
}

/// Moves every row four pixels to the right.
fn scroll_right_plane(rows: &mut Vec<u128>)
    ensures
        final(rows)@ == scrolled_right(old(rows)@),
{
    let n = rows.len();
    let ghost start = rows@;
    let mut k: usize = 0;
    while k < n
        invariant
            k <= n,
            n == start.len(),
            rows@.len() == n,
            forall|r: int| 0 <= r < k ==> #[trigger] rows@[r] == start[r] >> 4u32,
            forall|r: int| k <= r < n ==> #[trigger] rows@[r] == start[r],
        decreases n - k,
    {
        let row = rows[k];
        rows.set(k, row >> 4u32);
        k += 1;
    }
    assert(rows@ =~= scrolled_right(start));
}

proof fn lemma_draw_fits(rows: Seq<u128>, x: u8, y: int, sprite: Seq<u8>)
    requires
        rows_fit(rows, LO_MASK),
    ensures
        rows_fit(draw_rows(rows, x, y, sprite, LO_WIDTH), LO_MASK),
{
    let drawn = draw_rows(rows, x, y, sprite, LO_WIDTH);
    assert forall|r: int| 0 <= r < drawn.len() implies #[trigger] drawn[r] & LO_MASK == drawn[r] by {
        if y <= r < y + sprite.len() {
            let a = rows[r];
            let b = sprite[r - y];
            let p = sprite_row(b, x, LO_WIDTH);
            assert(p & 0xffff_ffff_ffff_ffff == p) by (bit_vector)
                requires
                    p == if x as u32 >= 64 {
                        0u128
                    } else {
                        ((b as u128) << 56u32) >> (x as u32)
                    },
            ;
            assert((a ^ p) & 0xffff_ffff_ffff_ffff == a ^ p) by (bit_vector)
                requires
                    a & 0xffff_ffff_ffff_ffff == a,
                    p & 0xffff_ffff_ffff_ffff == p,
            ;
        }
    }
}

proof fn lemma_scroll_fits(rows: Seq<u128>, n: nat)
    requires
        rows_fit(rows, LO_MASK),
    ensures
        rows_fit(scrolled_down(rows, n), LO_MASK),
        rows_fit(scrolled_left(rows, LO_MASK), LO_MASK),
        rows_fit(scrolled_right(rows), LO_MASK),
{
    let down = scrolled_down(rows, n);
    assert forall|r: int| 0 <= r < down.len() implies #[trigger] down[r] & LO_MASK == down[r] by {
        assert(0u128 & 0xffff_ffff_ffff_ffff == 0u128) by (bit_vector);
    }
    let left = scrolled_left(rows, LO_MASK);
    assert forall|r: int| 0 <= r < left.len() implies #[trigger] left[r] & LO_MASK == left[r] by {
        let a = rows[r];
        assert(((a << 4u32) & 0xffff_ffff_ffff_ffff) & 0xffff_ffff_ffff_ffff == (a << 4u32)
            & 0xffff_ffff_ffff_ffff) by (bit_vector);
    }
    let right = scrolled_right(rows);
    assert forall|r: int| 0 <= r < right.len() implies #[trigger] right[r] & LO_MASK == right[r] by {
        let a = rows[r];
        assert((a >> 4u32) & 0xffff_ffff_ffff_ffff == a >> 4u32) by (bit_vector)
            requires
                a & 0xffff_ffff_ffff_ffff == a,
        ;
    }
}

/// Drawing the same sprite twice at the same place gives back every pixel
/// that was there before (the screen is left marked dirty). The second
/// drawing reports a collision whenever one of the pixels it touches is set
/// after the first; in particular, it does so whenever the first drawing met
/// no set pixel and the sprite has a set pixel on the screen.
pub proof fn lemma_draw_twice(s: Screen, x: u8, y: int, sprite: Seq<u8>)
    requires
        s.wf(),
        0 <= y,
    ensures
        s.drawn(x, y, sprite).drawn(x, y, sprite) == (Screen { changed: true, ..s }),
        forall|i: int|
            0 <= i < sprite.len() && y + i < s.height() && #[trigger] (s.drawn(x, y, sprite).rows()[y
                + i] & sprite_row(sprite[i], x, s.width())) != 0 ==> s.drawn(x, y, sprite).draw_hits(
                x,
                y,
                sprite,
            ),
        !s.draw_hits(x, y, sprite) && (exists|i: int|
            0 <= i < sprite.len() && y + i < s.height() && #[trigger] sprite_row(sprite[i], x, s.width())
                != 0) ==> s.drawn(x, y, sprite).draw_hits(x, y, sprite),
{
    let w = s.width();
    let rows = s.rows();
    let once = draw_rows(rows, x, y, sprite, w);
    let twice = draw_rows(once, x, y, sprite, w);
    assert forall|r: int| 0 <= r < rows.len() implies #[trigger] twice[r] == rows[r] by {
        if y <= r < y + sprite.len() {
            let a = rows[r];
            let p = sprite_row(sprite[r - y], x, w);
            assert((a ^ p) ^ p == a) by (bit_vector);
        }
    }
    assert(twice =~= rows);
    assert(s.drawn(x, y, sprite).drawn(x, y, sprite) =~= Screen { changed: true, ..s });
    if !s.draw_hits(x, y, sprite) && (exists|i: int|
        0 <= i < sprite.len() && y + i < s.height() && #[trigger] sprite_row(sprite[i], x, w) != 0) {
        let i = choose|i: int|
            0 <= i < sprite.len() && y + i < s.height() && #[trigger] sprite_row(sprite[i], x, w) != 0;
        let a = rows[y + i];
        let p = sprite_row(sprite[i], x, w);
        assert((a & p) == 0);
        assert((a & p) == 0 && p != 0 ==> ((a ^ p) & p) != 0) by (bit_vector);
        assert((once[y + i] & p) != 0);
    }
}

proof fn lemma_blank_fits(n: nat, mask: u128)
    ensures
        rows_fit(blank_rows(n), mask),
{
    assert forall|r: int| 0 <= r < n implies #[trigger] blank_rows(n)[r] & mask == blank_rows(n)[r] by {
        assert(0u128 & mask == 0u128) by (bit_vector);
    }
}

proof fn lemma_blank_pixels(width: u32)
    requires
        width == LO_WIDTH || width == HI_WIDTH,
    ensures
        forall|x: int| 0 <= x < width ==> !#[trigger] row_pixel(0u128, width, x),
{
    assert forall|x: int| 0 <= x < width implies !#[trigger] row_pixel(0u128, width, x) by {
        let s: u32 = (width - 1 - x) as u32;
        assert((0u128 >> s) & 1 == 0) by (bit_vector);
    }
}

impl Display {
    /// A blank framebuffer in the standard mode, not dirty.
    pub fn new() -> (r: Display)
        ensures
            r@ == Screen::blank(),
            r@.wf(),
    {
        let d = Display {
            changed: false,
            hi_mode: false,
            lo_res: blank_plane(LO_HEIGHT),
            hi_res: blank_plane(HI_HEIGHT),
        };
        proof {
            lemma_blank_fits(LO_HEIGHT as nat, LO_MASK);
        }
        d
    }

    /// Zeroes every row of the active plane and marks the framebuffer dirty.
    pub fn clear(&mut self)
        requires
            old(self)@.wf(),
        ensures
            final(self)@ == old(self)@.cleared(),
            final(self)@.wf(),
            forall|x: int, y: int|
                0 <= x < final(self)@.width() && 0 <= y < final(self)@.height()
                    ==> !#[trigger] final(self)@.pixel(x, y),
    {
        if self.hi_mode {
            clear_plane(&mut self.hi_res);
        } else {
            clear_plane(&mut self.lo_res);
            proof {
                lemma_blank_fits(LO_HEIGHT as nat, LO_MASK);
            }
        }
        self.changed = true;
        proof {
            lemma_blank_pixels(self@.width());
        }
    }

    /// Switches the active plane to the extended one when `hi_res_mode` holds,
    /// else to the standard one, clears the plane now active and marks the
    /// framebuffer dirty. The other plane keeps its contents.
    pub fn set_mode(&mut self, hi_res_mode: bool)
        requires
            old(self)@.wf(),
        ensures
            final(self)@ == (Screen { hi_mode: hi_res_mode, ..old(self)@ }).cleared(),
            final(self)@.wf(),
    {
        self.hi_mode = hi_res_mode;
        self.clear();
    }

    /// XORs `sprite` into the active plane, one byte per row, its first byte at
    /// row `y` and its leftmost pixel at column `x`, and marks the framebuffer
    /// dirty. Rows below the last one and pixels past the right edge are
    /// dropped. Returns whether a pixel that was set got turned off.
    pub fn draw(&mut self, x: u8, y: usize, sprite: Vec<u8>) -> (collided: bool)
        requires
            old(self)@.wf(),
        ensures
            final(self)@ == old(self)@.drawn(x, y as int, sprite@),
            collided == old(self)@.draw_hits(x, y as int, sprite@),
            final(self)@.wf(),
    {
        let hit = if self.hi_mode {
            draw_plane(&mut self.hi_res, x, y, &sprite, HI_WIDTH)
        } else {
            let ghost before = self.lo_res@;
            let hit = draw_plane(&mut self.lo_res, x, y, &sprite, LO_WIDTH);
            proof {
                lemma_draw_fits(before, x, y as int, sprite@);
            }
            hit
        };
        self.changed = true;
        hit
    }

    /// Whether the framebuffer changed since it was last marked clean.
    pub fn changed(&self) -> (r: bool)
        ensures
            r == self@.changed,
    {
        self.changed
    }

    /// Clears the dirty flag, once the pixels have been presented.
    pub fn mark_clean(&mut self)
        ensures
            final(self)@ == (Screen { changed: false, ..old(self)@ }),
    {
        self.changed = false;
    }

    /// Whether the extended plane is active.
    pub fn hi_mode(&self) -> (r: bool)
        ensures
            r == self@.hi_mode,
    {
        self.hi_mode
    }

    /// Column count of the active plane.
    pub fn width(&self) -> (r: u32)
        ensures
            r == self@.width(),
    {
        if self.hi_mode {
            HI_WIDTH
        } else {
            LO_WIDTH
        }
    }

    /// Row count of the active plane.
    pub fn height(&self) -> (r: usize)
        ensures
            r == self@.height(),
    {
        if self.hi_mode {
            HI_HEIGHT
        } else {
            LO_HEIGHT
        }
    }

    /// Whether the pixel at column `x`, row `y` of the active plane is set.
    pub fn pixel(&self, x: usize, y: usize) -> (r: bool)
        requires
            self@.wf(),
            x < self@.width(),
            y < self@.height(),
        ensures
            r == self@.pixel(x as int, y as int),
    {
        let width = self.width();
        let row = if self.hi_mode {
            self.hi_res[y]
        } else {
            self.lo_res[y]
        };
        (row >> (width - 1 - x as u32)) & 1 == 1
    }

    /// The active plane as rows of pixels, top row first, leftmost pixel
    /// first in each row.
    pub fn pixels(&self) -> (r: Vec<Vec<bool>>)
        requires
            self@.wf(),
        ensures
            self@.shows(r@),
    {
        let width = self.width() as usize;
        let height = self.height();
        let mut out: Vec<Vec<bool>> = Vec::new();
        let mut y: usize = 0;
        while y < height
            invariant
                self@.wf(),
                width == self@.width(),
                height == self@.height(),
                y <= height,
                out@.len() == y,
                forall|j: int| 0 <= j < y ==> #[trigger] out@[j]@.len() == width,
                forall|i: int, j: int|
                    0 <= j < y && 0 <= i < width ==> #[trigger] out@[j]@[i] == self@.pixel(i, j),
            decreases height - y,
        {
            let mut line: Vec<bool> = Vec::new();
            let mut x: usize = 0;
            while x < width
                invariant
                    self@.wf(),
                    width == self@.width(),
                    height == self@.height(),
                    y < height,
                    x <= width,
                    line@.len() == x,
                    forall|i: int| 0 <= i < x ==> #[trigger] line@[i] == self@.pixel(i, y as int),
                decreases width - x,
            {
                line.push(self.pixel(x, y));
                x += 1;
            }
            out.push(line);
            y += 1;
        }
        out
    }

    /// Hands out the active plane as rows of pixels and marks the framebuffer
    /// clean; the pixels themselves stay as they are.
    pub fn render(&mut self) -> (r: Vec<Vec<bool>>)
        requires
            old(self)@.wf(),
        ensures
            old(self)@.shows(r@),
            final(self)@ == (Screen { changed: false, ..old(self)@ }),
    {
        let frame = self.pixels();
        self.mark_clean();
        frame
    }

    /// Moves every row of the active plane `rows` places toward the bottom,
    /// zeroing the top `rows` rows, and marks the framebuffer dirty.
    pub fn scroll_down(&mut self, rows: usize)
        requires
            old(self)@.wf(),
        ensures
            final(self)@ == old(self)@.with_rows(scrolled_down(old(self)@.rows(), rows as nat)),
            final(self)@.wf(),
            forall|k: int|
                rows <= k < final(self)@.height() ==> #[trigger] final(self)@.rows()[k] == old(
                    self,
                )@.rows()[k - rows],
            forall|k: int|
                0 <= k < rows && k < final(self)@.height() ==> #[trigger] final(self)@.rows()[k]
                    == 0,
    {
        if self.hi_mode {
            scroll_down_plane(&mut self.hi_res, rows);
        } else {
            let ghost before = self.lo_res@;
            scroll_down_plane(&mut self.lo_res, rows);
            proof {
                lemma_scroll_fits(before, rows as nat);
            }
        }
        self.changed = true;
    }

    /// Moves every row of the active plane four pixels to the right, dropping
    /// the pixels pushed past the edge, and marks the framebuffer dirty.
    pub fn scroll_right(&mut self)
        requires
            old(self)@.wf(),
        ensures
            final(self)@ == old(self)@.with_rows(scrolled_right(old(self)@.rows())),
            final(self)@.wf(),
    {
        if self.hi_mode {
            scroll_right_plane(&mut self.hi_res);
        } else {
            let ghost before = self.lo_res@;
            scroll_right_plane(&mut self.lo_res);
            proof {
                lemma_scroll_fits(before, 0);
            }
        }
        self.changed = true;
    }

    /// Moves every row of the active plane four pixels to the left, dropping
    /// the pixels pushed past the edge, and marks the framebuffer dirty.
    pub fn scroll_left(&mut self)
        requires
            old(self)@.wf(),
        ensures
            final(self)@ == old(self)@.with_rows(scrolled_left(old(self)@.rows(), old(self)@.mask())),
            final(self)@.wf(),
    {
        if self.hi_mode {
            scroll_left_plane(&mut self.hi_res, HI_MASK);
        } else {
            let ghost before = self.lo_res@;
            scroll_left_plane(&mut self.lo_res, LO_MASK);
            proof {
                lemma_scroll_fits(before, 0);
            }
        }
        self.changed = true;
    }
}

impl Default for Display {
    fn default() -> (r: Display)
        ensures
            r@ == Screen::blank(),
            r@.wf(),
    {
        Display::new()
    }
}

} // verus!
