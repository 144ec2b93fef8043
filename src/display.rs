use vstd::prelude::*;

verus! {

/// Width of the screen in pixels.
pub const DISPLAY_WIDTH: usize = 64;

/// Height of the screen in pixels.
pub const DISPLAY_HEIGHT: usize = 32;

/// Number of pixels on the screen.
pub const DISPLAY_PIXELS: usize = 2048;

/// Colour handed to the renderer for a lit pixel.
pub const PIXEL_ON: u32 = 0xFFFFFF;

/// Colour handed to the renderer for a dark pixel.
pub const PIXEL_OFF: u32 = 0x000000;

/// A screen with every pixel off, as rows of columns.
pub open spec fn blank_grid() -> Seq<Seq<bool>> {
    Seq::new(DISPLAY_HEIGHT as nat, |py: int| Seq::new(DISPLAY_WIDTH as nat, |px: int| false))
}

/// Whether `g` has the shape of the screen.
pub open spec fn grid_shape(g: Seq<Seq<bool>>) -> bool {
    g.len() == DISPLAY_HEIGHT && forall|py: int|
        0 <= py < DISPLAY_HEIGHT ==> #[trigger] g[py].len() == DISPLAY_WIDTH
}

/// Bit `col` of a sprite row, counting from the most significant bit.
pub open spec fn sprite_bit(byte: u8, col: int) -> bool {
    (byte >> ((7 - col) as u8)) & 1u8 == 1u8
}

/// Whether the first `ncols` bits of sprite row `byte`, drawn with its left
/// edge at column `x` on screen row `row`, hold a set bit over pixel `(px, py)`.
/// Columns wrap around the right edge.
pub open spec fn row_hits(x: u8, row: int, byte: u8, ncols: int, px: int, py: int) -> bool {
    py == row && (px - x) % (DISPLAY_WIDTH as int) < ncols && sprite_bit(
        byte,
        (px - x) % (DISPLAY_WIDTH as int),
    )
}

/// `g` with the first `ncols` bits of sprite row `byte` XORed onto screen row `row`.
pub open spec fn xor_row(g: Seq<Seq<bool>>, x: u8, row: int, byte: u8, ncols: int) -> Seq<
    Seq<bool>,
> {
    Seq::new(
        DISPLAY_HEIGHT as nat,
        |py: int|
            Seq::new(
                DISPLAY_WIDTH as nat,
                |px: int|
                    if row_hits(x, row, byte, ncols, px, py) {
                        !g[py][px]
                    } else {
                        g[py][px]
                    },
            ),
    )
}

/// Whether one of the first `ncols` bits of sprite row `byte` lands on a lit pixel of `g`.
pub open spec fn row_collides(g: Seq<Seq<bool>>, x: u8, row: int, byte: u8, ncols: int) -> bool {
    exists|c: int|
        0 <= c < ncols && sprite_bit(byte, c) && #[trigger] g[row][(x + c) % (DISPLAY_WIDTH as int)]
}

/// The screen after the rows of `sprite` are XORed onto `g`, row `k` landing on
/// screen row `(y + k) mod 32`.
pub open spec fn draw_grid(g: Seq<Seq<bool>>, x: u8, y: u8, sprite: Seq<u8>) -> Seq<Seq<bool>>
    decreases sprite.len(),
{
    if sprite.len() == 0 {
        g
    } else {
        let k = sprite.len() - 1;
        xor_row(
            draw_grid(g, x, y, sprite.take(k)),
            x,
            (y + k) % (DISPLAY_HEIGHT as int),
            sprite[k],
            8,
        )
    }
}

/// Whether drawing `sprite` onto `g` turns some lit pixel off.
pub open spec fn draw_collides(g: Seq<Seq<bool>>, x: u8, y: u8, sprite: Seq<u8>) -> bool
    decreases sprite.len(),
{
    if sprite.len() == 0 {
        false
    } else {
        let k = sprite.len() - 1;
        draw_collides(g, x, y, sprite.take(k)) || row_collides(
            draw_grid(g, x, y, sprite.take(k)),
            x,
            (y + k) % (DISPLAY_HEIGHT as int),
            sprite[k],
            8,
        )
    }
}

/// Colour of one pixel in the renderer's buffer.
pub open spec fn pixel_color(on: bool) -> u32 {
    if on {
        PIXEL_ON
    } else {
        PIXEL_OFF
    }
}

/// The monochrome screen.
pub struct Display {
    pixels: [bool; 2048],
}

impl View for Display {
    type V = Seq<Seq<bool>>;

    /// Rows of columns: `self@[y][x]` is the pixel at `(x, y)`.
    closed spec fn view(&self) -> Seq<Seq<bool>> {
        Seq::new(
            DISPLAY_HEIGHT as nat,
            |py: int| Seq::new(DISPLAY_WIDTH as nat, |px: int| self.pixels@[py * 64 + px]),
        )
    }
}

/// The screen always has 32 rows of 64 pixels.
pub broadcast proof fn lemma_display_shape(d: &Display)
    ensures
        #[trigger] grid_shape(d@),
{
}

impl Display {
    /// A screen with every pixel off.
    pub fn new() -> (r: Display)
        ensures
            r@ == blank_grid(),
    {
        let r = Display { pixels: [false; 2048] };
        assert(r@ =~~= blank_grid());
        r
    }

    /// Turns every pixel off.
    pub fn clear(&mut self)
        ensures
            final(self)@ == blank_grid(),
    {
        self.pixels = [false; 2048];
        assert(self@ =~~= blank_grid());
    }

    /// The pixel at `(x, y)`.
    pub fn get_pixel(&self, x: usize, y: usize) -> (r: bool)
        requires
            x < DISPLAY_WIDTH,
            y < DISPLAY_HEIGHT,
        ensures
            r == self@[y as int][x as int],
    {
        self.pixels[y * DISPLAY_WIDTH + x]
    }

    /// Sets the pixel at `(x, y)`.
    pub fn set_pixel(&mut self, x: usize, y: usize, value: bool)
        requires
            x < DISPLAY_WIDTH,
            y < DISPLAY_HEIGHT,
        ensures
            final(self)@ == old(self)@.update(y as int, old(self)@[y as int].update(x as int, value)),
    {
        self.pixels[y * DISPLAY_WIDTH + x] = value;
        assert(self@ =~~= old(self)@.update(y as int, old(self)@[y as int].update(x as int, value)));
    }

    /// XORs `sprite` onto the screen with its top-left corner at `(x, y)`,
    /// wrapping at both edges. Returns whether a lit pixel was turned off.
    pub fn draw_sprite(&mut self, x: u8, y: u8, sprite: &[u8]) -> (collision: bool)
        ensures
            final(self)@ == draw_grid(old(self)@, x, y, sprite@),
            collision == draw_collides(old(self)@, x, y, sprite@),
    {
        let ghost g0 = self@;
        let mut collision = false;
        let mut row: usize = 0;
        let mut y_pos: usize = y as usize % DISPLAY_HEIGHT;
        while row < sprite.len()
            invariant
                row <= sprite@.len(),
                y_pos < DISPLAY_HEIGHT,
                y_pos == (y + row) % (DISPLAY_HEIGHT as int),
                self@ == draw_grid(g0, x, y, sprite@.take(row as int)),
                collision == draw_collides(g0, x, y, sprite@.take(row as int)),
            decreases sprite@.len() - row,
        {
            let byte = sprite[row];
            let ghost g = self@;
            let ghost c0 = collision;
            assert(self@ =~~= xor_row(g, x, y_pos as int, byte, 0));
            assert(!row_collides(g, x, y_pos as int, byte, 0));
            let mut col: u8 = 0;
            while col < 8
                invariant
                    col <= 8,
                    y_pos < DISPLAY_HEIGHT,
                    y_pos == (y + row) % (DISPLAY_HEIGHT as int),
                    g == draw_grid(g0, x, y, sprite@.take(row as int)),
                    self@ == xor_row(g, x, y_pos as int, byte, col as int),
                    collision == (c0 || row_collides(g, x, y_pos as int, byte, col as int)),
                decreases 8 - col,
            {
                let x_pos = (x as usize + col as usize) % DISPLAY_WIDTH;
                let idx = y_pos * DISPLAY_WIDTH + x_pos;
                let ghost before = self@;
                assert((x_pos - x) % (DISPLAY_WIDTH as int) == col as int);
                if (byte >> (7 - col)) & 1 == 1 {
                    let lit = self.pixels[idx];
                    assert(lit == self@[y_pos as int][x_pos as int]);
                    assert(!row_hits(x, y_pos as int, byte, col as int, x_pos as int, y_pos as int));
                    assert(lit == g[y_pos as int][x_pos as int]);
                    if lit {
                        collision = true;
                    }
                    self.pixels[idx] = !lit;
                }
                proof {
                    let next = xor_row(g, x, y_pos as int, byte, col + 1);
                    assert forall|py: int, px: int|
                        0 <= py < DISPLAY_HEIGHT && 0 <= px < DISPLAY_WIDTH implies #[trigger] self@[py][px]
                        == next[py][px] by {
                        let cur = xor_row(g, x, y_pos as int, byte, col as int);
                        if py == y_pos && px == x_pos {
                            assert(self@[py][px] == self.pixels@[idx as int]);
                            assert(before[py][px] == cur[py][px]);
                        } else {
                            assert(py * 64 + px != idx);
                            assert(self@[py][px] == self.pixels@[py * 64 + px]);
                            assert(before[py][px] == cur[py][px]);
                            if py == y_pos {
                                assert((px - x) % (DISPLAY_WIDTH as int) != col as int);
                            }
                        }
                    }
                    assert(self@ =~~= next);
                    if sprite_bit(byte, col as int) && g[y_pos as int][x_pos as int] {
                        assert(row_collides(g, x, y_pos as int, byte, col + 1));
                    }
                    if row_collides(g, x, y_pos as int, byte, col + 1) {
                        let c = choose|c: int|
                            0 <= c < col + 1 && sprite_bit(byte, c)
                                && #[trigger] g[y_pos as int][(x + c) % (DISPLAY_WIDTH as int)];
                        if c < col {
                            assert(row_collides(g, x, y_pos as int, byte, col as int));
                        }
                    }
                }
                col = col + 1;
            }
            proof {
                let next = sprite@.take(row + 1);
                assert(next.take(row as int) =~= sprite@.take(row as int));
                assert(next[row as int] == byte);
            }
            row = row + 1;
            y_pos = (y_pos + 1) % DISPLAY_HEIGHT;
        }
        assert(sprite@.take(sprite@.len() as int) =~= sprite@);
        collision
    }

    /// The screen as one colour per pixel, row by row.
    pub fn to_buffer(&self) -> (r: Vec<u32>)
        ensures
            r@.len() == DISPLAY_PIXELS,
            forall|py: int, px: int|
                0 <= py < DISPLAY_HEIGHT && 0 <= px < DISPLAY_WIDTH ==> #[trigger] r@[py * 64 + px]
                    == pixel_color(self@[py][px]),
    {
        let mut r: Vec<u32> = Vec::with_capacity(DISPLAY_PIXELS);
        let mut i: usize = 0;
        while i < DISPLAY_PIXELS
            invariant
                i <= DISPLAY_PIXELS,
                r@.len() == i,
                forall|j: int| 0 <= j < i ==> r@[j] == pixel_color(self.pixels@[j]),
            decreases DISPLAY_PIXELS - i,
        {
            if self.pixels[i] {
                r.push(PIXEL_ON);
            } else {
                r.push(PIXEL_OFF);
            }
            i = i + 1;
        }
        r
    }
}

impl Default for Display {
    fn default() -> (r: Display)
        ensures
            r@ == blank_grid(),
    {
        Display::new()
    }
}

} // verus!
