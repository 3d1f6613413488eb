//! The 64×32 monochrome framebuffer and sprite drawing.
//!
//! A screen is modelled as a grid `g` of booleans, `g[x][y]` being the pixel in
//! column `x` and line `y`. A sprite is a sequence of bytes, one per line, each
//! holding eight pixels with the leftmost in the most significant bit. Drawing
//! combines sprite bits with the grid by exclusive or; coordinates wrap around
//! both edges.

use crate::decode::{get_bools_of_byte, sprite_bit};
use vstd::prelude::*;

verus! {

/// Number of pixel columns.
pub const WIDTH: usize = 64;

/// Number of pixel lines.
pub const HEIGHT: usize = 32;

/// A grid has `WIDTH` columns of `HEIGHT` pixels each.
pub open spec fn is_grid(g: Seq<Seq<bool>>) -> bool {
    &&& g.len() == WIDTH
    &&& forall|x: int| 0 <= x < WIDTH ==> (#[trigger] g[x]).len() == HEIGHT
}

/// The grid with every pixel off.
pub open spec fn blank() -> Seq<Seq<bool>> {
    Seq::new(WIDTH as nat, |x: int| Seq::new(HEIGHT as nat, |y: int| false))
}

/// Whether one of the first `cols` pixels of the sprite line `byte`, put with
/// its left end at `(x, y)`, is set and falls on the pixel `(px, py)`.
pub open spec fn line_covers(x: int, y: int, byte: u8, cols: int, px: int, py: int) -> bool {
    let col = (px - x) % (WIDTH as int);
    py == y % (HEIGHT as int) && col < cols && sprite_bit(byte, col)
}

/// The grid after the first `cols` pixels of one sprite line were drawn at
/// `(x, y)`.
pub open spec fn blit_cols(g: Seq<Seq<bool>>, x: int, y: int, byte: u8, cols: int) -> Seq<
    Seq<bool>,
> {
    Seq::new(
        WIDTH as nat,
        |px: int|
            Seq::new(HEIGHT as nat, |py: int| g[px][py] ^ line_covers(x, y, byte, cols, px, py)),
    )
}

/// Whether one of the first `cols` pixels of the sprite line hits a pixel
/// that is on in `g`.
pub open spec fn cols_collide(g: Seq<Seq<bool>>, x: int, y: int, byte: u8, cols: int) -> bool {
    exists|col: int|
        0 <= col < cols && sprite_bit(byte, col) && #[trigger] g[(x + col) % (WIDTH as int)][y % (
        HEIGHT as int)]
}

/// The grid after a whole sprite was drawn with its top left corner at
/// `(x, y)`: line `k` of the sprite goes to line `y + k`.
pub open spec fn blit(g: Seq<Seq<bool>>, x: int, y: int, sprite: Seq<u8>) -> Seq<Seq<bool>>
    decreases sprite.len(),
{
    if sprite.len() == 0 {
        g
    } else {
        blit_cols(
            blit(g, x, y, sprite.drop_last()),
            x,
            y + sprite.len() - 1,
            sprite.last(),
            8,
        )
    }
}

/// Whether drawing the sprite at `(x, y)` turns off a pixel: some set sprite
/// bit meets a pixel that is on at the moment that bit is drawn.
pub open spec fn collides(g: Seq<Seq<bool>>, x: int, y: int, sprite: Seq<u8>) -> bool
    decreases sprite.len(),
{
    if sprite.len() == 0 {
        false
    } else {
        collides(g, x, y, sprite.drop_last()) || cols_collide(
            blit(g, x, y, sprite.drop_last()),
            x,
            y + sprite.len() - 1,
            sprite.last(),
            8,
        )
    }
}

/// Drawing keeps the shape of the grid.
pub proof fn lemma_blit_is_grid(g: Seq<Seq<bool>>, x: int, y: int, sprite: Seq<u8>)
    requires
        is_grid(g),
    ensures
        is_grid(blit(g, x, y, sprite)),
    decreases sprite.len(),
{
    if sprite.len() > 0 {
        lemma_blit_is_grid(g, x, y, sprite.drop_last());
    }
}

/// Drawing one more pixel of a sprite line: the pixel it falls on was not
/// touched by the pixels before it, it is combined with the sprite bit by
/// exclusive or, and it collides if both are on.
pub proof fn lemma_next_col(g: Seq<Seq<bool>>, x: int, y: int, byte: u8, col: int)
    requires
        is_grid(g),
        0 <= col < 8,
    ensures
        ({
            let drawn = blit_cols(g, x, y, byte, col);
            let px = (x + col) % (WIDTH as int);
            let py = y % (HEIGHT as int);
            &&& drawn[px][py] == g[px][py]
            &&& blit_cols(g, x, y, byte, col + 1) == drawn.update(
                px,
                drawn[px].update(py, drawn[px][py] ^ sprite_bit(byte, col)),
            )
            &&& cols_collide(g, x, y, byte, col + 1) == (cols_collide(g, x, y, byte, col) || (
            g[px][py] && sprite_bit(byte, col)))
        }),
{
    let drawn = blit_cols(g, x, y, byte, col);
    let px = (x + col) % (WIDTH as int);
    let py = y % (HEIGHT as int);
    assert((px - x) % (WIDTH as int) == col);
    assert forall|qx: int, qy: int| 0 <= qx < WIDTH && 0 <= qy < HEIGHT implies (line_covers(
        x,
        y,
        byte,
        col + 1,
        qx,
        qy,
    ) == (line_covers(x, y, byte, col, qx, qy) || (qx == px && qy == py && sprite_bit(
        byte,
        col,
    )))) by {
        if (qx - x) % (WIDTH as int) == col {
            assert(qx == px);
        }
    }
    assert(blit_cols(g, x, y, byte, col + 1) =~~= drawn.update(
        px,
        drawn[px].update(py, drawn[px][py] ^ sprite_bit(byte, col)),
    ));
    if g[px][py] && sprite_bit(byte, col) {
        assert(g[(x + col) % (WIDTH as int)][y % (HEIGHT as int)]);
    }
}

/// The framebuffer: `pixels[x][y]` is the pixel in column `x` and line `y`.
pub struct Screen {
    pub pixels: [[bool; 32]; 64],
}

impl View for Screen {
    type V = Seq<Seq<bool>>;

    open spec fn view(&self) -> Seq<Seq<bool>> {
        Seq::new(WIDTH as nat, |x: int| self.pixels[x]@)
    }
}

impl Screen {
    /// A screen with every pixel off.
    pub fn new() -> (screen: Screen)
        ensures
            screen@ == blank(),
    {
        let screen = Screen { pixels: [[false;32];64] };
        assert(screen@ =~~= blank());
        screen
    }

    /// Turns every pixel off.
    pub fn clear(&mut self)
        ensures
            final(self)@ == blank(),
    {
        self.pixels = [[false;32];64];
        assert(self@ =~~= blank());
    }

    /// Combines the pixel at `(x, y)` with `b` by exclusive or, and reports
    /// whether this turned the pixel off.
    pub fn xor(&mut self, x: usize, y: usize, b: bool) -> (hit: bool)
        requires
            x < WIDTH,
            y < HEIGHT,
        ensures
            hit == (old(self)@[x as int][y as int] && b),
            final(self)@ == old(self)@.update(
                x as int,
                old(self)@[x as int].update(y as int, old(self)@[x as int][y as int] ^ b),
            ),
    {
        let pixel_value: bool = self.pixels[x][y];
        self.pixels[x][y] = pixel_value ^ b;
        assert(self@ =~~= old(self)@.update(
            x as int,
            old(self)@[x as int].update(y as int, old(self)@[x as int][y as int] ^ b),
        ));
        pixel_value && b
    }

    /// Draws `sprite` with its top left corner at `(x, y)`, wrapping around
    /// the edges, and reports whether any pixel was turned off.
    pub fn draw(&mut self, x: usize, y: usize, sprite: Vec<u8>) -> (collision: bool)
        ensures
            final(self)@ == blit(old(self)@, x as int, y as int, sprite@),
            collision == collides(old(self)@, x as int, y as int, sprite@),
    {
        let mut row_counter: usize = 0;
        let mut collision: bool = false;
        let rows: usize = sprite.len();
        assert(sprite@.take(0) =~= Seq::<u8>::empty());
        assert(self@ =~~= blit(old(self)@, x as int, y as int, sprite@.take(0)));

        while row_counter < rows
            invariant
                rows == sprite@.len(),
                row_counter <= rows,
                self@ == blit(old(self)@, x as int, y as int, sprite@.take(row_counter as int)),
                collision == collides(
                    old(self)@,
                    x as int,
                    y as int,
                    sprite@.take(row_counter as int),
                ),
            decreases rows - row_counter,
        {
            let byte: u8 = sprite[row_counter];
            let bools: [bool; 8] = get_bools_of_byte(byte);
            let exact_y: usize = (y % HEIGHT + row_counter % HEIGHT) % HEIGHT;
            let ghost line: int = y + row_counter;
            let ghost before: Seq<Seq<bool>> = self@;
            let mut col_counter: usize = 0;
            let mut line_hit: bool = false;
            assert(is_grid(before));
            assert(self@ =~~= blit_cols(before, x as int, line, byte, 0));

            while col_counter < 8
                invariant
                    col_counter <= 8,
                    is_grid(before),
                    exact_y == line % (HEIGHT as int),
                    forall|col: int| 0 <= col < 8 ==> bools[col] == sprite_bit(byte, col),
                    self@ == blit_cols(before, x as int, line, byte, col_counter as int),
                    line_hit == cols_collide(before, x as int, line, byte, col_counter as int),
                decreases 8 - col_counter,
            {
                let exact_x: usize = (x % WIDTH + col_counter) % WIDTH;
                let pixel: bool = bools[col_counter];
                proof {
                    lemma_next_col(before, x as int, line, byte, col_counter as int);
                }

                let hit: bool = self.xor(exact_x, exact_y, pixel);
                line_hit = line_hit || hit;
                col_counter += 1;
            }

            collision = collision || line_hit;
            proof {
                let shown = sprite@.take(row_counter + 1);
                assert(shown.drop_last() =~= sprite@.take(row_counter as int));
                assert(shown.last() == byte);
            }
            row_counter += 1;
        }
        assert(sprite@.take(rows as int) =~= sprite@);
        collision
    }
}

} // verus!
