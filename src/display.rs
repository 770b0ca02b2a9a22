use vstd::prelude::*;

use crate::chip8::{blank_display, drawn, sprite_covers};
use crate::consts::{HEIGHT, WIDTH};

verus! {

/// Why a sprite could not be drawn.
#[derive(Clone, Copy, Debug, PartialEq, Eq, Structural)]
pub enum DisplayError {
    /// Some part of the sprite lies off the screen.
    OutOfBounds,
}

/// A 64 by 32 monochrome screen on which sprites are drawn without wrapping.
pub struct Display {
    pixels: [[bool; 64]; 32],
}

impl View for Display {
    type V = Seq<Seq<bool>>;

    closed spec fn view(&self) -> Seq<Seq<bool>> {
        self.pixels@.map_values(|row: [bool; 64]| row@)
    }
}

impl Display {
    /// A screen with every pixel off.
    pub fn new() -> (r: Self)
        ensures
            r@ == blank_display(),
    {
        let r = Display { pixels: [[false; 64]; 32] };
        assert(r@ =~~= blank_display());
        r
    }

    /// Turns every pixel off.
    pub fn clear(&mut self)
        ensures
            final(self)@ == blank_display(),
    {
        self.pixels = [[false; 64]; 32];
        assert(self@ =~~= blank_display());
    }

    /// Whether the pixel at row `r` and column `c` is lit.
    pub fn pixel(&self, r: usize, c: usize) -> (b: bool)
        requires
            r < HEIGHT,
            c < WIDTH,
        ensures
            b == self@[r as int][c as int],
    {
        self.pixels[r][c]
    }

    /// XORs `sprite` onto the screen with its top left corner at column `x` and row `y`.
    /// A sprite that does not fit entirely on the screen is refused and nothing changes.
    pub fn draw(&mut self, sprite: Vec<u8>, x: usize, y: usize) -> (r: Result<(), DisplayError>)
        ensures
            r is Err <==> x + 8 > WIDTH || y + sprite@.len() > HEIGHT,
            r is Err ==> r == Err::<(), DisplayError>(DisplayError::OutOfBounds) && final(self)@
                == old(self)@,
            r is Ok ==> final(self)@ == drawn(old(self)@, sprite@, x as int, y as int),
    {
        if x > WIDTH - 8 || sprite.len() > HEIGHT || y > HEIGHT - sprite.len() {
            return Err(DisplayError::OutOfBounds);
        }
        let ghost d = old(self)@;
        let ghost sp = sprite@;
        let mut i: usize = 0;
        while i < sprite.len()
            invariant
                i <= sp.len(),
                sp == sprite@,
                x + 8 <= WIDTH,
                y + sp.len() <= HEIGHT,
                d.len() == HEIGHT,
                forall|rr: int| 0 <= rr < HEIGHT ==> #[trigger] d[rr].len() == WIDTH,
                forall|rr: int, cc: int|
                    0 <= rr < HEIGHT && 0 <= cc < WIDTH ==> #[trigger] self.pixels@[rr]@[cc] == (
                    d[rr][cc] != (rr < y + i && sprite_covers(sp, x as int, y as int, rr, cc))),
            decreases sp.len() - i,
        {
            let bits = sprite[i];
            let r = y + i;
            let mut row = self.pixels[r];
            let mut j: usize = 0;
            while j < 8
                invariant
                    j <= 8,
                    i < sp.len(),
                    r == y + i,
                    x + 8 <= WIDTH,
                    y + sp.len() <= HEIGHT,
                    bits == sp[i as int],
                    d.len() == HEIGHT,
                    forall|rr: int| 0 <= rr < HEIGHT ==> #[trigger] d[rr].len() == WIDTH,
                    forall|cc: int|
                        0 <= cc < WIDTH ==> #[trigger] row@[cc] == (d[r as int][cc] != (cc < x + j
                            && sprite_covers(sp, x as int, y as int, r as int, cc))),
                decreases 8 - j,
            {
                let pixel = (bits >> (7 - j as u8)) & 1 == 1;
                row[x + j] = row[x + j] != pixel;
                j += 1;
            }
            self.pixels[r] = row;
            i += 1;
        }
        assert(self@ =~~= drawn(d, sp, x as int, y as int));
        Ok(())
    }
}

} // verus!
