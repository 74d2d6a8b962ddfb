use vstd::prelude::*;

verus! {

/// Width of the screen in pixels.
pub const WIDTH: usize = 64;

/// Height of the screen in pixels.
pub const HEIGHT: usize = 32;

/// Number of pixels on the screen.
pub const PIXELS: usize = 2048;

/// Whether bit `k` (0 is the most significant) of a sprite row is set.
pub open spec fn row_bit(b: u8, k: int) -> bool {
    (b >> ((7 - k) as u8)) & 1u8 == 1u8
}

/// Whether the sprite `s` drawn at origin `(x, y)` has a set bit over the
/// pixel at column `col`, row `row`. Coordinates wrap around both edges.
pub open spec fn covers(s: Seq<u8>, x: int, y: int, col: int, row: int) -> bool {
    let k = (col - x) % (WIDTH as int);
    let r = (row - y) % (HEIGHT as int);
    r < s.len() && k < 8 && row_bit(s[r], k)
}

/// The pixels after XOR-drawing sprite `s` at `(x, y)` over `fb`.
pub open spec fn drawn(fb: Seq<bool>, s: Seq<u8>, x: int, y: int) -> Seq<bool> {
    Seq::new(fb.len(), |c: int| fb[c] != covers(s, x, y, c % (WIDTH as int), c / (WIDTH as int)))
}

/// Whether drawing sprite `s` at `(x, y)` over `fb` turns some lit pixel off.
pub open spec fn collides(fb: Seq<bool>, s: Seq<u8>, x: int, y: int) -> bool {
    exists|c: int| 0 <= c < fb.len() && #[trigger] fb[c]
        && covers(s, x, y, c % (WIDTH as int), c / (WIDTH as int))
}

/// Drawing the same sprite twice at the same origin restores the screen, and
/// the second drawing collides exactly when the first one lit a pixel.
pub proof fn lemma_draw_twice(fb: Seq<bool>, s: Seq<u8>, x: u8, y: u8)
    ensures
        drawn(drawn(fb, s, x as int, y as int), s, x as int, y as int) == fb,
        collides(drawn(fb, s, x as int, y as int), s, x as int, y as int) <==> exists|c: int|
            0 <= c < fb.len() && !#[trigger] fb[c]
                && covers(s, x as int, y as int, c % (WIDTH as int), c / (WIDTH as int)),
{
    let once = drawn(fb, s, x as int, y as int);
    assert(drawn(once, s, x as int, y as int) =~= fb);
    if collides(once, s, x as int, y as int) {
        let c = choose|c: int| 0 <= c < once.len() && #[trigger] once[c]
            && covers(s, x as int, y as int, c % (WIDTH as int), c / (WIDTH as int));
        assert(!fb[c]);
    }
    if exists|c: int| 0 <= c < fb.len() && !#[trigger] fb[c]
        && covers(s, x as int, y as int, c % (WIDTH as int), c / (WIDTH as int)) {
        let c = choose|c: int| 0 <= c < fb.len() && !#[trigger] fb[c]
            && covers(s, x as int, y as int, c % (WIDTH as int), c / (WIDTH as int));
        assert(once[c]);
    }
}

/// Bit `k` of sprite row `r` lands on column `(x + k) mod WIDTH` and row
/// `(y + r) mod HEIGHT`: a sprite past the right or bottom edge wraps to
/// column or row 0.
pub proof fn lemma_draw_wraps(s: Seq<u8>, x: u8, y: u8, r: int, k: int)
    requires
        0 <= r < s.len(),
        s.len() < 16,
        0 <= k < 8,
    ensures
        covers(s, x as int, y as int, (x + k) % (WIDTH as int), (y + r) % (HEIGHT as int))
            == row_bit(s[r], k),
        x as int % (WIDTH as int) + k >= WIDTH ==> (x + k) % (WIDTH as int) == x as int % (WIDTH as int) + k - WIDTH,
        y as int % (HEIGHT as int) + r >= HEIGHT ==> (y + r) % (HEIGHT as int) == y as int % (HEIGHT as int) + r - HEIGHT,
{
}

/// The monochrome screen: one flag per pixel, row after row.
pub struct Framebuffer {
    cells: Vec<bool>,
}

impl View for Framebuffer {
    type V = Seq<bool>;

    closed spec fn view(&self) -> Seq<bool> {
        self.cells@
    }
}

impl Framebuffer {
    pub open spec fn wf(&self) -> bool {
        self@.len() == PIXELS
    }

    /// A screen with every pixel off.
    pub fn new() -> (r: Framebuffer)
        ensures
            r.wf(),
            forall|c: int| 0 <= c < PIXELS ==> !#[trigger] r@[c],
    {
        Framebuffer { cells: vec![false; PIXELS] }
    }

    /// Whether the pixel at column `col`, row `row` is lit.
    pub fn pixel(&self, col: usize, row: usize) -> (r: bool)
        requires
            self.wf(),
            col < WIDTH,
            row < HEIGHT,
        ensures
            r == self@[row * WIDTH + col],
    {
        self.cells[row * WIDTH + col]
    }

    /// Turns every pixel off.
    pub fn clear_screen(&mut self)
        requires
            old(self).wf(),
        ensures
            final(self).wf(),
            forall|c: int| 0 <= c < PIXELS ==> !#[trigger] final(self)@[c],
    {
        let mut c: usize = 0;
        while c < PIXELS
            invariant
                self.wf(),
                c <= PIXELS,
                forall|d: int| 0 <= d < c ==> !#[trigger] self@[d],
            decreases PIXELS - c,
        {
            self.cells.set(c, false);
            c = c + 1;
        }
    }

    /// XOR-draws the sprite `bytes` with its top left corner at `(init_x, init_y)`,
    /// wrapping around the edges; returns 1 if a lit pixel was turned off, else 0.
    pub fn draw(&mut self, bytes: &Vec<u8>, init_x: u8, init_y: u8) -> (vf: u8)
        requires
            old(self).wf(),
            bytes@.len() < 16,
        ensures
            final(self).wf(),
            final(self)@ == drawn(old(self)@, bytes@, init_x as int, init_y as int),
            vf == (if collides(old(self)@, bytes@, init_x as int, init_y as int) { 1u8 } else { 0u8 }),
    {
        let ghost fb0 = self@;
        let ghost s = bytes@;
        let ghost x = init_x as int;
        let ghost y = init_y as int;
        let mut vf: u8 = 0;
        let mut r: usize = 0;
        while r < bytes.len()
            invariant
                self.wf(),
                s == bytes@,
                s.len() < 16,
                r <= s.len(),
                fb0.len() == PIXELS,
                x == init_x as int,
                y == init_y as int,
                forall|c: int| 0 <= c < PIXELS ==> #[trigger] self@[c] == (fb0[c] != (
                    covers(s, x, y, c % 64, c / 64) && (c / 64 - y) % 32 < r)),
                vf == 1 <==> exists|c: int| 0 <= c < PIXELS && #[trigger] fb0[c]
                    && covers(s, x, y, c % 64, c / 64) && (c / 64 - y) % 32 < r,
                vf == 0 || vf == 1,
            decreases s.len() - r,
        {
            let byte = bytes[r];
            let cy: usize = (init_y as usize + r) % HEIGHT;
            let mut k: usize = 0;
            while k < 8
                invariant
                    self.wf(),
                    s == bytes@,
                    s.len() < 16,
                    r < s.len(),
                    byte == s[r as int],
                    cy == (y + r) % 32,
                    k <= 8,
                    fb0.len() == PIXELS,
                    x == init_x as int,
                    y == init_y as int,
                    forall|c: int| 0 <= c < PIXELS ==> #[trigger] self@[c] == (fb0[c] != (
                        covers(s, x, y, c % 64, c / 64) && Self::done(x, y, c, r as int, k as int))),
                    vf == 1 <==> exists|c: int| 0 <= c < PIXELS && #[trigger] fb0[c]
                        && covers(s, x, y, c % 64, c / 64) && Self::done(x, y, c, r as int, k as int),
                    vf == 0 || vf == 1,
                decreases 8 - k,
            {
                let cx: usize = (init_x as usize + k) % WIDTH;
                let idx: usize = cy * WIDTH + cx;
                let bit = (byte >> ((7 - k) as u8)) & 1u8 == 1u8;
                let ghost prev = self@;
                proof {
                    assert(idx % 64 == cx && idx / 64 == cy);
                    assert((cx - x) % 64 == k);
                    assert((cy - y) % 32 == r);
                }
                if bit {
                    let on = self.cells[idx];
                    self.cells.set(idx, !on);
                    if on {
                        vf = 1;
                    }
                }
                proof {
                    assert forall|c: int| 0 <= c < PIXELS implies #[trigger] self@[c] == (fb0[c] != (
                        covers(s, x, y, c % 64, c / 64) && Self::done(x, y, c, r as int, k + 1))) by {
                        if c == idx {
                            assert(prev[c] == fb0[c]);
                        } else if (c % 64 - x) % 64 == k && (c / 64 - y) % 32 == r {
                            assert(c % 64 == cx);
                            assert(c / 64 == cy);
                        }
                    };
                    if bit && fb0[idx as int] {
                        assert(covers(s, x, y, idx as int % 64, idx as int / 64));
                        assert(Self::done(x, y, idx as int, r as int, k + 1));
                    }
                }
                k = k + 1;
            }
            r = r + 1;
        }
        vf
    }

    /// Whether the pixel `c` lies on a sprite cell that the drawing loop has
    /// passed once it is at row offset `r`, column offset `k`.
    spec fn done(x: int, y: int, c: int, r: int, k: int) -> bool {
        let ck = (c % 64 - x) % 64;
        let cr = (c / 64 - y) % 32;
        cr < r || (cr == r && ck < k)
    }
}

} // verus!
