use vstd::prelude::*;

verus! {

pub const WIDTH: usize = 64;
pub const HEIGHT: usize = 32;

/// A surface that shows frames and tells whether the host still runs.
pub trait Window {
    /// The cells of the frame last handed over, row by row.
    spec fn shown(&self) -> Seq<u8>;

    /// The width and height of the frame last handed over.
    spec fn shown_size(&self) -> (usize, usize);

    /// Takes `buffer`, `width` x `height` cells row by row, as the frame to show.
    fn update_with_buffer(&mut self, buffer: &[u8], width: usize, height: usize)
        ensures
            final(self).shown() == buffer@,
            final(self).shown_size() == (width, height),
    ;

    fn is_running(&mut self) -> bool;
}

/// A `WIDTH` x `HEIGHT` monochrome pixel buffer, one byte per cell, row by row.
pub struct VirtualScreen {
    pub buffer: Vec<u8>,
    pub need_update: bool,
}

/// Whether pixel `col` (0 is the leftmost) of a sprite row is set.
pub open spec fn sprite_bit(b: u8, col: nat) -> bool {
    col < 8 && (b & (0x80u8 >> (col as u8))) != 0
}

/// The buffer cell that pixel (`row`, `col`) of a sprite drawn at (`x`, `y`)
/// lands on, wrapping across both edges.
pub open spec fn cell_index(x: nat, y: nat, row: nat, col: nat) -> int {
    (((y + row) % (HEIGHT as nat)) * (WIDTH as nat) + ((x + col) % (WIDTH as nat))) as int
}

/// The buffer after XOR-ing the first `cols` pixels of sprite row `row`
/// (byte `b`) one after another.
pub open spec fn draw_row(buf: Seq<u8>, b: u8, x: nat, y: nat, row: nat, cols: nat) -> Seq<u8>
    decreases cols,
{
    if cols == 0 {
        buf
    } else {
        let prev = draw_row(buf, b, x, y, row, (cols - 1) as nat);
        let i = cell_index(x, y, row, (cols - 1) as nat);
        if sprite_bit(b, (cols - 1) as nat) {
            prev.update(i, prev[i] ^ 1u8)
        } else {
            prev
        }
    }
}

/// Whether one of the first `cols` pixels of sprite row `row` finds its cell
/// at 1 when it is XOR-ed.
pub open spec fn row_collides(buf: Seq<u8>, b: u8, x: nat, y: nat, row: nat, cols: nat) -> bool
    decreases cols,
{
    if cols == 0 {
        false
    } else {
        let prev = draw_row(buf, b, x, y, row, (cols - 1) as nat);
        row_collides(buf, b, x, y, row, (cols - 1) as nat) || (sprite_bit(b, (cols - 1) as nat)
            && prev[cell_index(x, y, row, (cols - 1) as nat)] == 1)
    }
}

/// The buffer after drawing the first `rows` rows of `sprite` at (`x`, `y`).
pub open spec fn draw_rows(buf: Seq<u8>, sprite: Seq<u8>, x: nat, y: nat, rows: nat) -> Seq<u8>
    decreases rows,
{
    if rows == 0 {
        buf
    } else {
        let r = (rows - 1) as nat;
        draw_row(draw_rows(buf, sprite, x, y, r), sprite[r as int], x, y, r, 8)
    }
}

/// Whether drawing the first `rows` rows of `sprite` at (`x`, `y`) turns a set
/// cell off.
pub open spec fn rows_collide(buf: Seq<u8>, sprite: Seq<u8>, x: nat, y: nat, rows: nat) -> bool
    decreases rows,
{
    if rows == 0 {
        false
    } else {
        let r = (rows - 1) as nat;
        rows_collide(buf, sprite, x, y, r) || row_collides(
            draw_rows(buf, sprite, x, y, r),
            sprite[r as int],
            x,
            y,
            r,
            8,
        )
    }
}

/// The buffer after drawing the whole of `sprite` at (`x`, `y`).
pub open spec fn draw_sprite(buf: Seq<u8>, sprite: Seq<u8>, x: nat, y: nat) -> Seq<u8> {
    draw_rows(buf, sprite, x, y, sprite.len())
}

/// Whether drawing `sprite` at (`x`, `y`) turns a set cell off.
pub open spec fn collides(buf: Seq<u8>, sprite: Seq<u8>, x: nat, y: nat) -> bool {
    rows_collide(buf, sprite, x, y, sprite.len())
}

pub open spec fn blank_buffer() -> Seq<u8> {
    Seq::new((WIDTH * HEIGHT) as nat, |i: int| 0u8)
}

proof fn lemma_cell_index_bounds(x: nat, y: nat, row: nat, col: nat)
    ensures
        0 <= cell_index(x, y, row, col) < WIDTH * HEIGHT,
{
    let r = (y + row) % (HEIGHT as nat);
    let c = (x + col) % (WIDTH as nat);
    assert(r < 32 && c < 64);
    assert(r * 64 + c < 2048) by (nonlinear_arith)
        requires
            r < 32,
            c < 64,
    ;
}

proof fn lemma_draw_row_len(buf: Seq<u8>, b: u8, x: nat, y: nat, row: nat, cols: nat)
    requires
        buf.len() == WIDTH * HEIGHT,
    ensures
        draw_row(buf, b, x, y, row, cols).len() == WIDTH * HEIGHT,
    decreases cols,
{
    if cols > 0 {
        lemma_draw_row_len(buf, b, x, y, row, (cols - 1) as nat);
        lemma_cell_index_bounds(x, y, row, (cols - 1) as nat);
    }
}

proof fn lemma_draw_rows_len(buf: Seq<u8>, sprite: Seq<u8>, x: nat, y: nat, rows: nat)
    requires
        buf.len() == WIDTH * HEIGHT,
        rows <= sprite.len(),
    ensures
        draw_rows(buf, sprite, x, y, rows).len() == WIDTH * HEIGHT,
    decreases rows,
{
    if rows > 0 {
        let r = (rows - 1) as nat;
        lemma_draw_rows_len(buf, sprite, x, y, r);
        lemma_draw_row_len(draw_rows(buf, sprite, x, y, r), sprite[r as int], x, y, r, 8);
    }
}

proof fn lemma_wrap(a: nat, b: nat, m: nat)
    requires
        m > 0,
    ensures
        (a % m + b % m) % m == (a + b) % m,
{
    vstd::arithmetic::div_mod::lemma_add_mod_noop(a as int, b as int, m as int);
}

impl VirtualScreen {
    /// The buffer has exactly one cell per pixel.
    pub open spec fn wf(&self) -> bool {
        self.buffer@.len() == WIDTH * HEIGHT
    }

    /// A blank screen that asks to be shown.
    pub fn new() -> (r: VirtualScreen)
        ensures
            r.wf(),
            r.buffer@ == blank_buffer(),
            r.need_update,
    {
        VirtualScreen { buffer: vec![0u8; WIDTH * HEIGHT], need_update: true }
    }

    /// XORs `sprite` (8 pixels wide, one byte per row) onto the buffer at
    /// (`x`, `y`), wrapping across both edges, and sets `vf` to 1 when a set
    /// cell was turned off, else to 0.
    pub fn display(&mut self, sprite: &[u8], x: usize, y: usize, vf: &mut u8)
        requires
            old(self).wf(),
        ensures
            final(self).wf(),
            final(self).buffer@ == draw_sprite(old(self).buffer@, sprite@, x as nat, y as nat),
            *final(vf) == (if collides(old(self).buffer@, sprite@, x as nat, y as nat) {
                1u8
            } else {
                0u8
            }),
            final(self).need_update,
    {
        self.need_update = true;
        *vf = 0;
        let ghost buf0 = self.buffer@;
        let ghost sp = sprite@;
        let xm = x % WIDTH;
        let ym = y % HEIGHT;
        let mut row: usize = 0;
        while row < sprite.len()
            invariant
                row <= sprite@.len(),
                sp == sprite@,
                xm == x % WIDTH,
                ym == y % HEIGHT,
                self.wf(),
                self.need_update,
                self.buffer@ == draw_rows(buf0, sp, x as nat, y as nat, row as nat),
                *vf == (if rows_collide(buf0, sp, x as nat, y as nat, row as nat) {
                    1u8
                } else {
                    0u8
                }),
            decreases sprite@.len() - row,
        {
            let ghost before = self.buffer@;
            let ghost hit0 = rows_collide(buf0, sp, x as nat, y as nat, row as nat);
            let b = sprite[row];
            let rm = (ym + row % HEIGHT) % HEIGHT;
            proof {
                lemma_wrap(y as nat, row as nat, HEIGHT as nat);
            }
            let mut col: usize = 0;
            while col < 8
                invariant
                    col <= 8,
                    b == sp[row as int],
                    row < sp.len(),
                    xm == x % WIDTH,
                    rm == (y + row) % (HEIGHT as int),
                    self.wf(),
                    self.need_update,
                    before.len() == WIDTH * HEIGHT,
                    self.buffer@ == draw_row(before, b, x as nat, y as nat, row as nat, col as nat),
                    *vf == (if hit0 || row_collides(before, b, x as nat, y as nat, row as nat, col as nat) {
                        1u8
                    } else {
                        0u8
                    }),
                decreases 8 - col,
            {
                let pixel = b & (0x80u8 >> (col as u8));
                let cm = (xm + col) % WIDTH;
                proof {
                    lemma_wrap(x as nat, col as nat, WIDTH as nat);
                    lemma_cell_index_bounds(x as nat, y as nat, row as nat, col as nat);
                    lemma_draw_row_len(before, b, x as nat, y as nat, row as nat, col as nat);
                    assert(col % WIDTH == col);
                }
                let index = rm * WIDTH + cm;
                assert(index == cell_index(x as nat, y as nat, row as nat, col as nat));
                if pixel != 0 {
                    if self.buffer[index] == 1 {
                        *vf = 1;
                    }
                    let v = self.buffer[index] ^ 1;
                    self.buffer.set(index, v);
                }
                col += 1;
            }
            row += 1;
        }
    }

    /// Turns every cell off.
    pub fn clear(&mut self)
        ensures
            final(self).wf(),
            final(self).buffer@ == blank_buffer(),
            final(self).need_update,
    {
        self.buffer = vec![0u8; WIDTH * HEIGHT];
        self.need_update = true;
        assert(self.buffer@ =~= blank_buffer());
    }
}

/// A sprite drawn at the last column wraps: its second column lands on
/// column 0 of the same row.
pub proof fn lemma_wraparound_column(y: nat, row: nat)
    ensures
        cell_index((WIDTH - 1) as nat, y, row, 1) == ((y + row) % (HEIGHT as nat)) * (WIDTH as nat),
{
}

} // verus!
