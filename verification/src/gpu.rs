//! The monochrome display: a 64x32 boolean pixel matrix stored row-major in
//! one linear buffer with toroidal (wraparound) addressing, mutated only by
//! the XOR-sprite-blit and by clearing.

use vstd::prelude::*;

verus! {

/// The display width in pixels.
pub const WIDTH: usize = 64;

/// The display height in pixels.
pub const HEIGHT: usize = 32;

/// The length of the linear pixel buffer.
pub const FB_LEN: usize = WIDTH * HEIGHT;

/// The buffer after writing `pix` one element at a time starting at linear
/// index `start`, wrapping past the end of the buffer back to index 0.
pub open spec fn wrap_write<T>(buf: Seq<T>, start: int, pix: Seq<T>) -> Seq<T>
    decreases pix.len(),
{
    if pix.len() <= 0 {
        buf
    } else {
        wrap_write(buf, start, pix.drop_last()).update(
            (start + pix.len() - 1) % (FB_LEN as int),
            pix.last(),
        )
    }
}

/// Writing wraps indices modulo the buffer length, so two offsets less than
/// a full turn apart never land on the same cell.
proof fn lemma_wrap_distinct(start: int, a: int, b: int)
    requires
        0 <= start,
        0 <= a < b,
        b - a < FB_LEN,
    ensures
        (start + a) % (FB_LEN as int) != (start + b) % (FB_LEN as int),
{
    let n = FB_LEN as int;
    vstd::arithmetic::div_mod::lemma_fundamental_div_mod(start + a, n);
    vstd::arithmetic::div_mod::lemma_fundamental_div_mod(start + b, n);
    if (start + a) % n == (start + b) % n {
        let qa = (start + a) / n;
        let qb = (start + b) / n;
        assert(b - a == n * (qb - qa));
        assert(n * (qb - qa) >= n || n * (qb - qa) <= 0) by (nonlinear_arith)
            requires
                qb - qa >= 1 || qb - qa <= 0,
                n > 0,
        ;
    }
}

/// `wrap_write` keeps the buffer's length.
proof fn lemma_wrap_write_len<T>(buf: Seq<T>, start: int, pix: Seq<T>)
    requires
        buf.len() == FB_LEN,
    ensures
        wrap_write(buf, start, pix).len() == buf.len(),
    decreases pix.len(),
{
    if pix.len() > 0 {
        lemma_wrap_write_len(buf, start, pix.drop_last());
    }
}

/// What one wraparound write leaves at the cell each element lands on,
/// provided the write is at most one full turn long.
proof fn lemma_wrap_write_at<T>(buf: Seq<T>, start: int, pix: Seq<T>, k: int)
    requires
        buf.len() == FB_LEN,
        0 <= start,
        pix.len() <= FB_LEN,
        0 <= k < pix.len(),
    ensures
        wrap_write(buf, start, pix)[(start + k) % (FB_LEN as int)] == pix[k],
    decreases pix.len(),
{
    lemma_wrap_write_len(buf, start, pix.drop_last());
    if k < pix.len() - 1 {
        lemma_wrap_write_at(buf, start, pix.drop_last(), k);
        lemma_wrap_distinct(start, k, pix.len() - 1);
    }
}

/// One step of a wraparound cursor: if the cursor sits at the cell of offset
/// `k`, the next cell is the one of offset `k + 1`.
proof fn lemma_wrap_step(start: int, k: int, idx: int)
    requires
        0 <= start,
        0 <= k,
        0 <= idx < FB_LEN,
        idx == (start + k) % (FB_LEN as int),
    ensures
        (idx + 1) % (FB_LEN as int) == (start + k + 1) % (FB_LEN as int),
{
    let n = FB_LEN as int;
    vstd::arithmetic::div_mod::lemma_add_mod_noop(start + k, 1, n);
    vstd::arithmetic::div_mod::lemma_small_mod(1nat, n as nat);
}

/// After folding a cursor at the end of the buffer back to 0, its value is
/// exactly the cell of its offset.
proof fn lemma_wrap_norm(start: int, k: int, idx: int)
    requires
        0 <= start,
        0 <= k,
        0 <= idx < FB_LEN,
        idx % (FB_LEN as int) == (start + k) % (FB_LEN as int),
    ensures
        idx == (start + k) % (FB_LEN as int),
{
    vstd::arithmetic::div_mod::lemma_small_mod(idx as nat, FB_LEN as nat);
}

/// A fixed-size linear pixel store with wraparound addressing. Reads and
/// writes take an origin inside the 64x32 grid but run linearly from there,
/// wrapping at the end of the whole buffer, not at the end of the row.
pub struct PixelBuffer<T: Default + Copy> {
    buf: Vec<T>,
}

impl<T: Default + Copy> View for PixelBuffer<T> {
    type V = Seq<T>;

    closed spec fn view(&self) -> Seq<T> {
        self.buf@
    }
}

impl<T: Default + Copy> PixelBuffer<T> {
    /// The buffer always holds exactly `FB_LEN` cells.
    pub open spec fn wf(&self) -> bool {
        self@.len() == FB_LEN
    }

    /// A buffer of `FB_LEN` default-valued cells.
    pub fn new() -> (pb: PixelBuffer<T>)
        ensures
            pb.wf(),
            forall|i: int| 0 <= i < FB_LEN ==> call_ensures(T::default, (), #[trigger] pb@[i]),
    {
        let fill = T::default();
        let mut buf: Vec<T> = Vec::new();
        while buf.len() < FB_LEN
            invariant
                buf@.len() <= FB_LEN,
                forall|i: int| 0 <= i < buf@.len() ==> #[trigger] buf@[i] == fill,
                call_ensures(T::default, (), fill),
            decreases FB_LEN - buf@.len(),
        {
            buf.push(fill);
        }
        PixelBuffer { buf }
    }

    /// Writes `pixels` starting at the top-left corner.
    pub fn write(&mut self, pixels: &[T])
        requires
            old(self).wf(),
        ensures
            final(self).wf(),
            final(self)@ == wrap_write(old(self)@, 0, pixels@),
    {
        self.write_pos(0, 0, pixels);
    }

    /// Writes `pixels` linearly from the cell at `(x, y)`, wrapping past the
    /// end of the buffer.
    pub fn write_pos(&mut self, x: usize, y: usize, pixels: &[T])
        requires
            old(self).wf(),
            x < WIDTH,
            y < HEIGHT,
        ensures
            final(self).wf(),
            final(self)@ == wrap_write(old(self)@, (y * WIDTH + x) as int, pixels@),
    {
        let ghost start0: int = (y * WIDTH + x) as int;
        let n = pixels.len();
        let mut index: usize = y * WIDTH + x;
        let mut k: usize = 0;
        while k < n
            invariant
                self@.len() == FB_LEN,
                n == pixels@.len(),
                k <= n,
                0 <= start0 < FB_LEN,
                index <= FB_LEN,
                index as int % (FB_LEN as int) == (start0 + k) % (FB_LEN as int),
                self@ == wrap_write(old(self)@, start0, pixels@.take(k as int)),
            decreases n - k,
        {
            if index == FB_LEN {
                index = 0;
                proof {
                    vstd::arithmetic::div_mod::lemma_mod_self_0(FB_LEN as int);
                    vstd::arithmetic::div_mod::lemma_small_mod(0nat, FB_LEN as nat);
                }
            }
            proof {
                lemma_wrap_norm(start0, k as int, index as int);
            }
            self.buf[index] = pixels[k];
            proof {
                lemma_wrap_step(start0, k as int, index as int);
            }
            index = index + 1;
            k = k + 1;
            proof {
                assert(pixels@.take(k as int).drop_last() =~= pixels@.take(k - 1));
                assert(self@ =~= wrap_write(old(self)@, start0, pixels@.take(k as int)));
            }
        }
        proof {
            assert(pixels@.take(n as int) =~= pixels@);
        }
    }

    /// Fills `out` with the cells read linearly from the top-left corner.
    pub fn read(&self, out: &mut Vec<T>)
        requires
            self.wf(),
        ensures
            final(out)@.len() == old(out)@.len(),
            forall|i: int|
                0 <= i < old(out)@.len() ==> final(out)@[i] == self@[i % (FB_LEN as int)],
    {
        self.read_pos(0, 0, out);
    }

    /// Fills `out` with the cells read linearly from `(x, y)`, wrapping past
    /// the end of the buffer.
    pub fn read_pos(&self, x: usize, y: usize, out: &mut Vec<T>)
        requires
            self.wf(),
            x < WIDTH,
            y < HEIGHT,
        ensures
            final(out)@.len() == old(out)@.len(),
            forall|i: int|
                0 <= i < old(out)@.len() ==> final(out)@[i] == self@[
                    ((y * WIDTH + x) + i) % (FB_LEN as int)
                ],
    {
        let ghost start0: int = (y * WIDTH + x) as int;
        let n = out.len();
        let mut index: usize = y * WIDTH + x;
        let mut k: usize = 0;
        while k < n
            invariant
                self.wf(),
                n == out@.len(),
                k <= n,
                0 <= start0 < FB_LEN,
                index <= FB_LEN,
                index as int % (FB_LEN as int) == (start0 + k) % (FB_LEN as int),
                forall|i: int| 0 <= i < k ==> out@[i] == self@[(start0 + i) % (FB_LEN as int)],
            decreases n - k,
        {
            if index == FB_LEN {
                index = 0;
                proof {
                    vstd::arithmetic::div_mod::lemma_mod_self_0(FB_LEN as int);
                    vstd::arithmetic::div_mod::lemma_small_mod(0nat, FB_LEN as nat);
                }
            }
            proof {
                lemma_wrap_norm(start0, k as int, index as int);
            }
            out[k] = self.buf[index];
            proof {
                lemma_wrap_step(start0, k as int, index as int);
            }
            index = index + 1;
            k = k + 1;
        }
    }
}

/// Whether sprite byte `b` has its pixel set at column `col`; column 0 is
/// the most significant bit.
pub open spec fn sprite_bit(b: u8, col: int) -> bool {
    b & (0x80u8 >> (col as u8)) != 0
}

/// The linear index where row `r` of a sprite drawn at `(x, y)` begins.
pub open spec fn row_start(x: int, y: int, r: int) -> int {
    (y + r) * (WIDTH as int) + x
}

/// The buffer after XOR-ing the first `ncols` bits of sprite byte `b` into
/// the cells running linearly from `start`.
pub open spec fn blit_row_upto(fb: Seq<bool>, start: int, b: u8, ncols: int) -> Seq<bool>
    decreases ncols,
{
    if ncols <= 0 {
        fb
    } else {
        let prev = blit_row_upto(fb, start, b, ncols - 1);
        let j = (start + ncols - 1) % (FB_LEN as int);
        prev.update(j, prev[j] ^ sprite_bit(b, ncols - 1))
    }
}

/// The buffer after XOR-ing one full 8-pixel sprite row at `start`.
pub open spec fn blit_row(fb: Seq<bool>, start: int, b: u8) -> Seq<bool> {
    blit_row_upto(fb, start, b, 8)
}

/// Whether XOR-ing sprite byte `b` at `start` turns some set pixel off:
/// a set sprite bit meets an already-set pixel.
pub open spec fn row_collides(fb: Seq<bool>, start: int, b: u8) -> bool {
    exists|c: int| 0 <= c < 8 && sprite_bit(b, c) && fb[(start + c) % (FB_LEN as int)]
}

/// The buffer after blitting the first `k` rows of a sprite at `(x, y)`,
/// row by row, each row reading the state the rows before it left.
pub open spec fn blit_upto(fb: Seq<bool>, x: int, y: int, rows: Seq<u8>, k: int) -> Seq<bool>
    decreases k,
{
    if k <= 0 {
        fb
    } else {
        blit_row(blit_upto(fb, x, y, rows, k - 1), row_start(x, y, k - 1), rows[k - 1])
    }
}

/// The buffer after blitting a whole sprite at `(x, y)`.
pub open spec fn blit(fb: Seq<bool>, x: int, y: int, rows: Seq<u8>) -> Seq<bool> {
    blit_upto(fb, x, y, rows, rows.len() as int)
}

/// Whether any of the first `k` rows collides, each judged against the state
/// the rows before it left.
pub open spec fn blit_collides_upto(fb: Seq<bool>, x: int, y: int, rows: Seq<u8>, k: int) -> bool
    decreases k,
{
    if k <= 0 {
        false
    } else {
        blit_collides_upto(fb, x, y, rows, k - 1) || row_collides(
            blit_upto(fb, x, y, rows, k - 1),
            row_start(x, y, k - 1),
            rows[k - 1],
        )
    }
}

/// Whether blitting a whole sprite at `(x, y)` reports a collision.
pub open spec fn blit_collides(fb: Seq<bool>, x: int, y: int, rows: Seq<u8>) -> bool {
    blit_collides_upto(fb, x, y, rows, rows.len() as int)
}

/// A row blit keeps the buffer's length.
proof fn lemma_blit_row_upto_len(fb: Seq<bool>, start: int, b: u8, ncols: int)
    requires
        fb.len() == FB_LEN,
        0 <= start,
    ensures
        blit_row_upto(fb, start, b, ncols).len() == FB_LEN,
    decreases ncols,
{
    if ncols > 0 {
        lemma_blit_row_upto_len(fb, start, b, ncols - 1);
    }
}

/// Cells that none of the first `ncols` columns of a row blit lands on are
/// left as they were.
proof fn lemma_blit_row_upto_miss(fb: Seq<bool>, start: int, b: u8, ncols: int, j: int)
    requires
        fb.len() == FB_LEN,
        0 <= start,
        0 <= j < FB_LEN,
        forall|c: int| 0 <= c < ncols ==> #[trigger] ((start + c) % (FB_LEN as int)) != j,
    ensures
        blit_row_upto(fb, start, b, ncols)[j] == fb[j],
    decreases ncols,
{
    lemma_blit_row_upto_len(fb, start, b, ncols);
    if ncols > 0 {
        lemma_blit_row_upto_len(fb, start, b, ncols - 1);
        lemma_blit_row_upto_miss(fb, start, b, ncols - 1, j);
        assert((start + (ncols - 1)) % (FB_LEN as int) != j);
    }
}

/// A full row blit equals one wraparound write of the row's 8 XOR-ed pixels.
proof fn lemma_blit_row_as_wrap(cur: Seq<bool>, start: int, b: u8, pix: Seq<bool>, k: int)
    requires
        cur.len() == FB_LEN,
        0 <= start,
        pix.len() == 8,
        forall|i: int|
            0 <= i < 8 ==> pix[i] == (cur[(start + i) % (FB_LEN as int)] ^ sprite_bit(b, i)),
        0 <= k <= 8,
    ensures
        wrap_write(cur, start, pix.take(k)) == blit_row_upto(cur, start, b, k),
    decreases k,
{
    if k > 0 {
        lemma_blit_row_as_wrap(cur, start, b, pix, k - 1);
        assert(pix.take(k).drop_last() =~= pix.take(k - 1));
        let n = FB_LEN as int;
        let j = (start + k - 1) % n;
        assert forall|c: int| 0 <= c < k - 1 implies #[trigger] ((start + c) % n) != j by {
            lemma_wrap_distinct(start, c, k - 1);
        }
        lemma_blit_row_upto_miss(cur, start, b, k - 1, j);
        lemma_blit_row_upto_len(cur, start, b, k - 1);
    }
}

/// The cell where column `c` of sprite row `r` lands when the sprite is
/// drawn at `(x, y)`.
pub open spec fn cell(x: int, y: int, r: int, c: int) -> int {
    (row_start(x, y, r) + c) % (FB_LEN as int)
}

/// Some column of some of the sprite's rows lands on cell `j`.
pub open spec fn covered(x: int, y: int, nrows: int, j: int) -> bool {
    exists|r: int, c: int| 0 <= r < nrows && 0 <= c < 8 && cell(x, y, r, c) == j
}

/// Two distinct pixels of one sprite land on distinct cells: rows sit 64
/// cells apart, a sprite has at most 32 rows of 8 pixels, and the buffer
/// wraps only after 2048 cells.
proof fn lemma_cells_distinct(x: int, y: int, r1: int, c1: int, r2: int, c2: int)
    requires
        0 <= x < WIDTH,
        0 <= y,
        0 <= r1,
        0 <= r2,
        y + r1 < HEIGHT,
        y + r2 < HEIGHT,
        0 <= c1 < 8,
        0 <= c2 < 8,
        r1 < r2 || (r1 == r2 && c1 < c2),
    ensures
        cell(x, y, r1, c1) != cell(x, y, r2, c2),
{
    let a = row_start(x, y, r1) + c1;
    let b = row_start(x, y, r2) + c2;
    assert(b - a == (r2 - r1) * (WIDTH as int) + (c2 - c1));
    lemma_wrap_distinct(0, a, b);
}

/// What one row blit leaves at each of its own 8 cells.
proof fn lemma_blit_row_upto_at(fb: Seq<bool>, start: int, b: u8, ncols: int, c: int)
    requires
        fb.len() == FB_LEN,
        0 <= start,
        0 <= c < ncols <= 8,
    ensures
        blit_row_upto(fb, start, b, ncols)[(start + c) % (FB_LEN as int)] == (fb[(start + c) % (
        FB_LEN as int
        )] ^ sprite_bit(b, c)),
    decreases ncols,
{
    let n = FB_LEN as int;
    lemma_blit_row_upto_len(fb, start, b, ncols - 1);
    if c == ncols - 1 {
        assert forall|c2: int| 0 <= c2 < ncols - 1 implies #[trigger] ((start + c2) % n) != (start
            + c) % n by {
            lemma_wrap_distinct(start, c2, c);
        }
        lemma_blit_row_upto_miss(fb, start, b, ncols - 1, (start + c) % n);
    } else {
        lemma_blit_row_upto_at(fb, start, b, ncols - 1, c);
        lemma_wrap_distinct(start, c, ncols - 1);
    }
}

/// A multi-row blit keeps the buffer's length.
proof fn lemma_blit_upto_len(fb: Seq<bool>, x: int, y: int, rows: Seq<u8>, k: int)
    requires
        fb.len() == FB_LEN,
        0 <= x,
        0 <= y,
    ensures
        blit_upto(fb, x, y, rows, k).len() == FB_LEN,
    decreases k,
{
    if k > 0 {
        lemma_blit_upto_len(fb, x, y, rows, k - 1);
        lemma_blit_row_upto_len(blit_upto(fb, x, y, rows, k - 1), row_start(x, y, k - 1), rows[k - 1], 8);
    }
}

/// Cells that no pixel of the first `k` rows lands on are left as they were.
proof fn lemma_blit_upto_miss(fb: Seq<bool>, x: int, y: int, rows: Seq<u8>, k: int, j: int)
    requires
        fb.len() == FB_LEN,
        0 <= x < WIDTH,
        0 <= y,
        y + rows.len() <= HEIGHT,
        0 <= k <= rows.len(),
        0 <= j < FB_LEN,
        forall|r: int, c: int| 0 <= r < k && 0 <= c < 8 ==> #[trigger] cell(x, y, r, c) != j,
    ensures
        blit_upto(fb, x, y, rows, k)[j] == fb[j],
    decreases k,
{
    if k > 0 {
        lemma_blit_upto_miss(fb, x, y, rows, k - 1, j);
        let prev = blit_upto(fb, x, y, rows, k - 1);
        lemma_blit_upto_len(fb, x, y, rows, k - 1);
        let start = row_start(x, y, k - 1);
        assert forall|c: int| 0 <= c < 8 implies #[trigger] ((start + c) % (FB_LEN as int))
            != j by {
            assert(cell(x, y, k - 1, c) != j);
        }
        lemma_blit_row_upto_miss(prev, start, rows[k - 1], 8, j);
    }
}

/// What a multi-row blit leaves at the cell of sprite pixel `(r, c)`: the
/// old pixel XOR-ed with that sprite bit.
proof fn lemma_blit_upto_at(fb: Seq<bool>, x: int, y: int, rows: Seq<u8>, k: int, r: int, c: int)
    requires
        fb.len() == FB_LEN,
        0 <= x < WIDTH,
        0 <= y,
        y + rows.len() <= HEIGHT,
        0 <= r < k <= rows.len(),
        0 <= c < 8,
    ensures
        blit_upto(fb, x, y, rows, k)[cell(x, y, r, c)] == (fb[cell(x, y, r, c)] ^ sprite_bit(
            rows[r],
            c,
        )),
    decreases k,
{
    let n = FB_LEN as int;
    let prev = blit_upto(fb, x, y, rows, k - 1);
    lemma_blit_upto_len(fb, x, y, rows, k - 1);
    let start = row_start(x, y, k - 1);
    if r == k - 1 {
        assert forall|r2: int, c2: int| 0 <= r2 < k - 1 && 0 <= c2 < 8 implies #[trigger] cell(
            x,
            y,
            r2,
            c2,
        ) != cell(x, y, r, c) by {
            lemma_cells_distinct(x, y, r2, c2, r, c);
        }
        lemma_blit_upto_miss(fb, x, y, rows, k - 1, cell(x, y, r, c));
        lemma_blit_row_upto_at(prev, start, rows[r], 8, c);
    } else {
        lemma_blit_upto_at(fb, x, y, rows, k - 1, r, c);
        assert forall|c2: int| 0 <= c2 < 8 implies #[trigger] ((start + c2) % n) != cell(
            x,
            y,
            r,
            c,
        ) by {
            lemma_cells_distinct(x, y, r, c, k - 1, c2);
            assert((start + c2) % n == cell(x, y, k - 1, c2));
        }
        lemma_blit_row_upto_miss(prev, start, rows[k - 1], 8, cell(x, y, r, c));
    }
}

/// A blit collides exactly when some set sprite bit lands on a cell that was
/// set before the whole blit began: rows never overlap, so the state a row
/// reads at its own cells is the original one.
proof fn lemma_blit_collides_iff(fb: Seq<bool>, x: int, y: int, rows: Seq<u8>, k: int)
    requires
        fb.len() == FB_LEN,
        0 <= x < WIDTH,
        0 <= y,
        y + rows.len() <= HEIGHT,
        0 <= k <= rows.len(),
    ensures
        blit_collides_upto(fb, x, y, rows, k) == exists|r: int, c: int|
            0 <= r < k && 0 <= c < 8 && sprite_bit(rows[r], c) && fb[#[trigger] cell(x, y, r, c)],
    decreases k,
{
    let n = FB_LEN as int;
    if k > 0 {
        lemma_blit_collides_iff(fb, x, y, rows, k - 1);
        let prev = blit_upto(fb, x, y, rows, k - 1);
        lemma_blit_upto_len(fb, x, y, rows, k - 1);
        let start = row_start(x, y, k - 1);
        assert forall|c: int| 0 <= c < 8 implies #[trigger] prev[(start + c) % n] == fb[cell(
            x,
            y,
            k - 1,
            c,
        )] by {
            assert forall|r2: int, c2: int| 0 <= r2 < k - 1 && 0 <= c2 < 8 implies #[trigger] cell(
                x,
                y,
                r2,
                c2,
            ) != cell(x, y, k - 1, c) by {
                lemma_cells_distinct(x, y, r2, c2, k - 1, c);
            }
            lemma_blit_upto_miss(fb, x, y, rows, k - 1, cell(x, y, k - 1, c));
        }
        assert(row_collides(prev, start, rows[k - 1]) == exists|c: int|
            0 <= c < 8 && sprite_bit(rows[k - 1], c) && fb[#[trigger] cell(x, y, k - 1, c)]) by {
            if row_collides(prev, start, rows[k - 1]) {
                let c = choose|c: int|
                    0 <= c < 8 && #[trigger] sprite_bit(rows[k - 1], c) && prev[(start + c) % n];
                assert(sprite_bit(rows[k - 1], c) && fb[cell(x, y, k - 1, c)]);
            }
            if exists|c: int|
                0 <= c < 8 && sprite_bit(rows[k - 1], c) && fb[#[trigger] cell(x, y, k - 1, c)] {
                let c = choose|c: int|
                    0 <= c < 8 && sprite_bit(rows[k - 1], c) && fb[#[trigger] cell(x, y, k - 1, c)];
                assert(prev[(start + c) % n]);
                assert(row_collides(prev, start, rows[k - 1]));
            }
        }
        if blit_collides_upto(fb, x, y, rows, k) {
            if blit_collides_upto(fb, x, y, rows, k - 1) {
                let (r, c) = choose|r: int, c: int|
                    0 <= r < k - 1 && 0 <= c < 8 && sprite_bit(rows[r], c) && fb[#[trigger] cell(
                        x,
                        y,
                        r,
                        c,
                    )];
                assert(sprite_bit(rows[r], c) && fb[cell(x, y, r, c)]);
            }
        } else {
            assert forall|r: int, c: int|
                0 <= r < k && 0 <= c < 8 && sprite_bit(rows[r], c) implies !fb[#[trigger] cell(
                x,
                y,
                r,
                c,
            )] by {
                if r < k - 1 {
                    assert(!blit_collides_upto(fb, x, y, rows, k - 1));
                } else {
                    assert(!row_collides(prev, start, rows[k - 1]));
                    assert(prev[(start + c) % n] == fb[cell(x, y, k - 1, c)]);
                }
            }
        }
    }
}

/// Drawing a sprite on a cleared display never collides and leaves exactly
/// the sprite's set pixels on; drawing the same sprite again at the same
/// origin collides exactly when the sprite has a set pixel at all, and
/// restores every pixel to off.
pub proof fn lemma_sprite_redraw(fb: Seq<bool>, x: int, y: int, rows: Seq<u8>)
    requires
        fb.len() == FB_LEN,
        forall|j: int| 0 <= j < FB_LEN ==> !fb[j],
        0 <= x < WIDTH,
        0 <= y,
        y + rows.len() <= HEIGHT,
    ensures
        !blit_collides(fb, x, y, rows),
        forall|r: int, c: int|
            0 <= r < rows.len() && 0 <= c < 8 ==> blit(fb, x, y, rows)[#[trigger] cell(x, y, r, c)]
                == sprite_bit(rows[r], c),
        forall|j: int|
            0 <= j < FB_LEN && !covered(x, y, rows.len() as int, j) ==> !blit(fb, x, y, rows)[j],
        blit_collides(blit(fb, x, y, rows), x, y, rows) == exists|r: int, c: int|
            0 <= r < rows.len() && 0 <= c < 8 && #[trigger] sprite_bit(rows[r], c),
        blit(blit(fb, x, y, rows), x, y, rows) =~= fb,
{
    let n = FB_LEN as int;
    let len = rows.len() as int;
    let once = blit(fb, x, y, rows);
    lemma_blit_upto_len(fb, x, y, rows, len);
    lemma_blit_collides_iff(fb, x, y, rows, len);
    assert forall|r: int, c: int| 0 <= r < len && 0 <= c < 8 implies once[#[trigger] cell(
        x,
        y,
        r,
        c,
    )] == sprite_bit(rows[r], c) by {
        lemma_blit_upto_at(fb, x, y, rows, len, r, c);
        assert(0 <= cell(x, y, r, c) < FB_LEN);
    }
    assert forall|j: int| 0 <= j < FB_LEN && !covered(x, y, len, j) implies !once[j] by {
        assert forall|r: int, c: int| 0 <= r < len && 0 <= c < 8 implies #[trigger] cell(x, y, r, c)
            != j by {
            assert(!(cell(x, y, r, c) == j));
        }
        lemma_blit_upto_miss(fb, x, y, rows, len, j);
    }
    lemma_blit_collides_iff(once, x, y, rows, len);
    assert((exists|r: int, c: int|
        0 <= r < len && 0 <= c < 8 && sprite_bit(rows[r], c) && once[#[trigger] cell(x, y, r, c)])
        == exists|r: int, c: int|
        0 <= r < len && 0 <= c < 8 && #[trigger] sprite_bit(rows[r], c)) by {
        if exists|r: int, c: int|
            0 <= r < len && 0 <= c < 8 && #[trigger] sprite_bit(rows[r], c) {
            let (r, c) = choose|r: int, c: int|
                0 <= r < len && 0 <= c < 8 && #[trigger] sprite_bit(rows[r], c);
            assert(once[cell(x, y, r, c)] == sprite_bit(rows[r], c));
            assert(sprite_bit(rows[r], c) && once[cell(x, y, r, c)]);
        }
    }
    let twice = blit(once, x, y, rows);
    lemma_blit_upto_len(once, x, y, rows, len);
    assert forall|j: int| 0 <= j < FB_LEN implies twice[j] == fb[j] by {
        if covered(x, y, len, j) {
            let (r, c) = choose|r: int, c: int|
                0 <= r < len && 0 <= c < 8 && cell(x, y, r, c) == j;
            lemma_blit_upto_at(fb, x, y, rows, len, r, c);
            lemma_blit_upto_at(once, x, y, rows, len, r, c);
        } else {
            assert forall|r: int, c: int| 0 <= r < len && 0 <= c < 8 implies #[trigger] cell(
                x,
                y,
                r,
                c,
            ) != j by {
                assert(!(cell(x, y, r, c) == j));
            }
            lemma_blit_upto_miss(fb, x, y, rows, len, j);
            lemma_blit_upto_miss(once, x, y, rows, len, j);
        }
    }
}

/// The collision outcome, reported distinctly from the pixel effect.
#[derive(Debug, PartialEq, Eq, Structural)]
pub enum Collision {
    Collision,
    NoCollision,
}

/// The display: a 64x32 boolean pixel matrix behind an XOR-sprite-blit with
/// collision reporting and a clear operation.
pub struct Gpu {
    fb: PixelBuffer<bool>,
}

impl View for Gpu {
    type V = Seq<bool>;

    closed spec fn view(&self) -> Seq<bool> {
        self.fb@
    }
}

impl Gpu {
    /// The display always holds exactly `FB_LEN` pixels.
    pub open spec fn wf(&self) -> bool {
        self@.len() == FB_LEN
    }

    /// A fresh display with every pixel off.
    pub fn new() -> (g: Gpu)
        ensures
            g.wf(),
            forall|i: int| 0 <= i < FB_LEN ==> !(#[trigger] g@[i]),
    {
        let fb = PixelBuffer::<bool>::new();
        let g = Gpu { fb };
        proof {
            assert forall|i: int| 0 <= i < FB_LEN implies !(#[trigger] g@[i]) by {
                assert(call_ensures(bool::default, (), g@[i]));
            }
        }
        g
    }

    /// The full pixel matrix, row-major, for a host renderer.
    pub fn pixels(&self) -> (r: &[bool])
        ensures
            r@ == self@,
    {
        self.fb.buf.as_slice()
    }

    /// Turns every pixel off.
    pub fn clear(&mut self)
        requires
            old(self).wf(),
        ensures
            final(self).wf(),
            forall|i: int| 0 <= i < FB_LEN ==> !(#[trigger] final(self)@[i]),
    {
        let zeros: Vec<bool> = vec![false; FB_LEN];
        proof {
            assert forall|i: int| 0 <= i < FB_LEN implies !zeros@[i] by {
                assert(cloned(false, zeros@[i]));
            }
        }
        self.fb.write(zeros.as_slice());
        proof {
            assert forall|i: int| 0 <= i < FB_LEN implies !(#[trigger] self@[i]) by {
                lemma_wrap_write_at(old(self)@, 0, zeros@, i);
                vstd::arithmetic::div_mod::lemma_small_mod(i as nat, FB_LEN as nat);
            }
        }
    }

    /// XOR-blits a sprite, one 8-pixel row per byte, at origin `(x, y)`.
    /// Reports `Collision` exactly when some set sprite pixel lands on a set
    /// display pixel, turning it off.
    pub fn write_sprite(&mut self, x: usize, y: usize, sprite_lines: &[u8]) -> (c: Collision)
        requires
            old(self).wf(),
            sprite_lines@.len() > 0 ==> x < WIDTH && y + sprite_lines@.len() <= HEIGHT,
        ensures
            final(self).wf(),
            final(self)@ == blit(old(self)@, x as int, y as int, sprite_lines@),
            (c == Collision::Collision) == blit_collides(
                old(self)@,
                x as int,
                y as int,
                sprite_lines@,
            ),
    {
        let n = sprite_lines.len();
        if n == 0 {
            return Collision::NoCollision;
        }
        let mut collision = false;
        let mut line: usize = 0;
        while line < n
            invariant
                self.wf(),
                x < WIDTH,
                y + n <= HEIGHT,
                n == sprite_lines@.len(),
                line <= n,
                self@ == blit_upto(old(self)@, x as int, y as int, sprite_lines@, line as int),
                collision == blit_collides_upto(
                    old(self)@,
                    x as int,
                    y as int,
                    sprite_lines@,
                    line as int,
                ),
            decreases n - line,
        {
            let ghost cur = self@;
            let ghost start = row_start(x as int, y as int, line as int);
            let b = sprite_lines[line];
            let mut fb_pixels: Vec<bool> = vec![false; 8];
            self.fb.read_pos(x, y + line, &mut fb_pixels);
            proof {
                assert((y + line) * WIDTH + x == start);
            }
            let mut row_col = false;
            let mut col: usize = 0;
            while col < 8
                invariant
                    col <= 8,
                    0 <= start,
                    cur.len() == FB_LEN,
                    fb_pixels@.len() == 8,
                    forall|i: int|
                        col <= i < 8 ==> #[trigger] fb_pixels@[i] == cur[(start + i) % (
                        FB_LEN as int
                        )],
                    forall|i: int|
                        0 <= i < col ==> #[trigger] fb_pixels@[i] == (cur[(start + i) % (
                        FB_LEN as int
                        )] ^ sprite_bit(b, i)),
                    row_col == exists|ci: int|
                        0 <= ci < col && sprite_bit(b, ci) && cur[(start + ci) % (FB_LEN as int)],
                decreases 8 - col,
            {
                let sprite_pixel = (b & (0x80u8 >> (col as u8))) != 0;
                proof {
                    assert(sprite_pixel == sprite_bit(b, col as int));
                }
                let cur_px = fb_pixels[col];
                if sprite_pixel && cur_px {
                    row_col = true;
                    proof {
                        let ghost ci = col as int;
                        assert(sprite_bit(b, ci) && cur[(start + ci) % (FB_LEN as int)]);
                    }
                }
                fb_pixels[col] = cur_px ^ sprite_pixel;
                col = col + 1;
            }
            self.fb.write_pos(x, y + line, fb_pixels.as_slice());
            proof {
                assert(fb_pixels@.take(8) =~= fb_pixels@);
                lemma_blit_row_as_wrap(cur, start, b, fb_pixels@, 8);
                assert(self@ == blit_row_upto(cur, start, b, 8));
            }
            if row_col {
                collision = true;
            }
            line = line + 1;
            proof {
                assert(self@ == blit_upto(
                    old(self)@,
                    x as int,
                    y as int,
                    sprite_lines@,
                    line as int,
                ));
                assert(collision == blit_collides_upto(
                    old(self)@,
                    x as int,
                    y as int,
                    sprite_lines@,
                    line as int,
                ));
            }
        }
        if collision {
            Collision::Collision
        } else {
            Collision::NoCollision
        }
    }
}

} // verus!
