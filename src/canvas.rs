//! The canvas store: a fixed grid of colors, painted one cell at a time and
//! read back as point-in-time copies.
use vstd::prelude::*;
use crate::codec::{PixelUpdate, WIDTH, HEIGHT};
use crate::raster::{
    Buffer, Color, buffer_cells, buffer_width, buffer_height, cell_index, buffer_filled,
    buffer_put, buffer_get, buffer_copy,
};

verus! {

/// The color of a cell nobody has painted.
pub const WHITE: Color = (255u8, 255u8, 255u8);

/// Number of cells of the canvas.
pub open spec fn n_cells() -> nat {
    (WIDTH * HEIGHT) as nat
}

/// Position of cell `(x, y)` among the canvas's cells, row after row.
pub open spec fn index_of(x: int, y: int) -> int {
    cell_index(WIDTH as nat, x, y)
}

/// The color a paint command gives.
pub open spec fn color_of(u: PixelUpdate) -> Color {
    (u.r, u.g, u.b)
}

/// The canvas before anything is painted.
pub open spec fn blank() -> Seq<Color> {
    Seq::new(n_cells(), |i: int| WHITE)
}

/// The cells after one paint command: its cell takes its color when it lies
/// on the canvas; otherwise nothing changes.
pub open spec fn applied(c: Seq<Color>, u: PixelUpdate) -> Seq<Color> {
    if u.in_bounds() {
        c.update(index_of(u.x as int, u.y as int), color_of(u))
    } else {
        c
    }
}

/// The cells after a series of paint commands, taken in order.
pub open spec fn applied_all(c: Seq<Color>, us: Seq<PixelUpdate>) -> Seq<Color>
    decreases us.len(),
{
    if us.len() == 0 {
        c
    } else {
        applied(applied_all(c, us.drop_last()), us.last())
    }
}

/// The paint command that restores cell `i` of `c`.
pub open spec fn update_at(c: Seq<Color>, i: int) -> PixelUpdate {
    PixelUpdate {
        x: (i % (WIDTH as int)) as i32,
        y: (i / (WIDTH as int)) as i32,
        r: c[i].0,
        g: c[i].1,
        b: c[i].2,
    }
}

/// The replay of the first `n` cells of `c`: one paint command per painted
/// cell, in row order.
pub open spec fn replay_upto(c: Seq<Color>, n: int) -> Seq<PixelUpdate>
    decreases n,
{
    if n <= 0 {
        Seq::empty()
    } else if c[n - 1] != WHITE {
        replay_upto(c, n - 1).push(update_at(c, n - 1))
    } else {
        replay_upto(c, n - 1)
    }
}

/// The replay of a whole canvas.
pub open spec fn replay_of(c: Seq<Color>) -> Seq<PixelUpdate> {
    replay_upto(c, n_cells() as int)
}

proof fn lemma_index_in_range(x: int, y: int)
    requires
        0 <= x < WIDTH,
        0 <= y < HEIGHT,
    ensures
        0 <= index_of(x, y) < n_cells(),
        index_of(x, y) % (WIDTH as int) == x,
        index_of(x, y) / (WIDTH as int) == y,
{
    assert(0 <= y * 640 + x < 640 * 480) by (nonlinear_arith)
        requires 0 <= x < 640, 0 <= y < 480;
    assert((y * 640 + x) % 640 == x && (y * 640 + x) / 640 == y) by (nonlinear_arith)
        requires 0 <= x < 640, 0 <= y < 480;
}

proof fn lemma_index_injective(x1: int, y1: int, x2: int, y2: int)
    requires
        0 <= x1 < WIDTH,
        0 <= y1 < HEIGHT,
        0 <= x2 < WIDTH,
        0 <= y2 < HEIGHT,
        index_of(x1, y1) == index_of(x2, y2),
    ensures
        x1 == x2 && y1 == y2,
{
    lemma_index_in_range(x1, y1);
    lemma_index_in_range(x2, y2);
}

proof fn lemma_update_at(c: Seq<Color>, i: int)
    requires
        0 <= i < n_cells(),
    ensures
        update_at(c, i).in_bounds(),
        index_of(update_at(c, i).x as int, update_at(c, i).y as int) == i,
{
    assert(0 <= i % 640 < 640 && 0 <= i / 640 < 480 && (i / 640) * 640 + i % 640 == i)
        by (nonlinear_arith)
        requires 0 <= i < 640 * 480;
}

proof fn lemma_applied_all_len(c: Seq<Color>, us: Seq<PixelUpdate>)
    requires
        c.len() == n_cells(),
    ensures
        applied_all(c, us).len() == n_cells(),
    decreases us.len(),
{
    if us.len() > 0 {
        lemma_applied_all_len(c, us.drop_last());
        if us.last().in_bounds() {
            lemma_index_in_range(us.last().x as int, us.last().y as int);
        }
    }
}

/// After a command on the canvas, its cell shows the command's color.
pub proof fn lemma_set_then_read(c: Seq<Color>, u: PixelUpdate)
    requires
        c.len() == n_cells(),
        u.in_bounds(),
    ensures
        applied(c, u)[index_of(u.x as int, u.y as int)] == color_of(u),
        applied(c, u).len() == n_cells(),
{
    lemma_index_in_range(u.x as int, u.y as int);
}

/// A command outside the canvas leaves every cell as it was.
pub proof fn lemma_out_of_range_unchanged(c: Seq<Color>, u: PixelUpdate)
    requires
        !u.in_bounds(),
    ensures
        applied(c, u) == c,
{
}

/// Applying the same command twice leaves the canvas as applying it once.
pub proof fn lemma_idempotent(c: Seq<Color>, u: PixelUpdate)
    requires
        c.len() == n_cells(),
    ensures
        applied(applied(c, u), u) == applied(c, u),
{
    if u.in_bounds() {
        lemma_index_in_range(u.x as int, u.y as int);
        assert(applied(applied(c, u), u) =~= applied(c, u));
    }
}

/// Commands on pairwise distinct cells of the canvas, applied in any order,
/// all show afterwards.
pub proof fn lemma_disjoint_all_shown(c: Seq<Color>, us: Seq<PixelUpdate>)
    requires
        c.len() == n_cells(),
        forall|k: int| 0 <= k < us.len() ==> (#[trigger] us[k]).in_bounds(),
        forall|j: int, k: int|
            0 <= j < us.len() && 0 <= k < us.len() && j != k ==> (us[j].x != us[k].x || us[j].y
                != us[k].y),
    ensures
        forall|k: int|
            0 <= k < us.len() ==> applied_all(c, us)[index_of(#[trigger] us[k].x as int, us[k].y as int)]
                == color_of(us[k]),
    decreases us.len(),
{
    if us.len() > 0 {
        let front = us.drop_last();
        let u = us.last();
        lemma_disjoint_all_shown(c, front);
        lemma_applied_all_len(c, front);
        assert forall|k: int| 0 <= k < us.len() implies applied_all(c, us)[index_of(
            #[trigger] us[k].x as int,
            us[k].y as int,
        )] == color_of(us[k]) by {
            lemma_index_in_range(us[k].x as int, us[k].y as int);
            lemma_index_in_range(u.x as int, u.y as int);
            if k < us.len() - 1 {
                assert(front[k] == us[k]);
                if index_of(us[k].x as int, us[k].y as int) == index_of(u.x as int, u.y as int) {
                    lemma_index_injective(us[k].x as int, us[k].y as int, u.x as int, u.y as int);
                    assert(false);
                }
            }
        }
    }
}

proof fn lemma_replay_upto_members(c: Seq<Color>, n: int)
    requires
        0 <= n <= c.len(),
        c.len() == n_cells(),
    ensures
        forall|u: PixelUpdate|
            #[trigger] replay_upto(c, n).contains(u) <==> exists|i: int|
                0 <= i < n && c[i] != WHITE && update_at(c, i) == u,
    decreases n,
{
    if n > 0 {
        lemma_replay_upto_members(c, n - 1);
        let prev = replay_upto(c, n - 1);
        assert forall|u: PixelUpdate| #[trigger] replay_upto(c, n).contains(u) <==> exists|i: int|
            0 <= i < n && c[i] != WHITE && update_at(c, i) == u by {
            if c[n - 1] != WHITE {
                assert(replay_upto(c, n) == prev.push(update_at(c, n - 1)));
                if replay_upto(c, n).contains(u) {
                    let j = choose|j: int| 0 <= j < replay_upto(c, n).len() && replay_upto(c, n)[j] == u;
                    if j < prev.len() {
                        assert(prev[j] == u);
                        assert(prev.contains(u));
                    }
                }
                if exists|i: int| 0 <= i < n && c[i] != WHITE && update_at(c, i) == u {
                    let i = choose|i: int| 0 <= i < n && c[i] != WHITE && update_at(c, i) == u;
                    if i == n - 1 {
                        assert(replay_upto(c, n)[prev.len() as int] == u);
                    } else {
                        assert(prev.contains(u));
                        let j = choose|j: int| 0 <= j < prev.len() && prev[j] == u;
                        assert(replay_upto(c, n)[j] == u);
                    }
                }
            }
        }
    }
}

proof fn lemma_replay_upto_ordered(c: Seq<Color>, n: int)
    requires
        0 <= n <= c.len(),
        c.len() == n_cells(),
    ensures
        forall|j: int|
            0 <= j < replay_upto(c, n).len() ==> {
                let u = #[trigger] replay_upto(c, n)[j];
                &&& u.in_bounds()
                &&& 0 <= index_of(u.x as int, u.y as int) < n
            },
        forall|j: int, k: int|
            0 <= j < k < replay_upto(c, n).len() ==> index_of(
                replay_upto(c, n)[j].x as int,
                replay_upto(c, n)[j].y as int,
            ) < index_of(replay_upto(c, n)[k].x as int, replay_upto(c, n)[k].y as int),
    decreases n,
{
    if n > 0 {
        lemma_replay_upto_ordered(c, n - 1);
        lemma_update_at(c, n - 1);
        let prev = replay_upto(c, n - 1);
        let cur = replay_upto(c, n);
        if c[n - 1] != WHITE {
            assert(cur == prev.push(update_at(c, n - 1)));
            assert forall|j: int| 0 <= j < cur.len() implies {
                let u = #[trigger] cur[j];
                &&& u.in_bounds()
                &&& 0 <= index_of(u.x as int, u.y as int) < n
            } by {
                if j < prev.len() {
                    assert(cur[j] == prev[j]);
                }
            }
            assert forall|j: int, k: int| 0 <= j < k < cur.len() implies index_of(
                cur[j].x as int,
                cur[j].y as int,
            ) < index_of(cur[k].x as int, cur[k].y as int) by {
                assert(cur[j] == prev[j]);
                if k < prev.len() {
                    assert(cur[k] == prev[k]);
                }
            }
        }
    }
}

/// The replay of a canvas holds exactly one command for each painted cell,
/// with that cell's color, and none for a white cell.
pub proof fn lemma_replay_exact(c: Seq<Color>)
    requires
        c.len() == n_cells(),
    ensures
        forall|j: int, k: int|
            0 <= j < k < replay_of(c).len() ==> (replay_of(c)[j].x != replay_of(c)[k].x
                || replay_of(c)[j].y != replay_of(c)[k].y),
        forall|u: PixelUpdate|
            #[trigger] replay_of(c).contains(u) <==> (u.in_bounds() && c[index_of(u.x as int, u.y as int)]
                != WHITE && c[index_of(u.x as int, u.y as int)] == color_of(u)),
{
    lemma_replay_upto_members(c, n_cells() as int);
    lemma_replay_upto_ordered(c, n_cells() as int);
    assert forall|u: PixelUpdate| #[trigger] replay_of(c).contains(u) <==> (u.in_bounds() && c[index_of(
        u.x as int,
        u.y as int,
    )] != WHITE && c[index_of(u.x as int, u.y as int)] == color_of(u)) by {
        if replay_of(c).contains(u) {
            let i = choose|i: int| 0 <= i < n_cells() && c[i] != WHITE && update_at(c, i) == u;
            lemma_update_at(c, i);
        }
        if u.in_bounds() && c[index_of(u.x as int, u.y as int)] != WHITE && c[index_of(u.x as int, u.y as int)]
            == color_of(u) {
            let i = index_of(u.x as int, u.y as int);
            lemma_index_in_range(u.x as int, u.y as int);
            assert(update_at(c, i) == u);
        }
    }
}

/// A client joining after a series of commands on a blank canvas is replayed
/// exactly the cells those commands left non-white, each in its color.
pub proof fn lemma_join_after_updates(us: Seq<PixelUpdate>)
    ensures
        forall|u: PixelUpdate|
            #[trigger] replay_of(applied_all(blank(), us)).contains(u) <==> (u.in_bounds()
                && applied_all(blank(), us)[index_of(u.x as int, u.y as int)] != WHITE
                && applied_all(blank(), us)[index_of(u.x as int, u.y as int)] == color_of(u)),
{
    lemma_applied_all_len(blank(), us);
    lemma_replay_exact(applied_all(blank(), us));
}

/// The shared grid of cell colors.
pub struct Canvas {
    buf: Buffer,
}

impl Canvas {
    /// The cells, row after row.
    pub closed spec fn view(&self) -> Seq<Color> {
        buffer_cells(self.buf)
    }

    pub closed spec fn wf(&self) -> bool {
        &&& buffer_width(self.buf) == WIDTH
        &&& buffer_height(self.buf) == HEIGHT
        &&& buffer_cells(self.buf).len() == n_cells()
    }

    /// A canvas whose every cell is white.
    pub fn new() -> (r: Canvas)
        ensures
            r.wf(),
            r@ == blank(),
    {
        Canvas { buf: buffer_filled(WIDTH as u32, HEIGHT as u32, WHITE) }
    }

    /// Paints one cell; a command outside the canvas changes nothing.
    pub fn set_pixel(&mut self, u: &PixelUpdate)
        requires
            old(self).wf(),
        ensures
            final(self).wf(),
            final(self)@ == applied(old(self)@, *u),
    {
        if u.is_in_bounds() {
            buffer_put(&mut self.buf, u.x as u32, u.y as u32, (u.r, u.g, u.b));
        }
    }

    /// The color of cell `(x, y)`, or `None` outside the canvas.
    pub fn get_pixel(&self, x: i32, y: i32) -> (r: Option<Color>)
        requires
            self.wf(),
        ensures
            r == (if 0 <= x < WIDTH && 0 <= y < HEIGHT {
                Some(self@[index_of(x as int, y as int)])
            } else {
                None::<Color>
            }),
    {
        if 0 <= x && x < WIDTH && 0 <= y && y < HEIGHT {
            Some(buffer_get(&self.buf, x as u32, y as u32))
        } else {
            None
        }
    }

    /// A point-in-time copy that later painting does not touch.
    pub fn snapshot(&self) -> (r: Canvas)
        requires
            self.wf(),
        ensures
            r.wf(),
            r@ == self@,
    {
        Canvas { buf: buffer_copy(&self.buf) }
    }

    /// One paint command per non-white cell, in row order: what a newly
    /// joined client is sent.
    pub fn replay(&self) -> (r: Vec<PixelUpdate>)
        requires
            self.wf(),
        ensures
            r@ == replay_of(self@),
    {
        let mut out: Vec<PixelUpdate> = Vec::new();
        let mut y: i32 = 0;
        while y < HEIGHT
            invariant
                self.wf(),
                0 <= y <= HEIGHT,
                out@ == replay_upto(self@, y * WIDTH),
            decreases HEIGHT - y,
        {
            let mut x: i32 = 0;
            while x < WIDTH
                invariant
                    self.wf(),
                    0 <= y < HEIGHT,
                    0 <= x <= WIDTH,
                    out@ == replay_upto(self@, y * WIDTH + x),
                decreases WIDTH - x,
            {
                let c = buffer_get(&self.buf, x as u32, y as u32);
                let ghost i: int = y * WIDTH + x;
                assert(i % (WIDTH as int) == x as int && i / (WIDTH as int) == y as int) by (nonlinear_arith)
                    requires i == y * WIDTH + x, 0 <= x < WIDTH;
                if c.0 != 255 || c.1 != 255 || c.2 != 255 {
                    out.push(PixelUpdate { x, y, r: c.0, g: c.1, b: c.2 });
                }
                x = x + 1;
            }
            y = y + 1;
        }
        out
    }
}

} // verus!
