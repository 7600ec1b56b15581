//! Map generation: the map is divided into six-by-six chunks, structures are
//! placed at random until ten tries in a row fail, and their chunks are then
//! copied into the tile grid.

use crate::map::{Position, Tile, TileMap};
use crate::random::draw_below;
use vstd::prelude::*;

verus! {

/// Cells along each side of a chunk.
pub const CHUNK_SIZE: usize = 6;

/// Failed placements in a row after which generation stops.
pub const PLACEMENT_TRIES: usize = 10;

/// A six-by-six block of tiles, `tiles[x][y]`.
#[derive(Clone, Copy, Debug)]
pub struct Chunk {
    pub tiles: [[Tile; 6]; 6],
}

/// Chunks laid out on a grid of chunks; each position is relative to the
/// structure's corner.
#[derive(Clone, Debug)]
pub struct Structure {
    pub chunks: Vec<(Position, Chunk)>,
}

impl Structure {
    /// Width and height in chunks of a structure whose largest chunk
    /// coordinates are `w - 1` and `h - 1`.
    pub open spec fn spans(&self, w: int, h: int) -> bool {
        &&& forall|i: int| 0 <= i < self.chunks@.len() ==> (#[trigger] self.chunks@[i]).0.x < w && self.chunks@[i].0.y < h
        &&& exists|i: int| 0 <= i < self.chunks@.len() && (#[trigger] self.chunks@[i]).0.x == w - 1
        &&& exists|i: int| 0 <= i < self.chunks@.len() && (#[trigger] self.chunks@[i]).0.y == h - 1
    }

    /// Gets the width and height in chunks.
    pub fn dimensions(&self) -> (r: (usize, usize))
        requires
            self.chunks@.len() > 0,
            forall|i: int| 0 <= i < self.chunks@.len() ==> (#[trigger] self.chunks@[i]).0.x < usize::MAX
                && self.chunks@[i].0.y < usize::MAX,
        ensures
            self.spans(r.0 as int, r.1 as int),
    {
        let mut w: usize = self.chunks[0].0.x;
        let mut h: usize = self.chunks[0].0.y;
        let mut i: usize = 1;
        while i < self.chunks.len()
            invariant
                1 <= i <= self.chunks@.len(),
                forall|k: int| 0 <= k < i ==> (#[trigger] self.chunks@[k]).0.x <= w && self.chunks@[k].0.y <= h,
                exists|k: int| 0 <= k < i && (#[trigger] self.chunks@[k]).0.x == w,
                exists|k: int| 0 <= k < i && (#[trigger] self.chunks@[k]).0.y == h,
                forall|k: int| 0 <= k < self.chunks@.len() ==> (#[trigger] self.chunks@[k]).0.x < usize::MAX
                    && self.chunks@[k].0.y < usize::MAX,
            decreases self.chunks@.len() - i,
        {
            let p = self.chunks[i].0;
            if p.x > w {
                w = p.x;
            }
            if p.y > h {
                h = p.y;
            }
            i = i + 1;
        }
        (w + 1, h + 1)
    }
}

/// The size of the map in chunks, and the structures to place on it.
#[derive(Clone, Debug)]
pub struct MapGenerationSettings {
    pub width: usize,
    pub height: usize,
    pub structures: Vec<Structure>,
}

impl MapGenerationSettings {
    /// At least one structure; every one has a chunk and fits on the map.
    pub open spec fn wf(&self) -> bool {
        &&& self.structures@.len() > 0
        &&& self.width * CHUNK_SIZE <= usize::MAX
        &&& self.height * CHUNK_SIZE <= usize::MAX
        &&& forall|s: int| 0 <= s < self.structures@.len() ==> {
            let st = #[trigger] self.structures@[s];
            &&& st.chunks@.len() > 0
            &&& forall|i: int| 0 <= i < st.chunks@.len() ==> (#[trigger] st.chunks@[i]).0.x < self.width
                && st.chunks@[i].0.y < self.height
        }
    }

    /// `t` is a tile of some chunk of some structure, at offset `(dx, dy)` in it.
    pub open spec fn offers(&self, t: Tile, dx: int, dy: int) -> bool {
        exists|s: int, c: int|
            0 <= s < self.structures@.len() && 0 <= c < self.structures@[s].chunks@.len() && #[trigger] self.structures@[s].chunks@[c].1.tiles@[dx]@[dy] == t
    }

    /// Generates the map: every cell is empty or holds the tile of a placed chunk.
    pub fn generate(&self, rng: &mut rand::rngs::StdRng) -> (r: TileMap)
        requires
            self.wf(),
        ensures
            r.wf(),
            r.width == self.width * CHUNK_SIZE,
            r.height == self.height * CHUNK_SIZE,
            forall|p: Position| #[trigger] r.inside(p) ==> r.tile(p) == Tile::Empty || self.offers(r.tile(p), p.x as int % 6, p.y as int % 6),
    {
        let occupancy = self.place(rng);
        self.paint(&occupancy)
    }
}

/// Which chunk, if any, covers each cell of the chunk grid: `grid[x][y]` holds
/// a structure index and a chunk index into it.
pub type Occupancy = Vec<Vec<Option<(usize, usize)>>>;

impl MapGenerationSettings {
    pub open spec fn occupancy_ok(&self, grid: Occupancy) -> bool {
        &&& grid@.len() == self.width
        &&& forall|x: int| 0 <= x < self.width ==> (#[trigger] grid@[x])@.len() == self.height
        &&& forall|x: int, y: int|
            0 <= x < self.width && 0 <= y < self.height && (#[trigger] grid@[x]@[y]) is Some ==> {
                let (s, c) = grid@[x]@[y].unwrap();
                &&& s < self.structures@.len()
                &&& c < self.structures@[s as int].chunks@.len()
            }
    }

    fn set_cell(&self, grid: &mut Occupancy, x: usize, y: usize, v: Option<(usize, usize)>)
        requires
            self.occupancy_ok(*old(grid)),
            x < self.width,
            y < self.height,
            v matches Some((s, c)) ==> s < self.structures@.len() && c < self.structures@[s as int].chunks@.len(),
        ensures
            self.occupancy_ok(*final(grid)),
            final(grid)@[x as int]@[y as int] == v,
            forall|a: int, b: int| 0 <= a < self.width && 0 <= b < self.height && (a != x || b != y) ==> #[trigger] final(grid)@[a]@[b] == old(grid)@[a]@[b],
    {
        let mut column: Vec<Option<(usize, usize)>> = Vec::new();
        std::mem::swap(&mut column, &mut grid[x]);
        column.set(y, v);
        grid.set(x, column);
    }

    /// Whether every cell that structure `s`, placed at `(x, y)`, would cover is free.
    fn fits(&self, grid: &Occupancy, s: usize, x: usize, y: usize, sw: usize, sh: usize) -> (r: bool)
        requires
            self.wf(),
            self.occupancy_ok(*grid),
            s < self.structures@.len(),
            self.structures@[s as int].spans(sw as int, sh as int),
            x + sw <= self.width,
            y + sh <= self.height,
        ensures
            r == forall|i: int|
                0 <= i < self.structures@[s as int].chunks@.len() ==> {
                    let p = (#[trigger] self.structures@[s as int].chunks@[i]).0;
                    grid@[x + p.x]@[y + p.y] is None
                },
    {
        let chunks = &self.structures[s].chunks;
        let mut i: usize = 0;
        while i < chunks.len()
            invariant
                i <= chunks@.len(),
                chunks == &self.structures@[s as int].chunks,
                self.structures@[s as int].spans(sw as int, sh as int),
                x + sw <= self.width,
                y + sh <= self.height,
                self.occupancy_ok(*grid),
                forall|k: int|
                    0 <= k < i ==> {
                        let p = (#[trigger] chunks@[k]).0;
                        grid@[x + p.x]@[y + p.y] is None
                    },
            decreases chunks@.len() - i,
        {
            let p = chunks[i].0;
            assert(chunks@[i as int].0.x < sw && chunks@[i as int].0.y < sh);
            if grid[x + p.x][y + p.y].is_some() {
                return false;
            }
            i = i + 1;
        }
        true
    }

    /// Places structure `s` at `(x, y)`.
    fn put(&self, grid: &mut Occupancy, s: usize, x: usize, y: usize, sw: usize, sh: usize)
        requires
            self.wf(),
            self.occupancy_ok(*old(grid)),
            s < self.structures@.len(),
            self.structures@[s as int].spans(sw as int, sh as int),
            x + sw <= self.width,
            y + sh <= self.height,
        ensures
            self.occupancy_ok(*final(grid)),
    {
        let chunks = &self.structures[s].chunks;
        let mut i: usize = 0;
        while i < chunks.len()
            invariant
                i <= chunks@.len(),
                chunks == &self.structures@[s as int].chunks,
                s < self.structures@.len(),
                self.structures@[s as int].spans(sw as int, sh as int),
                x + sw <= self.width,
                y + sh <= self.height,
                self.occupancy_ok(*grid),
            decreases chunks@.len() - i,
        {
            let p = chunks[i].0;
            assert(chunks@[i as int].0.x < sw && chunks@[i as int].0.y < sh);
            self.set_cell(grid, x + p.x, y + p.y, Some((s, i)));
            i = i + 1;
        }
    }

    /// Places structures at random until `PLACEMENT_TRIES` tries in a row fail.
    pub fn place(&self, rng: &mut rand::rngs::StdRng) -> (r: Occupancy)
        requires
            self.wf(),
        ensures
            self.occupancy_ok(r),
    {
        let mut grid: Occupancy = Vec::new();
        let mut gx: usize = 0;
        while gx < self.width
            invariant
                gx <= self.width,
                grid@.len() == gx,
                forall|a: int| 0 <= a < gx ==> (#[trigger] grid@[a])@.len() == self.height,
                forall|a: int, b: int| 0 <= a < gx && 0 <= b < self.height ==> (#[trigger] grid@[a]@[b]) is None,
            decreases self.width - gx,
        {
            let mut column: Vec<Option<(usize, usize)>> = Vec::new();
            let mut gy: usize = 0;
            while gy < self.height
                invariant
                    gy <= self.height,
                    column@.len() == gy,
                    forall|b: int| 0 <= b < gy ==> (#[trigger] column@[b]) is None,
                decreases self.height - gy,
            {
                column.push(None);
                gy = gy + 1;
            }
            grid.push(column);
            gx = gx + 1;
        }
        let w = self.width as u128;
        let h = self.height as u128;
        assert(w * h <= u128::MAX) by (nonlinear_arith)
            requires
                w <= u64::MAX,
                h <= u64::MAX,
        {
        }
        let cap: u128 = w * h;
        let mut placed: u128 = 0;
        let mut tries: usize = 0;
        while tries < PLACEMENT_TRIES && placed < cap
            invariant
                self.wf(),
                self.occupancy_ok(grid),
                tries <= PLACEMENT_TRIES,
                placed <= cap,
            decreases cap - placed, PLACEMENT_TRIES - tries,
        {
            let s = draw_below(rng, self.structures.len() as u64) as usize;
            proof {
                let st = self.structures@[s as int];
                assert(st.chunks@.len() > 0);
                assert(forall|i: int| 0 <= i < st.chunks@.len() ==> (#[trigger] st.chunks@[i]).0.x < self.width
                    && st.chunks@[i].0.y < self.height);
            }
            let (sw, sh) = self.structures[s].dimensions();
            proof {
                let st = self.structures@[s as int];
                let i = choose|i: int| 0 <= i < st.chunks@.len() && (#[trigger] st.chunks@[i]).0.x == sw - 1;
                let j = choose|j: int| 0 <= j < st.chunks@.len() && (#[trigger] st.chunks@[j]).0.y == sh - 1;
                assert(st.chunks@[i].0.x < self.width);
                assert(st.chunks@[j].0.y < self.height);
            }
            let x = draw_below(rng, (self.width - sw + 1) as u64) as usize;
            let y = draw_below(rng, (self.height - sh + 1) as u64) as usize;
            if self.fits(&grid, s, x, y, sw, sh) {
                self.put(&mut grid, s, x, y, sw, sh);
                tries = 0;
                placed = placed + 1;
            } else {
                tries = tries + 1;
            }
        }
        grid
    }
}

/// The cell `column * 6 + x` of a map lies in chunk column `column`, at offset `x`.
proof fn lemma_chunk_cell(column: int, x: int, width: int)
    requires
        0 <= column < width,
        0 <= x < 6,
    ensures
        (column * 6 + x) % 6 == x,
        column * 6 + x < width * 6,
{
    assert((column * 6 + x) % 6 == x) by (nonlinear_arith)
        requires
            0 <= x < 6,
            0 <= column,
    {
    }
    assert(column * 6 + x < width * 6) by (nonlinear_arith)
        requires
            0 <= column < width,
            0 <= x < 6,
    {
    }
}

proof fn lemma_chunk_div(column: int, x: int)
    requires
        0 <= column,
        0 <= x < 6,
    ensures
        (column * 6 + x) / 6 == column,
        (column * 6 + x) % 6 == x,
{
    assert((column * 6 + x) / 6 == column && (column * 6 + x) % 6 == x) by (nonlinear_arith)
        requires
            0 <= column,
            0 <= x < 6,
    {
    }
}

proof fn lemma_same_cell(p: Position, q: Position, column: int, row: int, x: int, y: int)
    requires
        q.x == column * 6 + x,
        q.y == row * 6 + y,
        p.x as int / 6 == column,
        p.y as int / 6 == row,
        p.x as int % 6 == x,
        p.y as int % 6 == y,
    ensures
        p == q,
{
    assert(p.x as int == (p.x as int / 6) * 6 + p.x as int % 6) by (nonlinear_arith);
    assert(p.y as int == (p.y as int / 6) * 6 + p.y as int % 6) by (nonlinear_arith);
}

impl MapGenerationSettings {
    /// The tile that cell `p` gets from the placed chunks: that of the chunk
    /// covering its six-by-six block, at its offset in the block, or `Empty`.
    pub open spec fn painted(&self, grid: Occupancy, p: Position) -> Tile {
        match grid@[p.x as int / 6]@[p.y as int / 6] {
            Some((s, c)) => self.structures@[s as int].chunks@[c as int].1.tiles@[p.x as int % 6]@[p.y as int % 6],
            None => Tile::Empty,
        }
    }

    /// Copies the placed chunks into an otherwise empty map.
    pub fn paint(&self, grid: &Occupancy) -> (r: TileMap)
        requires
            self.wf(),
            self.occupancy_ok(*grid),
        ensures
            r.wf(),
            r.width == self.width * CHUNK_SIZE,
            r.height == self.height * CHUNK_SIZE,
            forall|p: Position| #[trigger] r.inside(p) ==> r.tile(p) == self.painted(*grid, p),
    {
        let mut map = TileMap::fill(self.width * CHUNK_SIZE, self.height * CHUNK_SIZE, Tile::Empty);
        let mut column: usize = 0;
        while column < self.width
            invariant
                self.wf(),
                self.occupancy_ok(*grid),
                column <= self.width,
                map.wf(),
                map.width == self.width * CHUNK_SIZE,
                map.height == self.height * CHUNK_SIZE,
                forall|p: Position| #[trigger] map.inside(p) ==> map.tile(p) == (if (p.x as int / 6) < column { self.painted(*grid, p) } else { Tile::Empty }),
            decreases self.width - column,
        {
            let mut row: usize = 0;
            while row < self.height
                invariant
                    self.wf(),
                    self.occupancy_ok(*grid),
                    column < self.width,
                    row <= self.height,
                    map.wf(),
                    map.width == self.width * CHUNK_SIZE,
                    map.height == self.height * CHUNK_SIZE,
                    forall|p: Position| #[trigger] map.inside(p) ==> map.tile(p) == (if (p.x as int / 6) < column || ((p.x as int / 6) == column && (p.y as int / 6) < row) { self.painted(*grid, p) } else { Tile::Empty }),
                decreases self.height - row,
            {
                match grid[column][row] {
                    Some((s, c)) => {
                        let chunk = self.structures[s].chunks[c].1;
                        let mut x: usize = 0;
                        while x < CHUNK_SIZE
                            invariant
                                self.wf(),
                                column < self.width,
                                row < self.height,
                                s < self.structures@.len(),
                                c < self.structures@[s as int].chunks@.len(),
                                chunk == self.structures@[s as int].chunks@[c as int].1,
                                x <= CHUNK_SIZE,
                                grid@[column as int]@[row as int] == Some((s, c)),
                                self.occupancy_ok(*grid),
                                map.wf(),
                                map.width == self.width * CHUNK_SIZE,
                                map.height == self.height * CHUNK_SIZE,
                                forall|p: Position| #[trigger] map.inside(p) ==> map.tile(p) == (if (p.x as int / 6) < column || ((p.x as int / 6) == column && (p.y as int / 6) < row) || ((p.x as int / 6) == column && (p.y as int / 6) == row && (p.x as int % 6) < x) { self.painted(*grid, p) } else { Tile::Empty }),
                            decreases CHUNK_SIZE - x,
                        {
                            let mut y: usize = 0;
                            while y < CHUNK_SIZE
                                invariant
                                    self.wf(),
                                    column < self.width,
                                    row < self.height,
                                    s < self.structures@.len(),
                                    c < self.structures@[s as int].chunks@.len(),
                                    chunk == self.structures@[s as int].chunks@[c as int].1,
                                    x < CHUNK_SIZE,
                                    y <= CHUNK_SIZE,
                                    grid@[column as int]@[row as int] == Some((s, c)),
                                    self.occupancy_ok(*grid),
                                    map.wf(),
                                    map.width == self.width * CHUNK_SIZE,
                                    map.height == self.height * CHUNK_SIZE,
                                    forall|p: Position| #[trigger] map.inside(p) ==> map.tile(p) == (if (p.x as int / 6) < column || ((p.x as int / 6) == column && (p.y as int / 6) < row) || ((p.x as int / 6) == column && (p.y as int / 6) == row && ((p.x as int % 6) < x || ((p.x as int % 6) == x && (p.y as int % 6) < y))) { self.painted(*grid, p) } else { Tile::Empty }),
                                decreases CHUNK_SIZE - y,
                            {
                                proof {
                                    lemma_chunk_cell(column as int, x as int, self.width as int);
                                    lemma_chunk_cell(row as int, y as int, self.height as int);
                                }
                                let q = Position::new(column * CHUNK_SIZE + x, row * CHUNK_SIZE + y);
                                let t = chunk.tiles[x][y];
                                let ghost before = map;
                                map.set_tile(&q, t);
                                proof {
                                    lemma_chunk_div(column as int, x as int);
                                    lemma_chunk_div(row as int, y as int);
                                    assert(self.painted(*grid, q) == t);
                                    assert forall|p: Position| #[trigger] map.inside(p) implies map.tile(p) == (if (p.x as int / 6) < column || ((p.x as int / 6) == column && (p.y as int / 6) < row) || ((p.x as int / 6) == column && (p.y as int / 6) == row && ((p.x as int % 6) < x || ((p.x as int % 6) == x && (p.y as int % 6) < y + 1))) { self.painted(*grid, p) } else { Tile::Empty }) by {
                                        if p != q {
                                            assert(before.inside(p));
                                            if (p.x as int / 6) == column && (p.y as int / 6) == row && (p.x as int % 6) == x && (p.y as int % 6) == y {
                                                lemma_same_cell(p, q, column as int, row as int, x as int, y as int);
                                            }
                                        }
                                    }
                                }
                                y = y + 1;
                            }
                            x = x + 1;
                        }
                    },
                    None => {},
                }
                row = row + 1;
            }
            column = column + 1;
        }
        map
    }
}

} // verus!
