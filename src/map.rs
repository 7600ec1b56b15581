use vstd::prelude::*;

verus! {

/// A grid coordinate.
#[derive(Clone, Copy, Debug, PartialEq, Eq, Hash, Default, Structural)]
pub struct Position {
    pub x: usize,
    pub y: usize,
}

impl Position {
    pub fn new(x: usize, y: usize) -> (r: Self)
        ensures
            r.x == x,
            r.y == y,
    {
        Self { x, y }
    }

    /// Whether `other` names the same cell.
    pub fn is_at(&self, other: &Position) -> (r: bool)
        ensures
            r == (*self == *other),
    {
        self.x == other.x && self.y == other.y
    }
}

/// Two cells that share an edge.
pub open spec fn adjacent(a: Position, b: Position) -> bool {
    ||| (a.x == b.x && (a.y + 1 == b.y || b.y + 1 == a.y))
    ||| (a.y == b.y && (a.x + 1 == b.x || b.x + 1 == a.x))
}

/// What one cell of the map holds.
#[derive(Clone, Copy, Debug, PartialEq, Eq, Structural)]
pub enum Tile {
    Empty,
    Building,
    /// A doorway; `Some(t)` while a lockdown of `t` minutes closes it.
    Door(Option<u32>),
    RoadBlock,
    TestCenter,
    VaccineCenter,
    MaskCampain(u32),
    AntivaxCampain(u32),
}

impl Tile {
    pub open spec fn walkable(self) -> bool {
        match self {
            Tile::Empty => true,
            Tile::Door(lockdown) => lockdown.is_none(),
            Tile::TestCenter => true,
            Tile::VaccineCenter => true,
            _ => false,
        }
    }

    pub fn is_walkable(&self) -> (r: bool)
        ensures
            r == self.walkable(),
    {
        match self {
            Tile::Empty => true,
            Tile::Door(lockdown) => lockdown.is_none(),
            Tile::TestCenter => true,
            Tile::VaccineCenter => true,
            _ => false,
        }
    }
}

/// A grid of tiles, stored column by column: `tiles[x][y]`.
#[derive(Clone, Debug)]
pub struct TileMap {
    pub width: usize,
    pub height: usize,
    pub tiles: Vec<Vec<Tile>>,
}

impl TileMap {
    /// Every column exists and has `height` cells.
    pub open spec fn wf(&self) -> bool {
        &&& self.tiles@.len() == self.width
        &&& forall|x: int| 0 <= x < self.width ==> #[trigger] self.tiles@[x]@.len() == self.height
    }

    pub open spec fn inside(&self, p: Position) -> bool {
        p.x < self.width && p.y < self.height
    }

    pub open spec fn tile(&self, p: Position) -> Tile {
        self.tiles@[p.x as int]@[p.y as int]
    }

    pub open spec fn walkable_at(&self, p: Position) -> bool {
        self.inside(p) && self.tile(p).walkable()
    }

    /// Same size as `other`, and the same tile everywhere but possibly at `p`.
    pub open spec fn same_except(&self, other: TileMap, p: Position) -> bool {
        &&& self.width == other.width
        &&& self.height == other.height
        &&& forall|q: Position| self.inside(q) && q != p ==> #[trigger] self.tile(q) == other.tile(q)
    }

    /// Same size, and every cell is walkable in one exactly when it is in the other.
    pub open spec fn same_walkability(&self, other: TileMap) -> bool {
        &&& self.width == other.width
        &&& self.height == other.height
        &&& forall|q: Position| #[trigger] self.walkable_at(q) == other.walkable_at(q)
    }

    /// A `width` by `height` map with `tile` everywhere.
    pub fn fill(width: usize, height: usize, tile: Tile) -> (r: Self)
        ensures
            r.wf(),
            r.width == width,
            r.height == height,
            forall|p: Position| r.inside(p) ==> #[trigger] r.tile(p) == tile,
    {
        let mut tiles: Vec<Vec<Tile>> = Vec::new();
        let mut x: usize = 0;
        while x < width
            invariant
                x <= width,
                tiles@.len() == x,
                forall|i: int| 0 <= i < x ==> #[trigger] tiles@[i]@.len() == height,
                forall|i: int, j: int|
                    0 <= i < x && 0 <= j < height ==> #[trigger] tiles@[i]@[j] == tile,
            decreases width - x,
        {
            let mut column: Vec<Tile> = Vec::new();
            let mut y: usize = 0;
            while y < height
                invariant
                    y <= height,
                    column@.len() == y,
                    forall|j: int| 0 <= j < y ==> #[trigger] column@[j] == tile,
                decreases height - y,
            {
                column.push(tile);
                y = y + 1;
            }
            tiles.push(column);
            x = x + 1;
        }
        Self { width, height, tiles }
    }

    pub fn get_tile(&self, position: &Position) -> (r: &Tile)
        requires
            self.wf(),
            self.inside(*position),
        ensures
            *r == self.tile(*position),
    {
        &self.tiles[position.x][position.y]
    }

    pub fn in_bounds(&self, position: &Position) -> (r: bool)
        ensures
            r == self.inside(*position),
    {
        position.x < self.width && position.y < self.height
    }

    pub fn can_walk(&self, position: &Position) -> (r: bool)
        requires
            self.wf(),
        ensures
            r == self.walkable_at(*position),
    {
        if self.in_bounds(position) {
            self.tiles[position.x][position.y].is_walkable()
        } else {
            false
        }
    }

    /// Replaces the tile at `position`.
    pub fn set_tile(&mut self, position: &Position, tile: Tile)
        requires
            old(self).wf(),
            old(self).inside(*position),
        ensures
            final(self).wf(),
            final(self).same_except(*old(self), *position),
            final(self).tile(*position) == tile,
    {
        let x = position.x;
        let mut column: Vec<Tile> = Vec::new();
        std::mem::swap(&mut column, &mut self.tiles[x]);
        column.set(position.y, tile);
        self.tiles.set(x, column);
        assert(forall|q: Position| self.inside(q) && q.x != x ==> #[trigger] self.tile(q) == old(self).tile(q));
    }

    /// `out` holds, at a cost of one step each, exactly the walkable cells of `seen`.
    pub open spec fn lists_walkable(&self, out: Seq<(Position, usize)>, seen: Set<Position>) -> bool {
        &&& forall|i: int| 0 <= i < out.len() ==> #[trigger] out[i].1 == 1
        &&& forall|r: Position|
            (exists|i: int| 0 <= i < out.len() && #[trigger] out[i].0 == r) <==> (seen.contains(r)
                && self.walkable_at(r))
    }

    /// Appends `(q, 1)` when `q` is walkable; `seen` is the set of cells tried so far.
    fn push_if_walkable(
        &self,
        out: &mut Vec<(Position, usize)>,
        q: Position,
        Ghost(seen): Ghost<Set<Position>>,
    )
        requires
            self.wf(),
            self.lists_walkable(old(out)@, seen),
        ensures
            self.lists_walkable(final(out)@, seen.insert(q)),
    {
        if self.can_walk(&q) {
            out.push((q, 1));
            assert forall|r: Position|
                (exists|i: int| 0 <= i < out@.len() && #[trigger] out@[i].0 == r) <==> (seen.insert(
                    q,
                ).contains(r) && self.walkable_at(r)) by {
                if r == q {
                    assert(out@[out@.len() - 1].0 == r);
                } else {
                    if exists|i: int| 0 <= i < out@.len() && #[trigger] out@[i].0 == r {
                        let i = choose|i: int| 0 <= i < out@.len() && #[trigger] out@[i].0 == r;
                        assert(old(out)@[i].0 == r);
                    }
                    if seen.contains(r) && self.walkable_at(r) {
                        let i = choose|i: int| 0 <= i < old(out)@.len() && #[trigger] old(out)@[i].0 == r;
                        assert(out@[i].0 == r);
                    }
                }
            }
        }
    }

    /// The walkable cells next to `p`, each at a cost of one step.
    pub fn neighbors(&self, p: &Position) -> (r: Vec<(Position, usize)>)
        requires
            self.wf(),
        ensures
            forall|i: int| 0 <= i < r@.len() ==> #[trigger] r@[i].1 == 1,
            forall|q: Position|
                (exists|i: int| 0 <= i < r@.len() && #[trigger] r@[i].0 == q) <==> (adjacent(*p, q)
                    && self.walkable_at(q)),
    {
        let mut out: Vec<(Position, usize)> = Vec::new();
        let ghost mut seen: Set<Position> = Set::empty();
        assert(self.lists_walkable(out@, seen));
        if p.y > 0 {
            let up = Position::new(p.x, p.y - 1);
            self.push_if_walkable(&mut out, up, Ghost(seen));
            proof {
                seen = seen.insert(up);
            }
        }
        assert(self.lists_walkable(out@, seen));
        if p.y < usize::MAX {
            let down = Position::new(p.x, p.y + 1);
            self.push_if_walkable(&mut out, down, Ghost(seen));
            proof {
                seen = seen.insert(down);
            }
        }
        assert(self.lists_walkable(out@, seen));
        if p.x < usize::MAX {
            let right = Position::new(p.x + 1, p.y);
            self.push_if_walkable(&mut out, right, Ghost(seen));
            proof {
                seen = seen.insert(right);
            }
        }
        assert(self.lists_walkable(out@, seen));
        if p.x > 0 {
            let left = Position::new(p.x - 1, p.y);
            self.push_if_walkable(&mut out, left, Ghost(seen));
            proof {
                seen = seen.insert(left);
            }
        }
        assert(self.lists_walkable(out@, seen));
        assert forall|q: Position| adjacent(*p, q) && self.walkable_at(q) implies seen.contains(q) by {
        }
        assert forall|q: Position| seen.contains(q) implies adjacent(*p, q) by {
        }
        out
    }
}

} // verus!
