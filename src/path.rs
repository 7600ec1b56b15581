use crate::map::{adjacent, Position, TileMap};
use vstd::prelude::*;

verus! {

/// `r` leads from `from` to `to` over the map: each step goes to an adjacent,
/// walkable cell. The first cell need not be walkable.
pub open spec fn is_route(map: TileMap, r: Seq<Position>, from: Position, to: Position) -> bool {
    &&& r.len() > 0
    &&& r[0] == from
    &&& r.last() == to
    &&& forall|i: int|
        #![trigger r[i], r[i + 1]]
        0 <= i < r.len() - 1 ==> adjacent(r[i], r[i + 1]) && map.walkable_at(r[i + 1])
}

/// A route from `from` to `to` that no other route undercuts in length.
pub open spec fn is_shortest_route(
    map: TileMap,
    r: Seq<Position>,
    from: Position,
    to: Position,
) -> bool {
    &&& is_route(map, r, from, to)
    &&& forall|q: Seq<Position>| #[trigger] is_route(map, q, from, to) ==> r.len() <= q.len()
}

pub open spec fn reachable(map: TileMap, from: Position, to: Position) -> bool {
    exists|q: Seq<Position>| #[trigger] is_route(map, q, from, to)
}

/// What a path query for an agent at `start` heading to `end` must answer.
/// A route is stored from `end` back to `start`, so that walking it pops
/// cells off its back.
pub open spec fn answers(
    map: TileMap,
    start: Position,
    end: Position,
    result: Option<Seq<Position>>,
) -> bool {
    match result {
        Some(r) => is_shortest_route(map, r, end, start),
        None => !reachable(map, end, start),
    }
}

pub open spec fn route_view(r: Option<Vec<Position>>) -> Option<Seq<Position>> {
    match r {
        Some(v) => Some(v@),
        None => None,
    }
}

/// Relies on pathfinding::prelude::dijkstra: a least-cost path from `end` to the
/// first node that the goal test accepts, both ends included, or `None` when no
/// such path exists. Successors are `TileMap::neighbors`, one unit per step, so
/// the least cost is the least number of steps.
#[verifier::external_body]
fn search_route(map: &TileMap, start: Position, end: Position) -> (r: Option<Vec<Position>>)
    requires
        map.wf(),
    ensures
        answers(*map, start, end, route_view(r)),
{
    pathfinding::prelude::dijkstra(&end, |p| map.neighbors(p), |p| p.is_at(&start)).map(
        |found| found.0,
    )
}

/// One memoized answer.
#[derive(Clone, Debug)]
pub struct PathEntry {
    pub start: Position,
    pub end: Position,
    pub route: Option<Vec<Position>>,
}

/// The latest answer stored for `key` in `entries`, if any.
pub open spec fn lookup(entries: Seq<PathEntry>, key: (Position, Position)) -> Option<
    Option<Seq<Position>>,
>
    decreases entries.len(),
{
    if entries.len() == 0 {
        None
    } else {
        let e = entries.last();
        if (e.start, e.end) == key {
            Some(route_view(e.route))
        } else {
            lookup(entries.drop_last(), key)
        }
    }
}

/// Memoized routes between pairs of cells, keyed by `(start, end)`.
pub struct PathCache {
    paths: Vec<PathEntry>,
}

impl PathCache {
    pub closed spec fn view(&self) -> Map<(Position, Position), Option<Seq<Position>>> {
        Map::new(
            |k: (Position, Position)| lookup(self.paths@, k).is_some(),
            |k: (Position, Position)| lookup(self.paths@, k).unwrap(),
        )
    }

    /// Every stored answer is right for `map`.
    pub open spec fn consistent_with(&self, map: TileMap) -> bool {
        forall|k: (Position, Position)| #[trigger]
            self@.contains_key(k) ==> answers(map, k.0, k.1, self@[k])
    }

    pub fn new() -> (r: Self)
        ensures
            r@ == Map::<(Position, Position), Option<Seq<Position>>>::empty(),
    {
        let r = Self { paths: Vec::new() };
        assert(r@ =~= Map::<(Position, Position), Option<Seq<Position>>>::empty());
        r
    }

    /// Forgets every stored route.
    pub fn invalidate(&mut self)
        ensures
            final(self)@ == Map::<(Position, Position), Option<Seq<Position>>>::empty(),
    {
        self.paths.clear();
        assert(self@ =~= Map::<(Position, Position), Option<Seq<Position>>>::empty());
    }

    fn find(&self, start: &Position, end: &Position) -> (r: Option<usize>)
        ensures
            match r {
                Some(i) => i < self.paths@.len() && lookup(self.paths@, (*start, *end)) == Some(
                    route_view(self.paths@[i as int].route),
                ),
                None => lookup(self.paths@, (*start, *end)) is None,
            },
    {
        let mut i: usize = self.paths.len();
        assert(self.paths@.subrange(0, i as int) =~= self.paths@);
        while i > 0
            invariant
                i <= self.paths@.len(),
                lookup(self.paths@, (*start, *end)) == lookup(self.paths@.subrange(0, i as int), (*start, *end)),
            decreases i,
        {
            let e = &self.paths[i - 1];
            assert(self.paths@.subrange(0, i as int).drop_last() =~= self.paths@.subrange(0, i - 1));
            if e.start.is_at(start) && e.end.is_at(end) {
                return Some(i - 1);
            }
            i = i - 1;
        }
        None
    }

    /// Computes and stores the route for `(start, end)`.
    pub fn cache_path(&mut self, map: &TileMap, start: Position, end: Position)
        requires
            map.wf(),
        ensures
            exists|r: Option<Seq<Position>>|
                answers(*map, start, end, r) && final(self)@ == old(self)@.insert((start, end), r),
    {
        let route = search_route(map, start, end);
        let ghost r = route_view(route);
        self.paths.push(PathEntry { start, end, route });
        assert(self.paths@.drop_last() =~= old(self).paths@);
        assert(self@ =~= old(self)@.insert((start, end), r));
    }

    /// The route for an agent at `start` heading to `end`, computed on a miss and
    /// served from the cache afterwards.
    pub fn get_path(&mut self, map: &TileMap, start: Position, end: Position) -> (r: Option<
        Vec<Position>,
    >)
        requires
            map.wf(),
        ensures
            final(self)@.contains_key((start, end)),
            route_view(r) == final(self)@[(start, end)],
            old(self)@.contains_key((start, end)) ==> final(self)@ == old(self)@,
            !old(self)@.contains_key((start, end)) ==> final(self)@ == old(self)@.insert(
                (start, end),
                route_view(r),
            ) && answers(*map, start, end, route_view(r)),
            old(self).consistent_with(*map) ==> final(self).consistent_with(*map) && answers(
                *map,
                start,
                end,
                route_view(r),
            ),
    {
        match self.find(&start, &end) {
            Some(i) => {
                match &self.paths[i].route {
                    Some(v) => Some(v.clone()),
                    None => None,
                }
            },
            None => {
                self.cache_path(map, start, end);
                proof {
                    assert(self@.contains_key((start, end)));
                    assert(lookup(self.paths@, (start, end)) is Some);
                }
                let i = self.find(&start, &end).unwrap();
                match &self.paths[i].route {
                    Some(v) => Some(v.clone()),
                    None => None,
                }
            },
        }
    }
}

/// Whether `r` is a route depends on the map only through where one can walk.
proof fn lemma_route_same_walkability(m1: TileMap, m2: TileMap, r: Seq<Position>, a: Position, b: Position)
    requires
        m1.same_walkability(m2),
    ensures
        is_route(m1, r, a, b) == is_route(m2, r, a, b),
{
    assert forall|i: int|
        #![trigger r[i], r[i + 1]]
        0 <= i < r.len() - 1 implies (adjacent(r[i], r[i + 1])
        && m1.walkable_at(r[i + 1])) == (adjacent(r[i], r[i + 1]) && m2.walkable_at(r[i + 1])) by {
        let q = r[i + 1];
        assert(m1.walkable_at(q) == m2.walkable_at(q));
    }
}

/// Maps that agree on where one can walk give the same answers to path queries,
/// so a cache right for one is right for the other.
pub proof fn lemma_consistent_same_walkability(cache: PathCache, m1: TileMap, m2: TileMap)
    requires
        cache.consistent_with(m1),
        m1.same_walkability(m2),
    ensures
        cache.consistent_with(m2),
{
    assert forall|k: (Position, Position)| #[trigger] cache@.contains_key(k) implies answers(
        m2,
        k.0,
        k.1,
        cache@[k],
    ) by {
        assert(answers(m1, k.0, k.1, cache@[k]));
        match cache@[k] {
            Some(r) => {
                lemma_route_same_walkability(m1, m2, r, k.1, k.0);
                assert forall|q: Seq<Position>| #[trigger] is_route(m2, q, k.1, k.0) implies r.len()
                    <= q.len() by {
                    lemma_route_same_walkability(m1, m2, q, k.1, k.0);
                }
            },
            None => {
                if reachable(m2, k.1, k.0) {
                    let q = choose|q: Seq<Position>| #[trigger] is_route(m2, q, k.1, k.0);
                    lemma_route_same_walkability(m1, m2, q, k.1, k.0);
                }
            },
        }
    }
}

} // verus!
