//! What the client draws, as a list of instructions for whatever terminal
//! renders them: tile symbols, and one mark per occupied cell that shows how
//! many people stand there and how sick, tested and vaccinated they are.

use crate::map::{Position, Tile, TileMap};
use crate::person::{Person, PersonId};
use crate::world::World;
use vstd::prelude::*;

verus! {

#[derive(Clone, Copy, Debug, PartialEq, Eq, Structural)]
pub enum Color {
    Black,
    DarkOliveGreen4,
    Burlywood,
    Gray,
    Purple,
    Green,
    Gold,
    Red,
    LightBlue,
    DarkGreen,
    Green2,
    Blue2,
    Blue,
    DarkBlue,
    Orange2,
    Orange,
    DarkRed,
}

/// What is printed in one cell.
#[derive(Clone, Copy, Debug, PartialEq, Eq, Structural)]
pub enum Glyph {
    Symbol(char),
    /// A number of people, from two to nine.
    Count(u8),
    /// More than nine people.
    Many,
}

#[derive(Clone, Copy, Debug, PartialEq, Eq, Structural)]
pub struct DrawCommand {
    pub x: usize,
    pub y: usize,
    pub fg: Color,
    pub bg: Color,
    pub glyph: Glyph,
}

impl Tile {
    pub open spec fn look(self) -> Option<(char, Color)> {
        match self {
            Tile::Empty => None,
            Tile::Building => Some(('#', Color::DarkOliveGreen4)),
            Tile::Door(_) => Some(('[', Color::Burlywood)),
            Tile::RoadBlock => Some(('X', Color::Gray)),
            Tile::TestCenter => Some(('T', Color::Purple)),
            Tile::VaccineCenter => Some(('V', Color::Green)),
            Tile::MaskCampain(_) => Some(('M', Color::Gold)),
            Tile::AntivaxCampain(_) => Some(('A', Color::Red)),
        }
    }

    /// The symbol and colour of the tile; nothing for an empty one.
    pub fn render(&self) -> (r: Option<(char, Color)>)
        ensures
            r == self.look(),
    {
        match self {
            Tile::Empty => None,
            Tile::Building => Some(('#', Color::DarkOliveGreen4)),
            Tile::Door(_) => Some(('[', Color::Burlywood)),
            Tile::RoadBlock => Some(('X', Color::Gray)),
            Tile::TestCenter => Some(('T', Color::Purple)),
            Tile::VaccineCenter => Some(('V', Color::Green)),
            Tile::MaskCampain(_) => Some(('M', Color::Gold)),
            Tile::AntivaxCampain(_) => Some(('A', Color::Red)),
        }
    }
}

/// The instruction that draws the tile of cell `p`, shifted by the offset.
pub open spec fn tile_command(map: TileMap, p: Position, ox: usize, oy: usize) -> DrawCommand {
    let (c, fg) = map.tile(p).look().unwrap();
    DrawCommand { x: (p.x + ox) as usize, y: (p.y + oy) as usize, fg, bg: Color::Black, glyph: Glyph::Symbol(c) }
}

/// The instructions for the cells before `(x, y)` in column order, where
/// columns have `height` cells.
pub open spec fn commands_upto(map: TileMap, ox: usize, oy: usize, x: nat, y: nat) -> Seq<DrawCommand>
    decreases x, y,
{
    if y == 0 {
        if x == 0 {
            Seq::empty()
        } else {
            commands_upto(map, ox, oy, (x - 1) as nat, map.height as nat)
        }
    } else {
        let p = Position { x: x as usize, y: (y - 1) as usize };
        let earlier = commands_upto(map, ox, oy, x, (y - 1) as nat);
        match map.tile(p).look() {
            Some(_) => earlier.push(tile_command(map, p, ox, oy)),
            None => earlier,
        }
    }
}

impl TileMap {
    /// One instruction per non-empty cell, shifted by `(ox, oy)`.
    pub fn render(&self, ox: usize, oy: usize) -> (r: Vec<DrawCommand>)
        requires
            self.wf(),
            self.width + ox <= usize::MAX,
            self.height + oy <= usize::MAX,
        ensures
            r@ == commands_upto(*self, ox, oy, self.width as nat, 0),
    {
        let mut out: Vec<DrawCommand> = Vec::new();
        let mut x: usize = 0;
        while x < self.width
            invariant
                self.wf(),
                self.width + ox <= usize::MAX,
                self.height + oy <= usize::MAX,
                x <= self.width,
                out@ == commands_upto(*self, ox, oy, x as nat, 0),
            decreases self.width - x,
        {
            let mut y: usize = 0;
            while y < self.height
                invariant
                    self.wf(),
                    self.width + ox <= usize::MAX,
                    self.height + oy <= usize::MAX,
                    x < self.width,
                    y <= self.height,
                    out@ == commands_upto(*self, ox, oy, x as nat, y as nat),
                decreases self.height - y,
            {
                let p = Position::new(x, y);
                let ghost before = out@;
                match self.tiles[x][y].render() {
                    Some((c, fg)) => {
                        out.push(DrawCommand { x: x + ox, y: y + oy, fg, bg: Color::Black, glyph: Glyph::Symbol(c) });
                    },
                    None => {},
                }
                proof {
                    assert(out@ == commands_upto(*self, ox, oy, x as nat, (y + 1) as nat));
                }
                y = y + 1;
            }
            proof {
                assert(commands_upto(*self, ox, oy, (x + 1) as nat, 0) == commands_upto(*self, ox, oy, x as nat, self.height as nat));
            }
            x = x + 1;
        }
        out
    }
}

/// A condition a person may meet, as the map shades it.
#[derive(Clone, Copy, Debug, PartialEq, Eq, Structural)]
pub enum Mark {
    /// Infected, and known to be: the virus side sees every infection, the
    /// president only tested ones.
    Sick,
    Tested,
    Vaccinated,
}

pub open spec fn marked(p: Person, mark: Mark, side: bool) -> bool {
    match mark {
        Mark::Sick => p.infected && (side || p.tested),
        Mark::Tested => p.tested,
        Mark::Vaccinated => p.vaccinated,
    }
}

/// How many of the people `ids` meet `mark`.
pub open spec fn count_marked(people: Seq<Person>, ids: Seq<PersonId>, mark: Mark, side: bool) -> nat
    decreases ids.len(),
{
    if ids.len() == 0 {
        0
    } else {
        count_marked(people, ids.drop_last(), mark, side) + if marked(people[ids.last().0 as int], mark, side) {
            1nat
        } else {
            0
        }
    }
}

/// The colour for `count` people out of `n`: none, under half, not all, all.
pub open spec fn shade(count: nat, n: nat, none: Color, few: Color, most: Color, all: Color) -> Color {
    if count == 0 {
        none
    } else if 2 * count < n {
        few
    } else if count < n {
        most
    } else {
        all
    }
}

pub open spec fn crowd_color(people: Seq<Person>, ids: Seq<PersonId>, side: bool) -> Color {
    let n = ids.len();
    let tested = shade(count_marked(people, ids, Mark::Tested, side), n, Color::LightBlue, Color::DarkGreen, Color::Green, Color::Green2);
    let vaccinated = shade(count_marked(people, ids, Mark::Vaccinated, side), n, tested, Color::Blue2, Color::Blue, Color::DarkBlue);
    shade(count_marked(people, ids, Mark::Sick, side), n, vaccinated, Color::Orange2, Color::Orange, Color::DarkRed)
}

pub open spec fn crowd_glyph(n: nat) -> Glyph {
    if n == 1 {
        Glyph::Symbol('&')
    } else if n <= 9 {
        Glyph::Count(n as u8)
    } else {
        Glyph::Many
    }
}

/// The instruction that draws the people `ids` standing on `p`.
pub open spec fn crowd_command(people: Seq<Person>, p: Position, ids: Seq<PersonId>, ox: usize, oy: usize, side: bool) -> DrawCommand {
    DrawCommand {
        x: (p.x + ox) as usize,
        y: (p.y + oy) as usize,
        fg: crowd_color(people, ids, side),
        bg: Color::Black,
        glyph: crowd_glyph(ids.len()),
    }
}

pub fn shade_of(count: usize, n: usize, none: Color, few: Color, most: Color, all: Color) -> (r: Color)
    requires
        count <= n,
    ensures
        r == shade(count as nat, n as nat, none, few, most, all),
{
    if count == 0 {
        none
    } else if count < n - count {
        few
    } else if count < n {
        most
    } else {
        all
    }
}

impl World {
    /// How many of the people `ids` meet `mark`.
    pub fn count(&self, ids: &Vec<PersonId>, mark: Mark, side: bool) -> (r: usize)
        requires
            forall|k: int| 0 <= k < ids@.len() ==> (#[trigger] ids@[k]).0 < self.people@.len(),
        ensures
            r == count_marked(self.people@, ids@, mark, side),
            r <= ids@.len(),
    {
        let mut c: usize = 0;
        let mut k: usize = 0;
        while k < ids.len()
            invariant
                k <= ids@.len(),
                forall|m: int| 0 <= m < ids@.len() ==> (#[trigger] ids@[m]).0 < self.people@.len(),
                c == count_marked(self.people@, ids@.subrange(0, k as int), mark, side),
                c <= k,
            decreases ids@.len() - k,
        {
            proof {
                assert(ids@.subrange(0, k + 1).drop_last() =~= ids@.subrange(0, k as int));
            }
            let p = &self.people[ids[k].0 as usize];
            let hit = match mark {
                Mark::Sick => p.infected && (side || p.tested),
                Mark::Tested => p.tested,
                Mark::Vaccinated => p.vaccinated,
            };
            if hit {
                c = c + 1;
            }
            k = k + 1;
        }
        proof {
            assert(ids@.subrange(0, ids@.len() as int) =~= ids@);
        }
        c
    }

    /// The map, then one mark per group of people, shifted by `(ox, oy)`. The
    /// virus side (`side`) sees every infection, the president tested ones only.
    pub fn render(
        &self,
        person_locations: &Vec<(Position, Vec<PersonId>)>,
        ox: usize,
        oy: usize,
        side: bool,
    ) -> (r: Vec<DrawCommand>)
        requires
            self.map.wf(),
            self.map.width + ox <= usize::MAX,
            self.map.height + oy <= usize::MAX,
            forall|g: int| 0 <= g < person_locations@.len() ==> {
                let (p, ids) = #[trigger] person_locations@[g];
                &&& ids@.len() > 0
                &&& p.x + ox <= usize::MAX
                &&& p.y + oy <= usize::MAX
                &&& forall|k: int| 0 <= k < ids@.len() ==> (#[trigger] ids@[k]).0 < self.people@.len()
            },
        ensures
            r@.len() == commands_upto(self.map, ox, oy, self.map.width as nat, 0).len() + person_locations@.len(),
            r@.subrange(0, commands_upto(self.map, ox, oy, self.map.width as nat, 0).len() as int)
                == commands_upto(self.map, ox, oy, self.map.width as nat, 0),
            forall|g: int| 0 <= g < person_locations@.len() ==> #[trigger] r@[commands_upto(self.map, ox, oy, self.map.width as nat, 0).len() + g]
                == crowd_command(self.people@, person_locations@[g].0, person_locations@[g].1@, ox, oy, side),
    {
        let mut out = self.map.render(ox, oy);
        let ghost base = out@;
        let mut g: usize = 0;
        while g < person_locations.len()
            invariant
                g <= person_locations@.len(),
                base == commands_upto(self.map, ox, oy, self.map.width as nat, 0),
                out@.len() == base.len() + g,
                out@.subrange(0, base.len() as int) == base,
                forall|h: int| 0 <= h < g ==> #[trigger] out@[base.len() + h]
                    == crowd_command(self.people@, person_locations@[h].0, person_locations@[h].1@, ox, oy, side),
                forall|h: int| 0 <= h < person_locations@.len() ==> {
                    let (p, ids) = #[trigger] person_locations@[h];
                    &&& ids@.len() > 0
                    &&& p.x + ox <= usize::MAX
                    &&& p.y + oy <= usize::MAX
                    &&& forall|k: int| 0 <= k < ids@.len() ==> (#[trigger] ids@[k]).0 < self.people@.len()
                },
            decreases person_locations@.len() - g,
        {
            let p = person_locations[g].0;
            let ids = &person_locations[g].1;
            proof {
                let _ = person_locations@[g as int];
            }
            let n = ids.len();
            let tested = shade_of(self.count(ids, Mark::Tested, side), n, Color::LightBlue, Color::DarkGreen, Color::Green, Color::Green2);
            let vaccinated = shade_of(self.count(ids, Mark::Vaccinated, side), n, tested, Color::Blue2, Color::Blue, Color::DarkBlue);
            let fg = shade_of(self.count(ids, Mark::Sick, side), n, vaccinated, Color::Orange2, Color::Orange, Color::DarkRed);
            let glyph = if n == 1 {
                Glyph::Symbol('&')
            } else if n <= 9 {
                Glyph::Count(n as u8)
            } else {
                Glyph::Many
            };
            let ghost before = out@;
            out.push(DrawCommand { x: p.x + ox, y: p.y + oy, fg, bg: Color::Black, glyph });
            proof {
                assert(out@.subrange(0, base.len() as int) =~= before.subrange(0, base.len() as int));
                assert forall|h: int| 0 <= h < g + 1 implies #[trigger] out@[base.len() + h]
                    == crowd_command(self.people@, person_locations@[h].0, person_locations@[h].1@, ox, oy, side) by {
                    if h < g {
                        assert(out@[base.len() + h] == before[base.len() + h]);
                    }
                }
            }
            g = g + 1;
        }
        out
    }
}

} // verus!
