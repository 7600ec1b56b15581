use crate::map::{Position, Tile, TileMap};
use crate::map_generation::{MapGenerationSettings, CHUNK_SIZE};
use crate::person::{Job, JobType, Person, PersonId, PersonUpdate};
use crate::session::StateUpdate;
use crate::random::draw_below;
use vstd::prelude::*;

verus! {

/// What a doorway leads to.
#[derive(Clone, Copy, Debug, PartialEq, Eq, Structural)]
pub enum Location {
    Home,
    Job(JobType),
}

/// Simulated clock, derived from a count of minutes.
#[derive(Clone, Copy, Debug, PartialEq, Eq, Structural)]
pub struct Time {
    pub minutes: u32,
    pub hours: u32,
    pub days: u8,
}

impl Time {
    pub open spec fn wf(self) -> bool {
        self.minutes < 60 && self.hours < 24
    }

    pub open spec fn total_minutes(self) -> int {
        self.minutes + self.hours * 60 + self.days * 1440
    }

    pub fn new() -> (r: Self)
        ensures
            r.wf(),
            r.minutes == 0,
            r.hours == 0,
            r.days == 0,
    {
        Self { minutes: 0, hours: 0, days: 0 }
    }

    /// Sets the clock to `minutes` after the start; the day count wraps at 256.
    pub fn set_minutes(&mut self, minutes: u32)
        ensures
            final(self).wf(),
            final(self).minutes == minutes % 60,
            final(self).hours == (minutes / 60) % 24,
            final(self).days == ((minutes / 60 / 24) % 256) as u8,
    {
        let hours = minutes / 60;
        self.minutes = minutes % 60;
        self.days = ((hours / 24) % 256) as u8;
        self.hours = hours % 24;
    }

    pub fn to_minutes(&self) -> (r: u32)
        requires
            self.wf(),
        ensures
            r == self.total_minutes(),
    {
        self.minutes + self.hours * 60 + self.days as u32 * 1440
    }
}

/// The simulated world: map, clock and population. The person with id `i`
/// is `people[i]`.
#[derive(Clone, Debug)]
pub struct World {
    pub time: Time,
    pub map: TileMap,
    pub locations: Vec<(Position, Location)>,
    pub people: Vec<Person>,
    pub job_locations: Vec<(JobType, Vec<Position>)>,
}

/// Acquaintance ids name people of `people`, nobody knows themself, each list
/// is free of repeats, and knowing is mutual.
pub open spec fn acquaintances_wf(people: Seq<Person>) -> bool {
    &&& forall|i: int|
        0 <= i < people.len() ==> (#[trigger] people[i]).habits.acquaintances@.no_duplicates()
    &&& forall|i: int, k: int|
        0 <= i < people.len() && 0 <= k < people[i].habits.acquaintances@.len() ==> {
            let j = (#[trigger] people[i].habits.acquaintances@[k]).0 as int;
            &&& 0 <= j < people.len()
            &&& j != i
            &&& people[j].habits.acquaintances@.contains(PersonId(i as u32))
        }
}

impl World {
    pub open spec fn wf(&self) -> bool {
        &&& self.map.wf()
        &&& self.time.wf()
        &&& self.people@.len() <= u32::MAX
        &&& acquaintances_wf(self.people@)
    }

    /// A world of `chunks_w` by `chunks_h` empty six-cell chunks, with nobody in it.
    pub fn empty(chunks_w: usize, chunks_h: usize) -> (r: Self)
        requires
            chunks_w * 6 <= usize::MAX,
            chunks_h * 6 <= usize::MAX,
        ensures
            r.wf(),
            r.map.width == chunks_w * 6,
            r.map.height == chunks_h * 6,
            forall|p: Position| r.map.inside(p) ==> #[trigger] r.map.tile(p) == Tile::Empty,
            r.people@.len() == 0,
            r.time == (Time { minutes: 0, hours: 0, days: 0 }),
    {
        Self {
            time: Time::new(),
            map: TileMap::fill(chunks_w * 6, chunks_h * 6, Tile::Empty),
            locations: Vec::new(),
            people: Vec::new(),
            job_locations: Vec::new(),
        }
    }

    /// Entry `i` is the first one of `job_locations` for `ty`.
    pub open spec fn is_first_entry(&self, ty: JobType, i: int) -> bool {
        &&& 0 <= i < self.job_locations@.len()
        &&& self.job_locations@[i].0 == ty
        &&& forall|k: int| 0 <= k < i ==> #[trigger] self.job_locations@[k].0 != ty
    }

    /// The index of the first entry of `job_locations` for `ty`.
    pub open spec fn first_entry(&self, ty: JobType) -> Option<int> {
        if exists|i: int| self.is_first_entry(ty, i) {
            Some(choose|i: int| self.is_first_entry(ty, i))
        } else {
            None
        }
    }

    /// The workplaces of `ty`: the first entry of `job_locations` for it.
    pub fn job_sites(&self, ty: JobType) -> (r: Option<&Vec<Position>>)
        ensures
            match self.first_entry(ty) {
                Some(i) => r == Some(&self.job_locations@[i].1),
                None => r is None,
            },
    {
        let mut i: usize = 0;
        while i < self.job_locations.len()
            invariant
                i <= self.job_locations@.len(),
                forall|k: int| 0 <= k < i ==> #[trigger] self.job_locations@[k].0 != ty,
            decreases self.job_locations@.len() - i,
        {
            if self.job_locations[i].0 == ty {
                proof {
                    assert(self.is_first_entry(ty, i as int));
                    let c = choose|c: int| self.is_first_entry(ty, c);
                    assert(c == i) by {
                        if c < i {
                            assert(self.job_locations@[c].0 != ty);
                        } else if c > i {
                            assert(self.job_locations@[i as int].0 != ty);
                        }
                    }
                }
                return Some(&self.job_locations[i].1);
            }
            i = i + 1;
        }
        None
    }
}

/// People in a generated world.
pub const POPULATION: u64 = 400;

/// People infected when a world is generated.
pub const INITIAL_INFECTED: u64 = 10;

impl Location {
    /// A home or, as likely, a workplace of a job type drawn uniformly.
    pub fn generate(rng: &mut rand::rngs::StdRng) -> (r: Location)
        ensures
            r matches Location::Job(ty) ==> exists|i: int| 0 <= i < 9 && ty == JobType::nth(i),
    {
        if draw_below(rng, 2) == 0 {
            Location::Home
        } else {
            Location::Job(JobType::generate(rng))
        }
    }
}

/// `p` is listed in `locations` as a home.
pub open spec fn is_home(locations: Seq<(Position, Location)>, p: Position) -> bool {
    exists|k: int| 0 <= k < locations.len() && #[trigger] locations[k] == (p, Location::Home)
}

/// The workplace of `job`, if any, is listed in `jobs` under its type.
pub open spec fn works_listed(jobs: Seq<(JobType, Vec<Position>)>, job: Job) -> bool {
    job.location matches Some(l) ==> exists|e: int| 0 <= e < jobs.len() && (#[trigger] jobs[e]).0 == job.ty && jobs[e].1@.contains(l)
}

/// Each entry of a job index lists at least one workplace.
pub open spec fn job_index_ok(jobs: Seq<(JobType, Vec<Position>)>) -> bool {
    forall|k: int| 0 <= k < jobs.len() ==> (#[trigger] jobs[k]).1@.len() > 0
}

/// Adds `p` to the workplaces of `ty` in `jobs`.
fn add_job_site(jobs: &mut Vec<(JobType, Vec<Position>)>, ty: JobType, p: Position)
    requires
        job_index_ok(old(jobs)@),
    ensures
        job_index_ok(final(jobs)@),
{
    let mut k: usize = 0;
    while k < jobs.len()
        invariant
            k <= jobs@.len(),
            job_index_ok(jobs@),
        decreases jobs@.len() - k,
    {
        if jobs[k].0 == ty {
            let mut entry: (JobType, Vec<Position>) = (ty, Vec::new());
            std::mem::swap(&mut entry, &mut jobs[k]);
            entry.1.push(p);
            jobs.set(k, entry);
            return;
        }
        k = k + 1;
    }
    let mut sites: Vec<Position> = Vec::new();
    sites.push(p);
    jobs.push((ty, sites));
}

impl Person {
    /// Makes the person infected, as a world is seeded with the disease.
    pub fn seed_infection(&mut self)
        ensures
            *final(self) == (Person { infected: true, ..*old(self) }),
    {
        self.infected = true;
    }
}

impl World {
    /// Makes persons `i` and `j` mutual acquaintances, unless they are one person
    /// or know each other already.
    pub fn connect(&mut self, i: usize, j: usize)
        requires
            old(self).wf(),
            i < old(self).people@.len(),
            j < old(self).people@.len(),
        ensures
            final(self).wf(),
            final(self).time == old(self).time,
            final(self).map == old(self).map,
            final(self).locations == old(self).locations,
            final(self).job_locations == old(self).job_locations,
            final(self).people@.len() == old(self).people@.len(),
            forall|k: int| 0 <= k < old(self).people@.len() ==> (#[trigger] final(self).people@[k]).same_but_acquaintances(old(self).people@[k]),
    {
        if i != j && !self.people[i].knows(PersonId(j as u32)) {
            self.befriend(i, j);
        }
    }

    /// Peoples a generated map whose doors lead to `locations`: `POPULATION`
    /// people living in the homes, working at the workplaces, with acquaintances
    /// among them, and `INITIAL_INFECTED` draws of people who start infected.
    /// `None` exactly when no location is a home.
    pub fn populate(
        map: TileMap,
        locations: Vec<(Position, Location)>,
        rng: &mut rand::rngs::StdRng,
        first_names: &Vec<String>,
        last_names: &Vec<String>,
    ) -> (r: Option<World>)
        requires
            map.wf(),
            first_names@.len() > 0,
            last_names@.len() > 0,
            forall|k: int| 0 <= k < locations@.len() ==> (#[trigger] map.tile(locations@[k].0)) is Door && map.inside(locations@[k].0),
        ensures
            r is None <==> forall|k: int| 0 <= k < locations@.len() ==> (#[trigger] locations@[k]).1 != Location::Home,
            r matches Some(w) ==> {
                &&& w.wf()
                &&& w.map == map
                &&& w.locations == locations
                &&& w.time == (Time { minutes: 0, hours: 0, days: 0 })
                &&& w.people@.len() == POPULATION
                &&& forall|i: int| 0 <= i < w.people@.len() ==> (#[trigger] w.people@[i]).position == w.people@[i].home && w.people@[i].alive
                &&& forall|i: int| 0 <= i < w.people@.len() ==> is_home(w.locations@, (#[trigger] w.people@[i]).home)
                &&& forall|i: int| 0 <= i < w.people@.len() ==> works_listed(w.job_locations@, (#[trigger] w.people@[i]).job)
                &&& exists|i: int| 0 <= i < w.people@.len() && (#[trigger] w.people@[i]).infected
            },
    {
        let ghost map_width = map.width;
        let ghost map_height = map.height;
        let ghost given = locations@;
        let ghost map0 = map;
        let ghost locations0 = locations;
        let mut homes: Vec<Position> = Vec::new();
        let mut jobs: Vec<(JobType, Vec<Position>)> = Vec::new();
        let mut k: usize = 0;
        while k < locations.len()
            invariant
                k <= locations@.len(),
                job_index_ok(jobs@),
                forall|h: int| 0 <= h < homes@.len() ==> is_home(locations@, #[trigger] homes@[h]),
                homes@.len() == 0 <==> forall|m: int| 0 <= m < k ==> (#[trigger] locations@[m]).1 != Location::Home,
                map.wf(),
                map.width == map_width,
                map.height == map_height,
                locations@ == given,
                forall|m: int| 0 <= m < locations@.len() ==> (#[trigger] map.tile(locations@[m].0)) is Door && map.inside(locations@[m].0),
            decreases locations@.len() - k,
        {
            let (p, location) = locations[k];
            match location {
                Location::Home => {
                    homes.push(p);
                    assert(is_home(locations@, p)) by {
                        assert(locations@[k as int] == (p, Location::Home));
                    }
                },
                Location::Job(ty) => add_job_site(&mut jobs, ty, p),
            }
            k = k + 1;
        }
        if homes.len() == 0 {
            return None;
        }
        let mut people: Vec<Person> = Vec::new();
        let mut id: u64 = 0;
        while id < POPULATION
            invariant
                id <= POPULATION,
                people@.len() == id,
                homes@.len() > 0,
                first_names@.len() > 0,
                last_names@.len() > 0,
                job_index_ok(jobs@),
                forall|i: int| 0 <= i < id ==> (#[trigger] people@[i]).habits.acquaintances@.len() == 0
                    && people@[i].position == people@[i].home && people@[i].alive,
                forall|h: int| 0 <= h < homes@.len() ==> is_home(locations@, #[trigger] homes@[h]),
                forall|i: int| 0 <= i < id ==> is_home(locations@, (#[trigger] people@[i]).home),
                forall|i: int| 0 <= i < id ==> works_listed(jobs@, (#[trigger] people@[i]).job),
                map == map0,
                locations == locations0,
            decreases POPULATION - id,
        {
            let home = homes[draw_below(rng, homes.len() as u64) as usize];
            assert(is_home(locations@, home));
            let ty = JobType::generate(rng);
            let mut location: Option<Position> = None;
            let mut e: usize = 0;
            while e < jobs.len()
                invariant_except_break
                    location is None,
                invariant
                    e <= jobs@.len(),
                    job_index_ok(jobs@),
                ensures
                    location matches Some(l) ==> exists|x: int| 0 <= x < jobs@.len() && (#[trigger] jobs@[x]).0 == ty && jobs@[x].1@.contains(l),
                decreases jobs@.len() - e,
            {
                if jobs[e].0 == ty {
                    let sites = &jobs[e].1;
                    assert(jobs@[e as int].1@.len() > 0);
                    let d = draw_below(rng, sites.len() as u64) as usize;
                    location = Some(sites[d]);
                    assert(jobs@[e as int].1@[d as int] == sites@[d as int]);
                    break;
                }
                e = e + 1;
            }
            let first = first_names[draw_below(rng, first_names.len() as u64) as usize].clone();
            let last = last_names[draw_below(rng, last_names.len() as u64) as usize].clone();
            let person = Person::generate(rng, home, Job { ty, location }, first, last);
            people.push(person);
            id = id + 1;
        }
        let mut world = World { time: Time::new(), map, locations, people, job_locations: jobs };
        assert(acquaintances_wf(world.people@));
        let n = world.people.len();
        let mut i: usize = 0;
        while i < n
            invariant
                world.wf(),
                i <= n,
                n == POPULATION,
                world.people@.len() == n,
                world.map.width == map_width,
                world.map.height == map_height,
                world.time == (Time { minutes: 0, hours: 0, days: 0 }),
                forall|k: int| 0 <= k < n ==> (#[trigger] world.people@[k]).position == world.people@[k].home && world.people@[k].alive,
                forall|k: int| 0 <= k < n ==> is_home(world.locations@, (#[trigger] world.people@[k]).home),
                forall|k: int| 0 <= k < n ==> works_listed(world.job_locations@, (#[trigger] world.people@[k]).job),
                world.map == map0,
                world.locations == locations0,
                forall|k: int| 0 <= k < world.locations@.len() ==> (#[trigger] world.map.tile(world.locations@[k].0)) is Door && world.map.inside(world.locations@[k].0),
            decreases n - i,
        {
            let times = 2 + draw_below(rng, 3);
            let mut t: u64 = 0;
            while t < times
                invariant
                    world.wf(),
                    i < n,
                    n == POPULATION,
                    world.people@.len() == n,
                    world.map.width == map_width,
                    world.map.height == map_height,
                    world.time == (Time { minutes: 0, hours: 0, days: 0 }),
                    forall|k: int| 0 <= k < n ==> (#[trigger] world.people@[k]).position == world.people@[k].home && world.people@[k].alive,
                forall|k: int| 0 <= k < n ==> is_home(world.locations@, (#[trigger] world.people@[k]).home),
                forall|k: int| 0 <= k < n ==> works_listed(world.job_locations@, (#[trigger] world.people@[k]).job),
                world.map == map0,
                world.locations == locations0,
                forall|k: int| 0 <= k < world.locations@.len() ==> (#[trigger] world.map.tile(world.locations@[k].0)) is Door && world.map.inside(world.locations@[k].0),
                decreases times - t,
            {
                let other = draw_below(rng, POPULATION) as usize;
                world.connect(i, other);
                t = t + 1;
            }
            i = i + 1;
        }
        let mut s: u64 = 0;
        while s < INITIAL_INFECTED
            invariant
                world.wf(),
                world.people@.len() == POPULATION,
                world.map.width == map_width,
                world.map.height == map_height,
                world.time == (Time { minutes: 0, hours: 0, days: 0 }),
                forall|k: int| 0 <= k < POPULATION ==> (#[trigger] world.people@[k]).position == world.people@[k].home && world.people@[k].alive,
                forall|k: int| 0 <= k < POPULATION ==> is_home(world.locations@, (#[trigger] world.people@[k]).home),
                forall|k: int| 0 <= k < POPULATION ==> works_listed(world.job_locations@, (#[trigger] world.people@[k]).job),
                world.map == map0,
                world.locations == locations0,
                s > 0 ==> exists|k: int| 0 <= k < POPULATION && (#[trigger] world.people@[k]).infected,
                forall|k: int| 0 <= k < world.locations@.len() ==> (#[trigger] world.map.tile(world.locations@[k].0)) is Door && world.map.inside(world.locations@[k].0),
            decreases INITIAL_INFECTED - s,
        {
            let k = draw_below(rng, POPULATION) as usize;
            let ghost before = world.people@;
            world.people[k].seed_infection();
            assert(world.people@[k as int].infected);
            proof {
                crate::contact::lemma_same_acquaintances(before, world.people@);
            }
            s = s + 1;
        }
        Some(world)
    }

    /// Generates a world: the map, a home or a workplace behind every door,
    /// `POPULATION` people living in the homes with acquaintances among them,
    /// and `INITIAL_INFECTED` draws of people who start infected. `None` when
    /// no door became a home: `populate` decides that from the drawn locations.
    pub fn generate(
        settings: &MapGenerationSettings,
        rng: &mut rand::rngs::StdRng,
        first_names: &Vec<String>,
        last_names: &Vec<String>,
    ) -> (r: Option<World>)
        requires
            settings.wf(),
            first_names@.len() > 0,
            last_names@.len() > 0,
        ensures
            r matches Some(w) ==> {
                &&& w.wf()
                &&& w.map.width == settings.width * CHUNK_SIZE
                &&& w.map.height == settings.height * CHUNK_SIZE
                &&& w.time == (Time { minutes: 0, hours: 0, days: 0 })
                &&& w.people@.len() == POPULATION
                &&& forall|i: int| 0 <= i < w.people@.len() ==> (#[trigger] w.people@[i]).position == w.people@[i].home && w.people@[i].alive
                &&& forall|i: int| 0 <= i < w.people@.len() ==> is_home(w.locations@, (#[trigger] w.people@[i]).home)
                &&& forall|k: int| 0 <= k < w.locations@.len() ==> (#[trigger] w.map.tile(w.locations@[k].0)) is Door && w.map.inside(w.locations@[k].0)
                &&& forall|i: int| 0 <= i < w.people@.len() ==> works_listed(w.job_locations@, (#[trigger] w.people@[i]).job)
                &&& exists|i: int| 0 <= i < w.people@.len() && (#[trigger] w.people@[i]).infected
            },
    {
        let map = settings.generate(rng);
        let mut locations: Vec<(Position, Location)> = Vec::new();
        let mut x: usize = 0;
        while x < map.width
            invariant
                map.wf(),
                x <= map.width,
                forall|k: int| 0 <= k < locations@.len() ==> (#[trigger] map.tile(locations@[k].0)) is Door && map.inside(locations@[k].0),
            decreases map.width - x,
        {
            let mut y: usize = 0;
            while y < map.height
                invariant
                    map.wf(),
                    x < map.width,
                    y <= map.height,
                    forall|k: int| 0 <= k < locations@.len() ==> (#[trigger] map.tile(locations@[k].0)) is Door && map.inside(locations@[k].0),
                decreases map.height - y,
            {
                let p = Position::new(x, y);
                match map.get_tile(&p) {
                    Tile::Door(_) => {
                        let location = Location::generate(rng);
                        locations.push((p, location));
                    },
                    _ => {},
                }
                y = y + 1;
            }
            x = x + 1;
        }
        Self::populate(map, locations, rng, first_names, last_names)
    }
}

/// Acquaintance lookups never fail: every id in anyone's list names a person of
/// the population, and that person knows them back. Nobody is ever removed
/// from the population, the dead included, so this holds on every tick.
pub proof fn lemma_acquaintance_lookup(world: World, i: int, k: int)
    requires
        world.wf(),
        0 <= i < world.people@.len(),
        0 <= k < world.people@[i].habits.acquaintances@.len(),
    ensures
        ({
            let j = world.people@[i].habits.acquaintances@[k].0 as int;
            &&& 0 <= j < world.people@.len()
            &&& j != i
            &&& world.people@[j].habits.acquaintances@.contains(PersonId(i as u32))
        }),
{
    assert(acquaintances_wf(world.people@));
    let _ = world.people@[i].habits.acquaintances@[k];
}

/// Person `p` after the change `update` is applied to it.
pub open spec fn updated_person(p: Person, update: PersonUpdate) -> Person {
    match update {
        PersonUpdate::LifeStatus(_, b) => Person { alive: b, ..p },
        PersonUpdate::Position(_, q) => Person { position: q, ..p },
        PersonUpdate::Infected(_, b) => Person { infected: b, ..p },
        PersonUpdate::Habits(_, h) => Person { habits: h, ..p },
        PersonUpdate::Tested(_, b) => Person { tested: b, ..p },
        PersonUpdate::Vaccinated(_, b) => Person { vaccinated: b, ..p },
    }
}

impl Person {
    /// Takes in one change announced by the server.
    pub fn apply_update(&mut self, update: PersonUpdate)
        ensures
            *final(self) == updated_person(*old(self), update),
    {
        match update {
            PersonUpdate::LifeStatus(_, b) => self.alive = b,
            PersonUpdate::Position(_, p) => self.position = p,
            PersonUpdate::Infected(_, b) => self.infected = b,
            PersonUpdate::Habits(_, h) => self.habits = h,
            PersonUpdate::Tested(_, b) => self.tested = b,
            PersonUpdate::Vaccinated(_, b) => self.vaccinated = b,
        }
    }
}

/// The person a change is about.
pub open spec fn subject(u: PersonUpdate) -> PersonId {
    match u {
        PersonUpdate::LifeStatus(id, _) => id,
        PersonUpdate::Position(id, _) => id,
        PersonUpdate::Infected(id, _) => id,
        PersonUpdate::Habits(id, _) => id,
        PersonUpdate::Tested(id, _) => id,
        PersonUpdate::Vaccinated(id, _) => id,
    }
}

impl PersonUpdate {
    pub fn person(&self) -> (r: PersonId)
        ensures
            r == subject(*self),
    {
        match self {
            PersonUpdate::LifeStatus(id, _) => *id,
            PersonUpdate::Position(id, _) => *id,
            PersonUpdate::Infected(id, _) => *id,
            PersonUpdate::Habits(id, _) => *id,
            PersonUpdate::Tested(id, _) => *id,
            PersonUpdate::Vaccinated(id, _) => *id,
        }
    }
}

impl TileMap {
    pub fn is_well_formed(&self) -> (r: bool)
        ensures
            r == self.wf(),
    {
        if self.tiles.len() != self.width {
            return false;
        }
        let mut x: usize = 0;
        while x < self.width
            invariant
                x <= self.width,
                self.tiles@.len() == self.width,
                forall|a: int| 0 <= a < x ==> #[trigger] self.tiles@[a]@.len() == self.height,
            decreases self.width - x,
        {
            if self.tiles[x].len() != self.height {
                return false;
            }
            x = x + 1;
        }
        true
    }
}

impl World {
    /// Takes in one change sent by the server, as a client does: a full world
    /// replaces this one, a tile or person change is applied where its cell or
    /// person exists, and anything else is ignored.
    pub fn apply_update(&mut self, update: StateUpdate)
        ensures
            match update {
                StateUpdate::SetWorld(w) => *final(self) == w,
                StateUpdate::TileUpdate(p, t) => if old(self).map.wf() && old(self).map.inside(p) {
                    &&& final(self).map.wf()
                    &&& final(self).map.same_except(old(self).map, p)
                    &&& final(self).map.tile(p) == t
                    &&& final(self).people == old(self).people
                    &&& final(self).time == old(self).time
                } else {
                    *final(self) == *old(self)
                },
                StateUpdate::PersonUpdate(u) => {
                    let i = subject(u).0 as int;
                    if i < old(self).people@.len() {
                        &&& final(self).people@.len() == old(self).people@.len()
                        &&& final(self).people@[i] == updated_person(old(self).people@[i], u)
                        &&& forall|k: int| 0 <= k < old(self).people@.len() && k != i ==> #[trigger] final(self).people@[k] == old(self).people@[k]
                        &&& final(self).map == old(self).map
                        &&& final(self).time == old(self).time
                    } else {
                        *final(self) == *old(self)
                    }
                },
                StateUpdate::Winner(_) => *final(self) == *old(self),
            },
    {
        match update {
            StateUpdate::SetWorld(w) => {
                *self = w;
            },
            StateUpdate::TileUpdate(p, t) => {
                if self.map.is_well_formed() && self.map.in_bounds(&p) {
                    self.map.set_tile(&p, t);
                }
            },
            StateUpdate::PersonUpdate(u) => {
                let i = u.person().0 as usize;
                if i < self.people.len() {
                    self.people[i].apply_update(u);
                }
            },
            StateUpdate::Winner(_) => {},
        }
    }
}

} // verus!
