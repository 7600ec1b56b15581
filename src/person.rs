use crate::map::Position;
use crate::path::{answers, is_shortest_route, reachable, PathCache};
use crate::random::draw_below;
use crate::world::World;
use vstd::prelude::*;

verus! {

/// Chance out of ten, per tick, that an agent sets off to or from work.
pub const LEAVE_ODDS: u64 = 10;

/// Chance out of a thousand, per tick, that an idle agent goes shopping.
pub const SHOP_ODDS: u64 = 1000;

/// Shortest and longest-but-one stay in a shop, in minutes.
pub const SHOP_MIN_MINUTES: u32 = 90;

pub const SHOP_MAX_MINUTES: u32 = 120;

#[derive(Clone, Copy, Debug, PartialEq, Eq, Hash, Structural)]
pub enum JobType {
    Doctor,
    Programmer,
    Clerk,
    PoliceOfficer,
    FireFighter,
    PublicServant,
    Chef,
    Teacher,
    Student,
}

impl JobType {
    /// First hour of work, and the hour at which work ends.
    pub open spec fn hours(self) -> (u32, u32) {
        match self {
            JobType::Doctor => (9, 17),
            JobType::Programmer => (12, 22),
            JobType::Clerk => (7, 18),
            JobType::PoliceOfficer => (6, 16),
            JobType::FireFighter => (11, 21),
            JobType::PublicServant => (11, 23),
            JobType::Chef => (14, 23),
            JobType::Teacher => (8, 17),
            JobType::Student => (8, 16),
        }
    }

    pub fn work_hours(&self) -> (r: std::ops::Range<u32>)
        ensures
            r.start == self.hours().0,
            r.end == self.hours().1,
    {
        match self {
            JobType::Doctor => 9..17,
            JobType::Programmer => 12..22,
            JobType::Clerk => 7..18,
            JobType::PoliceOfficer => 6..16,
            JobType::FireFighter => 11..21,
            JobType::PublicServant => 11..23,
            JobType::Chef => 14..23,
            JobType::Teacher => 8..17,
            JobType::Student => 8..16,
        }
    }

    pub open spec fn label(self) -> Seq<char> {
        match self {
            JobType::Doctor => "Doctor"@,
            JobType::Programmer => "Programmer"@,
            JobType::Clerk => "Clerk"@,
            JobType::PoliceOfficer => "Police Officer"@,
            JobType::FireFighter => "Fire Fighter"@,
            JobType::PublicServant => "Public Servant"@,
            JobType::Chef => "Chef"@,
            JobType::Teacher => "Teacher"@,
            JobType::Student => "Student"@,
        }
    }

    pub fn as_str(&self) -> (r: &'static str)
        ensures
            r@ == self.label(),
    {
        match self {
            JobType::Doctor => "Doctor",
            JobType::Programmer => "Programmer",
            JobType::Clerk => "Clerk",
            JobType::PoliceOfficer => "Police Officer",
            JobType::FireFighter => "Fire Fighter",
            JobType::PublicServant => "Public Servant",
            JobType::Chef => "Chef",
            JobType::Teacher => "Teacher",
            JobType::Student => "Student",
        }
    }

    /// The job types in declaration order.
    pub open spec fn nth(i: int) -> JobType {
        if i == 0 {
            JobType::Doctor
        } else if i == 1 {
            JobType::Programmer
        } else if i == 2 {
            JobType::Clerk
        } else if i == 3 {
            JobType::PoliceOfficer
        } else if i == 4 {
            JobType::FireFighter
        } else if i == 5 {
            JobType::PublicServant
        } else if i == 6 {
            JobType::Chef
        } else if i == 7 {
            JobType::Teacher
        } else {
            JobType::Student
        }
    }

    /// The job type with index `roll` in declaration order.
    pub fn from_roll(roll: u64) -> (r: JobType)
        requires
            roll < 9,
        ensures
            r == Self::nth(roll as int),
    {
        if roll == 0 {
            JobType::Doctor
        } else if roll == 1 {
            JobType::Programmer
        } else if roll == 2 {
            JobType::Clerk
        } else if roll == 3 {
            JobType::PoliceOfficer
        } else if roll == 4 {
            JobType::FireFighter
        } else if roll == 5 {
            JobType::PublicServant
        } else if roll == 6 {
            JobType::Chef
        } else if roll == 7 {
            JobType::Teacher
        } else {
            JobType::Student
        }
    }

    /// A job type drawn uniformly.
    pub fn generate(rng: &mut rand::rngs::StdRng) -> (r: JobType)
        ensures
            exists|i: int| 0 <= i < 9 && r == Self::nth(i),
    {
        let roll = draw_below(rng, 9);
        Self::from_roll(roll)
    }
}

#[derive(Clone, Copy, Debug, PartialEq, Eq, Structural)]
pub struct Job {
    pub ty: JobType,
    pub location: Option<Position>,
}

/// A stable handle of an agent: its index in the population.
#[derive(Clone, Copy, Debug, Default, PartialEq, Eq, Hash, Structural)]
pub struct PersonId(pub u32);

/// One change to one agent, as sent to the clients.
#[derive(Clone, Debug)]
pub enum PersonUpdate {
    LifeStatus(PersonId, bool),
    Position(PersonId, Position),
    Infected(PersonId, bool),
    Habits(PersonId, PersonHabits),
    Tested(PersonId, bool),
    Vaccinated(PersonId, bool),
}

/// What an agent is doing.
#[derive(Debug)]
pub enum PersonAction {
    Working,
    /// The cells still to step on, last one first, and what to do on arrival.
    Walking(Vec<Position>, Box<PersonAction>),
    /// Shopping until the given minute of the clock.
    Shopping(u32),
    AtHome,
    /// Ticks of partying left.
    Partying(u32),
    /// Ticks of confinement left.
    Lockdown(u32),
}

/// Propensities in thousandths, and the ids of the people one knows.
#[derive(Clone, Debug)]
pub struct PersonHabits {
    pub mask: u32,
    pub hygiene: u32,
    pub socialscore: u32,
    pub vaccination_bias: u32,
    pub acquaintances: Vec<PersonId>,
}

#[derive(Clone, Debug)]
pub struct Person {
    pub alive: bool,
    pub infected: bool,
    pub tick_infected: u64,
    pub tick_last_touched: u64,
    pub tested: bool,
    pub vaccinated: bool,
    pub first_name: String,
    pub last_name: String,
    pub age: u8,
    pub sex: bool,
    pub job: Job,
    pub position: Position,
    pub home: Position,
    pub habits: PersonHabits,
}

/// The numbers drawn for one agent's behaviour on one tick.
#[derive(Clone, Copy, Debug)]
pub struct ActionRolls {
    /// Below `LEAVE_ODDS`; zero lets the agent set off to or from work.
    pub leave: u64,
    /// Below `SHOP_ODDS`; zero sends an idle agent shopping.
    pub shop: u64,
    /// Picks the shop, modulo the number of shops.
    pub shop_pick: u64,
    /// How long the shopping lasts.
    pub shop_minutes: u32,
}

impl ActionRolls {
    pub open spec fn wf(self) -> bool {
        &&& self.leave < LEAVE_ODDS
        &&& self.shop < SHOP_ODDS
        &&& SHOP_MIN_MINUTES <= self.shop_minutes < SHOP_MAX_MINUTES
    }
}

/// A decision of the behaviour machine.
#[derive(Debug)]
pub enum Step {
    Keep,
    Become(PersonAction),
    /// Walk to the cell, then do the action.
    WalkTo(Position, PersonAction),
    /// The walk is over: take up the queued action.
    Arrive,
}

/// The decision for `person` doing `action` in `world`, with the given rolls.
pub open spec fn plan(person: Person, world: World, action: PersonAction, rolls: ActionRolls) -> Step {
    let t = world.time;
    let h = person.job.ty.hours();
    match action {
        PersonAction::AtHome => match person.job.location {
            Some(work) => if h.0 <= t.hours < h.1 && rolls.leave == 0 && !(person.tested
                && person.infected) {
                Step::WalkTo(work, PersonAction::Working)
            } else if t.hours >= h.1 && rolls.shop == 0 {
                match world.first_entry(JobType::Clerk) {
                    Some(i) => {
                        let shops = world.job_locations@[i].1@;
                        if shops.len() > 0 {
                            Step::WalkTo(
                                shops[(rolls.shop_pick % (shops.len() as u64)) as int],
                                PersonAction::Shopping((t.total_minutes() + rolls.shop_minutes) as u32),
                            )
                        } else {
                            Step::Keep
                        }
                    },
                    None => Step::Keep,
                }
            } else {
                Step::Keep
            },
            None => Step::Keep,
        },
        PersonAction::Walking(path, next) => if path@.len() == 0 {
            Step::Become(*next)
        } else {
            Step::Keep
        },
        PersonAction::Working => if t.hours >= h.1 && rolls.leave == 0 {
            Step::WalkTo(person.home, PersonAction::AtHome)
        } else {
            Step::Keep
        },
        PersonAction::Shopping(deadline) => if t.total_minutes() > deadline {
            Step::WalkTo(person.home, PersonAction::AtHome)
        } else {
            Step::Keep
        },
        PersonAction::Partying(left) => if left == 0 {
            Step::WalkTo(person.home, PersonAction::AtHome)
        } else {
            Step::Become(PersonAction::Partying((left - 1) as u32))
        },
        PersonAction::Lockdown(left) => if left == 0 {
            Step::Become(PersonAction::AtHome)
        } else {
            Step::Become(PersonAction::Lockdown((left - 1) as u32))
        },
    }
}

/// `new` walks the route `r` and then does `next`.
pub open spec fn walks(new: PersonAction, r: Seq<Position>, next: PersonAction) -> bool {
    match new {
        PersonAction::Walking(p, n) => p@ == r && *n == next,
        _ => false,
    }
}

/// `new` is what follows `old` under decision `step`, where `routes` holds the
/// route looked up from `from`.
pub open spec fn follows(
    old: PersonAction,
    new: PersonAction,
    step: Step,
    from: Position,
    routes: Map<(Position, Position), Option<Seq<Position>>>,
) -> bool {
    match step {
        Step::Keep => new == old,
        Step::Become(a) => new == a,
        Step::WalkTo(target, next) => {
            &&& routes.contains_key((from, target))
            &&& match routes[(from, target)] {
                Some(r) => walks(new, r, next),
                None => new == old,
            }
        },
        Step::Arrive => false,
    }
}

/// `new` is what an agent at `from` does after being sent to `target`: it walks
/// a shortest route there and then does `next`, or keeps `old` when there is
/// no route.
pub open spec fn sent_to(
    map: crate::map::TileMap,
    old: PersonAction,
    new: PersonAction,
    from: Position,
    target: Position,
    next: PersonAction,
) -> bool {
    if reachable(map, target, from) {
        exists|r: Seq<Position>| is_shortest_route(map, r, target, from) && #[trigger] walks(new, r, next)
    } else {
        new == old
    }
}

/// `new` keeps every entry of `old` and answers rightly for `map` where it adds one.
pub open spec fn extends(
    old: Map<(Position, Position), Option<Seq<Position>>>,
    new: Map<(Position, Position), Option<Seq<Position>>>,
    map: crate::map::TileMap,
) -> bool {
    &&& forall|k: (Position, Position)| #[trigger]
        old.contains_key(k) ==> new.contains_key(k) && new[k] == old[k]
    &&& forall|k: (Position, Position)| #[trigger]
        new.contains_key(k) && !old.contains_key(k) ==> answers(map, k.0, k.1, new[k])
}

/// Entries added by a lookup are right answers, so a cache right for `map`
/// stays right.
pub proof fn lemma_extends_consistent(old: PathCache, new: PathCache, map: crate::map::TileMap)
    requires
        old.consistent_with(map),
        extends(old@, new@, map),
    ensures
        new.consistent_with(map),
{
    assert forall|k: (Position, Position)| #[trigger] new@.contains_key(k) implies answers(map, k.0, k.1, new@[k]) by {
        if old@.contains_key(k) {
            assert(old@.contains_key(k));
        }
    }
}

impl Person {
    /// Same person, but for the acquaintance list.
    pub open spec fn same_but_acquaintances(self, other: Person) -> bool {
        self == Person {
            habits: PersonHabits { acquaintances: self.habits.acquaintances, ..other.habits },
            ..other
        }
    }

    /// A new healthy agent living at `home`, drawn at random.
    pub fn generate(
        rng: &mut rand::rngs::StdRng,
        home: Position,
        job: Job,
        first_name: String,
        last_name: String,
    ) -> (r: Person)
        ensures
            r.alive,
            !r.infected,
            !r.tested,
            !r.vaccinated,
            r.tick_infected == 0,
            r.tick_last_touched == 0,
            r.first_name == first_name,
            r.last_name == last_name,
            18 <= r.age < 80,
            r.job == job,
            r.position == home,
            r.home == home,
            r.habits.mask < 1000,
            r.habits.hygiene < 1000,
            r.habits.vaccination_bias < 1000,
            r.habits.socialscore < 150,
            r.habits.acquaintances@.len() == 0,
    {
        let young = draw_below(rng, 10) >= 3;
        let age: u8 = if young {
            18 + draw_below(rng, 22) as u8
        } else {
            40 + draw_below(rng, 40) as u8
        };
        let sex = draw_below(rng, 2) == 1;
        let mask = draw_below(rng, 1000) as u32;
        let hygiene = draw_below(rng, 1000) as u32;
        let vaccination_bias = draw_below(rng, 1000) as u32;
        let socialscore = draw_below(rng, 150) as u32;
        Person {
            alive: true,
            infected: false,
            vaccinated: false,
            tested: false,
            tick_infected: 0,
            tick_last_touched: 0,
            first_name,
            last_name,
            age,
            sex,
            job,
            position: home,
            home,
            habits: PersonHabits {
                mask,
                hygiene,
                vaccination_bias,
                socialscore,
                acquaintances: Vec::new(),
            },
        }
    }

    /// Adds `id` to the acquaintances, unless it is there already.
    pub fn add_acquaintance(&mut self, id: PersonId)
        ensures
            final(self).same_but_acquaintances(*old(self)),
            final(self).habits.acquaintances@ == (if old(self).habits.acquaintances@.contains(id) {
                old(self).habits.acquaintances@
            } else {
                old(self).habits.acquaintances@.push(id)
            }),
    {
        if !self.knows(id) {
            self.habits.acquaintances.push(id);
        }
    }

    pub fn knows(&self, id: PersonId) -> (r: bool)
        ensures
            r == self.habits.acquaintances@.contains(id),
    {
        let mut i: usize = 0;
        while i < self.habits.acquaintances.len()
            invariant
                i <= self.habits.acquaintances@.len(),
                forall|k: int| 0 <= k < i ==> self.habits.acquaintances@[k] != id,
            decreases self.habits.acquaintances@.len() - i,
        {
            if self.habits.acquaintances[i] == id {
                return true;
            }
            i = i + 1;
        }
        false
    }

    /// The decision of the behaviour machine, without acting on it.
    fn decide(&self, world: &World, action: &PersonAction, rolls: &ActionRolls) -> (r: Step)
        requires
            world.wf(),
            rolls.wf(),
        ensures
            match r {
                Step::Arrive => match *action {
                    PersonAction::Walking(p, n) => p@.len() == 0,
                    _ => false,
                },
                _ => r == plan(*self, *world, *action, *rolls),
            },
    {
        let t = &world.time;
        let wh = self.job.ty.work_hours();
        match action {
            PersonAction::AtHome => match &self.job.location {
                Some(work) => {
                    if t.hours >= wh.start && t.hours < wh.end && rolls.leave == 0 && !(self.tested
                        && self.infected) {
                        Step::WalkTo(*work, PersonAction::Working)
                    } else if t.hours >= wh.end && rolls.shop == 0 {
                        match world.job_sites(JobType::Clerk) {
                            Some(shops) => {
                                if shops.len() > 0 {
                                    let k = (rolls.shop_pick % (shops.len() as u64)) as usize;
                                    let deadline = t.to_minutes() + rolls.shop_minutes;
                                    Step::WalkTo(shops[k], PersonAction::Shopping(deadline))
                                } else {
                                    Step::Keep
                                }
                            },
                            None => Step::Keep,
                        }
                    } else {
                        Step::Keep
                    }
                },
                None => Step::Keep,
            },
            PersonAction::Walking(path, _) => {
                if path.len() == 0 {
                    Step::Arrive
                } else {
                    Step::Keep
                }
            },
            PersonAction::Working => {
                if t.hours >= wh.end && rolls.leave == 0 {
                    Step::WalkTo(self.home, PersonAction::AtHome)
                } else {
                    Step::Keep
                }
            },
            PersonAction::Shopping(deadline) => {
                if t.to_minutes() > *deadline {
                    Step::WalkTo(self.home, PersonAction::AtHome)
                } else {
                    Step::Keep
                }
            },
            PersonAction::Partying(left) => {
                if *left == 0 {
                    Step::WalkTo(self.home, PersonAction::AtHome)
                } else {
                    Step::Become(PersonAction::Partying(*left - 1))
                }
            },
            PersonAction::Lockdown(left) => {
                if *left == 0 {
                    Step::Become(PersonAction::AtHome)
                } else {
                    Step::Become(PersonAction::Lockdown(*left - 1))
                }
            },
        }
    }

    /// Sets off along the cached route from this agent's cell to `target`, if
    /// there is one; otherwise leaves `action` as it is.
    pub fn walk_to(
        &self,
        world: &World,
        path_cache: &mut PathCache,
        action: &mut PersonAction,
        target: Position,
        next: PersonAction,
    )
        requires
            world.wf(),
        ensures
            extends(old(path_cache)@, final(path_cache)@, world.map),
            final(path_cache)@.contains_key((self.position, target)),
            match final(path_cache)@[(self.position, target)] {
                Some(r) => walks(*final(action), r, next),
                None => *final(action) == *old(action),
            },
            old(path_cache).consistent_with(world.map) ==> final(path_cache).consistent_with(
                world.map,
            ) && sent_to(world.map, *old(action), *final(action), self.position, target, next),
    {
        let route = path_cache.get_path(&world.map, self.position, target);
        if let Some(r) = route {
            *action = PersonAction::Walking(r, Box::new(next));
        }
    }

    /// Advances the behaviour machine by one tick, with the given rolls.
    pub fn update_action_with(
        &self,
        world: &World,
        path_cache: &mut PathCache,
        action: &mut PersonAction,
        rolls: &ActionRolls,
    )
        requires
            world.wf(),
            rolls.wf(),
        ensures
            extends(old(path_cache)@, final(path_cache)@, world.map),
            follows(
                *old(action),
                *final(action),
                plan(*self, *world, *old(action), *rolls),
                self.position,
                final(path_cache)@,
            ),
    {
        let step = self.decide(world, action, rolls);
        match step {
            Step::Keep => {},
            Step::Become(a) => {
                *action = a;
            },
            Step::WalkTo(target, next) => {
                self.walk_to(world, path_cache, action, target, next);
            },
            Step::Arrive => {
                let mut taken = PersonAction::AtHome;
                std::mem::swap(&mut taken, action);
                match taken {
                    PersonAction::Walking(_, next) => {
                        *action = *next;
                    },
                    _ => {},
                }
            },
        }
    }

    /// Advances the behaviour machine by one tick, drawing the rolls from `rng`.
    pub fn update_action(
        &self,
        world: &World,
        path_cache: &mut PathCache,
        action: &mut PersonAction,
        rng: &mut rand::rngs::StdRng,
    )
        requires
            world.wf(),
        ensures
            extends(old(path_cache)@, final(path_cache)@, world.map),
            exists|rolls: ActionRolls|
                rolls.wf() && follows(
                    *old(action),
                    *final(action),
                    #[trigger] plan(*self, *world, *old(action), rolls),
                    self.position,
                    final(path_cache)@,
                ),
    {
        let leave = draw_below(rng, LEAVE_ODDS);
        let shop = draw_below(rng, SHOP_ODDS);
        let shop_pick = draw_below(rng, u64::MAX);
        let shop_minutes = SHOP_MIN_MINUTES + draw_below(
            rng,
            (SHOP_MAX_MINUTES - SHOP_MIN_MINUTES) as u64,
        ) as u32;
        let rolls = ActionRolls { leave, shop, shop_pick, shop_minutes };
        self.update_action_with(world, path_cache, action, &rolls);
    }

    /// Moves the agent one cell along its walk, if it is walking somewhere.
    pub fn update(&mut self, id: PersonId, action: &mut PersonAction) -> (r: Option<PersonUpdate>)
        ensures
            match *old(action) {
                PersonAction::Walking(p, n) => if p@.len() > 0 {
                    &&& walks(*final(action), p@.drop_last(), *n)
                    &&& *final(self) == Person { position: p@.last(), ..*old(self) }
                    &&& r == Some(PersonUpdate::Position(id, p@.last()))
                } else {
                    *final(action) == *old(action) && *final(self) == *old(self) && r is None
                },
                _ => *final(action) == *old(action) && *final(self) == *old(self) && r is None,
            },
    {
        let moving = match &*action {
            PersonAction::Walking(path, _) => path.len() > 0,
            _ => false,
        };
        if !moving {
            return None;
        }
        match action {
            PersonAction::Walking(path, _) => match path.pop() {
                Some(p) => {
                    self.position = p;
                    Some(PersonUpdate::Position(id, p))
                },
                None => None,
            },
            _ => None,
        }
    }
}

} // verus!
