use crate::map::Position;
use crate::person::{Person, PersonHabits, PersonId, PersonUpdate};
use crate::session::StateUpdate;
use crate::world::{acquaintances_wf, World};
use vstd::prelude::*;

verus! {

/// Certainty on the scale that infection chances use.
pub const CHANCE_SCALE: u64 = 100_000_000;

/// Chance of transmission per contact before any modifier: 0.15 percent.
pub const BASE_CHANCE: u64 = 150_000;

/// Scale of the propensities in `PersonHabits`.
pub const HABIT_SCALE: u64 = 1000;

/// Ticks an agent waits between two contact evaluations.
pub const CONTACT_COOLDOWN: u64 = 20;

/// Ticks of infection after which an agent dies or recovers.
pub const INFECTION_TICKS: u64 = 604800;

/// Odds, against an agent's age, of dying once the infection has run its course.
pub const DEATH_ODDS: u64 = 500;

/// The numbers drawn for one contact.
#[derive(Clone, Copy, Debug)]
pub struct ContactRolls {
    /// Below `HABIT_SCALE`; the target wears a mask when its propensity exceeds it.
    pub target_mask: u64,
    /// Below `HABIT_SCALE`; likewise for the source.
    pub source_mask: u64,
    /// Below `CHANCE_SCALE`; transmission happens when it is below the chance.
    pub infection: u64,
    /// Below `HABIT_SCALE`; acquaintance forms when the social score exceeds it.
    pub social: u64,
}

impl ContactRolls {
    pub open spec fn wf(self) -> bool {
        &&& self.target_mask < HABIT_SCALE
        &&& self.source_mask < HABIT_SCALE
        &&& self.infection < CHANCE_SCALE
        &&& self.social < HABIT_SCALE
    }
}

/// The chance, out of `CHANCE_SCALE`, that `source` infects `target` in one contact.
pub open spec fn infection_chance(target: Person, source: Person, rolls: ContactRolls) -> int {
    let c0 = BASE_CHANCE as int;
    let c1 = if !target.sex { c0 * 9 / 10 } else { c0 };
    let c2 = if target.infected && target.tested { c1 / 20 } else { c1 };
    let c3 = if target.habits.mask > rolls.target_mask {
        if source.habits.mask > rolls.source_mask { c2 / 2 } else { c2 / 10 }
    } else {
        c2
    };
    let c4 = c3 * (100 + target.age) / 100;
    if target.vaccinated { c4 / 20 } else { c4 }
}

pub fn chance_of_infection(target: &Person, source: &Person, rolls: &ContactRolls) -> (r: u64)
    ensures
        r == infection_chance(*target, *source, *rolls),
        r <= BASE_CHANCE * 4,
{
    let mut c: u64 = BASE_CHANCE;
    if !target.sex {
        c = c * 9 / 10;
    }
    if target.infected && target.tested {
        c = c / 20;
    }
    if target.habits.mask as u64 > rolls.target_mask {
        if source.habits.mask as u64 > rolls.source_mask {
            c = c / 2;
        } else {
            c = c / 10;
        }
    }
    assert(c <= BASE_CHANCE);
    let f: u64 = 100 + target.age as u64;
    assert(c * f <= BASE_CHANCE * 355) by (nonlinear_arith)
        requires
            c <= BASE_CHANCE,
            f <= 355,
    {
    }
    c = c * f / 100;
    if target.vaccinated {
        c = c / 20;
    }
    c
}

/// `u` announces that person `id` now has habits `h`.
pub open spec fn announces_habits(u: PersonUpdate, id: PersonId, h: PersonHabits) -> bool {
    match u {
        PersonUpdate::Habits(i, g) => i == id && g.acquaintances@ == h.acquaintances@ && g.mask
            == h.mask && g.hygiene == h.hygiene && g.socialscore == h.socialscore && g.vaccination_bias
            == h.vaccination_bias,
        _ => false,
    }
}

/// Whether a contact of `target` with `source` is evaluated at `tick`.
pub open spec fn contact_due(target: Person, source: Person, tick: u64) -> bool {
    &&& target.alive
    &&& source.alive
    &&& tick > target.tick_last_touched
    &&& tick - target.tick_last_touched > CONTACT_COOLDOWN
}

/// What one contact evaluation may change of a person: the cooldown mark, the
/// acquaintances, and infection, stamped with the tick it started.
pub open spec fn contact_change(old: Person, new: Person, tick: u64) -> bool {
    &&& new == Person {
        tick_last_touched: new.tick_last_touched,
        infected: new.infected,
        tick_infected: new.tick_infected,
        habits: PersonHabits { acquaintances: new.habits.acquaintances, ..old.habits },
        ..old
    }
    &&& old.infected ==> new.infected
    &&& if new.infected && !old.infected {
        new.tick_infected == tick
    } else {
        new.tick_infected == old.tick_infected
    }
    &&& !old.alive ==> new == old
    &&& new.tick_last_touched != old.tick_last_touched ==> new.tick_last_touched == tick && tick
        > old.tick_last_touched && tick - old.tick_last_touched > CONTACT_COOLDOWN
}

/// Whether `p` can pass the infection on at `tick`: infected before this tick.
pub open spec fn infectious(p: Person, tick: u64) -> bool {
    p.infected && p.tick_infected != tick
}

/// Some other living person, infected before `tick`, stands on the cell of person `k` in `people`.
pub open spec fn infected_by_neighbour(people: Seq<Person>, k: int, tick: u64) -> bool {
    exists|j: int|
        0 <= j < people.len() && j != k && (#[trigger] people[j]).position == people[k].position
            && people[j].alive && people[j].infected && people[j].tick_infected != tick
}

/// `m` names another living person standing on the cell of living person `k` in `people`.
pub open spec fn met_here(people: Seq<Person>, k: int, m: PersonId) -> bool {
    &&& 0 <= m.0 < people.len()
    &&& m.0 != k
    &&& people[m.0 as int].position == people[k].position
    &&& people[m.0 as int].alive
    &&& people[k].alive
}

impl PersonHabits {
    /// A copy of these habits.
    pub fn snapshot(&self) -> (r: PersonHabits)
        ensures
            r.mask == self.mask,
            r.hygiene == self.hygiene,
            r.socialscore == self.socialscore,
            r.vaccination_bias == self.vaccination_bias,
            r.acquaintances@ == self.acquaintances@,
    {
        PersonHabits {
            mask: self.mask,
            hygiene: self.hygiene,
            socialscore: self.socialscore,
            vaccination_bias: self.vaccination_bias,
            acquaintances: self.acquaintances.clone(),
        }
    }
}

impl World {
    /// Persons `i` and `j`, who did not know each other, now do.
    pub fn befriend(&mut self, i: usize, j: usize)
        requires
            old(self).wf(),
            i < old(self).people@.len(),
            j < old(self).people@.len(),
            i != j,
            !old(self).people@[i as int].habits.acquaintances@.contains(PersonId(j as u32)),
        ensures
            final(self).wf(),
            final(self).time == old(self).time,
            final(self).map == old(self).map,
            final(self).locations == old(self).locations,
            final(self).job_locations == old(self).job_locations,
            final(self).people@.len() == old(self).people@.len(),
            forall|k: int|
                0 <= k < old(self).people@.len() && k != i && k != j ==> #[trigger] final(self).people@[k]
                    == old(self).people@[k],
            final(self).people@[i as int].same_but_acquaintances(old(self).people@[i as int]),
            final(self).people@[j as int].same_but_acquaintances(old(self).people@[j as int]),
            final(self).people@[i as int].habits.acquaintances@ == old(self).people@[i as int].habits.acquaintances@.push(
                PersonId(j as u32),
            ),
            final(self).people@[j as int].habits.acquaintances@ == old(self).people@[j as int].habits.acquaintances@.push(
                PersonId(i as u32),
            ),
    {
        let ghost old_people = self.people@;
        proof {
            assert(!old_people[j as int].habits.acquaintances@.contains(PersonId(i as u32))) by {
                if old_people[j as int].habits.acquaintances@.contains(PersonId(i as u32)) {
                    let k = choose|k: int|
                        0 <= k < old_people[j as int].habits.acquaintances@.len()
                            && old_people[j as int].habits.acquaintances@[k] == PersonId(i as u32);
                    assert(old_people[j as int].habits.acquaintances@[k].0 == i);
                }
            }
        }
        self.people[i].add_acquaintance(PersonId(j as u32));
        self.people[j].add_acquaintance(PersonId(i as u32));
        proof {
            let people = self.people@;
            assert forall|a: int| 0 <= a < people.len() implies (#[trigger] people[a]).habits.acquaintances@.no_duplicates() by {
                if a == i || a == j {
                    assert(old_people[a].habits.acquaintances@.no_duplicates());
                }
            }
            assert forall|a: int, k: int|
                0 <= a < people.len() && 0 <= k < people[a].habits.acquaintances@.len() implies {
                    let b = (#[trigger] people[a].habits.acquaintances@[k]).0 as int;
                    &&& 0 <= b < people.len()
                    &&& b != a
                    &&& people[b].habits.acquaintances@.contains(PersonId(a as u32))
                } by {
                let b = people[a].habits.acquaintances@[k].0 as int;
                if (a == i && k == old_people[a].habits.acquaintances@.len()) {
                    assert(people[j as int].habits.acquaintances@.last() == PersonId(i as u32));
                } else if (a == j && k == old_people[a].habits.acquaintances@.len()) {
                    assert(people[i as int].habits.acquaintances@.last() == PersonId(j as u32));
                } else {
                    assert(people[a].habits.acquaintances@[k] == old_people[a].habits.acquaintances@[k]);
                    assert(old_people[b].habits.acquaintances@.contains(PersonId(a as u32)));
                    let w = choose|w: int|
                        0 <= w < old_people[b].habits.acquaintances@.len()
                            && old_people[b].habits.acquaintances@[w] == PersonId(a as u32);
                    assert(people[b].habits.acquaintances@[w] == PersonId(a as u32));
                }
            }
            assert(acquaintances_wf(people));
        }
    }
}

/// A population with the same acquaintance lists as a well-formed one is well-formed.
pub proof fn lemma_same_acquaintances(old: Seq<Person>, new: Seq<Person>)
    requires
        acquaintances_wf(old),
        new.len() == old.len(),
        forall|i: int| 0 <= i < old.len() ==> (#[trigger] new[i]).habits.acquaintances == old[i].habits.acquaintances,
    ensures
        acquaintances_wf(new),
{
    assert forall|i: int, k: int|
        0 <= i < new.len() && 0 <= k < new[i].habits.acquaintances@.len() implies {
            let j = (#[trigger] new[i].habits.acquaintances@[k]).0 as int;
            &&& 0 <= j < new.len()
            &&& j != i
            &&& new[j].habits.acquaintances@.contains(PersonId(i as u32))
        } by {
        assert(new[i].habits.acquaintances == old[i].habits.acquaintances);
        let j = old[i].habits.acquaintances@[k].0 as int;
        assert(new[j].habits.acquaintances == old[j].habits.acquaintances);
    }
    assert forall|i: int| 0 <= i < new.len() implies (#[trigger] new[i]).habits.acquaintances@.no_duplicates() by {
        assert(new[i].habits.acquaintances == old[i].habits.acquaintances);
        assert(old[i].habits.acquaintances@.no_duplicates());
    }
}

/// Whether person `p` is due to die or recover at `tick`.
pub open spec fn outcome_due(p: Person, tick: u64) -> bool {
    &&& p.alive
    &&& p.infected
    &&& tick >= p.tick_infected
    &&& tick - p.tick_infected > INFECTION_TICKS
}

impl Person {
    /// Records a contact evaluation at `tick`, and an infection if `infect`.
    pub fn mark_contact(&mut self, tick: u64, infect: bool)
        ensures
            *final(self) == (Person {
                tick_last_touched: tick,
                infected: old(self).infected || infect,
                tick_infected: if infect { tick } else { old(self).tick_infected },
                ..*old(self)
            }),
    {
        self.tick_last_touched = tick;
        if infect {
            self.infected = true;
            self.tick_infected = tick;
        }
    }

    /// Ends the infection: by death if `dies`, else by recovery.
    pub fn end_infection(&mut self, dies: bool)
        ensures
            *final(self) == (if dies {
                Person { alive: false, ..*old(self) }
            } else {
                Person { infected: false, ..*old(self) }
            }),
    {
        if dies {
            self.alive = false;
        } else {
            self.infected = false;
        }
    }

    /// Records a visit to a test centre (`tested`) or a vaccine centre (`vaccinated`).
    pub fn mark_screened(&mut self, tested: bool, vaccinated: bool)
        ensures
            *final(self) == (Person {
                tested: old(self).tested || tested,
                vaccinated: old(self).vaccinated || vaccinated,
                ..*old(self)
            }),
    {
        if tested {
            self.tested = true;
        }
        if vaccinated {
            self.vaccinated = true;
        }
    }
}

/// Whether `cells` holds `p`.
pub fn holds(cells: &Vec<Position>, p: Position) -> (r: bool)
    ensures
        r == cells@.contains(p),
{
    let mut i: usize = 0;
    while i < cells.len()
        invariant
            i <= cells@.len(),
            forall|k: int| 0 <= k < i ==> cells@[k] != p,
        decreases cells@.len() - i,
    {
        if cells[i] == p {
            return true;
        }
        i = i + 1;
    }
    false
}

/// Only the people of the world differ, and not in number.
pub open spec fn same_but_people(old: World, new: World) -> bool {
    &&& new.time == old.time
    &&& new.map == old.map
    &&& new.locations == old.locations
    &&& new.job_locations == old.job_locations
    &&& new.people@.len() == old.people@.len()
}

impl World {
    /// Evaluates one contact of person `target` with person `source` at `tick`:
    /// a possible transmission, and a possible new mutual acquaintance.
    pub fn touch(
        &mut self,
        target: usize,
        source: usize,
        tick: u64,
        rolls: &ContactRolls,
        updates: &mut Vec<StateUpdate>,
    )
        requires
            old(self).wf(),
            target < old(self).people@.len(),
            source < old(self).people@.len(),
            target != source,
            rolls.wf(),
        ensures
            final(self).wf(),
            same_but_people(*old(self), *final(self)),
            ({
                let p = old(self).people@[target as int];
                let q = old(self).people@[source as int];
                let infect = infectious(q, tick) && !p.infected && rolls.infection < infection_chance(p, q, *rolls);
                let meet = p.habits.socialscore > rolls.social && !p.habits.acquaintances@.contains(
                    PersonId(source as u32),
                );
                let n = old(updates)@.len();
                if !contact_due(p, q, tick) {
                    final(self).people == old(self).people && final(updates)@ == old(updates)@
                } else {
                    &&& forall|k: int|
                        0 <= k < old(self).people@.len() && k != target && k != source
                            ==> #[trigger] final(self).people@[k] == old(self).people@[k]
                    &&& final(self).people@[target as int].same_but_acquaintances(
                        Person {
                            tick_last_touched: tick,
                            infected: p.infected || infect,
                            tick_infected: if infect { tick } else { p.tick_infected },
                            ..p
                        },
                    )
                    &&& final(self).people@[target as int].habits.acquaintances@ == (if meet {
                        p.habits.acquaintances@.push(PersonId(source as u32))
                    } else {
                        p.habits.acquaintances@
                    })
                    &&& final(self).people@[source as int].same_but_acquaintances(q)
                    &&& final(self).people@[source as int].habits.acquaintances@ == (if meet {
                        q.habits.acquaintances@.push(PersonId(target as u32))
                    } else {
                        q.habits.acquaintances@
                    })
                    &&& final(updates)@.len() == n + (if infect { 1int } else { 0 }) + (if meet { 2int } else { 0 })
                    &&& final(updates)@.subrange(0, n as int) == old(updates)@
                    &&& infect ==> final(updates)@[n as int] == StateUpdate::PersonUpdate(
                        PersonUpdate::Infected(PersonId(target as u32), true),
                    )
                    &&& meet ==> {
                        let m: int = if infect { n as int + 1 } else { n as int };
                        &&& final(updates)@[m] matches StateUpdate::PersonUpdate(u)
                            && announces_habits(u, PersonId(target as u32), final(self).people@[target as int].habits)
                        &&& final(updates)@[m + 1] matches StateUpdate::PersonUpdate(u)
                            && announces_habits(u, PersonId(source as u32), final(self).people@[source as int].habits)
                    }
                }
            }),
    {
        let due = {
            let p = &self.people[target];
            let q = &self.people[source];
            p.alive && q.alive && tick > p.tick_last_touched && tick - p.tick_last_touched > CONTACT_COOLDOWN
        };
        if !due {
            return;
        }
        let chance = chance_of_infection(&self.people[target], &self.people[source], rolls);
        let infect = self.people[source].infected && self.people[source].tick_infected != tick
            && !self.people[target].infected && rolls.infection
            < chance;
        let meet = (self.people[target].habits.socialscore as u64) > rolls.social
            && !self.people[target].knows(PersonId(source as u32));
        let ghost before = self.people@;
        self.people[target].mark_contact(tick, infect);
        proof {
            lemma_same_acquaintances(before, self.people@);
        }
        let ghost n = updates@.len();
        if infect {
            updates.push(StateUpdate::PersonUpdate(PersonUpdate::Infected(PersonId(target as u32), true)));
        }
        if meet {
            self.befriend(target, source);
            let ht = self.people[target].habits.snapshot();
            updates.push(StateUpdate::PersonUpdate(PersonUpdate::Habits(PersonId(target as u32), ht)));
            let hs = self.people[source].habits.snapshot();
            updates.push(StateUpdate::PersonUpdate(PersonUpdate::Habits(PersonId(source as u32), hs)));
        }
        proof {
            assert(updates@.subrange(0, n as int) =~= old(updates)@);
        }
    }

    /// Ends the infection of person `i` if it has run its course by `tick`: it
    /// dies when `death_roll` is below its age, and recovers otherwise.
    pub fn resolve(&mut self, i: usize, tick: u64, death_roll: u64, updates: &mut Vec<StateUpdate>)
        requires
            old(self).wf(),
            i < old(self).people@.len(),
        ensures
            final(self).wf(),
            same_but_people(*old(self), *final(self)),
            forall|k: int| 0 <= k < old(self).people@.len() && k != i ==> #[trigger] final(self).people@[k] == old(self).people@[k],
            ({
                let p = old(self).people@[i as int];
                if !outcome_due(p, tick) {
                    final(self).people@[i as int] == p && final(updates)@ == old(updates)@
                } else if death_roll < p.age {
                    &&& final(self).people@[i as int] == Person { alive: false, ..p }
                    &&& final(updates)@ == old(updates)@.push(StateUpdate::PersonUpdate(PersonUpdate::LifeStatus(PersonId(i as u32), false)))
                } else {
                    &&& final(self).people@[i as int] == Person { infected: false, ..p }
                    &&& final(updates)@ == old(updates)@.push(StateUpdate::PersonUpdate(PersonUpdate::Infected(PersonId(i as u32), false)))
                }
            }),
    {
        let due = {
            let p = &self.people[i];
            p.alive && p.infected && tick >= p.tick_infected && tick - p.tick_infected > INFECTION_TICKS
        };
        if !due {
            return;
        }
        let dies = death_roll < self.people[i].age as u64;
        let ghost before = self.people@;
        self.people[i].end_infection(dies);
        proof {
            lemma_same_acquaintances(before, self.people@);
        }
        if dies {
            updates.push(StateUpdate::PersonUpdate(PersonUpdate::LifeStatus(PersonId(i as u32), false)));
        } else {
            updates.push(StateUpdate::PersonUpdate(PersonUpdate::Infected(PersonId(i as u32), false)));
        }
    }

    /// Marks person `i` tested when it stands on a test centre, and vaccinated
    /// when it stands on a vaccine centre.
    pub fn screen(
        &mut self,
        i: usize,
        test_centers: &Vec<Position>,
        vaccine_centers: &Vec<Position>,
        updates: &mut Vec<StateUpdate>,
    )
        requires
            old(self).wf(),
            i < old(self).people@.len(),
        ensures
            final(self).wf(),
            same_but_people(*old(self), *final(self)),
            forall|k: int| 0 <= k < old(self).people@.len() && k != i ==> #[trigger] final(self).people@[k] == old(self).people@[k],
            ({
                let p = old(self).people@[i as int];
                let t = p.alive && !p.tested && test_centers@.contains(p.position);
                let v = p.alive && !p.vaccinated && vaccine_centers@.contains(p.position);
                let id = PersonId(i as u32);
                &&& final(self).people@[i as int] == Person { tested: p.tested || t, vaccinated: p.vaccinated || v, ..p }
                &&& final(updates)@ == old(updates)@
                    + (if t { seq![StateUpdate::PersonUpdate(PersonUpdate::Tested(id, true))] } else { seq![] })
                    + (if v { seq![StateUpdate::PersonUpdate(PersonUpdate::Vaccinated(id, true))] } else { seq![] })
            }),
    {
        let p = &self.people[i];
        let pos = p.position;
        let t = p.alive && !p.tested && holds(test_centers, pos);
        let v = p.alive && !p.vaccinated && holds(vaccine_centers, pos);
        let ghost before = self.people@;
        let ghost n = updates@;
        self.people[i].mark_screened(t, v);
        proof {
            lemma_same_acquaintances(before, self.people@);
        }
        let id = PersonId(i as u32);
        if t {
            updates.push(StateUpdate::PersonUpdate(PersonUpdate::Tested(id, true)));
        }
        let ghost mid = updates@;
        if v {
            updates.push(StateUpdate::PersonUpdate(PersonUpdate::Vaccinated(id, true)));
        }
        proof {
            if t {
                assert(mid =~= n + seq![StateUpdate::PersonUpdate(PersonUpdate::Tested(id, true))]);
            } else {
                assert(mid =~= n + seq![]);
            }
            if v {
                assert(updates@ =~= mid + seq![StateUpdate::PersonUpdate(PersonUpdate::Vaccinated(id, true))]);
            } else {
                assert(updates@ =~= mid + seq![]);
            }
        }
    }
}

/// `groups` gathers people by cell: each group lists people standing on its
/// cell, no two groups share a cell, and everyone of the first `n` is listed.
pub open spec fn groups_people(groups: Seq<(Position, Vec<PersonId>)>, people: Seq<Person>, n: int) -> bool {
    &&& forall|g: int, k: int|
        0 <= g < groups.len() && 0 <= k < groups[g].1@.len() ==> {
            let id = (#[trigger] groups[g].1@[k]).0 as int;
            0 <= id < n && people[id].position == groups[g].0
        }
    &&& forall|g: int, h: int|
        0 <= g < groups.len() && 0 <= h < groups.len() && g != h ==> #[trigger] groups[g].0 != #[trigger] groups[h].0
    &&& forall|i: int| 0 <= i < n ==> #[trigger] listed(groups, i)
}

/// Person `i` appears in some group.
pub open spec fn listed(groups: Seq<(Position, Vec<PersonId>)>, i: int) -> bool {
    exists|g: int, k: int|
        0 <= g < groups.len() && 0 <= k < groups[g].1@.len() && #[trigger] groups[g].1@[k] == PersonId(i as u32)
}

impl World {
    /// The people of the world, gathered by the cell they stand on.
    pub fn person_locations(&self) -> (r: Vec<(Position, Vec<PersonId>)>)
        requires
            self.wf(),
        ensures
            groups_people(r@, self.people@, self.people@.len() as int),
    {
        let mut groups: Vec<(Position, Vec<PersonId>)> = Vec::new();
        let n = self.people.len();
        let mut i: usize = 0;
        while i < n
            invariant
                i <= n,
                n == self.people@.len(),
                n <= u32::MAX,
                groups_people(groups@, self.people@, i as int),
            decreases n - i,
        {
            let pos = self.people[i].position;
            let id = PersonId(i as u32);
            let mut g: usize = 0;
            while g < groups.len()
                invariant
                    g <= groups@.len(),
                    forall|h: int| 0 <= h < g ==> (#[trigger] groups@[h]).0 != pos,
                ensures
                    g <= groups@.len(),
                    forall|h: int| 0 <= h < g ==> (#[trigger] groups@[h]).0 != pos,
                    g < groups@.len() ==> groups@[g as int].0 == pos,
                decreases groups@.len() - g,
            {
                if groups[g].0 == pos {
                    break;
                }
                g = g + 1;
            }
            let ghost old_groups = groups@;
            if g < groups.len() {
                let mut entry: (Position, Vec<PersonId>) = (pos, Vec::new());
                std::mem::swap(&mut entry, &mut groups[g]);
                entry.1.push(id);
                groups.set(g, entry);
                proof {
                    assert(groups@[g as int].0 == pos);
                    assert(groups@[g as int].1@ == old_groups[g as int].1@.push(id));
                    assert forall|a: int| 0 <= a < groups@.len() && a != g implies #[trigger] groups@[a] == old_groups[a] by {}
                    assert forall|a: int, k: int|
                        0 <= a < groups@.len() && 0 <= k < groups@[a].1@.len() implies {
                            let j = (#[trigger] groups@[a].1@[k]).0 as int;
                            0 <= j < i + 1 && self.people@[j].position == groups@[a].0
                        } by {
                        if a != g || k < old_groups[a].1@.len() {
                            assert(groups@[a].1@[k] == old_groups[a].1@[k]);
                        }
                    }
                    assert forall|x: int| 0 <= x < i + 1 implies #[trigger] listed(groups@, x) by {
                        if x < i {
                            assert(listed(old_groups, x));
                            let (a, k) = choose|a: int, k: int|
                                0 <= a < old_groups.len() && 0 <= k < old_groups[a].1@.len()
                                    && #[trigger] old_groups[a].1@[k] == PersonId(x as u32);
                            assert(groups@[a].1@[k] == PersonId(x as u32));
                        } else {
                            assert(groups@[g as int].1@[old_groups[g as int].1@.len() as int] == PersonId(x as u32));
                        }
                    }
                }
            } else {
                let mut members: Vec<PersonId> = Vec::new();
                members.push(id);
                groups.push((pos, members));
                proof {
                    assert forall|a: int, k: int|
                        0 <= a < groups@.len() && 0 <= k < groups@[a].1@.len() implies {
                            let j = (#[trigger] groups@[a].1@[k]).0 as int;
                            0 <= j < i + 1 && self.people@[j].position == groups@[a].0
                        } by {
                        if a < old_groups.len() {
                            assert(groups@[a] == old_groups[a]);
                        }
                    }
                    assert forall|a: int, b: int|
                        0 <= a < groups@.len() && 0 <= b < groups@.len() && a != b implies #[trigger] groups@[a].0
                            != #[trigger] groups@[b].0 by {
                        if a < old_groups.len() && b < old_groups.len() {
                            assert(groups@[a] == old_groups[a]);
                            assert(groups@[b] == old_groups[b]);
                        } else if a < old_groups.len() {
                            assert(groups@[a] == old_groups[a]);
                        } else {
                            assert(groups@[b] == old_groups[b]);
                        }
                    }
                    assert forall|x: int| 0 <= x < i + 1 implies #[trigger] listed(groups@, x) by {
                        if x < i {
                            assert(listed(old_groups, x));
                            let (a, k) = choose|a: int, k: int|
                                0 <= a < old_groups.len() && 0 <= k < old_groups[a].1@.len()
                                    && #[trigger] old_groups[a].1@[k] == PersonId(x as u32);
                            assert(groups@[a] == old_groups[a]);
                            assert(groups@[a].1@[k] == PersonId(x as u32));
                        } else {
                            assert(groups@[old_groups.len() as int].1@[0] == PersonId(x as u32));
                        }
                    }
                }
            }
            i = i + 1;
        }
        groups
    }
}

} // verus!
