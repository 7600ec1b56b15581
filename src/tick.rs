use crate::contact::{
    contact_change, contact_due, CONTACT_COOLDOWN, infected_by_neighbour, infection_chance, infectious, met_here, groups_people, lemma_same_acquaintances, outcome_due, ContactRolls,
    CHANCE_SCALE, DEATH_ODDS, HABIT_SCALE,
};
use crate::map::Position;
use crate::person::{
    extends, follows, lemma_extends_consistent, plan, walks, ActionRolls, Person, PersonAction, PersonId,
    PersonUpdate, Step,
};
use crate::random::draw_below;
use crate::session::{
    command_applied, lemma_tiles_appended_trans, same_clock_and_people, tiles_appended, GameSession, PlayerSession, PlayerUpdate, StateUpdate,
};
use vstd::prelude::*;

verus! {

/// How one tick may change a person, from `old` to `new`: infection starts
/// only at `tick` and is stamped with it, an infection ends (by recovery or
/// death, never both) only once it has run its course, the contact cooldown
/// mark moves only to `tick` and only once the cooldown has passed, and the
/// dead stay exactly as they were.
pub open spec fn tick_change(old: Person, new: Person, tick: u64) -> bool {
    &&& !old.alive ==> new == old
    &&& !(old.infected && !new.infected && old.alive && !new.alive)
    &&& new.tick_last_touched != old.tick_last_touched ==> new.tick_last_touched == tick && tick
        > old.tick_last_touched && tick - old.tick_last_touched > CONTACT_COOLDOWN
    &&& if new.infected && !old.infected {
        new.tick_infected == tick
    } else {
        new.tick_infected == old.tick_infected
    }
    &&& old.infected && !new.infected ==> outcome_due(old, tick)
    &&& old.alive && !new.alive ==> outcome_due(old, tick)
    &&& !old.alive ==> !new.alive
    &&& old.tested ==> new.tested
    &&& old.vaccinated ==> new.vaccinated
    &&& new.age == old.age
    &&& new.sex == old.sex
    &&& new.home == old.home
    &&& new.job == old.job
}

/// What the screening pass may change: the tested and vaccinated flags, upwards.
pub open spec fn screen_change(old: Person, new: Person) -> bool {
    &&& new == Person { tested: new.tested, vaccinated: new.vaccinated, ..old }
    &&& old.tested ==> new.tested
    &&& old.vaccinated ==> new.vaccinated
    &&& !old.alive ==> new == old
}

/// What the outcome pass may change: nothing, or an infection that has run its
/// course ends by death or recovery.
pub open spec fn resolve_change(old: Person, new: Person, tick: u64) -> bool {
    ||| new == old
    ||| outcome_due(old, tick) && (new == Person { alive: false, ..old } || new == Person {
        infected: false,
        ..old
    })
}

/// What the movement pass may change: the position.
pub open spec fn move_change(old: Person, new: Person) -> bool {
    &&& new == Person { position: new.position, ..old }
    &&& !old.alive ==> new == old
}

/// One step of movement: a walker with cells left steps onto the last of them
/// and drops it from its route; any other action stays, and so does the agent.
pub open spec fn moved(action: PersonAction, new_action: PersonAction, from: Position, to: Position) -> bool {
    match action {
        PersonAction::Walking(p, n) => if p@.len() > 0 {
            walks(new_action, p@.drop_last(), *n) && to == p@.last()
        } else {
            new_action == action && to == from
        },
        _ => new_action == action && to == from,
    }
}

/// What the behaviour step does to living person `i` of `s`, whose action
/// becomes `new`: it follows the plan for some valid rolls, with routes as
/// `routes` holds them.
pub open spec fn acted(s: GameSession, i: int, new: PersonAction, routes: Map<(Position, Position), Option<Seq<Position>>>) -> bool {
    exists|rolls: ActionRolls|
        rolls.wf() && follows(
            s.people_actions@[i],
            new,
            #[trigger] plan(s.world.people@[i], s.world, s.people_actions@[i], rolls),
            s.world.people@[i].position,
            routes,
        )
}

proof fn lemma_follows_extends(
    old: PersonAction,
    new: PersonAction,
    step: Step,
    from: Position,
    r1: Map<(Position, Position), Option<Seq<Position>>>,
    r2: Map<(Position, Position), Option<Seq<Position>>>,
    map: crate::map::TileMap,
)
    requires
        follows(old, new, step, from, r1),
        extends(r1, r2, map),
    ensures
        follows(old, new, step, from, r2),
{
    match step {
        Step::WalkTo(target, next) => {
            assert(r1.contains_key((from, target)));
        },
        _ => {},
    }
}

/// `log` grows from `base` with changes that are all of the given kinds.
proof fn lemma_kinds_extend(base: Seq<StateUpdate>, log: Seq<StateUpdate>, log2: Seq<StateUpdate>)
    requires
        updates_kinds_ok(log, base),
        log2.len() >= log.len(),
        log2.subrange(0, log.len() as int) == log,
        forall|k: int| log.len() <= k < log2.len() ==> (#[trigger] log2[k] is TileUpdate || log2[k] is PersonUpdate),
    ensures
        updates_kinds_ok(log2, base),
{
    assert forall|k: int| 0 <= k < log.len() implies log2[k] == log[k] by {
        assert(log2.subrange(0, log.len() as int)[k] == log[k]);
    }
    assert(log2.subrange(0, base.len() as int) =~= log.subrange(0, base.len() as int));
    assert forall|k: int| base.len() <= k < log2.len() implies (#[trigger] log2[k] is TileUpdate || log2[k] is PersonUpdate) by {
        if k < log.len() {
            assert(log2[k] == log[k]);
        }
    }
}

proof fn lemma_extends_trans(
    a: Map<(Position, Position), Option<Seq<Position>>>,
    b: Map<(Position, Position), Option<Seq<Position>>>,
    c: Map<(Position, Position), Option<Seq<Position>>>,
    map: crate::map::TileMap,
)
    requires
        extends(a, b, map),
        extends(b, c, map),
    ensures
        extends(a, c, map),
{
    assert forall|k: (Position, Position)| #[trigger] c.contains_key(k) && !a.contains_key(k) implies crate::path::answers(map, k.0, k.1, c[k]) by {
        if b.contains_key(k) {
            assert(b.contains_key(k));
        }
    }
}

proof fn lemma_contact_change_trans(a: Person, b: Person, c: Person, tick: u64)
    requires
        contact_change(a, b, tick),
        contact_change(b, c, tick),
    ensures
        contact_change(a, c, tick),
{
}

proof fn lemma_passes_compose(s0: Person, s1: Person, s2: Person, s3: Person, s4: Person, tick: u64)
    requires
        screen_change(s0, s1),
        contact_change(s1, s2, tick),
        resolve_change(s2, s3, tick),
        move_change(s3, s4),
    ensures
        tick_change(s0, s4, tick),
{
}

/// How the contact pass may change the people `old` into `cur`: per person as
/// `contact_change` allows, a new infection only beside an infectious
/// neighbour, and a new acquaintance only between two living people on one cell.
pub open spec fn contact_pass_ok(old: Seq<Person>, cur: Seq<Person>, tick: u64) -> bool {
    &&& cur.len() == old.len()
    &&& forall|k: int| 0 <= k < old.len() ==> contact_change(old[k], #[trigger] cur[k], tick)
    &&& forall|k: int|
        0 <= k < old.len() && (#[trigger] cur[k]).infected && !old[k].infected ==> infected_by_neighbour(old, k, tick)
    &&& forall|k: int, m: PersonId|
        0 <= k < old.len() && (#[trigger] cur[k].habits.acquaintances@.contains(m)) && !old[k].habits.acquaintances@.contains(m)
            ==> met_here(old, k, m)
}

/// `log` extends `base` with tile and person changes only.
pub open spec fn updates_kinds_ok(log: Seq<StateUpdate>, base: Seq<StateUpdate>) -> bool {
    &&& log.len() >= base.len()
    &&& log.subrange(0, base.len() as int) == base
    &&& forall|k: int| base.len() <= k < log.len() ==> (#[trigger] log[k] is TileUpdate || log[k] is PersonUpdate)
}

proof fn lemma_touch_step(
    start: Seq<Person>,
    before: Seq<Person>,
    after: Seq<Person>,
    log: Seq<StateUpdate>,
    log2: Seq<StateUpdate>,
    base: Seq<StateUpdate>,
    target: int,
    source: int,
    tick: u64,
    rolls: ContactRolls,
)
    requires
        contact_pass_ok(start, before, tick),
        updates_kinds_ok(log, base),
        start.len() <= u32::MAX,
        0 <= target < start.len(),
        0 <= source < start.len(),
        target != source,
        start[source].position == start[target].position,
        after.len() == before.len(),
        ({
            let p = before[target];
            let q = before[source];
            let infect = infectious(q, tick) && !p.infected && rolls.infection < infection_chance(p, q, rolls);
            let meet = p.habits.socialscore > rolls.social && !p.habits.acquaintances@.contains(PersonId(source as u32));
            let n = log.len();
            if !contact_due(p, q, tick) {
                after == before && log2 == log
            } else {
                &&& forall|k: int| 0 <= k < before.len() && k != target && k != source ==> #[trigger] after[k] == before[k]
                &&& after[target].same_but_acquaintances(Person {
                    tick_last_touched: tick,
                    infected: p.infected || infect,
                    tick_infected: if infect { tick } else { p.tick_infected },
                    ..p
                })
                &&& after[target].habits.acquaintances@ == (if meet { p.habits.acquaintances@.push(PersonId(source as u32)) } else { p.habits.acquaintances@ })
                &&& after[source].same_but_acquaintances(q)
                &&& after[source].habits.acquaintances@ == (if meet { q.habits.acquaintances@.push(PersonId(target as u32)) } else { q.habits.acquaintances@ })
                &&& log2.len() == n + (if infect { 1int } else { 0 }) + (if meet { 2int } else { 0 })
                &&& log2.subrange(0, n as int) == log
                &&& infect ==> log2[n as int] == StateUpdate::PersonUpdate(PersonUpdate::Infected(PersonId(target as u32), true))
                &&& meet ==> {
                    let m: int = if infect { n as int + 1 } else { n as int };
                    &&& log2[m] matches StateUpdate::PersonUpdate(u)
                    &&& log2[m + 1] matches StateUpdate::PersonUpdate(u)
                }
            }
        }),
    ensures
        contact_pass_ok(start, after, tick),
        updates_kinds_ok(log2, base),
{
    let p = before[target];
    let q = before[source];
    if contact_due(p, q, tick) {
        let infect = infectious(q, tick) && !p.infected && rolls.infection < infection_chance(p, q, rolls);
        assert(contact_change(start[source], q, tick));
        assert(contact_change(start[target], p, tick));
        assert(start[source].alive && start[target].alive);
        assert forall|k: int| 0 <= k < start.len() implies contact_change(start[k], #[trigger] after[k], tick) by {
            if k == target || k == source {
                lemma_contact_change_trans(start[k], before[k], after[k], tick);
            } else {
                assert(after[k] == before[k]);
            }
        }
        assert forall|k: int|
            0 <= k < start.len() && (#[trigger] after[k]).infected && !start[k].infected implies infected_by_neighbour(start, k, tick) by {
            if k == target && infect {
                assert(start[source].infected && start[source].tick_infected != tick);
                assert(start[source].position == start[k].position);
            } else if k == target {
                assert(before[k].infected);
            } else if k == source {
                assert(before[k].infected);
            } else {
                assert(after[k] == before[k]);
            }
        }
        assert forall|k: int, m: PersonId|
            0 <= k < start.len() && (#[trigger] after[k].habits.acquaintances@.contains(m))
                && !start[k].habits.acquaintances@.contains(m) implies met_here(start, k, m) by {
            if k == target {
                if !before[k].habits.acquaintances@.contains(m) {
                    let w = choose|w: int| 0 <= w < after[k].habits.acquaintances@.len() && after[k].habits.acquaintances@[w] == m;
                    assert(m == PersonId(source as u32));
                    assert(m.0 == source);
                } else {
                    assert(before[k].habits.acquaintances@.contains(m));
                }
            } else if k == source {
                if !before[k].habits.acquaintances@.contains(m) {
                    let w = choose|w: int| 0 <= w < after[k].habits.acquaintances@.len() && after[k].habits.acquaintances@[w] == m;
                    assert(m == PersonId(target as u32));
                    assert(m.0 == target);
                } else {
                    assert(before[k].habits.acquaintances@.contains(m));
                }
            } else {
                assert(after[k] == before[k]);
            }
        }
        let n = log.len();
        assert(log2.subrange(0, base.len() as int) =~= log.subrange(0, base.len() as int)) by {
            assert forall|k: int| 0 <= k < base.len() implies log2[k] == log[k] by {
                assert(log2.subrange(0, n as int)[k] == log[k]);
            }
        }
        assert forall|k: int| base.len() <= k < log2.len() implies (#[trigger] log2[k] is TileUpdate || log2[k] is PersonUpdate) by {
            if k < n {
                assert(log2.subrange(0, n as int)[k] == log[k]);
            }
        }
    }
}

impl GameSession {
    /// Moves every living person one step of its behaviour machine.
    fn advance_actions(&mut self, rng: &mut rand::rngs::StdRng)
        requires
            old(self).wf(),
        ensures
            final(self).wf(),
            final(self).world == old(self).world,
            final(self).player1 == old(self).player1,
            final(self).player2 == old(self).player2,
            final(self).tick_count == old(self).tick_count,
            final(self).tick_rate == old(self).tick_rate,
            final(self).age == old(self).age,
            final(self).test_centers == old(self).test_centers,
            final(self).vaccine_centers == old(self).vaccine_centers,
            extends(old(self).path_cache@, final(self).path_cache@, old(self).world.map),
            final(self).people_actions@.len() == old(self).people_actions@.len(),
            forall|i: int|
                0 <= i < old(self).people_actions@.len() ==> if old(self).world.people@[i].alive {
                    acted(*old(self), i, #[trigger] final(self).people_actions@[i], final(self).path_cache@)
                } else {
                    final(self).people_actions@[i] == old(self).people_actions@[i]
                },
    {
        let n = self.world.people.len();
        let mut i: usize = 0;
        while i < n
            invariant
                self.wf(),
                i <= n,
                n == self.world.people@.len(),
                extends(old(self).path_cache@, self.path_cache@, old(self).world.map),
                self.people_actions@.len() == n,
                forall|k: int|
                    0 <= k < n ==> if k < i && old(self).world.people@[k].alive {
                        acted(*old(self), k, #[trigger] self.people_actions@[k], self.path_cache@)
                    } else {
                        self.people_actions@[k] == old(self).people_actions@[k]
                    },
                self.world == old(self).world,
                self.player1 == old(self).player1,
                self.player2 == old(self).player2,
                self.tick_count == old(self).tick_count,
                self.tick_rate == old(self).tick_rate,
                self.age == old(self).age,
                self.test_centers == old(self).test_centers,
                self.vaccine_centers == old(self).vaccine_centers,
            decreases n - i,
        {
            if self.world.people[i].alive {
                let ghost cache = self.path_cache;
                let ghost acts = self.people_actions@;
                self.world.people[i].update_action(
                    &self.world,
                    &mut self.path_cache,
                    &mut self.people_actions[i],
                    rng,
                );
                proof {
                    lemma_extends_consistent(cache, self.path_cache, self.world.map);
                    lemma_extends_trans(old(self).path_cache@, cache@, self.path_cache@, self.world.map);
                    assert forall|k: int|
                        0 <= k < n implies if k < i + 1 && old(self).world.people@[k].alive {
                            acted(*old(self), k, #[trigger] self.people_actions@[k], self.path_cache@)
                        } else {
                            self.people_actions@[k] == old(self).people_actions@[k]
                        } by {
                        if k < i && old(self).world.people@[k].alive {
                            assert(self.people_actions@[k] == acts[k]);
                            let rolls = choose|rolls: ActionRolls|
                                rolls.wf() && follows(
                                    old(self).people_actions@[k],
                                    acts[k],
                                    #[trigger] plan(old(self).world.people@[k], old(self).world, old(self).people_actions@[k], rolls),
                                    old(self).world.people@[k].position,
                                    cache@,
                                );
                            lemma_follows_extends(
                                old(self).people_actions@[k],
                                acts[k],
                                plan(old(self).world.people@[k], old(self).world, old(self).people_actions@[k], rolls),
                                old(self).world.people@[k].position,
                                cache@,
                                self.path_cache@,
                                self.world.map,
                            );
                        } else if k == i {
                            assert(acts[k] == old(self).people_actions@[k]);
                        } else {
                            assert(self.people_actions@[k] == acts[k]);
                        }
                    }
                }
            }
            i = i + 1;
        }
    }
}

/// Nothing but the people differs, and their number stays.
pub open spec fn only_people_change(old: GameSession, new: GameSession) -> bool {
    &&& new.world.time == old.world.time
    &&& new.world.map == old.world.map
    &&& new.world.locations == old.world.locations
    &&& new.world.job_locations == old.world.job_locations
    &&& new.world.people@.len() == old.world.people@.len()
    &&& new.people_actions == old.people_actions
    &&& new.path_cache == old.path_cache
    &&& new.player1 == old.player1
    &&& new.player2 == old.player2
    &&& new.tick_count == old.tick_count
    &&& new.tick_rate == old.tick_rate
    &&& new.age == old.age
    &&& new.test_centers == old.test_centers
    &&& new.vaccine_centers == old.vaccine_centers
}

impl GameSession {
    /// Marks everyone standing on a test or vaccine centre.
    fn screen_all(&mut self, updates: &mut Vec<StateUpdate>)
        requires
                old(self).wf(),
        ensures
                final(self).wf(),
                only_people_change(*old(self), *final(self)),
                forall|i: int|
                    0 <= i < old(self).world.people@.len() ==> screen_change(
                old(self).world.people@[i],
                #[trigger] final(self).world.people@[i],
                    ),
                forall|i: int|
                    0 <= i < old(self).world.people@.len() && old(self).world.people@[i].alive ==> (
                    old(self).test_centers@.contains(old(self).world.people@[i].position)
                ==> (#[trigger] final(self).world.people@[i]).tested) && (old(self).vaccine_centers@.contains(
                    old(self).world.people@[i].position) ==> final(self).world.people@[i].vaccinated),
                updates_kinds_ok(final(updates)@, old(updates)@),
    {
        let n = self.world.people.len();
        assert(updates@.subrange(0, updates@.len() as int) =~= updates@);
        let mut i: usize = 0;
        while i < n
                invariant
                    self.wf(),
                    i <= n,
                    n == self.world.people@.len(),
                    only_people_change(*old(self), *self),
                    forall|k: int|
                0 <= k < n ==> if k < i {
                    &&& screen_change(old(self).world.people@[k], #[trigger] self.world.people@[k])
                    &&& old(self).world.people@[k].alive ==> (old(self).test_centers@.contains(
                        old(self).world.people@[k].position) ==> self.world.people@[k].tested) && (
                    old(self).vaccine_centers@.contains(old(self).world.people@[k].position)
                        ==> self.world.people@[k].vaccinated)
                } else {
                    self.world.people@[k] == old(self).world.people@[k]
                },
                    updates_kinds_ok(updates@, old(updates)@),
                decreases n - i,
        {
                let ghost log = updates@;
                self.world.screen(i, &self.test_centers, &self.vaccine_centers, updates);
                proof {
                    assert(updates@.subrange(0, log.len() as int) =~= log);
                    lemma_kinds_extend(old(updates)@, log, updates@);
                }
                i = i + 1;
        }
    }

    /// Runs the contact model over every pair of people that share a cell.
    fn contact_all(&mut self, rng: &mut rand::rngs::StdRng, updates: &mut Vec<StateUpdate>)
        requires
                old(self).wf(),
        ensures
                final(self).wf(),
                only_people_change(*old(self), *final(self)),
                contact_pass_ok(old(self).world.people@, final(self).world.people@, old(self).tick_count),
                updates_kinds_ok(final(updates)@, old(updates)@),
    {
        let groups = self.world.person_locations();
        let n = self.world.people.len();
        let tick = self.tick_count;
        let ghost start = self.world.people@;
        assert(updates@.subrange(0, updates@.len() as int) =~= updates@);
        assert(contact_pass_ok(start, self.world.people@, tick));
        let mut g: usize = 0;
        while g < groups.len()
                invariant
                    self.wf(),
                    g <= groups@.len(),
                    n == self.world.people@.len(),
                    tick == old(self).tick_count,
                    start == old(self).world.people@,
                    groups_people(groups@, start, n as int),
                    only_people_change(*old(self), *self),
                    contact_pass_ok(start, self.world.people@, tick),
                    updates_kinds_ok(updates@, old(updates)@),
                decreases groups@.len() - g,
        {
                let members = &groups[g].1;
                let m = members.len();
                let mut a: usize = 0;
                while a < m
                    invariant
                self.wf(),
                g < groups@.len(),
                members == &groups@[g as int].1,
                m == members@.len(),
                a <= m,
                n == self.world.people@.len(),
                tick == old(self).tick_count,
                start == old(self).world.people@,
                groups_people(groups@, start, n as int),
                only_people_change(*old(self), *self),
                contact_pass_ok(start, self.world.people@, tick),
                updates_kinds_ok(updates@, old(updates)@),
                    decreases m - a,
                {
                    let mut b: usize = 0;
                    while b < m
                invariant
                    self.wf(),
                    g < groups@.len(),
                    members == &groups@[g as int].1,
                    m == members@.len(),
                    a < m,
                    b <= m,
                    n == self.world.people@.len(),
                    tick == old(self).tick_count,
                    start == old(self).world.people@,
                    groups_people(groups@, start, n as int),
                    only_people_change(*old(self), *self),
                    contact_pass_ok(start, self.world.people@, tick),
                    updates_kinds_ok(updates@, old(updates)@),
                decreases m - b,
                    {
                let source = members[a].0 as usize;
                let target = members[b].0 as usize;
                proof {
                    assert(members@[a as int] == groups@[g as int].1@[a as int]);
                    assert(members@[b as int] == groups@[g as int].1@[b as int]);
                    assert(start[source as int].position == groups@[g as int].0);
                    assert(start[target as int].position == groups@[g as int].0);
                }
                if source != target {
                    let rolls = ContactRolls {
                        target_mask: draw_below(rng, HABIT_SCALE),
                        source_mask: draw_below(rng, HABIT_SCALE),
                        infection: draw_below(rng, CHANCE_SCALE),
                        social: draw_below(rng, HABIT_SCALE),
                    };
                    let ghost before = self.world.people@;
                    let ghost log = updates@;
                    self.world.touch(target, source, tick, &rolls, updates);
                    proof {
                        lemma_touch_step(start, before, self.world.people@, log, updates@, old(updates)@,
                            target as int, source as int, tick, rolls);
                    }
                }
                b = b + 1;
                    }
                    a = a + 1;
                }
                g = g + 1;
        }
    }

    /// Ends every infection that has run its course.
    fn resolve_all(&mut self, rng: &mut rand::rngs::StdRng, updates: &mut Vec<StateUpdate>)
        requires
                old(self).wf(),
        ensures
                final(self).wf(),
                only_people_change(*old(self), *final(self)),
                forall|i: int|
                    0 <= i < old(self).world.people@.len() ==> resolve_change(
                old(self).world.people@[i],
                #[trigger] final(self).world.people@[i],
                old(self).tick_count,
                    ),
                updates_kinds_ok(final(updates)@, old(updates)@),
    {
        let n = self.world.people.len();
        assert(updates@.subrange(0, updates@.len() as int) =~= updates@);
        let tick = self.tick_count;
        let mut i: usize = 0;
        while i < n
                invariant
                    self.wf(),
                    i <= n,
                    n == self.world.people@.len(),
                    tick == old(self).tick_count,
                    only_people_change(*old(self), *self),
                    forall|k: int|
                0 <= k < n ==> if k < i {
                    resolve_change(old(self).world.people@[k], #[trigger] self.world.people@[k], tick)
                } else {
                    self.world.people@[k] == old(self).world.people@[k]
                },
                    updates_kinds_ok(updates@, old(updates)@),
                decreases n - i,
        {
                let death_roll = draw_below(rng, DEATH_ODDS);
                let ghost log = updates@;
                self.world.resolve(i, tick, death_roll, updates);
                proof {
                    assert(updates@.subrange(0, log.len() as int) =~= log);
                    lemma_kinds_extend(old(updates)@, log, updates@);
                }
                i = i + 1;
        }
    }

    /// Steps every walking person one cell along its route.
    fn move_all(&mut self, updates: &mut Vec<StateUpdate>)
        requires
            old(self).wf(),
        ensures
            final(self).wf(),
            final(self).world.time == old(self).world.time,
            final(self).world.map == old(self).world.map,
            final(self).world.locations == old(self).world.locations,
            final(self).world.job_locations == old(self).world.job_locations,
            final(self).world.people@.len() == old(self).world.people@.len(),
            final(self).path_cache == old(self).path_cache,
            final(self).player1 == old(self).player1,
            final(self).player2 == old(self).player2,
            final(self).tick_count == old(self).tick_count,
            final(self).tick_rate == old(self).tick_rate,
            final(self).age == old(self).age,
            final(self).test_centers == old(self).test_centers,
            final(self).vaccine_centers == old(self).vaccine_centers,
            forall|i: int|
                0 <= i < old(self).world.people@.len() ==> move_change(
                    old(self).world.people@[i],
                    #[trigger] final(self).world.people@[i],
                ),
            final(self).people_actions@.len() == old(self).people_actions@.len(),
            forall|i: int|
                0 <= i < old(self).world.people@.len() ==> if old(self).world.people@[i].alive {
                    moved(
                        old(self).people_actions@[i],
                        #[trigger] final(self).people_actions@[i],
                        old(self).world.people@[i].position,
                        final(self).world.people@[i].position,
                    )
                } else {
                    final(self).people_actions@[i] == old(self).people_actions@[i]
                },
            updates_kinds_ok(final(updates)@, old(updates)@),
    {
        let n = self.world.people.len();
        assert(updates@.subrange(0, updates@.len() as int) =~= updates@);
        let mut i: usize = 0;
        while i < n
            invariant
                self.wf(),
                i <= n,
                n == self.world.people@.len(),
                self.world.time == old(self).world.time,
                self.world.map == old(self).world.map,
                self.world.locations == old(self).world.locations,
                self.world.job_locations == old(self).world.job_locations,
                self.path_cache == old(self).path_cache,
                self.player1 == old(self).player1,
                self.player2 == old(self).player2,
                self.tick_count == old(self).tick_count,
                self.tick_rate == old(self).tick_rate,
                self.age == old(self).age,
                self.test_centers == old(self).test_centers,
                self.vaccine_centers == old(self).vaccine_centers,
                self.people_actions@.len() == n,
                old(self).world.people@.len() == n,
                old(self).people_actions@.len() == n,
                forall|k: int| 0 <= k < n ==> #[trigger] step_done(*old(self), *self, k, i as int),
                updates_kinds_ok(updates@, old(updates)@),
            decreases n - i,
        {
            let ghost pre = *self;
            if self.world.people[i].alive {
                let stepped = self.world.people[i].update(PersonId(i as u32), &mut self.people_actions[i]);
                proof {
                    lemma_same_acquaintances(pre.world.people@, self.world.people@);
                    assert forall|k: int| 0 <= k < n && k != i implies #[trigger] self.people_actions@[k] == pre.people_actions@[k]
                        && self.world.people@[k] == pre.world.people@[k] by {}
                }
                let ghost log = updates@;
                match stepped {
                    Some(u) => {
                        updates.push(StateUpdate::PersonUpdate(u));
                    },
                    None => {},
                }
                proof {
                    assert(updates@.subrange(0, log.len() as int) =~= log);
                    lemma_kinds_extend(old(updates)@, log, updates@);
                }
            }
            proof {
                assert forall|k: int| 0 <= k < n implies #[trigger] step_done(*old(self), *self, k, i + 1) by {
                    assert(step_done(*old(self), pre, k, i as int));
                    if k != i {
                        assert(self.people_actions@[k] == pre.people_actions@[k] && self.world.people@[k] == pre.world.people@[k]);
                    }
                }
            }
            i = i + 1;
        }
        proof {
            assert forall|k: int| 0 <= k < n implies move_change(old(self).world.people@[k], #[trigger] self.world.people@[k]) by {
                assert(step_done(*old(self), *self, k, n as int));
            }
            assert forall|k: int| 0 <= k < n implies (if old(self).world.people@[k].alive {
                moved(
                    old(self).people_actions@[k],
                    #[trigger] self.people_actions@[k],
                    old(self).world.people@[k].position,
                    self.world.people@[k].position,
                )
            } else {
                self.people_actions@[k] == old(self).people_actions@[k]
            }) by {
                assert(step_done(*old(self), *self, k, n as int));
            }
        }
    }
}

/// Person `k` of `old` has taken its movement step in `cur` if it comes before `i`,
/// and is untouched otherwise.
pub open spec fn step_done(old: GameSession, cur: GameSession, k: int, i: int) -> bool {
    if k < i {
        &&& move_change(old.world.people@[k], cur.world.people@[k])
        &&& if old.world.people@[k].alive {
            moved(old.people_actions@[k], cur.people_actions@[k], old.world.people@[k].position, cur.world.people@[k].position)
        } else {
            cur.people_actions@[k] == old.people_actions@[k]
        }
    } else {
        cur.people_actions@[k] == old.people_actions@[k] && cur.world.people@[k] == old.world.people@[k]
    }
}

/// `t` is what becomes of `s` when the command `u` is handled, and `after` of
/// the update list `before`: an accepted command is applied, any other changes
/// nothing.
pub open spec fn command_step(
    s: GameSession,
    t: GameSession,
    u: PlayerUpdate,
    before: Seq<StateUpdate>,
    after: Seq<StateUpdate>,
) -> bool {
    if s.accepts(u) {
        command_applied(s, t, u, before, after)
    } else {
        t == s && after == before
    }
}

/// `states` and `logs` trace the commands handled one after another.
pub open spec fn commands_traced(
    states: Seq<GameSession>,
    logs: Seq<Seq<StateUpdate>>,
    commands: Seq<PlayerUpdate>,
) -> bool {
    &&& states.len() == commands.len() + 1
    &&& logs.len() == commands.len() + 1
    &&& forall|k: int|
        0 <= k < commands.len() ==> command_step(
            #[trigger] states[k],
            states[k + 1],
            commands[k],
            logs[k],
            logs[k + 1],
        )
}

/// `new` is `old` after both players were paid one unit of income, where it fits.
pub open spec fn paid_income(old: GameSession, new: GameSession) -> bool {
    &&& new.player1 == PlayerSession {
        money: if old.player1.money < u32::MAX { (old.player1.money + 1) as u32 } else { old.player1.money },
        ..old.player1
    }
    &&& new.player2 == PlayerSession {
        money: if old.player2.money < u32::MAX { (old.player2.money + 1) as u32 } else { old.player2.money },
        ..old.player2
    }
}

/// The number of infected people.
pub open spec fn count_infected(people: Seq<Person>) -> int
    decreases people.len(),
{
    if people.len() == 0 {
        0
    } else {
        count_infected(people.drop_last()) + if people.last().infected { 1int } else { 0 }
    }
}

/// The winner once the game is decided, `true` for the virus: after three
/// days, containment wins while at most half the population is infected.
pub open spec fn winner(session: GameSession) -> Option<bool> {
    if session.world.time.days > 3 {
        Some(!(session.world.people@.len() >= 2 * count_infected(session.world.people@)))
    } else {
        None
    }
}

/// One step of movement for a person who is alive at the end of the tick;
/// one who died this tick keeps its action and its cell.
pub open spec fn moved_unless_dead(action: PersonAction, new_action: PersonAction, from: Position, new: Person) -> bool {
    if new.alive {
        moved(action, new_action, from, new.position)
    } else {
        new_action == action && new.position == from
    }
}

/// How the people `old` become `new` over one tick at `tick`, with test and
/// vaccine centres at the cells `tc` and `vc`: each as `tick_change` allows; a
/// new infection only from an infectious living neighbour on the same cell; a
/// new acquaintance only between two living people on the same cell; a living
/// person on a centre ends tested or vaccinated.
pub open spec fn people_step(old: Seq<Person>, new: Seq<Person>, tick: u64, tc: Seq<Position>, vc: Seq<Position>) -> bool {
    let n = old.len();
    &&& new.len() == n
    &&& forall|i: int| 0 <= i < n ==> tick_change(old[i], #[trigger] new[i], tick)
    &&& forall|i: int| 0 <= i < n && (#[trigger] new[i]).infected && !old[i].infected ==> infected_by_neighbour(old, i, tick)
    &&& forall|i: int, m: PersonId|
        0 <= i < n && (#[trigger] new[i].habits.acquaintances@.contains(m)) && !old[i].habits.acquaintances@.contains(m)
            ==> met_here(old, i, m)
    &&& forall|i: int|
        0 <= i < n && old[i].alive ==> (tc.contains(old[i].position) ==> (#[trigger] new[i]).tested) && (vc.contains(
            old[i].position) ==> new[i].vaccinated)
}

proof fn lemma_people_step(
    s0: Seq<Person>,
    s1: Seq<Person>,
    s2: Seq<Person>,
    s3: Seq<Person>,
    s4: Seq<Person>,
    tick: u64,
    tc: Seq<Position>,
    vc: Seq<Position>,
)
    requires
        s1.len() == s0.len(),
        s3.len() == s0.len(),
        s4.len() == s0.len(),
        forall|i: int| 0 <= i < s0.len() ==> screen_change(s0[i], #[trigger] s1[i]),
        forall|i: int|
            0 <= i < s0.len() && s0[i].alive ==> (tc.contains(s0[i].position) ==> (#[trigger] s1[i]).tested) && (vc.contains(
                s0[i].position) ==> s1[i].vaccinated),
        contact_pass_ok(s1, s2, tick),
        forall|i: int| 0 <= i < s0.len() ==> resolve_change(s2[i], #[trigger] s3[i], tick),
        forall|i: int| 0 <= i < s0.len() ==> move_change(s3[i], #[trigger] s4[i]),
    ensures
        people_step(s0, s4, tick, tc, vc),
{
    let n = s0.len();
    assert forall|i: int| 0 <= i < n implies tick_change(s0[i], #[trigger] s4[i], tick) by {
        assert(contact_change(s1[i], s2[i], tick));
        assert(resolve_change(s2[i], s3[i], tick));
        lemma_passes_compose(s0[i], s1[i], s2[i], s3[i], s4[i], tick);
    }
    assert forall|i: int| 0 <= i < n && (#[trigger] s4[i]).infected && !s0[i].infected implies infected_by_neighbour(s0, i, tick) by {
        assert(screen_change(s0[i], s1[i]));
        assert(resolve_change(s2[i], s3[i], tick));
        assert(move_change(s3[i], s4[i]));
        assert(s2[i].infected && !s1[i].infected);
        assert(infected_by_neighbour(s1, i, tick));
        let j = choose|j: int|
            0 <= j < s1.len() && j != i && (#[trigger] s1[j]).position == s1[i].position && s1[j].alive && s1[j].infected
                && s1[j].tick_infected != tick;
        assert(screen_change(s0[j], s1[j]));
    }
    assert forall|i: int, m: PersonId|
        0 <= i < n && (#[trigger] s4[i].habits.acquaintances@.contains(m)) && !s0[i].habits.acquaintances@.contains(m)
            implies met_here(s0, i, m) by {
        assert(screen_change(s0[i], s1[i]));
        assert(resolve_change(s2[i], s3[i], tick));
        assert(move_change(s3[i], s4[i]));
        assert(s2[i].habits.acquaintances@.contains(m));
        assert(met_here(s1, i, m));
        assert(screen_change(s0[m.0 as int], s1[m.0 as int]));
    }
    assert forall|i: int|
        0 <= i < n && s0[i].alive implies (tc.contains(s0[i].position) ==> (#[trigger] s4[i]).tested) && (vc.contains(
            s0[i].position) ==> s4[i].vaccinated) by {
        assert(s1[i].tested || !tc.contains(s0[i].position));
        assert(contact_change(s1[i], s2[i], tick));
        assert(resolve_change(s2[i], s3[i], tick));
        assert(move_change(s3[i], s4[i]));
    }
}

proof fn lemma_kinds_trans(base: Seq<StateUpdate>, log: Seq<StateUpdate>, log2: Seq<StateUpdate>)
    requires
        updates_kinds_ok(log, base),
        updates_kinds_ok(log2, log),
    ensures
        updates_kinds_ok(log2, base),
{
    lemma_kinds_extend(base, log, log2);
}

/// Each living person's action follows the behaviour machine from `handled`
/// for some valid rolls, then takes one step of movement; the dead keep theirs.
pub open spec fn actions_stepped(old: GameSession, new: GameSession, handled: GameSession) -> bool {
    forall|i: int| 0 <= i < old.world.people@.len() ==> #[trigger] action_stepped_at(old, new, handled, i)
}

/// The step of person `i` as `actions_stepped` states it.
pub open spec fn action_stepped_at(old: GameSession, new: GameSession, handled: GameSession, i: int) -> bool {
    if old.world.people@[i].alive {
        exists|mid: PersonAction|
            acted(handled, i, mid, new.path_cache@) && #[trigger] moved_unless_dead(
                mid,
                new.people_actions@[i],
                old.world.people@[i].position,
                new.world.people@[i],
            )
    } else {
        new.people_actions@[i] == handled.people_actions@[i]
    }
}

proof fn lemma_actions_stepped(old: GameSession, handled: GameSession, acting: GameSession, moving: GameSession, fin: GameSession)
    requires
        handled.world.people == old.world.people,
        acting.world.people == old.world.people,
        acting.people_actions@.len() == old.world.people@.len(),
        forall|i: int|
            0 <= i < old.world.people@.len() ==> if old.world.people@[i].alive {
                acted(handled, i, #[trigger] acting.people_actions@[i], acting.path_cache@)
            } else {
                acting.people_actions@[i] == handled.people_actions@[i]
            },
        moving.people_actions == acting.people_actions,
        moving.path_cache == acting.path_cache,
        moving.world.people@.len() == old.world.people@.len(),
        forall|i: int| 0 <= i < old.world.people@.len() ==> (#[trigger] moving.world.people@[i]).position
            == old.world.people@[i].position && (!old.world.people@[i].alive ==> !moving.world.people@[i].alive),
        fin.path_cache == moving.path_cache,
        forall|i: int| 0 <= i < old.world.people@.len() ==> move_change(moving.world.people@[i], #[trigger] fin.world.people@[i]),
        forall|i: int|
            0 <= i < old.world.people@.len() ==> if moving.world.people@[i].alive {
                moved(
                    moving.people_actions@[i],
                    #[trigger] fin.people_actions@[i],
                    moving.world.people@[i].position,
                    fin.world.people@[i].position,
                )
            } else {
                fin.people_actions@[i] == moving.people_actions@[i]
            },
    ensures
        actions_stepped(old, fin, handled),
{
    assert forall|i: int| 0 <= i < old.world.people@.len() implies #[trigger] action_stepped_at(old, fin, handled, i) by {
        let _ = moving.world.people@[i];
        let _ = acting.people_actions@[i];
        assert(move_change(moving.world.people@[i], fin.world.people@[i]));
        if old.world.people@[i].alive {
            let mid = acting.people_actions@[i];
            assert(moved_unless_dead(mid, fin.people_actions@[i], old.world.people@[i].position, fin.world.people@[i]));
        }
    }
}

/// The commands traced by `states`, and the behaviour and movement steps that
/// follow them, as one tick takes `old` to `new`.
pub open spec fn traced_tick(old: GameSession, new: GameSession, states: Seq<GameSession>) -> bool {
    let n = old.world.people@.len();
    let handled = states.last();
    &&& paid_income(old, states[0])
    &&& states[0].world.map == old.world.map
    &&& states[0].world.people == old.world.people
    &&& states[0].people_actions == old.people_actions
    &&& states[0].test_centers == old.test_centers
    &&& states[0].vaccine_centers == old.vaccine_centers
    &&& states[0].world.time == new.world.time
    &&& new.player1 == handled.player1
    &&& new.player2 == handled.player2
    &&& new.world.map == handled.world.map
    &&& new.test_centers == handled.test_centers
    &&& new.vaccine_centers == handled.vaccine_centers
    &&& extends(handled.path_cache@, new.path_cache@, new.world.map)
    &&& actions_stepped(old, new, handled)
}

/// What one tick does, from session `old` to session `new`, given the
/// commands handled and the changes `r` returned; `tick` is `old.tick_count`.
/// - The clock is set from the tick count; the tick count and age stay.
/// - Both players are paid their income, then the commands are handled in
///   order; money, map and centres end as the commands left them.
/// - Each person changes as `tick_change` allows; a new infection comes only
///   from an infectious living neighbour on the same cell; a new acquaintance
///   only joins two living people on the same cell; a living person on a
///   registered test or vaccine centre ends tested or vaccinated.
/// - Each living person's action follows the behaviour machine for some valid
///   rolls, and then takes one step of movement; the actions of the dead stay.
/// - `r` holds tile and person changes only: no full snapshot, no winner.
pub open spec fn tick_step(old: GameSession, new: GameSession, commands: Seq<PlayerUpdate>, r: Seq<StateUpdate>) -> bool {
    let tick = old.tick_count;
    let n = old.world.people@.len();
    &&& new.tick_count == old.tick_count
    &&& new.tick_rate == old.tick_rate
    &&& new.age == old.age
    &&& new.world.time.minutes == (tick as u32) % 60
    &&& new.world.time.hours == ((tick as u32) / 60) % 24
    &&& new.world.time.days == (((tick as u32) / 60 / 24) % 256) as u8
    &&& new.world.people@.len() == n
    &&& new.people_actions@.len() == n
    &&& people_step(old.world.people@, new.world.people@, tick, new.test_centers@, new.vaccine_centers@)
    &&& forall|k: int| 0 <= k < r.len() ==> (#[trigger] r[k] is TileUpdate || r[k] is PersonUpdate)
    &&& exists|states: Seq<GameSession>, logs: Seq<Seq<StateUpdate>>|
        #[trigger] commands_traced(states, logs, commands) && traced_tick(old, new, states)
}

impl GameSession {
    /// Handles the commands in order of arrival.
    pub fn handle_players(&mut self, commands: &Vec<PlayerUpdate>, updates: &mut Vec<StateUpdate>)
        requires
            old(self).wf(),
        ensures
            final(self).wf(),
            exists|states: Seq<GameSession>, logs: Seq<Seq<StateUpdate>>|
                commands_traced(states, logs, commands@) && states[0] == *old(self) && states.last()
                    == *final(self) && logs[0] == old(updates)@ && logs.last() == final(updates)@,
            same_clock_and_people(*old(self), *final(self)),
            tiles_appended(final(updates)@, old(updates)@),
    {
        assert(updates@.subrange(0, updates@.len() as int) =~= updates@);
        let ghost mut states: Seq<GameSession> = seq![*self];
        let ghost mut logs: Seq<Seq<StateUpdate>> = seq![updates@];
        let mut k: usize = 0;
        while k < commands.len()
            invariant
                self.wf(),
                k <= commands@.len(),
                commands_traced(states, logs, commands@.subrange(0, k as int)),
                states[0] == *old(self),
                states.last() == *self,
                logs[0] == old(updates)@,
                logs.last() == updates@,
                same_clock_and_people(*old(self), *self),
                tiles_appended(updates@, old(updates)@),
            decreases commands@.len() - k,
        {
            let ghost s = *self;
            let ghost before = updates@;
            self.apply_command(&commands[k], updates);
            proof {
                lemma_tiles_appended_trans(old(updates)@, before, updates@);
                let prev_states = states;
                let prev_logs = logs;
                states = states.push(*self);
                logs = logs.push(updates@);
                assert(command_step(s, *self, commands@[k as int], before, updates@));
                assert forall|j: int| 0 <= j < k + 1 implies command_step(
                    #[trigger] states[j],
                    states[j + 1],
                    commands@.subrange(0, k + 1)[j],
                    logs[j],
                    logs[j + 1],
                ) by {
                    if j < k {
                        assert(states[j] == prev_states[j]);
                        assert(states[j + 1] == prev_states[j + 1]);
                        assert(commands@.subrange(0, k as int)[j] == commands@[j]);
                        assert(command_step(
                            prev_states[j],
                            prev_states[j + 1],
                            commands@.subrange(0, k as int)[j],
                            prev_logs[j],
                            prev_logs[j + 1],
                        ));
                    }
                }
            }
            k = k + 1;
        }
        proof {
            assert(commands@.subrange(0, commands@.len() as int) =~= commands@);
        }
    }

    /// Runs one tick: sets the clock, pays both players their income, handles
    /// the commands, advances every behaviour machine, screens, runs the
    /// contact model, ends finished infections and moves the walkers. Returns
    /// every change, in that order.
    #[verifier::rlimit(100)]
    pub fn update(&mut self, rng: &mut rand::rngs::StdRng, commands: &Vec<PlayerUpdate>) -> (r: Vec<StateUpdate>)
        requires
            old(self).wf(),
        ensures
            final(self).wf(),
            tick_step(*old(self), *final(self), commands@, r@),
    {
        self.world.time.set_minutes(self.tick_count as u32);
        if self.player1.money < u32::MAX {
            self.player1.money = self.player1.money + 1;
        }
        if self.player2.money < u32::MAX {
            self.player2.money = self.player2.money + 1;
        }
        let mut updates: Vec<StateUpdate> = Vec::new();
        let ghost start = *self;
        self.handle_players(commands, &mut updates);
        let ghost handled = *self;
        let ghost log0 = updates@;
        self.advance_actions(rng);
        let ghost acting = *self;
        let ghost s0 = self.world.people@;
        self.screen_all(&mut updates);
        let ghost log1 = updates@;
        let ghost s1 = self.world.people@;
        self.contact_all(rng, &mut updates);
        let ghost log2 = updates@;
        let ghost s2 = self.world.people@;
        self.resolve_all(rng, &mut updates);
        let ghost log3 = updates@;
        let ghost s3 = self.world.people@;
        let ghost moving = *self;
        self.move_all(&mut updates);
        proof {
            let tick = old(self).tick_count;
            let n = old(self).world.people@.len();
            let (states, logs) = choose|states: Seq<GameSession>, logs: Seq<Seq<StateUpdate>>|
                commands_traced(states, logs, commands@) && states[0] == start && states.last()
                    == handled;
            assert(paid_income(*old(self), states[0]));
            lemma_people_step(s0, s1, s2, s3, self.world.people@, tick, self.test_centers@, self.vaccine_centers@);
            assert forall|i: int| 0 <= i < n implies (#[trigger] moving.world.people@[i]).position
                == old(self).world.people@[i].position && (!old(self).world.people@[i].alive ==> !moving.world.people@[i].alive) by {
                assert(screen_change(s0[i], s1[i]));
                assert(contact_change(s1[i], s2[i], tick));
                assert(resolve_change(s2[i], s3[i], tick));
            }
            lemma_actions_stepped(*old(self), handled, acting, moving, *self);
            assert(log0.subrange(0, 0) =~= Seq::<StateUpdate>::empty());
            assert(updates_kinds_ok(log0, Seq::<StateUpdate>::empty()));
            lemma_kinds_trans(Seq::<StateUpdate>::empty(), log0, log1);
            lemma_kinds_trans(Seq::<StateUpdate>::empty(), log1, log2);
            lemma_kinds_trans(Seq::<StateUpdate>::empty(), log2, log3);
            lemma_kinds_trans(Seq::<StateUpdate>::empty(), log3, updates@);
            assert(forall|k: int| 0 <= k < updates@.len() ==> (#[trigger] updates@[k] is TileUpdate || updates@[k] is PersonUpdate));
            assert(people_step(old(self).world.people@, self.world.people@, tick, self.test_centers@, self.vaccine_centers@));
            assert(states[0].world.time == self.world.time);
            assert(self.world.map == handled.world.map);
            assert(extends(handled.path_cache@, self.path_cache@, self.world.map));
            assert(self.world.time.minutes == (tick as u32) % 60);
            assert(self.people_actions@.len() == n);
            assert(paid_income(*old(self), states[0]));
            assert(states[0].world.people == old(self).world.people);
            assert(states[0].people_actions == old(self).people_actions);
            assert(states[0].test_centers == old(self).test_centers);
            assert(self.player1 == handled.player1);
            assert(self.test_centers == handled.test_centers);
            assert(self.player2 == handled.player2);
            assert(self.vaccine_centers == handled.vaccine_centers);
            assert(states[0].vaccine_centers == old(self).vaccine_centers);
            assert(states[0].world.map == old(self).world.map);
            assert(actions_stepped(*old(self), *self, handled));
            assert(traced_tick(*old(self), *self, states));
        }
        updates
    }

    /// The winner, once the game is decided.
    pub fn is_game_over_and_who_won(&self) -> (r: Option<bool>)
        ensures
            r == winner(*self),
    {
        let n = self.world.people.len();
        let mut infected: usize = 0;
        let mut i: usize = 0;
        while i < n
            invariant
                i <= n,
                n == self.world.people@.len(),
                infected == count_infected(self.world.people@.subrange(0, i as int)),
                infected <= i,
            decreases n - i,
        {
            proof {
                assert(self.world.people@.subrange(0, i + 1).drop_last() =~= self.world.people@.subrange(0, i as int));
            }
            if self.world.people[i].infected {
                infected = infected + 1;
            }
            i = i + 1;
        }
        proof {
            assert(self.world.people@.subrange(0, n as int) =~= self.world.people@);
        }
        if self.world.time.days > 3 {
            Some(!(n as u128 >= 2 * (infected as u128)))
        } else {
            None
        }
    }

    /// Counts one tick and runs it; announces the winner when the game is decided.
    /// Returns the changes and the winner, if any.
    pub fn advance(&mut self, rng: &mut rand::rngs::StdRng, commands: &Vec<PlayerUpdate>) -> (r: (
        Vec<StateUpdate>,
        Option<bool>,
    ))
        requires
            old(self).wf(),
            old(self).tick_count < u64::MAX,
        ensures
            final(self).wf(),
            final(self).tick_count == old(self).tick_count + 1,
            final(self).age == final(self).tick_count / (old(self).tick_rate as u64),
            r.1 == winner(*final(self)),
            tick_step(
                GameSession {
                    tick_count: (old(self).tick_count + 1) as u64,
                    age: ((old(self).tick_count + 1) as u64 / (old(self).tick_rate as u64)) as u64,
                    ..*old(self)
                },
                *final(self),
                commands@,
                match r.1 {
                    Some(_) => r.0@.drop_last(),
                    None => r.0@,
                },
            ),
            match r.1 {
                Some(side) => r.0@.len() > 0 && r.0@.last() == StateUpdate::Winner(side),
                None => true,
            },
    {
        self.tick_count = self.tick_count + 1;
        self.age = self.tick_count / self.tick_rate as u64;
        let mut updates = self.update(rng, commands);
        let ghost ticked = updates@;
        let won = self.is_game_over_and_who_won();
        match won {
            Some(side) => {
                updates.push(StateUpdate::Winner(side));
                assert(updates@.drop_last() =~= ticked);
            },
            None => {},
        }
        (updates, won)
    }
}

} // verus!
