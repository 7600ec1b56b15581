use mbw::contact::{chance_of_infection, holds, ContactRolls, INFECTION_TICKS};
use mbw::map::{Position, Tile};
use mbw::person::{Job, JobType, Person, PersonHabits, PersonId, PersonUpdate};
use mbw::session::{GameSession, StateUpdate};
use mbw::world::World;
use rand::SeedableRng;

fn person(home: Position) -> Person {
    Person {
        alive: true,
        infected: false,
        tick_infected: 0,
        tick_last_touched: 0,
        tested: false,
        vaccinated: false,
        first_name: "Alan".to_string(),
        last_name: "Turing".to_string(),
        age: 50,
        sex: true,
        job: Job { ty: JobType::Programmer, location: None },
        position: home,
        home,
        habits: PersonHabits { mask: 0, hygiene: 0, socialscore: 0, vaccination_bias: 0, acquaintances: Vec::new() },
    }
}

fn two_people() -> World {
    let mut w = World::empty(2, 2);
    w.people.push(person(Position::new(2, 2)));
    let mut sick = person(Position::new(2, 2));
    sick.infected = true;
    w.people.push(sick);
    w
}

const PLAIN: ContactRolls = ContactRolls { target_mask: 999, source_mask: 999, infection: 0, social: 999 };

#[test]
fn chance_formula_exact_values() {
    let mut t = person(Position::new(0, 0));
    let s = person(Position::new(0, 0));
    // 150000 * 150 / 100
    assert_eq!(chance_of_infection(&t, &s, &PLAIN), 225_000);
    t.sex = false;
    // 135000 * 150 / 100
    assert_eq!(chance_of_infection(&t, &s, &PLAIN), 202_500);
    t.vaccinated = true;
    assert_eq!(chance_of_infection(&t, &s, &PLAIN), 10_125);
    t.vaccinated = false;
    t.habits.mask = 500;
    let rolls = ContactRolls { target_mask: 100, source_mask: 999, infection: 0, social: 999 };
    // only the target masked: a tenth
    assert_eq!(chance_of_infection(&t, &s, &rolls), 20_250);
    let mut s2 = s.clone();
    s2.habits.mask = 500;
    let both = ContactRolls { target_mask: 100, source_mask: 100, infection: 0, social: 999 };
    // both masked: a half
    assert_eq!(chance_of_infection(&t, &s2, &both), 101_250);
    t.infected = true;
    t.tested = true;
    t.habits.mask = 0;
    // 6750 * 150 / 100
    assert_eq!(chance_of_infection(&t, &s, &PLAIN), 10_125);
}

#[test]
fn contact_transmits_below_the_chance() {
    let mut w = two_people();
    let mut updates = Vec::new();
    w.touch(0, 1, 200, &PLAIN, &mut updates);
    assert!(w.people[0].infected);
    assert_eq!(w.people[0].tick_infected, 200);
    assert_eq!(w.people[0].tick_last_touched, 200);
    assert!(matches!(updates[0], StateUpdate::PersonUpdate(PersonUpdate::Infected(PersonId(0), true))));
}

#[test]
fn contact_spares_above_the_chance() {
    let mut w = two_people();
    let mut updates = Vec::new();
    let rolls = ContactRolls { infection: 225_000, ..PLAIN };
    w.touch(0, 1, 200, &rolls, &mut updates);
    assert!(!w.people[0].infected);
    assert_eq!(w.people[0].tick_last_touched, 200);
    assert!(updates.is_empty());
}

#[test]
fn contact_respects_cooldown() {
    let mut w = two_people();
    w.people[0].tick_last_touched = 190;
    let mut updates = Vec::new();
    w.touch(0, 1, 210, &PLAIN, &mut updates);
    assert!(!w.people[0].infected);
    assert_eq!(w.people[0].tick_last_touched, 190);
    w.touch(0, 1, 211, &PLAIN, &mut updates);
    assert!(w.people[0].infected);
}

#[test]
fn dead_people_are_not_touched() {
    let mut w = two_people();
    w.people[1].alive = false;
    let mut updates = Vec::new();
    w.touch(0, 1, 200, &PLAIN, &mut updates);
    assert!(!w.people[0].infected);
    assert!(updates.is_empty());
}

#[test]
fn reinfection_keeps_the_first_stamp() {
    let mut w = two_people();
    w.people[0].infected = true;
    w.people[0].tick_infected = 150;
    let mut updates = Vec::new();
    w.touch(0, 1, 200, &PLAIN, &mut updates);
    assert_eq!(w.people[0].tick_infected, 150);
    assert!(updates.is_empty());
}

#[test]
fn acquaintance_forms_both_ways() {
    let mut w = two_people();
    w.people[0].habits.socialscore = 100;
    let rolls = ContactRolls { infection: 99_999_999, social: 50, ..PLAIN };
    let mut updates = Vec::new();
    w.touch(0, 1, 200, &rolls, &mut updates);
    assert_eq!(w.people[0].habits.acquaintances, vec![PersonId(1)]);
    assert_eq!(w.people[1].habits.acquaintances, vec![PersonId(0)]);
    assert_eq!(updates.len(), 2);
    assert!(matches!(&updates[0], StateUpdate::PersonUpdate(PersonUpdate::Habits(PersonId(0), h)) if h.acquaintances == vec![PersonId(1)]));
    assert!(matches!(&updates[1], StateUpdate::PersonUpdate(PersonUpdate::Habits(PersonId(1), _))));
    // looking a dead acquaintance up still works
    w.people[1].alive = false;
    let id = w.people[0].habits.acquaintances[0].0 as usize;
    assert!(!w.people[id].alive);
    assert!(w.people[id].knows(PersonId(0)));
}

#[test]
fn infection_ends_only_after_its_course() {
    let mut w = two_people();
    w.people[1].tick_infected = 100;
    let mut updates = Vec::new();
    w.resolve(1, 100 + INFECTION_TICKS, 0, &mut updates);
    assert!(w.people[1].infected && w.people[1].alive);
    assert!(updates.is_empty());
    // roll below the age of fifty: death
    w.resolve(1, 101 + INFECTION_TICKS, 49, &mut updates);
    assert!(!w.people[1].alive);
    assert!(matches!(updates[0], StateUpdate::PersonUpdate(PersonUpdate::LifeStatus(PersonId(1), false))));
}

#[test]
fn infection_recovery_at_high_roll() {
    let mut w = two_people();
    w.people[1].tick_infected = 100;
    let mut updates = Vec::new();
    w.resolve(1, 101 + INFECTION_TICKS, 50, &mut updates);
    assert!(!w.people[1].infected && w.people[1].alive);
    assert!(matches!(updates[0], StateUpdate::PersonUpdate(PersonUpdate::Infected(PersonId(1), false))));
}

#[test]
fn screening_on_centres() {
    let mut w = two_people();
    let mut updates = Vec::new();
    w.screen(0, &vec![Position::new(2, 2)], &vec![], &mut updates);
    assert!(w.people[0].tested && !w.people[0].vaccinated);
    w.screen(0, &vec![Position::new(2, 2)], &vec![Position::new(2, 2)], &mut updates);
    assert!(w.people[0].vaccinated);
    assert_eq!(updates.len(), 2);
    assert!(holds(&vec![Position::new(1, 1), Position::new(2, 2)], Position::new(2, 2)));
    assert!(!holds(&vec![], Position::new(2, 2)));
}

#[test]
fn people_grouped_by_cell() {
    let mut w = two_people();
    w.people.push(person(Position::new(4, 4)));
    let groups = w.person_locations();
    assert_eq!(groups.len(), 2);
    let shared = groups.iter().find(|g| g.0 == Position::new(2, 2)).unwrap();
    assert_eq!(shared.1, vec![PersonId(0), PersonId(1)]);
}

fn door_world() -> World {
    // two rooms split by a wall at x = 5 with a door in it
    let mut w = World::empty(2, 2);
    for y in 0..12 {
        w.map.set_tile(&Position::new(5, y), Tile::Building);
    }
    w.map.set_tile(&Position::new(5, 5), Tile::Door(None));
    let healthy = person(Position::new(2, 2));
    let mut sick = person(Position::new(2, 2));
    sick.infected = true;
    w.people.push(healthy);
    w.people.push(sick);
    w
}

fn run(seed: u64, ticks: usize) -> (bool, u64) {
    let mut s = GameSession::new(door_world(), true);
    let mut rng = rand::rngs::StdRng::seed_from_u64(seed);
    for _ in 0..ticks {
        s.advance(&mut rng, &Vec::new());
    }
    (s.world.people[0].infected, s.world.people[0].tick_infected)
}

#[test]
fn seeded_runs_are_reproducible() {
    assert_eq!(run(42, 300), run(42, 300));
    assert_eq!(run(7, 300), run(7, 300));
}

#[test]
fn golden_seed_outcome() {
    let (infected, _) = run(42, 300);
    assert!(!infected);
}

#[test]
fn tick_keeps_stamps_and_population() {
    let mut s = GameSession::new(door_world(), false);
    let mut rng = rand::rngs::StdRng::seed_from_u64(5);
    for _ in 0..50 {
        let before: Vec<(bool, u64)> = s.world.people.iter().map(|p| (p.infected, p.tick_infected)).collect();
        let (_, won) = s.advance(&mut rng, &Vec::new());
        assert!(won.is_none());
        assert_eq!(s.world.people.len(), 2);
        for (p, (was, stamp)) in s.world.people.iter().zip(before) {
            if p.infected && !was {
                assert_eq!(p.tick_infected, s.tick_count);
            } else {
                assert_eq!(p.tick_infected, stamp);
            }
        }
    }
    assert_eq!(s.tick_count, 170);
    assert_eq!(s.age, 17);
    assert_eq!(s.player1.money, 50);
}

#[test]
fn winner_after_three_days() {
    let mut s = GameSession::new(door_world(), true);
    assert_eq!(s.is_game_over_and_who_won(), None);
    s.world.time.set_minutes(4 * 1440);
    // one of two infected: containment holds
    assert_eq!(s.is_game_over_and_who_won(), Some(false));
    s.world.people[0].infected = true;
    assert_eq!(s.is_game_over_and_who_won(), Some(true));
    s.tick_count = 4 * 1440;
    let mut rng = rand::rngs::StdRng::seed_from_u64(1);
    let (updates, won) = s.advance(&mut rng, &Vec::new());
    assert_eq!(won, Some(true));
    assert!(matches!(updates.last(), Some(StateUpdate::Winner(true))));
}
