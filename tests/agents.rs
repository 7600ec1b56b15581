use mbw::map::{Position, Tile, TileMap};
use mbw::path::PathCache;
use mbw::person::{ActionRolls, Job, JobType, Person, PersonAction, PersonHabits, PersonId, PersonUpdate};
use mbw::world::{Time, World};
use rand::SeedableRng;

fn person(home: Position, job: Option<Position>) -> Person {
    Person {
        alive: true,
        infected: false,
        tick_infected: 0,
        tick_last_touched: 0,
        tested: false,
        vaccinated: false,
        first_name: "Ada".to_string(),
        last_name: "Lovelace".to_string(),
        age: 30,
        sex: true,
        job: Job { ty: JobType::Doctor, location: job },
        position: home,
        home,
        habits: PersonHabits {
            mask: 0,
            hygiene: 0,
            socialscore: 0,
            vaccination_bias: 0,
            acquaintances: Vec::new(),
        },
    }
}

fn world_at(minutes: u32) -> World {
    let mut w = World::empty(1, 1);
    w.time.set_minutes(minutes);
    w
}

const CALM: ActionRolls = ActionRolls { leave: 5, shop: 5, shop_pick: 0, shop_minutes: 100 };
const GO: ActionRolls = ActionRolls { leave: 0, shop: 0, shop_pick: 1, shop_minutes: 95 };

#[test]
fn work_hours_and_names() {
    let r = JobType::Chef.work_hours();
    assert_eq!((r.start, r.end), (14, 23));
    assert_eq!(JobType::Student.work_hours(), 8..16);
    assert_eq!(JobType::PoliceOfficer.as_str(), "Police Officer");
    assert_eq!(JobType::Doctor.as_str(), "Doctor");
    assert_eq!(JobType::from_roll(2), JobType::Clerk);
    assert_eq!(JobType::from_roll(8), JobType::Student);
}

#[test]
fn generated_job_types_vary_with_seed() {
    let mut rng = rand::rngs::StdRng::seed_from_u64(1);
    let drawn: Vec<JobType> = (0..50).map(|_| JobType::generate(&mut rng)).collect();
    assert!(drawn.iter().any(|t| *t != drawn[0]));
}

#[test]
fn time_from_minutes() {
    let mut t = Time::new();
    t.set_minutes(3 * 1440 + 5 * 60 + 7);
    assert_eq!((t.days, t.hours, t.minutes), (3, 5, 7));
    assert_eq!(t.to_minutes(), 3 * 1440 + 5 * 60 + 7);
}

#[test]
fn generated_person_starts_healthy_at_home() {
    let mut rng = rand::rngs::StdRng::seed_from_u64(9);
    let home = Position::new(3, 4);
    let p = Person::generate(&mut rng, home, Job { ty: JobType::Chef, location: None }, "A".to_string(), "B".to_string());
    assert!(p.alive && !p.infected && !p.tested && !p.vaccinated);
    assert_eq!(p.position, home);
    assert!(p.age >= 18 && p.age < 80);
    assert!(p.habits.socialscore < 150);
    assert!(p.habits.acquaintances.is_empty());
}

#[test]
fn add_acquaintance_is_a_set_insert() {
    let mut p = person(Position::new(0, 0), None);
    p.add_acquaintance(PersonId(4));
    p.add_acquaintance(PersonId(4));
    p.add_acquaintance(PersonId(2));
    assert_eq!(p.habits.acquaintances, vec![PersonId(4), PersonId(2)]);
    assert!(p.knows(PersonId(2)));
    assert!(!p.knows(PersonId(3)));
}

#[test]
fn at_home_leaves_for_work_during_hours() {
    let w = world_at(10 * 60);
    let p = person(Position::new(0, 0), Some(Position::new(3, 0)));
    let mut cache = PathCache::new();
    let mut a = PersonAction::AtHome;
    p.update_action_with(&w, &mut cache, &mut a, &GO);
    match a {
        PersonAction::Walking(path, next) => {
            assert_eq!(path.len(), 4);
            assert_eq!(path[0], Position::new(3, 0));
            assert!(matches!(*next, PersonAction::Working));
        }
        _ => panic!("expected a walk to work"),
    }
}

#[test]
fn at_home_stays_without_the_roll_or_outside_hours() {
    let p = person(Position::new(0, 0), Some(Position::new(3, 0)));
    let mut cache = PathCache::new();
    let mut a = PersonAction::AtHome;
    p.update_action_with(&world_at(10 * 60), &mut cache, &mut a, &CALM);
    assert!(matches!(a, PersonAction::AtHome));
    p.update_action_with(&world_at(5 * 60), &mut cache, &mut a, &GO);
    assert!(matches!(a, PersonAction::AtHome));
}

#[test]
fn tested_infected_agents_stay_home() {
    let mut p = person(Position::new(0, 0), Some(Position::new(3, 0)));
    p.tested = true;
    p.infected = true;
    let mut cache = PathCache::new();
    let mut a = PersonAction::AtHome;
    p.update_action_with(&world_at(10 * 60), &mut cache, &mut a, &GO);
    assert!(matches!(a, PersonAction::AtHome));
}

#[test]
fn after_work_goes_shopping() {
    let mut w = world_at(20 * 60);
    w.job_locations.push((JobType::Clerk, vec![Position::new(5, 5), Position::new(1, 0)]));
    let p = person(Position::new(0, 0), Some(Position::new(3, 0)));
    let mut cache = PathCache::new();
    let mut a = PersonAction::AtHome;
    p.update_action_with(&w, &mut cache, &mut a, &GO);
    match a {
        PersonAction::Walking(path, next) => {
            assert_eq!(path[0], Position::new(1, 0));
            assert_eq!(path.len(), 2);
            match *next {
                PersonAction::Shopping(deadline) => assert_eq!(deadline, 20 * 60 + 95),
                _ => panic!("expected shopping"),
            }
        }
        _ => panic!("expected a walk to the shop"),
    }
}

#[test]
fn working_goes_home_after_hours() {
    let p = person(Position::new(0, 0), Some(Position::new(3, 0)));
    let mut p_at_work = p.clone();
    p_at_work.position = Position::new(3, 0);
    let mut cache = PathCache::new();
    let mut a = PersonAction::Working;
    p_at_work.update_action_with(&world_at(12 * 60), &mut cache, &mut a, &GO);
    assert!(matches!(a, PersonAction::Working));
    p_at_work.update_action_with(&world_at(17 * 60), &mut cache, &mut a, &GO);
    match a {
        PersonAction::Walking(path, next) => {
            assert_eq!(path[0], Position::new(0, 0));
            assert!(matches!(*next, PersonAction::AtHome));
        }
        _ => panic!("expected a walk home"),
    }
}

#[test]
fn shopping_ends_after_deadline() {
    let p = person(Position::new(0, 0), None);
    let mut cache = PathCache::new();
    let mut a = PersonAction::Shopping(600);
    p.update_action_with(&world_at(600), &mut cache, &mut a, &CALM);
    assert!(matches!(a, PersonAction::Shopping(600)));
    p.update_action_with(&world_at(601), &mut cache, &mut a, &CALM);
    assert!(matches!(a, PersonAction::Walking(_, _)));
}

#[test]
fn partying_and_lockdown_count_down() {
    let p = person(Position::new(0, 0), None);
    let mut cache = PathCache::new();
    let w = world_at(0);
    let mut a = PersonAction::Partying(2);
    p.update_action_with(&w, &mut cache, &mut a, &CALM);
    assert!(matches!(a, PersonAction::Partying(1)));
    p.update_action_with(&w, &mut cache, &mut a, &CALM);
    assert!(matches!(a, PersonAction::Partying(0)));
    p.update_action_with(&w, &mut cache, &mut a, &CALM);
    assert!(matches!(a, PersonAction::Walking(_, _)));
    let mut l = PersonAction::Lockdown(1);
    p.update_action_with(&w, &mut cache, &mut l, &CALM);
    assert!(matches!(l, PersonAction::Lockdown(0)));
    p.update_action_with(&w, &mut cache, &mut l, &CALM);
    assert!(matches!(l, PersonAction::AtHome));
}

#[test]
fn walking_steps_then_arrives() {
    let mut p = person(Position::new(0, 0), None);
    let mut a = PersonAction::Walking(vec![Position::new(1, 0), Position::new(0, 0)], Box::new(PersonAction::Working));
    let mut cache = PathCache::new();
    let w = world_at(0);
    p.update_action_with(&w, &mut cache, &mut a, &CALM);
    let u = p.update(PersonId(7), &mut a);
    assert!(matches!(u, Some(PersonUpdate::Position(PersonId(7), Position { x: 0, y: 0 }))));
    let u = p.update(PersonId(7), &mut a);
    assert!(matches!(u, Some(PersonUpdate::Position(PersonId(7), Position { x: 1, y: 0 }))));
    assert_eq!(p.position, Position::new(1, 0));
    assert!(p.update(PersonId(7), &mut a).is_none());
    p.update_action_with(&w, &mut cache, &mut a, &CALM);
    assert!(matches!(a, PersonAction::Working));
}

#[test]
fn no_route_keeps_the_action() {
    let mut w = world_at(10 * 60);
    w.map = TileMap::fill(6, 6, Tile::Building);
    let p = person(Position::new(0, 0), Some(Position::new(3, 0)));
    let mut cache = PathCache::new();
    let mut a = PersonAction::AtHome;
    p.update_action_with(&w, &mut cache, &mut a, &GO);
    assert!(matches!(a, PersonAction::AtHome));
}

#[test]
fn update_action_with_rng_keeps_idle_agent_home() {
    let w = world_at(3 * 60);
    let p = person(Position::new(0, 0), Some(Position::new(3, 0)));
    let mut cache = PathCache::new();
    let mut a = PersonAction::AtHome;
    let mut rng = rand::rngs::StdRng::seed_from_u64(3);
    p.update_action(&w, &mut cache, &mut a, &mut rng);
    assert!(matches!(a, PersonAction::AtHome));
}
