use mbw::map::{Position, Tile};
use mbw::person::{Job, JobType, Person, PersonAction, PersonHabits, PersonId};
use mbw::session::{Ability, GameSession, Player, PlayerCommand, PlayerUpdate, StateUpdate};
use mbw::world::World;
use rand::SeedableRng;

fn person(home: Position) -> Person {
    Person {
        alive: true,
        infected: false,
        tick_infected: 0,
        tick_last_touched: 0,
        tested: false,
        vaccinated: false,
        first_name: "Grace".to_string(),
        last_name: "Hopper".to_string(),
        age: 40,
        sex: false,
        job: Job { ty: JobType::Teacher, location: None },
        position: home,
        home,
        habits: PersonHabits { mask: 0, hygiene: 0, socialscore: 0, vaccination_bias: 0, acquaintances: Vec::new() },
    }
}

/// Player 1 plays the virus, player 2 the president; both hold `money`.
fn session(money: u32) -> GameSession {
    let mut w = World::empty(2, 2);
    w.map.set_tile(&Position::new(5, 5), Tile::Door(None));
    w.people.push(person(Position::new(5, 5)));
    w.people.push(person(Position::new(1, 1)));
    w.people.push(person(Position::new(5, 5)));
    let mut s = GameSession::new(w, true);
    s.player1.money = money;
    s.player2.money = money;
    s
}

fn virus(command: PlayerCommand) -> PlayerUpdate {
    PlayerUpdate { side: true, command, player: Player::Player1 }
}

fn president(command: PlayerCommand) -> PlayerUpdate {
    PlayerUpdate { side: false, command, player: Player::Player2 }
}

#[test]
fn sides_of_commands() {
    assert!(PlayerCommand::EconomicCrash.is_valid(true));
    assert!(!PlayerCommand::EconomicCrash.is_valid(false));
    assert!(PlayerCommand::Lockdown(Position::new(0, 0)).is_valid(false));
    assert!(!PlayerCommand::Lockdown(Position::new(0, 0)).is_valid(true));
    assert!(PlayerCommand::PartyImpulse(PersonId(0)).is_valid(true));
    assert!(president(PlayerCommand::Testcenter(Position::new(0, 0))).is_valid());
    assert!(!virus(PlayerCommand::Testcenter(Position::new(0, 0))).is_valid());
}

#[test]
fn prices_and_required_tiles() {
    let p = Position::new(0, 0);
    assert_eq!(PlayerCommand::PartyImpulse(PersonId(0)).price_lookup(), 250);
    assert_eq!(PlayerCommand::AntivaxCampaign(p).price_lookup(), 800);
    assert_eq!(PlayerCommand::Roadblock(p).price_lookup(), 80);
    assert_eq!(PlayerCommand::SocialImpulse(p).price_lookup(), 180);
    assert_eq!(PlayerCommand::EconomicCrash.price_lookup(), 800);
    assert_eq!(PlayerCommand::Testcenter(p).price_lookup(), 300);
    assert_eq!(PlayerCommand::Lockdown(p).price_lookup(), 100);
    assert_eq!(PlayerCommand::Vaccinecenter(p).price_lookup(), 600);
    assert_eq!(PlayerCommand::MaskCampaign(p).price_lookup(), 200);
    assert_eq!(PlayerCommand::Roadblock(p).tile_lookup(), vec![Tile::Empty, Tile::RoadBlock]);
    assert_eq!(PlayerCommand::Lockdown(p).tile_lookup(), vec![Tile::Door(None)]);
    assert!(PlayerCommand::EconomicCrash.tile_lookup().is_empty());
    assert_eq!(PlayerCommand::Roadblock(p).next_tile(Tile::RoadBlock), Some(Tile::Empty));
    assert_eq!(PlayerCommand::MaskCampaign(p).next_tile(Tile::Building), None);
}

#[test]
fn wrong_side_changes_nothing() {
    let mut s = session(10_000);
    let mut updates = Vec::new();
    s.apply_command(&president(PlayerCommand::Roadblock(Position::new(0, 0))), &mut updates);
    s.apply_command(&virus(PlayerCommand::Lockdown(Position::new(5, 5))), &mut updates);
    s.apply_command(&virus(PlayerCommand::Testcenter(Position::new(2, 2))), &mut updates);
    assert!(updates.is_empty());
    assert_eq!(s.player1.money, 10_000);
    assert_eq!(s.player2.money, 10_000);
    assert_eq!(*s.world.map.get_tile(&Position::new(0, 0)), Tile::Empty);
    assert_eq!(*s.world.map.get_tile(&Position::new(5, 5)), Tile::Door(None));
    assert!(s.test_centers.is_empty());
}

#[test]
fn too_little_money_is_rejected() {
    let mut s = session(79);
    let mut updates = Vec::new();
    s.apply_command(&virus(PlayerCommand::Roadblock(Position::new(0, 0))), &mut updates);
    assert!(updates.is_empty());
    assert_eq!(s.player1.money, 79);
    assert_eq!(*s.world.map.get_tile(&Position::new(0, 0)), Tile::Empty);
}

#[test]
fn accepted_command_costs_its_price() {
    let mut s = session(1000);
    let mut updates = Vec::new();
    s.apply_command(&virus(PlayerCommand::Roadblock(Position::new(0, 0))), &mut updates);
    assert_eq!(s.player1.money, 920);
    assert_eq!(s.player2.money, 1000);
    assert_eq!(*s.world.map.get_tile(&Position::new(0, 0)), Tile::RoadBlock);
    assert!(matches!(updates[0], StateUpdate::TileUpdate(Position { x: 0, y: 0 }, Tile::RoadBlock)));
    s.apply_command(&virus(PlayerCommand::Roadblock(Position::new(0, 0))), &mut updates);
    assert_eq!(s.player1.money, 840);
    assert_eq!(*s.world.map.get_tile(&Position::new(0, 0)), Tile::Empty);
    assert_eq!(updates.len(), 2);
}

#[test]
fn exact_money_suffices() {
    let mut s = session(300);
    let mut updates = Vec::new();
    s.apply_command(&president(PlayerCommand::Testcenter(Position::new(2, 2))), &mut updates);
    assert_eq!(s.player2.money, 0);
    assert_eq!(s.test_centers, vec![Position::new(2, 2)]);
    assert_eq!(*s.world.map.get_tile(&Position::new(2, 2)), Tile::TestCenter);
}

#[test]
fn tile_precondition_failure_costs_nothing() {
    let mut s = session(1000);
    let mut updates = Vec::new();
    s.apply_command(&president(PlayerCommand::Vaccinecenter(Position::new(5, 5))), &mut updates);
    s.apply_command(&president(PlayerCommand::Lockdown(Position::new(0, 0))), &mut updates);
    s.apply_command(&president(PlayerCommand::MaskCampaign(Position::new(50, 50))), &mut updates);
    s.apply_command(&virus(PlayerCommand::PartyImpulse(PersonId(99))), &mut updates);
    assert!(updates.is_empty());
    assert_eq!(s.player1.money, 1000);
    assert_eq!(s.player2.money, 1000);
}

#[test]
fn lockdown_closes_door_and_confines_household() {
    let mut s = session(1000);
    let mut updates = Vec::new();
    s.apply_command(&president(PlayerCommand::Lockdown(Position::new(5, 5))), &mut updates);
    assert_eq!(s.player2.money, 900);
    assert_eq!(*s.world.map.get_tile(&Position::new(5, 5)), Tile::Door(Some(1440)));
    assert!(!s.world.map.can_walk(&Position::new(5, 5)));
    assert!(matches!(updates[0], StateUpdate::TileUpdate(Position { x: 5, y: 5 }, Tile::Door(Some(1440)))));
    for i in [0usize, 2] {
        match &s.people_actions[i] {
            PersonAction::Walking(path, next) => {
                assert_eq!(path, &vec![Position::new(5, 5)]);
                assert!(matches!(**next, PersonAction::Lockdown(1440)));
            }
            _ => panic!("household member not sent into lockdown"),
        }
    }
    assert!(matches!(s.people_actions[1], PersonAction::AtHome));
    // the cache no longer routes through the closed door
    let route = s.path_cache.get_path(&s.world.map, Position::new(4, 5), Position::new(6, 5));
    assert!(route.map(|r| !r.contains(&Position::new(5, 5))).unwrap_or(true));
}

#[test]
fn lockdown_takes_effect_over_following_ticks() {
    let mut s = session(1000);
    let mut updates = Vec::new();
    s.apply_command(&president(PlayerCommand::Lockdown(Position::new(5, 5))), &mut updates);
    let mut rng = rand::rngs::StdRng::seed_from_u64(11);
    s.advance(&mut rng, &Vec::new());
    s.advance(&mut rng, &Vec::new());
    assert!(matches!(s.people_actions[0], PersonAction::Lockdown(_)));
    assert!(matches!(s.people_actions[2], PersonAction::Lockdown(_)));
}

#[test]
fn party_impulse_gathers_acquaintances() {
    let mut s = session(1000);
    s.world.befriend(0, 1);
    let mut updates = Vec::new();
    s.apply_command(&virus(PlayerCommand::PartyImpulse(PersonId(0))), &mut updates);
    assert_eq!(s.player1.money, 750);
    assert!(updates.is_empty());
    for i in [0usize, 1] {
        match &s.people_actions[i] {
            PersonAction::Walking(path, next) => {
                assert_eq!(path[0], Position::new(5, 5));
                assert!(matches!(**next, PersonAction::Partying(300)));
            }
            _ => panic!("not sent to the party"),
        }
    }
    assert!(matches!(s.people_actions[2], PersonAction::AtHome));
}

#[test]
fn economic_crash_razes_campaigns_and_test_centres() {
    let mut s = session(5000);
    let mut updates = Vec::new();
    s.apply_command(&president(PlayerCommand::Testcenter(Position::new(1, 2))), &mut updates);
    s.apply_command(&president(PlayerCommand::MaskCampaign(Position::new(3, 3))), &mut updates);
    s.apply_command(&president(PlayerCommand::Vaccinecenter(Position::new(4, 4))), &mut updates);
    s.apply_command(&virus(PlayerCommand::AntivaxCampaign(Position::new(7, 7))), &mut updates);
    assert_eq!(*s.world.map.get_tile(&Position::new(3, 3)), Tile::MaskCampain(480));
    assert_eq!(*s.world.map.get_tile(&Position::new(7, 7)), Tile::AntivaxCampain(480));
    let mut crash = Vec::new();
    s.apply_command(&virus(PlayerCommand::EconomicCrash), &mut crash);
    assert_eq!(s.player1.money, 5000 - 800 - 800);
    assert_eq!(*s.world.map.get_tile(&Position::new(1, 2)), Tile::Empty);
    assert_eq!(*s.world.map.get_tile(&Position::new(3, 3)), Tile::Empty);
    assert_eq!(*s.world.map.get_tile(&Position::new(7, 7)), Tile::Empty);
    assert_eq!(*s.world.map.get_tile(&Position::new(4, 4)), Tile::VaccineCenter);
    assert!(s.test_centers.is_empty());
    assert_eq!(s.vaccine_centers, vec![Position::new(4, 4)]);
    assert_eq!(crash.len(), 3);
    assert!(crash.iter().all(|u| matches!(u, StateUpdate::TileUpdate(_, Tile::Empty))));
}

#[test]
fn social_impulse_keeps_the_tile() {
    let mut s = session(200);
    let mut updates = Vec::new();
    s.apply_command(&virus(PlayerCommand::SocialImpulse(Position::new(2, 3))), &mut updates);
    assert_eq!(s.player1.money, 20);
    assert_eq!(*s.world.map.get_tile(&Position::new(2, 3)), Tile::Empty);
    assert!(matches!(updates[0], StateUpdate::TileUpdate(Position { x: 2, y: 3 }, Tile::Empty)));
}

#[test]
fn handle_players_applies_in_order() {
    let mut s = session(100);
    let mut updates = Vec::new();
    let commands = vec![
        virus(PlayerCommand::Roadblock(Position::new(0, 0))),
        virus(PlayerCommand::Roadblock(Position::new(0, 1))),
        president(PlayerCommand::Lockdown(Position::new(5, 5))),
    ];
    s.handle_players(&commands, &mut updates);
    assert_eq!(s.player1.money, 20);
    assert_eq!(s.player2.money, 0);
    assert_eq!(*s.world.map.get_tile(&Position::new(0, 1)), Tile::Empty);
    assert_eq!(updates.len(), 2);
}

#[test]
fn abilities_name_their_commands() {
    let p = Position::new(1, 2);
    assert_eq!(Ability::MaskCampain.as_str(), "Mask Campaign");
    assert_eq!(Ability::AntivaxCampain.as_str(), "Antivax Campaign");
    assert_eq!(Ability::Lockdown.command_at(p), PlayerCommand::Lockdown(p));
    assert_eq!(Ability::Roadblock.command_at(p), PlayerCommand::Roadblock(p));
}

#[test]
fn new_session_starts_everyone_at_home() {
    let s = session(0);
    assert_eq!(s.tick_count, 120);
    assert_eq!(s.tick_rate, 10);
    assert_eq!(s.people_actions.len(), 3);
    assert!(s.people_actions.iter().all(|a| matches!(a, PersonAction::AtHome)));
    assert!(s.player1.side && !s.player2.side);
}

#[test]
fn lockdown_reaches_acquaintances_of_the_household() {
    let mut s = session(1000);
    s.world.befriend(0, 1);
    let mut updates = Vec::new();
    s.apply_command(&president(PlayerCommand::Lockdown(Position::new(5, 5))), &mut updates);
    match &s.people_actions[1] {
        PersonAction::Walking(path, next) => {
            assert_eq!(path, &vec![Position::new(1, 1)]);
            assert!(matches!(**next, PersonAction::Lockdown(1440)));
        }
        _ => panic!("acquaintance not sent into lockdown"),
    }
}
