use mbw::map::{Position, Tile};
use mbw::map_generation::{Chunk, MapGenerationSettings, Structure};
use mbw::person::{PersonId, PersonUpdate};
use mbw::protocol::{decode_frame, encode_frame, frame_length, NetworkPayload};
use mbw::session::{GameSession, PlayerSession, StateUpdate};
use mbw::settings::Settings;
use mbw::world::{Location, World, POPULATION};
use rand::SeedableRng;

#[test]
fn frame_has_big_endian_length_prefix() {
    let f = encode_frame(&vec![7, 8, 9]).unwrap();
    assert_eq!(f, vec![0, 0, 0, 3, 7, 8, 9]);
    let big = vec![1u8; 0x1_0203];
    let f = encode_frame(&big).unwrap();
    assert_eq!(&f[0..4], &[0, 1, 2, 3]);
    assert_eq!(f.len(), 4 + 0x1_0203);
}

#[test]
fn header_reads_big_endian() {
    assert_eq!(frame_length(&[0x12, 0x34, 0x56, 0x78]), 0x1234_5678);
    assert_eq!(frame_length(&[0, 0, 1, 0, 99]), 256);
}

#[test]
fn frames_round_trip() {
    let payload = vec![1, 2, 3, 4, 5];
    let mut stream = encode_frame(&payload).unwrap();
    stream.extend(encode_frame(&vec![]).unwrap());
    let (first, used) = decode_frame(&stream).unwrap();
    assert_eq!(first, payload);
    assert_eq!(used, 9);
    let rest = stream[used..].to_vec();
    let (second, used) = decode_frame(&rest).unwrap();
    assert!(second.is_empty());
    assert_eq!(used, 4);
}

#[test]
fn incomplete_frames_wait() {
    assert!(decode_frame(&vec![0, 0, 0]).is_none());
    assert!(decode_frame(&vec![0, 0, 0, 2, 1]).is_none());
    assert!(decode_frame(&vec![0, 0, 0, 2, 1, 2]).is_some());
}

#[test]
fn payload_carries_session_and_player() {
    let s = GameSession::new(World::empty(1, 1), true);
    let mut p = PlayerSession::create_player(false);
    p.money = 42;
    let np = NetworkPayload::create(&s, &p, vec![StateUpdate::Winner(true)], 1_700_000_000);
    assert_eq!(np.timestamp, 1_700_000_000);
    assert_eq!(np.tick_count, 120);
    assert_eq!(np.tick_rate, 10);
    assert!(!np.side);
    assert_eq!(np.money, 42);
    assert_eq!(np.updates.len(), 1);
}

#[test]
fn client_world_takes_deltas() {
    let mut w = World::empty(1, 1);
    let mut rng = rand::rngs::StdRng::seed_from_u64(2);
    let p = mbw::person::Person::generate(
        &mut rng,
        Position::new(1, 1),
        mbw::person::Job { ty: mbw::person::JobType::Chef, location: None },
        "A".to_string(),
        "B".to_string(),
    );
    w.people.push(p);
    w.apply_update(StateUpdate::TileUpdate(Position::new(2, 3), Tile::RoadBlock));
    assert_eq!(*w.map.get_tile(&Position::new(2, 3)), Tile::RoadBlock);
    w.apply_update(StateUpdate::TileUpdate(Position::new(20, 3), Tile::RoadBlock));
    w.apply_update(StateUpdate::PersonUpdate(PersonUpdate::Position(PersonId(0), Position::new(4, 4))));
    assert_eq!(w.people[0].position, Position::new(4, 4));
    w.apply_update(StateUpdate::PersonUpdate(PersonUpdate::Infected(PersonId(0), true)));
    assert!(w.people[0].infected);
    w.apply_update(StateUpdate::PersonUpdate(PersonUpdate::Tested(PersonId(5), true)));
    w.apply_update(StateUpdate::SetWorld(World::empty(2, 1)));
    assert_eq!(w.map.width, 12);
    assert!(w.people.is_empty());
}

fn chunk(tile: Tile) -> Chunk {
    Chunk { tiles: [[tile; 6]; 6] }
}

fn settings() -> MapGenerationSettings {
    let mut house = chunk(Tile::Building);
    house.tiles[1][3] = Tile::Door(None);
    house.tiles[4][2] = Tile::Door(None);
    MapGenerationSettings {
        width: 4,
        height: 3,
        structures: vec![
            Structure { chunks: vec![(Position::new(0, 0), house)] },
            Structure { chunks: vec![(Position::new(0, 0), house), (Position::new(1, 0), chunk(Tile::Empty))] },
        ],
    }
}

#[test]
fn structure_dimensions() {
    let s = Structure {
        chunks: vec![(Position::new(0, 0), chunk(Tile::Empty)), (Position::new(2, 1), chunk(Tile::Empty))],
    };
    assert_eq!(s.dimensions(), (3, 2));
}

#[test]
fn generated_map_holds_only_chunk_tiles() {
    let mut rng = rand::rngs::StdRng::seed_from_u64(4);
    let st = settings();
    let map = st.generate(&mut rng);
    assert_eq!((map.width, map.height), (24, 18));
    let mut doors = 0;
    for x in 0..24 {
        for y in 0..18 {
            let t = *map.get_tile(&Position::new(x, y));
            assert!(matches!(t, Tile::Empty | Tile::Building | Tile::Door(None)));
            if t == Tile::Door(None) {
                doors += 1;
                assert!((x % 6, y % 6) == (1, 3) || (x % 6, y % 6) == (4, 2));
            }
        }
    }
    assert!(doors > 0);
}

#[test]
fn generated_world_is_populated() {
    let mut rng = rand::rngs::StdRng::seed_from_u64(8);
    let names = vec!["Kim".to_string(), "Lee".to_string()];
    let w = World::generate(&settings(), &mut rng, &names, &names).expect("a home exists");
    assert_eq!(w.people.len() as u64, POPULATION);
    assert!(w.people.iter().any(|p| p.infected));
    for (i, p) in w.people.iter().enumerate() {
        assert_eq!(p.position, p.home);
        assert!(w.locations.iter().any(|(pos, l)| *pos == p.home && *l == Location::Home));
        for a in &p.habits.acquaintances {
            assert!(w.people[a.0 as usize].knows(PersonId(i as u32)));
        }
    }
}

#[test]
fn settings_hold_launch_options() {
    let s = Settings { server: true, ip: "127.0.0.1:35565".to_string() };
    assert!(s.server);
    assert_eq!(s.ip, "127.0.0.1:35565");
}

#[test]
fn populate_needs_a_home() {
    let mut rng = rand::rngs::StdRng::seed_from_u64(3);
    let names = vec!["Kim".to_string()];
    let mut map = mbw::map::TileMap::fill(6, 6, Tile::Empty);
    map.set_tile(&Position::new(2, 2), Tile::Door(None));
    let shop = vec![(Position::new(2, 2), Location::Job(mbw::person::JobType::Clerk))];
    assert!(World::populate(map.clone(), shop, &mut rng, &names, &names).is_none());
    let home = vec![(Position::new(2, 2), Location::Home)];
    let w = World::populate(map, home, &mut rng, &names, &names).unwrap();
    assert_eq!(w.people.len() as u64, POPULATION);
    assert!(w.people.iter().all(|p| p.home == Position::new(2, 2)));
}
