use mbw::map::{Position, Tile, TileMap};
use mbw::person::{Job, JobType, Person, PersonHabits, PersonId};
use mbw::render::{shade_of, Color, DrawCommand, Glyph, Mark};
use mbw::world::World;

fn person(tested: bool, infected: bool, vaccinated: bool) -> Person {
    Person {
        alive: true,
        infected,
        tick_infected: 0,
        tick_last_touched: 0,
        tested,
        vaccinated,
        first_name: "X".to_string(),
        last_name: "Y".to_string(),
        age: 20,
        sex: true,
        job: Job { ty: JobType::Chef, location: None },
        position: Position::new(0, 0),
        home: Position::new(0, 0),
        habits: PersonHabits { mask: 0, hygiene: 0, socialscore: 0, vaccination_bias: 0, acquaintances: Vec::new() },
    }
}

#[test]
fn tile_symbols() {
    assert_eq!(Tile::Empty.render(), None);
    assert_eq!(Tile::Building.render(), Some(('#', Color::DarkOliveGreen4)));
    assert_eq!(Tile::Door(Some(3)).render(), Some(('[', Color::Burlywood)));
    assert_eq!(Tile::AntivaxCampain(1).render(), Some(('A', Color::Red)));
}

#[test]
fn map_draws_non_empty_cells_in_column_order() {
    let mut m = TileMap::fill(3, 2, Tile::Empty);
    m.set_tile(&Position::new(2, 0), Tile::RoadBlock);
    m.set_tile(&Position::new(0, 1), Tile::TestCenter);
    let cmds = m.render(30, 1);
    assert_eq!(
        cmds,
        vec![
            DrawCommand { x: 30, y: 2, fg: Color::Purple, bg: Color::Black, glyph: Glyph::Symbol('T') },
            DrawCommand { x: 32, y: 1, fg: Color::Gray, bg: Color::Black, glyph: Glyph::Symbol('X') },
        ]
    );
}

#[test]
fn shades_by_fraction() {
    assert_eq!(shade_of(0, 4, Color::Blue, Color::Red, Color::Gold, Color::Gray), Color::Blue);
    assert_eq!(shade_of(1, 4, Color::Blue, Color::Red, Color::Gold, Color::Gray), Color::Red);
    assert_eq!(shade_of(2, 4, Color::Blue, Color::Red, Color::Gold, Color::Gray), Color::Gold);
    assert_eq!(shade_of(4, 4, Color::Blue, Color::Red, Color::Gold, Color::Gray), Color::Gray);
}

#[test]
fn crowds_are_counted_and_coloured() {
    let mut w = World::empty(1, 1);
    w.people.push(person(false, true, false));
    w.people.push(person(true, false, false));
    w.people.push(person(false, false, true));
    let groups = vec![
        (Position::new(1, 1), vec![PersonId(0), PersonId(1), PersonId(2)]),
        (Position::new(2, 2), vec![PersonId(1)]),
        (Position::new(3, 3), vec![PersonId(2)]),
    ];
    assert_eq!(w.count(&groups[0].1, Mark::Sick, true), 1);
    assert_eq!(w.count(&groups[0].1, Mark::Sick, false), 0);
    let cmds = w.render(&groups, 0, 0, true);
    assert_eq!(cmds.len(), 3);
    // one of three sick, seen by the virus: under half
    assert_eq!(cmds[0], DrawCommand { x: 1, y: 1, fg: Color::Orange2, bg: Color::Black, glyph: Glyph::Count(3) });
    assert_eq!(cmds[1], DrawCommand { x: 2, y: 2, fg: Color::Green2, bg: Color::Black, glyph: Glyph::Symbol('&') });
    assert_eq!(cmds[2].fg, Color::DarkBlue);
    let president = w.render(&groups, 0, 0, false);
    // the president does not see the untested infection: one of three vaccinated
    assert_eq!(president[0].fg, Color::Blue2);
}
