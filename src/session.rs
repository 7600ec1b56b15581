use crate::map::{Position, Tile, TileMap};
use crate::path::{lemma_consistent_same_walkability, PathCache};
use crate::person::{sent_to, Person, PersonAction, PersonId, PersonUpdate};
use crate::world::{acquaintances_wf, World};
use vstd::prelude::*;

verus! {

/// Ticks an agent parties once a party impulse reaches it.
pub const PARTY_TICKS: u32 = 300;

/// Minutes a lockdown closes a door, and ticks it confines the household.
pub const LOCKDOWN_TICKS: u32 = 1440;

/// Timer that a new mask or anti-vaccination campaign starts with.
pub const CAMPAIGN_TICKS: u32 = 480;

/// Which of the two connections issued a command.
#[derive(Clone, Copy, Debug, PartialEq, Eq, Structural)]
pub enum Player {
    Player1,
    Player2,
}

/// One player's standing: the side played (`true` for the virus) and money.
#[derive(Clone, Copy, Debug, PartialEq, Eq, Structural)]
pub struct PlayerSession {
    pub side: bool,
    pub created: bool,
    pub money: u32,
}

impl PlayerSession {
    pub fn create_player(side: bool) -> (r: Self)
        ensures
            r.side == side,
            r.created,
            r.money == 0,
    {
        PlayerSession { side, created: true, money: 0 }
    }
}

/// One change of the world, as sent to the clients.
#[derive(Clone, Debug)]
pub enum StateUpdate {
    SetWorld(World),
    TileUpdate(Position, Tile),
    PersonUpdate(PersonUpdate),
    /// The game is over; the side that won (`true` for the virus).
    Winner(bool),
}

/// What a player may ask of the server.
#[derive(Clone, Copy, Debug, PartialEq, Eq, Structural)]
pub enum PlayerCommand {
    PartyImpulse(PersonId),
    AntivaxCampaign(Position),
    Roadblock(Position),
    SocialImpulse(Position),
    EconomicCrash,
    Testcenter(Position),
    Lockdown(Position),
    Vaccinecenter(Position),
    MaskCampaign(Position),
}

impl PlayerCommand {
    /// The side that may issue the command (`true` for the virus).
    pub open spec fn issuer(self) -> bool {
        match self {
            PlayerCommand::PartyImpulse(_) => true,
            PlayerCommand::AntivaxCampaign(_) => true,
            PlayerCommand::Roadblock(_) => true,
            PlayerCommand::SocialImpulse(_) => true,
            PlayerCommand::EconomicCrash => true,
            PlayerCommand::Testcenter(_) => false,
            PlayerCommand::Lockdown(_) => false,
            PlayerCommand::Vaccinecenter(_) => false,
            PlayerCommand::MaskCampaign(_) => false,
        }
    }

    pub open spec fn price(self) -> u32 {
        match self {
            PlayerCommand::PartyImpulse(_) => 250,
            PlayerCommand::AntivaxCampaign(_) => 800,
            PlayerCommand::Roadblock(_) => 80,
            PlayerCommand::SocialImpulse(_) => 180,
            PlayerCommand::EconomicCrash => 800,
            PlayerCommand::Testcenter(_) => 300,
            PlayerCommand::Lockdown(_) => 100,
            PlayerCommand::Vaccinecenter(_) => 600,
            PlayerCommand::MaskCampaign(_) => 200,
        }
    }

    /// The cell a tile command acts on.
    pub open spec fn target(self) -> Option<Position> {
        match self {
            PlayerCommand::AntivaxCampaign(p) => Some(p),
            PlayerCommand::Roadblock(p) => Some(p),
            PlayerCommand::SocialImpulse(p) => Some(p),
            PlayerCommand::Testcenter(p) => Some(p),
            PlayerCommand::Lockdown(p) => Some(p),
            PlayerCommand::Vaccinecenter(p) => Some(p),
            PlayerCommand::MaskCampaign(p) => Some(p),
            _ => None,
        }
    }

    /// The tiles the target cell must hold for the command to apply.
    pub open spec fn required(self) -> Seq<Tile> {
        match self {
            PlayerCommand::PartyImpulse(_) => seq![Tile::Empty],
            PlayerCommand::AntivaxCampaign(_) => seq![Tile::Empty],
            PlayerCommand::Roadblock(_) => seq![Tile::Empty, Tile::RoadBlock],
            PlayerCommand::SocialImpulse(_) => seq![Tile::Empty],
            PlayerCommand::EconomicCrash => seq![],
            PlayerCommand::Testcenter(_) => seq![Tile::Empty],
            PlayerCommand::Lockdown(_) => seq![Tile::Door(None)],
            PlayerCommand::Vaccinecenter(_) => seq![Tile::Empty],
            PlayerCommand::MaskCampaign(_) => seq![Tile::Empty],
        }
    }

    /// The tile a tile command leaves on a target that held `current`, or
    /// `None` when it does not apply there.
    pub open spec fn outcome(self, current: Tile) -> Option<Tile> {
        match self {
            PlayerCommand::AntivaxCampaign(_) => if current == Tile::Empty {
                Some(Tile::AntivaxCampain(CAMPAIGN_TICKS))
            } else {
                None
            },
            PlayerCommand::Roadblock(_) => if current == Tile::Empty {
                Some(Tile::RoadBlock)
            } else if current == Tile::RoadBlock {
                Some(Tile::Empty)
            } else {
                None
            },
            PlayerCommand::SocialImpulse(_) => if current == Tile::Empty {
                Some(Tile::Empty)
            } else {
                None
            },
            PlayerCommand::Testcenter(_) => if current == Tile::Empty {
                Some(Tile::TestCenter)
            } else {
                None
            },
            PlayerCommand::Lockdown(_) => if current == Tile::Door(None) {
                Some(Tile::Door(Some(LOCKDOWN_TICKS)))
            } else {
                None
            },
            PlayerCommand::Vaccinecenter(_) => if current == Tile::Empty {
                Some(Tile::VaccineCenter)
            } else {
                None
            },
            PlayerCommand::MaskCampaign(_) => if current == Tile::Empty {
                Some(Tile::MaskCampain(CAMPAIGN_TICKS))
            } else {
                None
            },
            _ => None,
        }
    }

    /// Whether a player on `side` may issue the command.
    pub fn is_valid(&self, side: bool) -> (r: bool)
        ensures
            r == (side == self.issuer()),
    {
        match self {
            PlayerCommand::PartyImpulse(_) => side,
            PlayerCommand::AntivaxCampaign(_) => side,
            PlayerCommand::Roadblock(_) => side,
            PlayerCommand::SocialImpulse(_) => side,
            PlayerCommand::EconomicCrash => side,
            PlayerCommand::Testcenter(_) => !side,
            PlayerCommand::Lockdown(_) => !side,
            PlayerCommand::Vaccinecenter(_) => !side,
            PlayerCommand::MaskCampaign(_) => !side,
        }
    }

    pub fn tile_lookup(&self) -> (r: Vec<Tile>)
        ensures
            r@ == self.required(),
    {
        let r = match self {
            PlayerCommand::PartyImpulse(_) => vec![Tile::Empty],
            PlayerCommand::AntivaxCampaign(_) => vec![Tile::Empty],
            PlayerCommand::Roadblock(_) => vec![Tile::Empty, Tile::RoadBlock],
            PlayerCommand::SocialImpulse(_) => vec![Tile::Empty],
            PlayerCommand::EconomicCrash => vec![],
            PlayerCommand::Testcenter(_) => vec![Tile::Empty],
            PlayerCommand::Lockdown(_) => vec![Tile::Door(None)],
            PlayerCommand::Vaccinecenter(_) => vec![Tile::Empty],
            PlayerCommand::MaskCampaign(_) => vec![Tile::Empty],
        };
        assert(r@ =~= self.required());
        r
    }

    pub fn price_lookup(&self) -> (r: u32)
        ensures
            r == self.price(),
    {
        match self {
            PlayerCommand::PartyImpulse(_) => 250,
            PlayerCommand::AntivaxCampaign(_) => 800,
            PlayerCommand::Roadblock(_) => 80,
            PlayerCommand::SocialImpulse(_) => 180,
            PlayerCommand::EconomicCrash => 800,
            PlayerCommand::Testcenter(_) => 300,
            PlayerCommand::Lockdown(_) => 100,
            PlayerCommand::Vaccinecenter(_) => 600,
            PlayerCommand::MaskCampaign(_) => 200,
        }
    }

    /// The tile left on a target that holds `current`, if the command applies there.
    pub fn next_tile(&self, current: Tile) -> (r: Option<Tile>)
        ensures
            r == self.outcome(current),
            self.target() is Some ==> (r is Some <==> self.required().contains(current)),
    {
        let required = self.tile_lookup();
        let r = match self {
            PlayerCommand::AntivaxCampaign(_) => if current == required[0] {
                Some(Tile::AntivaxCampain(CAMPAIGN_TICKS))
            } else {
                None
            },
            PlayerCommand::Roadblock(_) => if current == required[0] {
                Some(Tile::RoadBlock)
            } else if current == required[1] {
                Some(Tile::Empty)
            } else {
                None
            },
            PlayerCommand::SocialImpulse(_) => if current == required[0] {
                Some(Tile::Empty)
            } else {
                None
            },
            PlayerCommand::Testcenter(_) => if current == required[0] {
                Some(Tile::TestCenter)
            } else {
                None
            },
            PlayerCommand::Lockdown(_) => if current == required[0] {
                Some(Tile::Door(Some(LOCKDOWN_TICKS)))
            } else {
                None
            },
            PlayerCommand::Vaccinecenter(_) => if current == required[0] {
                Some(Tile::VaccineCenter)
            } else {
                None
            },
            PlayerCommand::MaskCampaign(_) => if current == required[0] {
                Some(Tile::MaskCampain(CAMPAIGN_TICKS))
            } else {
                None
            },
            _ => None,
        };
        proof {
            if self.target() is Some {
                if self.required().contains(current) {
                    let k = choose|k: int| 0 <= k < self.required().len() && self.required()[k] == current;
                    assert(k == 0 || k == 1);
                }
                if r is Some {
                    assert(self.required()[0] == current || self.required()[1] == current);
                }
            }
        }
        r
    }
}

/// A command as received: the issuing player and the side it plays.
#[derive(Clone, Copy, Debug, PartialEq, Eq, Structural)]
pub struct PlayerUpdate {
    pub side: bool,
    pub command: PlayerCommand,
    pub player: Player,
}

impl PlayerUpdate {
    pub fn is_valid(&self) -> (r: bool)
        ensures
            r == (self.side == self.command.issuer()),
    {
        self.command.is_valid(self.side)
    }
}

/// The tile the economic crash leaves where `t` was.
pub open spec fn crashed(t: Tile) -> Tile {
    match t {
        Tile::MaskCampain(_) => Tile::Empty,
        Tile::TestCenter => Tile::Empty,
        Tile::AntivaxCampain(_) => Tile::Empty,
        _ => t,
    }
}

impl PlayerCommand {
    pub fn target_cell(&self) -> (r: Option<Position>)
        ensures
            r == self.target(),
    {
        match self {
            PlayerCommand::AntivaxCampaign(p) => Some(*p),
            PlayerCommand::Roadblock(p) => Some(*p),
            PlayerCommand::SocialImpulse(p) => Some(*p),
            PlayerCommand::Testcenter(p) => Some(*p),
            PlayerCommand::Lockdown(p) => Some(*p),
            PlayerCommand::Vaccinecenter(p) => Some(*p),
            PlayerCommand::MaskCampaign(p) => Some(*p),
            _ => None,
        }
    }

    /// Whether applying the command may change where agents can walk.
    pub open spec fn reshapes(self) -> bool {
        match self {
            PlayerCommand::Testcenter(_) => false,
            PlayerCommand::Vaccinecenter(_) => false,
            PlayerCommand::PartyImpulse(_) => false,
            _ => true,
        }
    }
}

/// The server's state of one match.
pub struct GameSession {
    pub player1: PlayerSession,
    pub player2: PlayerSession,
    pub tick_count: u64,
    pub tick_rate: u8,
    pub age: u64,
    pub world: World,
    /// What person `i` is doing is `people_actions[i]`.
    pub people_actions: Vec<PersonAction>,
    pub path_cache: PathCache,
    pub test_centers: Vec<Position>,
    pub vaccine_centers: Vec<Position>,
}

impl GameSession {
    /// One action per person, and every cached route right for the current map.
    pub open spec fn wf(&self) -> bool {
        &&& self.world.wf()
        &&& self.people_actions@.len() == self.world.people@.len()
        &&& self.path_cache.consistent_with(self.world.map)
        &&& self.tick_rate > 0
    }

    pub open spec fn money_of(&self, p: Player) -> u32 {
        match p {
            Player::Player1 => self.player1.money,
            Player::Player2 => self.player2.money,
        }
    }

    /// Whether the command passes every check: side, money, and the state of its target.
    pub open spec fn accepts(&self, u: PlayerUpdate) -> bool {
        &&& u.side == u.command.issuer()
        &&& self.money_of(u.player) >= u.command.price()
        &&& match u.command {
            PlayerCommand::PartyImpulse(id) => id.0 < self.world.people@.len(),
            PlayerCommand::EconomicCrash => true,
            c => {
                let p = c.target().unwrap();
                self.world.map.inside(p) && c.outcome(self.world.map.tile(p)) is Some
            },
        }
    }

    /// A session for `world` at the start of a match; the first player plays `side`.
    pub fn new(world: World, side: bool) -> (r: Self)
        requires
            world.wf(),
        ensures
            r.wf(),
            r.world == world,
            r.player1 == (PlayerSession { side, created: true, money: 0 }),
            r.player2 == (PlayerSession { side: !side, created: true, money: 0 }),
            r.tick_count == 120,
            r.tick_rate == 10,
            r.age == 0,
            forall|i: int| 0 <= i < r.people_actions@.len() ==> #[trigger] r.people_actions@[i] == PersonAction::AtHome,
            r.path_cache@ == Map::<(Position, Position), Option<Seq<Position>>>::empty(),
            r.test_centers@.len() == 0,
            r.vaccine_centers@.len() == 0,
    {
        let mut people_actions: Vec<PersonAction> = Vec::new();
        let n = world.people.len();
        let mut i: usize = 0;
        while i < n
            invariant
                i <= n,
                people_actions@.len() == i,
                forall|k: int| 0 <= k < i ==> #[trigger] people_actions@[k] == PersonAction::AtHome,
            decreases n - i,
        {
            people_actions.push(PersonAction::AtHome);
            i = i + 1;
        }
        GameSession {
            player1: PlayerSession::create_player(side),
            player2: PlayerSession::create_player(!side),
            tick_count: 120,
            tick_rate: 10,
            age: 0,
            world,
            people_actions,
            path_cache: PathCache::new(),
            test_centers: Vec::new(),
            vaccine_centers: Vec::new(),
        }
    }

    fn debit(&mut self, player: Player, price: u32)
        requires
            old(self).money_of(player) >= price,
        ensures
            *final(self) == (match player {
                Player::Player1 => GameSession {
                    player1: PlayerSession { money: (old(self).player1.money - price) as u32, ..old(self).player1 },
                    ..*old(self)
                },
                Player::Player2 => GameSession {
                    player2: PlayerSession { money: (old(self).player2.money - price) as u32, ..old(self).player2 },
                    ..*old(self)
                },
            }),
    {
        match player {
            Player::Player1 => {
                self.player1.money = self.player1.money - price;
            },
            Player::Player2 => {
                self.player2.money = self.player2.money - price;
            },
        }
    }
}

/// Nothing but the map, the actions, the centres, the cache and the money differ.
pub open spec fn same_clock_and_people(old: GameSession, new: GameSession) -> bool {
    &&& new.tick_count == old.tick_count
    &&& new.tick_rate == old.tick_rate
    &&& new.age == old.age
    &&& new.world.time == old.world.time
    &&& new.world.people == old.world.people
    &&& new.world.locations == old.world.locations
    &&& new.world.job_locations == old.world.job_locations
}

/// What a tile command that turns the tile at `p` into `t` does.
pub open spec fn tile_effect(
    old: GameSession,
    new: GameSession,
    c: PlayerCommand,
    p: Position,
    t: Tile,
    before: Seq<StateUpdate>,
    after: Seq<StateUpdate>,
) -> bool {
    &&& new.world.map.wf()
    &&& new.world.map.same_except(old.world.map, p)
    &&& new.world.map.tile(p) == t
    &&& after == before.push(StateUpdate::TileUpdate(p, t))
    &&& new.test_centers@ == (if c is Testcenter {
        old.test_centers@.push(p)
    } else {
        old.test_centers@
    })
    &&& new.vaccine_centers@ == (if c is Vaccinecenter {
        old.vaccine_centers@.push(p)
    } else {
        old.vaccine_centers@
    })
    &&& if c.reshapes() {
        new.path_cache@ == Map::<(Position, Position), Option<Seq<Position>>>::empty()
    } else {
        new.path_cache@ == old.path_cache@
    }
}

/// Person `i` lives at `p`, or knows someone who does.
pub open spec fn locked_down(people: Seq<Person>, i: int, p: Position) -> bool {
    ||| people[i].home == p
    ||| exists|k: int|
        0 <= k < people[i].habits.acquaintances@.len() && people[i].habits.acquaintances@[k].0 < people.len()
            && people[(#[trigger] people[i].habits.acquaintances@[k]).0 as int].home == p
}

/// The household living at `p` and everyone who knows one of them are sent
/// home to stay in lockdown; the others go on as before. Routes are those of
/// the map before the door closed.
pub open spec fn lockdown_effect(old: GameSession, new: GameSession, p: Position) -> bool {
    &&& new.people_actions@.len() == old.people_actions@.len()
    &&& forall|i: int|
        0 <= i < old.people_actions@.len() ==> if locked_down(old.world.people@, i, p) {
            sent_to(
                old.world.map,
                old.people_actions@[i],
                #[trigger] new.people_actions@[i],
                old.world.people@[i].position,
                old.world.people@[i].home,
                PersonAction::Lockdown(LOCKDOWN_TICKS),
            )
        } else {
            new.people_actions@[i] == old.people_actions@[i]
        }
}

/// Person `id` and everyone they know head to `id`'s home to party.
pub open spec fn party_effect(old: GameSession, new: GameSession, id: PersonId) -> bool {
    let host = old.world.people@[id.0 as int];
    &&& new.world.map == old.world.map
    &&& new.test_centers == old.test_centers
    &&& new.vaccine_centers == old.vaccine_centers
    &&& new.people_actions@.len() == old.people_actions@.len()
    &&& forall|i: int|
        0 <= i < old.people_actions@.len() ==> if i == id.0 || host.habits.acquaintances@.contains(
            PersonId(i as u32),
        ) {
            sent_to(
                old.world.map,
                old.people_actions@[i],
                #[trigger] new.people_actions@[i],
                old.world.people@[i].position,
                host.home,
                PersonAction::Partying(PARTY_TICKS),
            )
        } else {
            new.people_actions@[i] == old.people_actions@[i]
        }
}

/// Campaigns and test centres are razed, and the list of test centres emptied.
pub open spec fn crash_effect(
    old: GameSession,
    new: GameSession,
    before: Seq<StateUpdate>,
    after: Seq<StateUpdate>,
) -> bool {
    &&& new.world.map.wf()
    &&& new.world.map.width == old.world.map.width
    &&& new.world.map.height == old.world.map.height
    &&& forall|q: Position| #[trigger]
        new.world.map.inside(q) ==> new.world.map.tile(q) == crashed(old.world.map.tile(q))
    &&& new.test_centers@.len() == 0
    &&& new.vaccine_centers == old.vaccine_centers
    &&& new.people_actions == old.people_actions
    &&& new.path_cache@ == Map::<(Position, Position), Option<Seq<Position>>>::empty()
    &&& after.len() >= before.len()
    &&& after.subrange(0, before.len() as int) == before
    &&& forall|k: int|
        before.len() <= k < after.len() ==> exists|q: Position|
            old.world.map.inside(q) && crashed(old.world.map.tile(q)) != old.world.map.tile(q)
                && #[trigger] after[k] == StateUpdate::TileUpdate(q, Tile::Empty)
}

impl GameSession {
    /// Sends person `i` to `target`, to do `next` on arrival.
    fn send(&mut self, i: usize, target: Position, next: PersonAction)
        requires
            old(self).wf(),
            i < old(self).world.people@.len(),
        ensures
            final(self).wf(),
            final(self).world == old(self).world,
            final(self).player1 == old(self).player1,
            final(self).player2 == old(self).player2,
            final(self).tick_count == old(self).tick_count,
            final(self).tick_rate == old(self).tick_rate,
            final(self).age == old(self).age,
            final(self).test_centers == old(self).test_centers,
            final(self).vaccine_centers == old(self).vaccine_centers,
            final(self).people_actions@.len() == old(self).people_actions@.len(),
            forall|k: int|
                0 <= k < old(self).people_actions@.len() && k != i ==> #[trigger] final(self).people_actions@[k]
                    == old(self).people_actions@[k],
            sent_to(
                old(self).world.map,
                old(self).people_actions@[i as int],
                final(self).people_actions@[i as int],
                old(self).world.people@[i as int].position,
                target,
                next,
            ),
    {
        self.world.people[i].walk_to(&self.world, &mut self.path_cache, &mut self.people_actions[i], target, next);
    }

    fn apply_tile_command(&mut self, c: PlayerCommand, p: Position, t: Tile, updates: &mut Vec<StateUpdate>)
        requires
            old(self).wf(),
            old(self).world.map.inside(p),
            c.target() == Some(p),
            c.outcome(old(self).world.map.tile(p)) == Some(t),
            !(c is Lockdown),
        ensures
            final(self).wf(),
            same_clock_and_people(*old(self), *final(self)),
            final(self).player1 == old(self).player1,
            final(self).player2 == old(self).player2,
            final(self).people_actions == old(self).people_actions,
            tile_effect(*old(self), *final(self), c, p, t, old(updates)@, final(updates)@),
    {
        self.world.map.set_tile(&p, t);
        updates.push(StateUpdate::TileUpdate(p, t));
        match c {
            PlayerCommand::Testcenter(_) => {
                self.test_centers.push(p);
                assert(self.world.map.same_walkability(old(self).world.map));
                proof {
                    lemma_consistent_same_walkability(self.path_cache, old(self).world.map, self.world.map);
                }
            },
            PlayerCommand::Vaccinecenter(_) => {
                self.vaccine_centers.push(p);
                assert(self.world.map.same_walkability(old(self).world.map));
                proof {
                    lemma_consistent_same_walkability(self.path_cache, old(self).world.map, self.world.map);
                }
            },
            _ => {
                self.path_cache.invalidate();
            },
        }
    }

    fn apply_lockdown(&mut self, p: Position, updates: &mut Vec<StateUpdate>)
        requires
            old(self).wf(),
            old(self).world.map.inside(p),
            old(self).world.map.tile(p) == Tile::Door(None),
        ensures
            final(self).wf(),
            same_clock_and_people(*old(self), *final(self)),
            final(self).player1 == old(self).player1,
            final(self).player2 == old(self).player2,
            tile_effect(
                *old(self),
                *final(self),
                PlayerCommand::Lockdown(p),
                p,
                Tile::Door(Some(LOCKDOWN_TICKS)),
                old(updates)@,
                final(updates)@,
            ),
            lockdown_effect(*old(self), *final(self), p),
    {
        let n = self.world.people.len();
        let mut i: usize = 0;
        while i < n
            invariant
                self.wf(),
                n == self.world.people@.len(),
                i <= n,
                self.world == old(self).world,
                self.player1 == old(self).player1,
                self.player2 == old(self).player2,
                self.tick_count == old(self).tick_count,
                self.tick_rate == old(self).tick_rate,
                self.age == old(self).age,
                self.test_centers == old(self).test_centers,
                self.vaccine_centers == old(self).vaccine_centers,
                self.people_actions@.len() == n,
                forall|k: int|
                    0 <= k < n ==> if k < i && locked_down(old(self).world.people@, k, p) {
                        sent_to(
                            old(self).world.map,
                            old(self).people_actions@[k],
                            #[trigger] self.people_actions@[k],
                            old(self).world.people@[k].position,
                            old(self).world.people@[k].home,
                            PersonAction::Lockdown(LOCKDOWN_TICKS),
                        )
                    } else {
                        self.people_actions@[k] == old(self).people_actions@[k]
                    },
            decreases n - i,
        {
            if self.world.people[i].home == p || self.world.knows_resident(i, p) {
                let home = self.world.people[i].home;
                self.send(i, home, PersonAction::Lockdown(LOCKDOWN_TICKS));
            }
            i = i + 1;
        }
        let t = Tile::Door(Some(LOCKDOWN_TICKS));
        self.world.map.set_tile(&p, t);
        updates.push(StateUpdate::TileUpdate(p, t));
        self.path_cache.invalidate();
    }

    fn apply_party(&mut self, id: PersonId)
        requires
            old(self).wf(),
            id.0 < old(self).world.people@.len(),
        ensures
            final(self).wf(),
            same_clock_and_people(*old(self), *final(self)),
            final(self).player1 == old(self).player1,
            final(self).player2 == old(self).player2,
            party_effect(*old(self), *final(self), id),
    {
        let host = id.0 as usize;
        let home = self.world.people[host].home;
        self.send(host, home, PersonAction::Partying(PARTY_TICKS));
        let ghost known = self.world.people@[host as int].habits.acquaintances@;
        let count = self.world.people[host].habits.acquaintances.len();
        let mut k: usize = 0;
        proof {
            assert(acquaintances_wf(self.world.people@));
            assert(self.world.people@[host as int].habits.acquaintances@.no_duplicates());
        }
        while k < count
            invariant
                self.wf(),
                count == known.len(),
                k <= count,
                known == self.world.people@[host as int].habits.acquaintances@,
                known.no_duplicates(),
                host == id.0,
                host < self.world.people@.len(),
                home == old(self).world.people@[host as int].home,
                forall|m: int| 0 <= m < known.len() ==> (#[trigger] known[m]).0 != host && known[m].0 < self.world.people@.len(),
                self.world == old(self).world,
                self.player1 == old(self).player1,
                self.player2 == old(self).player2,
                self.tick_count == old(self).tick_count,
                self.tick_rate == old(self).tick_rate,
                self.age == old(self).age,
                self.test_centers == old(self).test_centers,
                self.vaccine_centers == old(self).vaccine_centers,
                self.people_actions@.len() == old(self).people_actions@.len(),
                forall|m: int|
                    0 <= m < self.people_actions@.len() ==> if m == host || exists|w: int|
                        0 <= w < k && #[trigger] known[w] == PersonId(m as u32) {
                        sent_to(
                            old(self).world.map,
                            old(self).people_actions@[m],
                            #[trigger] self.people_actions@[m],
                            old(self).world.people@[m].position,
                            home,
                            PersonAction::Partying(PARTY_TICKS),
                        )
                    } else {
                        self.people_actions@[m] == old(self).people_actions@[m]
                    },
            decreases count - k,
        {
            let friend = self.world.people[host].habits.acquaintances[k].0 as usize;
            proof {
                assert(known[k as int].0 == friend);
            }
            let ghost before = self.people_actions@;
            self.send(friend, home, PersonAction::Partying(PARTY_TICKS));
            proof {
                assert forall|w: int| 0 <= w < k implies (#[trigger] known[w]) != PersonId(friend as u32) by {
                    assert(known[w] != known[k as int]);
                }
            }
            k = k + 1;
        }
        assert forall|m: int| 0 <= m < self.people_actions@.len() implies (#[trigger] known.contains(PersonId(m as u32))
            <==> exists|w: int| 0 <= w < count && #[trigger] known[w] == PersonId(m as u32)) by {
        }
    }
}

/// `log` grows from `base` by tile changes only.
pub open spec fn tiles_appended(log: Seq<StateUpdate>, base: Seq<StateUpdate>) -> bool {
    &&& log.len() >= base.len()
    &&& log.subrange(0, base.len() as int) == base
    &&& forall|k: int| base.len() <= k < log.len() ==> #[trigger] log[k] is TileUpdate
}

pub proof fn lemma_tiles_appended_trans(base: Seq<StateUpdate>, log: Seq<StateUpdate>, log2: Seq<StateUpdate>)
    requires
        tiles_appended(log, base),
        tiles_appended(log2, log),
    ensures
        tiles_appended(log2, base),
{
    assert forall|k: int| 0 <= k < log.len() implies log2[k] == log[k] by {
        assert(log2.subrange(0, log.len() as int)[k] == log[k]);
    }
    assert(log2.subrange(0, base.len() as int) =~= log.subrange(0, base.len() as int));
    assert forall|k: int| base.len() <= k < log2.len() implies #[trigger] log2[k] is TileUpdate by {
        if k < log.len() {
            assert(log2[k] == log[k]);
        }
    }
}

impl World {
    /// Whether person `i` knows someone whose home is `p`.
    pub fn knows_resident(&self, i: usize, p: Position) -> (r: bool)
        requires
            i < self.people@.len(),
        ensures
            r == exists|k: int|
                0 <= k < self.people@[i as int].habits.acquaintances@.len()
                    && self.people@[i as int].habits.acquaintances@[k].0 < self.people@.len()
                    && self.people@[(#[trigger] self.people@[i as int].habits.acquaintances@[k]).0 as int].home == p,
    {
        let known = &self.people[i].habits.acquaintances;
        let mut k: usize = 0;
        while k < known.len()
            invariant
                i < self.people@.len(),
                known == &self.people@[i as int].habits.acquaintances,
                k <= known@.len(),
                forall|m: int|
                    0 <= m < k ==> !(known@[m].0 < self.people@.len() && self.people@[(#[trigger] known@[m]).0 as int].home == p),
            decreases known@.len() - k,
        {
            let id = known[k].0 as usize;
            if id < self.people.len() && self.people[id].home == p {
                return true;
            }
            k = k + 1;
        }
        false
    }
}

/// The issuing player paid `price`; the other player's standing is untouched.
pub open spec fn charged(old: GameSession, new: GameSession, player: Player, price: u32) -> bool {
    match player {
        Player::Player1 => {
            &&& new.player1 == PlayerSession { money: (old.player1.money - price) as u32, ..old.player1 }
            &&& new.player2 == old.player2
        },
        Player::Player2 => {
            &&& new.player2 == PlayerSession { money: (old.player2.money - price) as u32, ..old.player2 }
            &&& new.player1 == old.player1
        },
    }
}

/// What an accepted command does to the session and to the list of updates.
pub open spec fn command_applied(
    old: GameSession,
    new: GameSession,
    u: PlayerUpdate,
    before: Seq<StateUpdate>,
    after: Seq<StateUpdate>,
) -> bool {
    &&& same_clock_and_people(old, new)
    &&& charged(old, new, u.player, u.command.price())
    &&& match u.command {
        PlayerCommand::PartyImpulse(id) => party_effect(old, new, id) && after == before,
        PlayerCommand::EconomicCrash => crash_effect(old, new, before, after),
        PlayerCommand::Lockdown(p) => tile_effect(
            old,
            new,
            u.command,
            p,
            Tile::Door(Some(LOCKDOWN_TICKS)),
            before,
            after,
        ) && lockdown_effect(old, new, p),
        c => {
            let p = c.target().unwrap();
            &&& tile_effect(old, new, c, p, c.outcome(old.world.map.tile(p)).unwrap(), before, after)
            &&& new.people_actions == old.people_actions
        },
    }
}

impl GameSession {
    fn apply_crash(&mut self, updates: &mut Vec<StateUpdate>)
        requires
            old(self).wf(),
        ensures
            final(self).wf(),
            same_clock_and_people(*old(self), *final(self)),
            final(self).player1 == old(self).player1,
            final(self).player2 == old(self).player2,
            crash_effect(*old(self), *final(self), old(updates)@, final(updates)@),
    {
        self.path_cache.invalidate();
        self.test_centers.clear();
        let w = self.world.map.width;
        let h = self.world.map.height;
        let mut x: usize = 0;
        while x < w
            invariant
                x <= w,
                w == old(self).world.map.width,
                h == old(self).world.map.height,
                self.world.map.wf(),
                self.world.map.width == w,
                self.world.map.height == h,
                forall|q: Position| #[trigger]
                    self.world.map.inside(q) ==> self.world.map.tile(q) == (if q.x < x {
                        crashed(old(self).world.map.tile(q))
                    } else {
                        old(self).world.map.tile(q)
                    }),
                self.path_cache@ == Map::<(Position, Position), Option<Seq<Position>>>::empty(),
                self.test_centers@.len() == 0,
                self.vaccine_centers == old(self).vaccine_centers,
                self.people_actions == old(self).people_actions,
                self.player1 == old(self).player1,
                self.player2 == old(self).player2,
                same_clock_and_people(*old(self), *self),
                updates@.len() >= old(updates)@.len(),
                updates@.subrange(0, old(updates)@.len() as int) == old(updates)@,
                forall|k: int|
                    old(updates)@.len() <= k < updates@.len() ==> exists|q: Position|
                        old(self).world.map.inside(q) && crashed(old(self).world.map.tile(q))
                            != old(self).world.map.tile(q) && #[trigger] updates@[k]
                            == StateUpdate::TileUpdate(q, Tile::Empty),
            decreases w - x,
        {
            let mut y: usize = 0;
            while y < h
                invariant
                    x < w,
                    y <= h,
                    w == old(self).world.map.width,
                    h == old(self).world.map.height,
                    self.world.map.wf(),
                    self.world.map.width == w,
                    self.world.map.height == h,
                    forall|q: Position| #[trigger]
                        self.world.map.inside(q) ==> self.world.map.tile(q) == (if q.x < x || (q.x
                            == x && q.y < y) {
                            crashed(old(self).world.map.tile(q))
                        } else {
                            old(self).world.map.tile(q)
                        }),
                    self.path_cache@ == Map::<(Position, Position), Option<Seq<Position>>>::empty(),
                    self.test_centers@.len() == 0,
                    self.vaccine_centers == old(self).vaccine_centers,
                    self.people_actions == old(self).people_actions,
                    self.player1 == old(self).player1,
                    self.player2 == old(self).player2,
                    same_clock_and_people(*old(self), *self),
                    updates@.len() >= old(updates)@.len(),
                    updates@.subrange(0, old(updates)@.len() as int) == old(updates)@,
                    forall|k: int|
                        old(updates)@.len() <= k < updates@.len() ==> exists|q: Position|
                            old(self).world.map.inside(q) && crashed(old(self).world.map.tile(q))
                                != old(self).world.map.tile(q) && #[trigger] updates@[k]
                                == StateUpdate::TileUpdate(q, Tile::Empty),
                decreases h - y,
            {
                let q = Position::new(x, y);
                let t = *self.world.map.get_tile(&q);
                let razed = match t {
                    Tile::MaskCampain(_) => true,
                    Tile::TestCenter => true,
                    Tile::AntivaxCampain(_) => true,
                    _ => false,
                };
                proof {
                    assert(self.world.map.inside(q));
                    assert(t == old(self).world.map.tile(q));
                    assert(razed ==> crashed(t) == Tile::Empty && t != Tile::Empty);
                    assert(!razed ==> crashed(t) == t);
                }
                if razed {
                    let ghost before = updates@;
                    let ghost before_map = self.world.map;
                    self.world.map.set_tile(&q, Tile::Empty);
                    assert forall|r: Position| #[trigger] self.world.map.inside(r) implies self.world.map.tile(r) == (
                        if r.x < x || (r.x == x && r.y < y + 1) {
                            crashed(old(self).world.map.tile(r))
                        } else {
                            old(self).world.map.tile(r)
                        }) by {
                        if r != q {
                            assert(self.world.map.tile(r) == before_map.tile(r));
                            assert(before_map.inside(r));
                        }
                    }
                    updates.push(StateUpdate::TileUpdate(q, Tile::Empty));
                    proof {
                        assert(updates@.subrange(0, old(updates)@.len() as int) =~= before.subrange(
                            0,
                            old(updates)@.len() as int,
                        ));
                        assert(updates@[updates@.len() - 1] == StateUpdate::TileUpdate(q, Tile::Empty));
                        assert forall|k: int|
                            old(updates)@.len() <= k < updates@.len() implies exists|r: Position|
                                old(self).world.map.inside(r) && crashed(old(self).world.map.tile(r))
                                    != old(self).world.map.tile(r) && #[trigger] updates@[k]
                                    == StateUpdate::TileUpdate(r, Tile::Empty) by {
                            if k < updates@.len() - 1 {
                                assert(updates@[k] == before[k]);
                            } else {
                                assert(old(self).world.map.inside(q) && crashed(old(self).world.map.tile(q))
                                    != old(self).world.map.tile(q) && updates@[k] == StateUpdate::TileUpdate(q, Tile::Empty));
                            }
                        }
                    }
                }
                y = y + 1;
            }
            x = x + 1;
        }
    }

    /// Checks a command against the issuer's side, money and the state of its
    /// target; when every check passes, charges the price and applies it,
    /// appending the tile changes to `updates`. A command that fails a check
    /// changes nothing.
    pub fn apply_command(&mut self, u: &PlayerUpdate, updates: &mut Vec<StateUpdate>)
        requires
            old(self).wf(),
        ensures
            final(self).wf(),
            !old(self).accepts(*u) ==> *final(self) == *old(self) && final(updates)@ == old(updates)@,
            old(self).accepts(*u) ==> command_applied(*old(self), *final(self), *u, old(updates)@, final(updates)@),
            tiles_appended(final(updates)@, old(updates)@),
    {
        assert(updates@.subrange(0, updates@.len() as int) =~= updates@);
        if !u.is_valid() {
            return;
        }
        let price = u.command.price_lookup();
        let money = match u.player {
            Player::Player1 => self.player1.money,
            Player::Player2 => self.player2.money,
        };
        if money < price {
            return;
        }
        match u.command {
            PlayerCommand::PartyImpulse(id) => {
                if (id.0 as usize) < self.world.people.len() {
                    self.debit(u.player, price);
                    self.apply_party(id);
                }
            },
            PlayerCommand::EconomicCrash => {
                self.debit(u.player, price);
                let ghost before = updates@;
                self.apply_crash(updates);
                assert forall|k: int| before.len() <= k < updates@.len() implies #[trigger] updates@[k] is TileUpdate by {
                    let q = choose|q: Position| old(self).world.map.inside(q) && crashed(old(self).world.map.tile(q))
                        != old(self).world.map.tile(q) && #[trigger] updates@[k] == StateUpdate::TileUpdate(q, Tile::Empty);
                }
            },
            PlayerCommand::Lockdown(p) => {
                if self.world.map.in_bounds(&p) {
                    let current = *self.world.map.get_tile(&p);
                    if u.command.next_tile(current).is_some() {
                        self.debit(u.player, price);
                        let ghost before = updates@;
                        self.apply_lockdown(p, updates);
                        assert(updates@.subrange(0, before.len() as int) =~= before);
                    }
                }
            },
            c => {
                let p = c.target_cell().unwrap();
                if self.world.map.in_bounds(&p) {
                    let current = *self.world.map.get_tile(&p);
                    match c.next_tile(current) {
                        Some(t) => {
                            self.debit(u.player, price);
                            let ghost before = updates@;
                            self.apply_tile_command(c, p, t, updates);
                            assert(updates@.subrange(0, before.len() as int) =~= before);
                        },
                        None => {},
                    }
                }
            },
        }
    }
}

/// A well-formed session never holds a stale route: whatever the commands did
/// to doors and road blocks, every cached answer is right for the current map.
pub proof fn lemma_no_stale_route(session: GameSession, start: Position, end: Position)
    requires
        session.wf(),
        session.path_cache@.contains_key((start, end)),
    ensures
        crate::path::answers(session.world.map, start, end, session.path_cache@[(start, end)]),
{
}

/// Every command costs something, so an accepted one leaves strictly less money.
pub proof fn lemma_price_positive(c: PlayerCommand)
    ensures
        c.price() > 0,
{
}

/// What a player can place on the map from the client.
#[derive(Clone, Copy, Debug, PartialEq, Eq, Structural)]
pub enum Ability {
    AntivaxCampain,
    Roadblock,
    SocialImpulse,
    Testcenter,
    Lockdown,
    Vaccinecenter,
    MaskCampain,
}

impl Ability {
    pub open spec fn label(self) -> Seq<char> {
        match self {
            Ability::AntivaxCampain => "Antivax Campaign"@,
            Ability::Roadblock => "Roadblock"@,
            Ability::SocialImpulse => "Social Impulse"@,
            Ability::Testcenter => "Testcenter"@,
            Ability::Vaccinecenter => "Vaccinecenter"@,
            Ability::Lockdown => "Lockdown"@,
            Ability::MaskCampain => "Mask Campaign"@,
        }
    }

    pub fn as_str(&self) -> (r: &'static str)
        ensures
            r@ == self.label(),
    {
        match self {
            Ability::AntivaxCampain => "Antivax Campaign",
            Ability::Roadblock => "Roadblock",
            Ability::SocialImpulse => "Social Impulse",
            Ability::Testcenter => "Testcenter",
            Ability::Vaccinecenter => "Vaccinecenter",
            Ability::Lockdown => "Lockdown",
            Ability::MaskCampain => "Mask Campaign",
        }
    }

    /// The command that using the ability on cell `p` sends.
    pub fn command_at(&self, p: Position) -> (r: PlayerCommand)
        ensures
            r.target() == Some(p),
            r == match self {
                Ability::AntivaxCampain => PlayerCommand::AntivaxCampaign(p),
                Ability::Roadblock => PlayerCommand::Roadblock(p),
                Ability::SocialImpulse => PlayerCommand::SocialImpulse(p),
                Ability::Testcenter => PlayerCommand::Testcenter(p),
                Ability::Lockdown => PlayerCommand::Lockdown(p),
                Ability::Vaccinecenter => PlayerCommand::Vaccinecenter(p),
                Ability::MaskCampain => PlayerCommand::MaskCampaign(p),
            },
    {
        match self {
            Ability::AntivaxCampain => PlayerCommand::AntivaxCampaign(p),
            Ability::Roadblock => PlayerCommand::Roadblock(p),
            Ability::SocialImpulse => PlayerCommand::SocialImpulse(p),
            Ability::Testcenter => PlayerCommand::Testcenter(p),
            Ability::Lockdown => PlayerCommand::Lockdown(p),
            Ability::Vaccinecenter => PlayerCommand::Vaccinecenter(p),
            Ability::MaskCampain => PlayerCommand::MaskCampaign(p),
        }
    }
}

} // verus!
