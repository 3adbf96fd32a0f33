use vstd::prelude::*;
use vstd::string::StringExecFns;

use crate::ai::{ai_batch, decide_at, Ai};
use crate::colors::Color;
use crate::dungeon::{generated, make_map_rooms, shaped, Rect};
use crate::geometry::{Dimension, Direction, Location};
use crate::rng;

pub use crate::items::{
    cast_confusion, cast_heal, cast_lightning, confusion_outcome, heal_outcome, lightning_outcome, use_item, UseResult,
};
pub use crate::messages::{
    decimal_text, direct, direct_text, indirect, indirect_text, Message, Messages,
};
pub use crate::targeting::{
    by_distance, closest, closest_fighter, dist2, distance_within, fighters_by_distance, in_reach, random_fighter,
};

use crate::messages::{decimal, say};

verus! {

/// Index of the player in the list of objects.
pub const PLAYER: usize = 0;

/// Radius of the player's field of view.
pub const TORCH_RADIUS: i32 = 10;

/// Hit points restored by a healing potion.
pub const HEAL_AMOUNT: i32 = 10;

/// Range of the lightning bolt scroll.
pub const LIGHTNING_RANGE: i32 = 3;

/// Damage of the lightning bolt scroll.
pub const LIGHTNING_DAMAGE: i32 = 10;

/// Range of the confusion scroll.
pub const CONFUSE_RANGE: i32 = 5;

/// Number of ticks a monster stays confused.
pub const CONFUSE_NUM_TURNS: i32 = 5;

/// Number of slots in the inventory, one per letter.
pub const INVENTORY_SIZE: usize = 26;

/// The tiles of a map, indexed by column and then by row.
pub type TileMap = Vec<Vec<Tile>>;

/// What is visible from the player's position, indexed as a `TileMap`.
pub type Visibility = Vec<Vec<bool>>;

/// The actions of one side in one tick.
pub type Turn = Vec<Action>;

pub type Inventory = Vec<Object>;

// --------------------------------- Tiles -----------------------------------

/// A tile of the map and its properties.
#[derive(Debug, Clone, Copy, PartialEq, Eq, Structural)]
pub struct Tile {
    pub blocked: bool,
    pub block_sight: bool,
    pub char: char,
    pub explored: bool,
    pub visible: bool,
}

impl Tile {
    pub fn empty() -> (r: Self)
        ensures
            !r.blocked && !r.block_sight && r.char == '.' && !r.explored && !r.visible,
    {
        Tile { blocked: false, block_sight: false, char: '.', explored: false, visible: false }
    }

    pub fn wall() -> (r: Self)
        ensures
            r.blocked && r.block_sight && r.char == '#' && !r.explored && !r.visible,
    {
        Tile { blocked: true, block_sight: true, char: '#', explored: false, visible: false }
    }
}

// -------------------------------- Objects ----------------------------------

/// The combat component.
#[derive(Debug, Clone, Copy, PartialEq, Eq, Structural)]
pub struct Fighter {
    pub max_health: i32,
    pub health: i32,
    pub defense: i32,
    pub power: i32,
    pub on_death: DeathCallback,
    /// Per tick: up to 100, the chance in percent of one hit point; above
    /// 100, a hundredth of the hit points restored.
    pub health_regen: i32,
}

/// What happens when a fighter dies.
#[derive(Debug, Clone, Copy, PartialEq, Eq, Structural)]
pub enum DeathCallback {
    Player,
    Monster,
}

/// The flavour texts of a monster.
#[derive(Debug)]
pub struct Noise {
    pub bark: String,
    pub mumble: String,
}

/// The movement component: `speed` is the chance in percent that a move succeeds.
#[derive(Debug, Clone, Copy, PartialEq, Eq, Structural)]
pub struct Movement {
    pub speed: i32,
}

/// The effect of a consumable item.
#[derive(Debug, Clone, Copy, PartialEq, Eq, Structural)]
pub enum Item {
    Heal,
    Lightning,
    Confusion,
}

/// Anything on the map: the player, a monster, an item.
#[derive(Debug)]
pub struct Object {
    pub loc: Location,
    pub char: char,
    pub color: Color,
    pub name: String,
    pub blocks: bool,
    pub visible: bool,
    pub seen: bool,
    pub alive: bool,
    pub movement: Option<Movement>,
    pub fighter: Option<Fighter>,
    pub ai: Option<Ai>,
    pub noise: Option<Noise>,
    pub item: Option<Item>,
}

// -------------------------------- Actions ----------------------------------

/// What an actor does in a tick; actors are named by their index.
#[derive(Debug, Clone, Copy, PartialEq, Eq, Structural)]
pub enum Action {
    Move(usize, Direction),
    Attack(usize, usize),
    PickUp(usize, usize),
    UseItem(usize, usize),
    Bark(usize),
    Mumble(usize),
    Wait(usize),
    Nothing,
}

/// Whether an action uses up the actor's turn, so that the monsters react.
pub open spec fn consumes_turn(a: Action) -> bool {
    !(a is UseItem || a is Nothing)
}

impl Action {
    pub fn took_turn(&self) -> (r: bool)
        ensures
            r == consumes_turn(*self),
    {
        match self {
            Action::Move(_, _) => true,
            Action::Attack(_, _) => true,
            Action::PickUp(_, _) => true,
            Action::Bark(_) => true,
            Action::Mumble(_) => true,
            Action::Wait(_) => true,
            Action::UseItem(_, _) => false,
            Action::Nothing => false,
        }
    }
}

// ------------------------------- Builders ----------------------------------

/// The fields that every fresh object starts with.
pub open spec fn is_blank(o: Object, loc: Location) -> bool {
    &&& o.loc == loc
    &&& !o.blocks && !o.visible && !o.seen && !o.alive
    &&& o.movement is None && o.fighter is None && o.ai is None
    &&& o.noise is None && o.item is None
}

/// The fields of a freshly created player named `name`, wherever it stands.
pub open spec fn is_player(o: Object, name: Seq<char>) -> bool {
    &&& o.name@ == name && o.char == '@' && o.color == Color::Yellow
    &&& o.blocks && o.alive && o.visible && o.seen
    &&& o.movement == Some(Movement { speed: 100 })
    &&& o.fighter == Some(
        Fighter { max_health: 30, health: 30, defense: 2, power: 5, on_death: DeathCallback::Player, health_regen: 50 },
    )
    &&& o.ai is None && o.noise is None && o.item is None
}

/// The fields of a freshly created item lying on the map.
pub open spec fn is_item(o: Object, loc: Location, item: Item, name: Seq<char>, char: char) -> bool {
    &&& o.loc == loc && o.name@ == name && o.char == char && o.color == Color::Blue
    &&& !o.blocks && !o.visible && !o.seen && !o.alive
    &&& o.movement is None && o.fighter is None && o.ai is None && o.noise is None
    &&& o.item == Some(item)
}

/// The fields of a freshly created monster.
pub open spec fn is_monster(
    o: Object,
    loc: Location,
    name: Seq<char>,
    char: char,
    speed: i32,
    max_health: i32,
    defense: i32,
    power: i32,
    regen: i32,
    color: Color,
    bark: Seq<char>,
    mumble: Seq<char>,
) -> bool {
    &&& o.loc == loc && o.name@ == name && o.char == char && o.color == color
    &&& o.blocks && o.alive && !o.visible && !o.seen
    &&& o.ai == Some(Ai::Basic)
    &&& o.movement == Some(Movement { speed })
    &&& o.fighter == Some(
        Fighter {
            max_health,
            health: max_health,
            defense,
            power,
            on_death: DeathCallback::Monster,
            health_regen: regen,
        },
    )
    &&& o.noise matches Some(n) && n.bark@ == bark && n.mumble@ == mumble
    &&& o.item is None
}

impl Object {
    pub fn new() -> (r: Self)
        ensures
            is_blank(r, Location(0, 0)),
            r.char == '`',
            r.name@ == "it"@,
            r.color == Color::Black,
    {
        Object {
            loc: Location(0, 0),
            char: '`',
            color: Color::Black,
            name: String::from_str("it"),
            blocks: false,
            visible: false,
            seen: false,
            alive: false,
            movement: None,
            fighter: None,
            ai: None,
            noise: None,
            item: None,
        }
    }

    pub fn player(loc: Location, name: &str) -> (r: Self)
        ensures
            r.loc == loc,
            is_player(r, name@),
    {
        let mut this = Object::new();
        this.loc = loc;
        this.name = String::from_str(name);
        this.char = '@';
        this.color = Color::Yellow;
        this.blocks = true;
        this.alive = true;
        this.visible = true;
        this.seen = true;
        this.movement = Some(Movement { speed: 100 });
        this.fighter = Some(
            Fighter {
                max_health: 30,
                health: 30,
                defense: 2,
                power: 5,
                on_death: DeathCallback::Player,
                health_regen: 50,
            },
        );
        this
    }

    fn monster(
        loc: Location,
        name: &str,
        char: char,
        color: Color,
        speed: i32,
        max_health: i32,
        defense: i32,
        power: i32,
        regen: i32,
        bark: &str,
        mumble: &str,
    ) -> (r: Self)
        ensures
            is_monster(r, loc, name@, char, speed, max_health, defense, power, regen, color, bark@, mumble@),
    {
        let mut this = Object::new();
        this.loc = loc;
        this.name = String::from_str(name);
        this.char = char;
        this.color = color;
        this.blocks = true;
        this.alive = true;
        this.ai = Some(Ai::Basic);
        this.movement = Some(Movement { speed });
        this.fighter = Some(
            Fighter {
                max_health,
                health: max_health,
                defense,
                power,
                on_death: DeathCallback::Monster,
                health_regen: regen,
            },
        );
        this.noise = Some(Noise { bark: String::from_str(bark), mumble: String::from_str(mumble) });
        this
    }

    pub fn orc(loc: Location) -> (r: Self)
        ensures
            is_monster(r, loc, "orc"@, 'o', 90, 10, 0, 3, 10, Color::Green, "shout"@, "mumble"@),
    {
        Self::monster(loc, "orc", 'o', Color::Green, 90, 10, 0, 3, 10, "shout", "mumble")
    }

    pub fn troll(loc: Location) -> (r: Self)
        ensures
            is_monster(r, loc, "troll"@, 'T', 80, 16, 1, 4, 50, Color::Green, "roar"@, "growl"@),
    {
        Self::monster(loc, "troll", 'T', Color::Green, 80, 16, 1, 4, 50, "roar", "growl")
    }

    pub fn ogre(loc: Location) -> (r: Self)
        ensures
            is_monster(r, loc, "ogre"@, 'O', 70, 25, 2, 8, 20, Color::Yellow, "bellow"@, "burp"@),
    {
        Self::monster(loc, "ogre", 'O', Color::Yellow, 70, 25, 2, 8, 20, "bellow", "burp")
    }

    fn item_object(loc: Location, item: Item, name: &str, char: char) -> (r: Self)
        ensures
            is_item(r, loc, item, name@, char),
    {
        let mut this = Object::new();
        this.loc = loc;
        this.name = String::from_str(name);
        this.char = char;
        this.color = Color::Blue;
        this.item = Some(item);
        this
    }

    pub fn potion(loc: Location, item: Item, name: &str) -> (r: Self)
        ensures
            is_item(r, loc, item, name@, '!'),
    {
        Self::item_object(loc, item, name, '!')
    }

    pub fn scroll(loc: Location, item: Item, name: &str) -> (r: Self)
        ensures
            is_item(r, loc, item, name@, '?'),
    {
        Self::item_object(loc, item, name, '?')
    }
}


// ------------------------------- Movement ----------------------------------

pub open spec fn sign(d: int) -> int {
    if d < 0 {
        -1
    } else if d > 0 {
        1
    } else {
        0
    }
}

/// One step from `a` toward `b`: the sign of the difference on each axis.
pub open spec fn toward(a: Location, b: Location) -> Direction {
    Direction(sign(b.0 - a.0) as i32, sign(b.1 - a.1) as i32)
}

/// One step from `a` toward `b`: the sign of the difference on each axis.
pub fn direction(a: &Location, b: &Location) -> (r: Direction)
    ensures
        r == toward(*a, *b),
{
    let dx: i32 = if b.0 < a.0 {
        -1
    } else if b.0 > a.0 {
        1
    } else {
        0
    };
    let dy: i32 = if b.1 < a.1 {
        -1
    } else if b.1 > a.1 {
        1
    } else {
        0
    };
    Direction(dx, dy)
}

/// Where a step in `dir` from `loc` leads, if that position can be written down.
pub open spec fn step(loc: Location, dir: Direction) -> Option<Location> {
    let x = loc.0 + dir.0;
    let y = loc.1 + dir.1;
    if i32::MIN <= x <= i32::MAX && i32::MIN <= y <= i32::MAX {
        Some(Location(x as i32, y as i32))
    } else {
        None
    }
}

fn destination(location: &Location, direction: &Direction) -> (r: Option<Location>)
    ensures
        r == step(*location, *direction),
{
    let x = location.0 as i64 + direction.0 as i64;
    let y = location.1 as i64 + direction.1 as i64;
    if i32::MIN as i64 <= x && x <= i32::MAX as i64 && i32::MIN as i64 <= y && y <= i32::MAX as i64 {
        Some(Location(x as i32, y as i32))
    } else {
        None
    }
}

// ------------------------------- Collision ---------------------------------

/// A wall, or a position off the map.
pub open spec fn tile_blocked(map: Seq<Vec<Tile>>, loc: Location) -> bool {
    !(0 <= loc.0 < map.len() && 0 <= loc.1 < map[loc.0 as int]@.len()) || map[loc.0 as int]@[loc.1 as int].blocked
}

/// Some blocking object stands at `loc`.
pub open spec fn occupied(objects: Seq<Object>, loc: Location) -> bool {
    exists|i: int| 0 <= i < objects.len() && (#[trigger] objects[i]).blocks && objects[i].loc == loc
}

pub open spec fn free(map: Seq<Vec<Tile>>, objects: Seq<Object>, loc: Location) -> bool {
    !tile_blocked(map, loc) && !occupied(objects, loc)
}

/// Whether a blocking object stands at this position.
pub fn object_blocks(loc: &Location, objects: &[Object]) -> (r: bool)
    ensures
        r == occupied(objects@, *loc),
{
    let mut i: usize = 0;
    while i < objects.len()
        invariant
            0 <= i <= objects@.len(),
            forall|j: int| 0 <= j < i ==> !((#[trigger] objects@[j]).blocks && objects@[j].loc == *loc),
        decreases objects@.len() - i,
    {
        if objects[i].blocks && objects[i].loc == *loc {
            return true;
        }
        i = i + 1;
    }
    false
}

/// Whether the map itself blocks this position.
pub fn structure_blocks(loc: &Location, map: &TileMap) -> (r: bool)
    ensures
        r == tile_blocked(map@, *loc),
{
    let Location(x, y) = *loc;
    if x < 0 || y < 0 || x as usize >= map.len() || y as usize >= map[x as usize].len() {
        true
    } else {
        map[x as usize][y as usize].blocked
    }
}

/// Whether a position is blocked by the map or by an object.
pub fn is_blocked(loc: &Location, map: &TileMap, objects: &[Object]) -> (r: bool)
    ensures
        r == !free(map@, objects@, *loc),
{
    structure_blocks(loc, map) || object_blocks(loc, objects)
}

/// Where a step from the object's position leads, if one can go there.
pub open spec fn step_target(map: Seq<Vec<Tile>>, objects: Seq<Object>, id: int, dir: Direction) -> Option<Location> {
    match step(objects[id].loc, dir) {
        Some(d) => if free(map, objects, d) {
            Some(d)
        } else {
            None
        },
        None => None,
    }
}

/// Where a move lands: straight on, else sliding along either axis; the
/// first of the three that is free.
pub open spec fn move_target(map: Seq<Vec<Tile>>, objects: Seq<Object>, id: int, dir: Direction) -> Option<Location> {
    let straight = step_target(map, objects, id, dir);
    let across = step_target(map, objects, id, Direction(dir.0, 0));
    let along = step_target(map, objects, id, Direction(0, dir.1));
    if straight is Some {
        straight
    } else if across is Some {
        across
    } else {
        along
    }
}

/// `objects` with the object `id` moved to `loc`.
pub open spec fn relocated(old: Seq<Object>, new: Seq<Object>, id: int, loc: Location) -> bool {
    &&& new.len() == old.len()
    &&& new[id] == (Object { loc, ..old[id] })
    &&& forall|j: int| 0 <= j < old.len() && j != id ==> new[j] == old[j]
}

fn move_by(id: usize, direction: Direction, map: &TileMap, objects: &mut Vec<Object>) -> (r: bool)
    requires
        id < old(objects)@.len(),
    ensures
        match step_target(map@, old(objects)@, id as int, direction) {
            Some(d) => r && relocated(old(objects)@, final(objects)@, id as int, d),
            None => !r && final(objects)@ == old(objects)@,
        },
{
    match destination(&objects[id].loc, &direction) {
        Some(d) => {
            if !(structure_blocks(&d, map) || object_blocks(&d, objects.as_slice())) {
                objects[id].loc = d;
                true
            } else {
                false
            }
        },
        None => false,
    }
}

/// Whether the object's speed check passes against a d100 roll.
pub open spec fn moves_on(o: Object, roll: i32) -> bool {
    o.movement matches Some(m) && m.speed >= roll
}

/// Move resolution with the speed roll given.
/// A move of object `id` for the speed roll `roll`: objects `o` before and
/// `n` after, `log` the messages written.
pub open spec fn move_outcome(
    map: Seq<Vec<Tile>>,
    o: Seq<Object>,
    n: Seq<Object>,
    id: int,
    direction: Direction,
    roll: int,
    log: Seq<(Seq<char>, Color)>,
) -> bool {
    if o[id].movement matches Some(m) && m.speed >= roll {
        match move_target(map, o, id, direction) {
            Some(d) => relocated(o, n, id, d) && log.len() == 0,
            None => n == o && log == seq![("The way is blocked!"@, Color::White)],
        }
    } else {
        n == o && log.len() == 0
    }
}

pub fn move_object_with(id: usize, direction: Direction, map: &TileMap, objects: &mut Vec<Object>, roll: i32) -> (r: Messages)
    requires
        id < old(objects)@.len(),
    ensures
        move_outcome(map@, old(objects)@, final(objects)@, id as int, direction, roll as int, r@),
{
    let should_move = match objects[id].movement {
        Some(m) => m.speed >= roll,
        None => false,
    };
    if should_move {
        let Direction(dx, dy) = direction;
        let could_move = move_by(id, direction, map, objects) || move_by(id, Direction(dx, 0), map, objects)
            || move_by(id, Direction(0, dy), map, objects);
        if !could_move {
            return say("The way is blocked!");
        }
    }
    Messages::empty()
}

/// Move resolution: the speed check is a d100 roll.
pub fn move_object(id: usize, direction: Direction, map: &TileMap, objects: &mut Vec<Object>) -> (r: Messages)
    requires
        id < old(objects)@.len(),
    ensures
        exists|roll: int| 1 <= roll <= 100 && #[trigger] move_outcome(map@, old(objects)@, final(objects)@, id as int, direction, roll, r@),
{
    let roll = rng::d100();
    move_object_with(id, direction, map, objects, roll)
}

pub open spec fn is_fighter_at(o: Object, loc: Location) -> bool {
    o.loc == loc && o.fighter is Some
}

fn position_of_fighter(loc: &Location, objects: &[Object]) -> (r: Option<usize>)
    ensures
        match r {
            Some(i) => i < objects@.len() && is_fighter_at(objects@[i as int], *loc)
                && forall|j: int| 0 <= j < i ==> !is_fighter_at(#[trigger] objects@[j], *loc),
            None => forall|j: int| 0 <= j < objects@.len() ==> !is_fighter_at(#[trigger] objects@[j], *loc),
        },
{
    let mut i: usize = 0;
    while i < objects.len()
        invariant
            0 <= i <= objects@.len(),
            forall|j: int| 0 <= j < i ==> !is_fighter_at(#[trigger] objects@[j], *loc),
        decreases objects@.len() - i,
    {
        if objects[i].loc == *loc && objects[i].fighter.is_some() {
            return Some(i);
        }
        i = i + 1;
    }
    None
}

/// Pick a move or an attack for a step in `direction`.
pub fn move_or_attack(id: usize, direction: Direction, map: &TileMap, objects: &[Object]) -> (r: (
    Option<Action>,
    Messages,
))
    requires
        id < objects@.len(),
    ensures
        match step(objects@[id as int].loc, direction) {
            None => r.0 is None && r.1@ == seq![("It's blocked."@, Color::White)],
            Some(d) => if occupied(objects@, d) {
                (match r.0 {
                    Some(a) => exists|t: usize|
                        a == Action::Attack(id, t) && t < objects@.len() && is_fighter_at(objects@[t as int], d)
                            && forall|j: int| 0 <= j < t ==> !is_fighter_at(#[trigger] objects@[j], d),
                    None => (forall|j: int| 0 <= j < objects@.len() ==> !is_fighter_at(#[trigger] objects@[j], d))
                        && r.1@ == seq![("Cannot attack that."@, Color::White)],
                }) && (r.0 is Some ==> r.1@.len() == 0)
            } else if tile_blocked(map@, d) {
                r.0 is None && r.1@ == seq![("It's blocked."@, Color::White)]
            } else {
                r.0 == Some(Action::Move(id, direction)) && r.1@.len() == 0
            },
        },
{
    match destination(&objects[id].loc, &direction) {
        None => (None, say("It's blocked.")),
        Some(d) => {
            if object_blocks(&d, objects) {
                match position_of_fighter(&d, objects) {
                    Some(defender) => (Some(Action::Attack(id, defender)), Messages::empty()),
                    None => (None, say("Cannot attack that.")),
                }
            } else if structure_blocks(&d, map) {
                (None, say("It's blocked."))
            } else {
                (Some(Action::Move(id, direction)), Messages::empty())
            }
        },
    }
}

/// Pick up what lies under the object, if anything.
pub fn grab(id: usize, objects: &[Object]) -> (r: (Option<Action>, Messages))
    requires
        id < objects@.len(),
    ensures
        match r.0 {
            Some(a) => exists|t: usize|
                a == Action::PickUp(id, t) && t < objects@.len() && objects@[t as int].loc == objects@[id as int].loc
                    && objects@[t as int].item is Some && r.1@.len() == 0
                    && forall|j: int| 0 <= j < t ==> !((#[trigger] objects@[j]).loc == objects@[id as int].loc && objects@[j].item is Some),
            None => (forall|j: int| 0 <= j < objects@.len() ==> !((#[trigger] objects@[j]).loc == objects@[id as int].loc && objects@[j].item is Some))
                && r.1@ == seq![("There is nothing here to pick up."@, Color::White)],
        },
{
    let here = objects[id].loc;
    let mut i: usize = 0;
    while i < objects.len()
        invariant
            0 <= i <= objects@.len(),
            here == objects@[id as int].loc,
            forall|j: int| 0 <= j < i ==> !((#[trigger] objects@[j]).loc == here && objects@[j].item is Some),
        decreases objects@.len() - i,
    {
        if objects[i].loc == here && objects[i].item.is_some() {
            return (Some(Action::PickUp(id, i)), Messages::empty());
        }
        i = i + 1;
    }
    (None, say("There is nothing here to pick up."))
}

// -------------------------------- Combat -----------------------------------

/// `v`, held within the range of `i32`.
pub open spec fn clamp_i32(v: int) -> int {
    if v < i32::MIN {
        i32::MIN as int
    } else if v > i32::MAX {
        i32::MAX as int
    } else {
        v
    }
}

pub open spec fn min(a: int, b: int) -> int {
    if a <= b {
        a
    } else {
        b
    }
}

pub open spec fn max(a: int, b: int) -> int {
    if a >= b {
        a
    } else {
        b
    }
}

impl Fighter {
    /// Loses `damage` hit points (saturating at the lowest `i32`).
    pub fn take_damage(&mut self, damage: i32)
        ensures
            *final(self) == (Fighter { health: clamp_i32(old(self).health - damage) as i32, ..*old(self) }),
    {
        let h = self.health as i64 - damage as i64;
        self.health = if h < i32::MIN as i64 {
            i32::MIN
        } else if h > i32::MAX as i64 {
            i32::MAX
        } else {
            h as i32
        };
    }

    /// Gains `amount` hit points, up to the maximum.
    pub fn heal(&mut self, amount: i32)
        requires
            amount >= 0,
        ensures
            *final(self) == (Fighter {
                health: min(old(self).health + amount, old(self).max_health as int) as i32,
                ..*old(self)
            }),
    {
        let h = self.health as i64 + amount as i64;
        self.health = if h < self.max_health as i64 {
            h as i32
        } else {
            self.max_health
        };
    }
}

/// The opening of an attack message.
pub open spec fn attack_text(objects: Seq<Object>, attacker: int, defender: int) -> Seq<char> {
    if attacker == PLAYER {
        "You attack "@ + direct_text(objects[defender].name@, false)
    } else if defender == PLAYER {
        direct_text(objects[attacker].name@, true) + " attacks you"@
    } else {
        direct_text(objects[attacker].name@, true) + " attacks "@ + direct_text(objects[defender].name@, false)
    }
}

/// The damage an attack deals for the given rolls: attack minus defence,
/// or none where the attacker cannot fight.
pub open spec fn attack_damage(objects: Seq<Object>, attacker: int, attack_roll: int, defense_roll: int) -> int {
    if objects[attacker].fighter is Some {
        attack_roll - defense_roll
    } else {
        0
    }
}

/// An attack for the given rolls: objects `o` before and `n` after, `log`
/// the messages written. The damage is applied only where it is positive.
pub open spec fn attack_outcome(
    o: Seq<Object>,
    n: Seq<Object>,
    attacker: int,
    defender: int,
    attack_roll: int,
    defense_roll: int,
    log: Seq<(Seq<char>, Color)>,
) -> bool {
    let damage = attack_damage(o, attacker, attack_roll, defense_roll);
    let text = attack_text(o, attacker, defender);
    match o[defender].fighter {
        None => n == o && log == seq![("Cannot attack that!"@, Color::White)],
        Some(f) => if damage > 0 {
            n == o.update(defender, with_health(o[defender], f, clamp_i32(f.health - damage) as i32))
                && log == seq![(text + " for "@ + decimal_text(damage) + " damage!"@, Color::White)]
        } else {
            n == o && log == seq![
                (text + if attacker == PLAYER {
                    " but do no damage."@
                } else {
                    " but does no damage."@
                }, Color::White),
            ]
        },
    }
}

/// What a die with `x` faces can roll: 1 to `x`, or 0 for a die without
/// faces (or more than a die can have).
pub open spec fn die_roll(x: int, r: int) -> bool {
    if 0 < x < i32::MAX {
        1 <= r <= x
    } else {
        r == 0
    }
}

/// What the attacker's die can roll: a die of its power, or 0 if it cannot fight.
pub open spec fn attack_roll_of(o: Object, r: int) -> bool {
    match o.fighter {
        Some(f) => die_roll(f.power as int, r),
        None => r == 0,
    }
}

/// What the defender's die can roll: a die of its defence, or 0 if it cannot fight.
pub open spec fn defense_roll_of(o: Object, r: int) -> bool {
    match o.fighter {
        Some(f) => die_roll(f.defense as int, r),
        None => r == 0,
    }
}

/// Attack resolution with the attacker's and the defender's rolls given.
pub fn attack_with(
    attacker: usize,
    defender: usize,
    objects: &mut Vec<Object>,
    attack_roll: i32,
    defense_roll: i32,
) -> (r: Messages)
    requires
        attacker < old(objects)@.len(),
        defender < old(objects)@.len(),
        attack_roll >= 0,
        defense_roll >= 0,
    ensures
        attack_outcome(old(objects)@, final(objects)@, attacker as int, defender as int, attack_roll as int, defense_roll as int, r@),
        ({
            let damage = attack_damage(old(objects)@, attacker as int, attack_roll as int, defense_roll as int);
            match old(objects)@[defender as int].fighter {
                Some(f) => f.health - max(damage, 0) >= i32::MIN ==> (final(objects)@[defender as int].fighter matches Some(g)
                    && g.health == f.health - max(damage, 0)),
                None => true,
            }
        }),
{
    let mut msg = if attacker == PLAYER {
        let mut m = String::from_str("You attack ");
        let d = direct(objects[defender].name.as_str(), false);
        m.append(d.as_str());
        m
    } else if defender == PLAYER {
        let mut m = direct(objects[attacker].name.as_str(), true);
        m.append(" attacks you");
        m
    } else {
        let mut m = direct(objects[attacker].name.as_str(), true);
        m.append(" attacks ");
        let d = direct(objects[defender].name.as_str(), false);
        m.append(d.as_str());
        m
    };
    let damage: i32 = if objects[attacker].fighter.is_some() {
        attack_roll - defense_roll
    } else {
        0
    };
    if objects[defender].fighter.is_none() {
        return say("Cannot attack that!");
    }
    if damage > 0 {
        msg.append(" for ");
        let n = decimal(damage);
        msg.append(n.as_str());
        msg.append(" damage!");
        if let Some(f) = objects[defender].fighter.as_mut() {
            f.take_damage(damage);
        }
    } else if attacker == PLAYER {
        msg.append(" but do no damage.");
    } else {
        msg.append(" but does no damage.");
    }
    Messages::new(msg, Color::White)
}

/// One die with `x` faces; no faces, or more than a die can have, roll 0.
fn roll(x: i32) -> (r: i32)
    ensures
        x > 0 && x < i32::MAX ==> 1 <= r <= x,
        !(x > 0 && x < i32::MAX) ==> r == 0,
{
    if x > 0 && x < i32::MAX {
        rng::dx(x)
    } else {
        0
    }
}

/// The object with its fighter `f` at `h` hit points.
pub open spec fn with_health(o: Object, f: Fighter, h: i32) -> Object {
    Object { fighter: Some(Fighter { health: h, ..f }), ..o }
}

/// Attack resolution: the attacker rolls a die of its power, the defender
/// one of its defence.
pub fn attack(attacker: usize, defender: usize, objects: &mut Vec<Object>) -> (r: Messages)
    requires
        attacker < old(objects)@.len(),
        defender < old(objects)@.len(),
    ensures
        exists|a: int, b: int|
            attack_roll_of(old(objects)@[attacker as int], a) && defense_roll_of(old(objects)@[defender as int], b)
                && #[trigger] attack_outcome(old(objects)@, final(objects)@, attacker as int, defender as int, a, b, r@),
{
    let attack_roll = match objects[attacker].fighter {
        Some(f) => roll(f.power),
        None => 0,
    };
    let defense_roll = match objects[defender].fighter {
        Some(f) => roll(f.defense),
        None => 0,
    };
    let r = attack_with(attacker, defender, objects, attack_roll, defense_roll);
    r
}

// -------------------------------- Death ------------------------------------

/// The death message of an object, by what its death does.
pub open spec fn death_message(o: Object, cb: DeathCallback) -> (Seq<char>, Color) {
    match cb {
        DeathCallback::Player => ("You die!"@, Color::Red),
        DeathCallback::Monster => (direct_text(o.name@, true) + " dies."@, Color::Red),
    }
}

/// `n` is `o` after its death: a corpse; a monster's remains no longer
/// block, fight or think.
pub open spec fn dead_as(o: Object, n: Object, cb: DeathCallback) -> bool {
    &&& n.loc == o.loc && n.visible == o.visible && n.seen == o.seen
    &&& !n.alive && n.char == '%' && n.color == Color::Red
    &&& n.movement == o.movement && n.noise == o.noise && n.item == o.item
    &&& match cb {
        DeathCallback::Player => n.name == o.name && n.blocks == o.blocks && n.fighter == o.fighter && n.ai == o.ai,
        DeathCallback::Monster => n.name@ == "Remains of "@ + o.name@ && !n.blocks && n.fighter is None && n.ai is None,
    }
}

pub fn kill_player(player: &mut Object) -> (r: Messages)
    ensures
        dead_as(*old(player), *final(player), DeathCallback::Player),
        r@ == seq![death_message(*old(player), DeathCallback::Player)],
{
    player.alive = false;
    player.char = '%';
    player.color = Color::Red;
    Messages::new(String::from_str("You die!"), Color::Red)
}

pub fn kill_monster(monster: &mut Object) -> (r: Messages)
    ensures
        dead_as(*old(monster), *final(monster), DeathCallback::Monster),
        r@ == seq![death_message(*old(monster), DeathCallback::Monster)],
{
    monster.alive = false;
    let mut msg = direct(monster.name.as_str(), true);
    msg.append(" dies.");
    monster.char = '%';
    monster.color = Color::Red;
    monster.blocks = false;
    monster.fighter = None;
    monster.ai = None;
    let mut name = String::from_str("Remains of ");
    name.append(monster.name.as_str());
    monster.name = name;
    Messages::new(msg, Color::Red)
}

impl DeathCallback {
    pub fn call(&self, object: &mut Object) -> (r: Messages)
        ensures
            dead_as(*old(object), *final(object), *self),
            r@ == seq![death_message(*old(object), *self)],
    {
        match self {
            DeathCallback::Player => kill_player(object),
            DeathCallback::Monster => kill_monster(object),
        }
    }
}

// ----------------------------- Regeneration --------------------------------

/// Hit points regained in a tick for a d100 roll.
pub open spec fn regen_amount(f: Fighter, roll: int) -> int {
    if f.health_regen <= 100 {
        if roll <= f.health_regen { 1 } else { 0 }
    } else {
        f.health_regen / 100
    }
}

/// Regeneration with the d100 roll given.
pub fn regenerate_with(object: &mut Object, roll: i32) -> (r: Messages)
    ensures
        r@.len() == 0,
        match old(object).fighter {
            None => *final(object) == *old(object),
            Some(f) => *final(object) == with_health(
                *old(object),
                f,
                min(f.health + regen_amount(f, roll as int), f.max_health as int) as i32,
            ),
        },
{
    if let Some(f) = object.fighter.as_mut() {
        let amount: i32 = if f.health_regen <= 100 {
            if roll <= f.health_regen { 1 } else { 0 }
        } else {
            f.health_regen / 100
        };
        f.heal(amount);
    }
    Messages::empty()
}

/// Regeneration: a chance of one hit point, or a flat amount.
pub fn regenerate(object: &mut Object) -> (r: Messages)
    ensures
        r@.len() == 0,
        match old(object).fighter {
            None => *final(object) == *old(object),
            Some(f) => exists|roll: int| 1 <= roll <= 100 && *final(object) == #[trigger] with_health(
                *old(object),
                f,
                min(f.health + regen_amount(f, roll), f.max_health as int) as i32,
            ),
        },
{
    let roll = rng::d100();
    regenerate_with(object, roll)
}

// -------------------------------- Noises -----------------------------------

pub open spec fn noise_text(o: Object, sound: Seq<char>) -> Seq<char> {
    indirect_text(o.name@, true) + " "@ + sound + "s."@
}

fn noise_message(name: &str, sound: &str) -> (r: Messages)
    ensures
        r@ == seq![(indirect_text(name@, true) + " "@ + sound@ + "s."@, Color::White)],
{
    let mut m = indirect(name, true);
    m.append(" ");
    m.append(sound);
    m.append("s.");
    Messages::new(m, Color::White)
}

pub fn bark(id: usize, objects: &[Object]) -> (r: Messages)
    requires
        id < objects@.len(),
    ensures
        match objects@[id as int].noise {
            Some(n) => r@ == seq![(noise_text(objects@[id as int], n.bark@), Color::White)],
            None => r@.len() == 0,
        },
{
    match &objects[id].noise {
        Some(n) => noise_message(objects[id].name.as_str(), n.bark.as_str()),
        None => Messages::empty(),
    }
}

pub fn mumble(id: usize, objects: &[Object]) -> (r: Messages)
    requires
        id < objects@.len(),
    ensures
        match objects@[id as int].noise {
            Some(n) => r@ == seq![(noise_text(objects@[id as int], n.mumble@), Color::White)],
            None => r@.len() == 0,
        },
{
    match &objects[id].noise {
        Some(n) => noise_message(objects[id].name.as_str(), n.mumble.as_str()),
        None => Messages::empty(),
    }
}

// ------------------------------ Inventory ----------------------------------

pub open spec fn pickup_text(objects: Seq<Object>, actor: int, item: int) -> Seq<char> {
    if actor == PLAYER {
        "You pick up "@ + indirect_text(objects[item].name@, false) + "."@
    } else {
        direct_text(objects[actor].name@, true) + " picks up "@ + indirect_text(objects[item].name@, false) + "."@
    }
}

/// Moves the item from the map into the inventory, unless that is full;
/// the last object takes the item's place.
pub fn pickup_item(actor: usize, item_id: usize, objects: &mut Vec<Object>, inventory: &mut Inventory) -> (r: Messages)
    requires
        actor < old(objects)@.len(),
        item_id < old(objects)@.len(),
    ensures
        old(inventory)@.len() >= INVENTORY_SIZE ==> final(objects)@ == old(objects)@ && final(inventory)@ == old(inventory)@
            && r@ == seq![("Inventory full"@, Color::White)],
        old(inventory)@.len() < INVENTORY_SIZE ==> final(objects)@ == old(objects)@.update(
            item_id as int,
            old(objects)@.last(),
        ).drop_last() && final(inventory)@ == old(inventory)@.push(old(objects)@[item_id as int])
            && r@ == seq![(pickup_text(old(objects)@, actor as int, item_id as int), Color::White)],
{
    if inventory.len() >= INVENTORY_SIZE {
        return say("Inventory full");
    }
    let mut msg = if actor == PLAYER {
        String::from_str("You pick up ")
    } else {
        let mut m = direct(objects[actor].name.as_str(), true);
        m.append(" picks up ");
        m
    };
    let item = objects.swap_remove(item_id);
    let what = indirect(item.name.as_str(), false);
    msg.append(what.as_str());
    msg.append(".");
    inventory.push(item);
    Messages::new(msg, Color::White)
}

// ---------------------------------- Game -----------------------------------

/// Whether the cell at column `x`, row `y` is in view.
pub open spec fn lit(fov: Seq<Vec<bool>>, x: int, y: int) -> bool {
    0 <= x < fov.len() && 0 <= y < fov[x]@.len() && fov[x]@[y]
}

/// The game state: the map, the objects, and the record of play.
#[derive(Debug)]
pub struct Game {
    pub map: TileMap,
    pub objects: Vec<Object>,
    pub turn: i32,
    pub turns: Vec<(Turn, Turn)>,
    pub messages: Messages,
    pub inventory: Inventory,
    /// What the player saw at the last refresh.
    pub fov: Visibility,
    pub map_dimensions: Dimension,
    /// The player's actions since the last full tick.
    pub player_turn: Turn,
    /// The player's action whose consequences wait for a fresh view.
    pub pending: Option<Action>,
}

/// A tile after a refresh with `v` its visibility.
pub open spec fn lit_tile(t: Tile, v: bool) -> Tile {
    Tile { visible: v, explored: t.explored || v, ..t }
}

/// An object after its visibility has been updated.
pub open spec fn looked(o: Object, fov: Seq<Vec<bool>>) -> Object {
    let v = lit(fov, o.loc.0 as int, o.loc.1 as int);
    Object { visible: v, seen: o.seen || v, ..o }
}

/// A living fighter out of hit points.
pub open spec fn dies(o: Object) -> bool {
    o.alive && (o.fighter matches Some(f) && f.health <= 0)
}

/// "You see ...", the first time the object comes into view.
pub open spec fn see_log(o: Object, fov: Seq<Vec<bool>>) -> Seq<(Seq<char>, Color)> {
    if lit(fov, o.loc.0 as int, o.loc.1 as int) && !o.seen {
        seq![("You see "@ + indirect_text(o.name@, false), Color::White)]
    } else {
        Seq::empty()
    }
}

pub open spec fn death_log(o: Object) -> Seq<(Seq<char>, Color)> {
    if dies(o) {
        seq![death_message(o, o.fighter->Some_0.on_death)]
    } else {
        Seq::empty()
    }
}

/// `n` is `o` after a refresh: visibility updated, then the death handled.
pub open spec fn refreshed(o: Object, n: Object, fov: Seq<Vec<bool>>) -> bool {
    let l = looked(o, fov);
    if dies(l) {
        dead_as(l, n, l.fighter->Some_0.on_death)
    } else {
        n == l
    }
}

/// The object after regenerating for a d100 roll.
pub open spec fn regenerated(o: Object, roll: int) -> Object {
    match o.fighter {
        None => o,
        Some(f) => with_health(o, f, min(f.health + regen_amount(f, roll), f.max_health as int) as i32),
    }
}

/// `n` is `o` after the refresh that closes a tick, with its regeneration roll.
pub open spec fn refreshed_full(o: Object, n: Object, fov: Seq<Vec<bool>>, roll: int) -> bool {
    let l = looked(o, fov);
    if dies(l) {
        dead_as(l, n, l.fighter->Some_0.on_death)
    } else if l.alive {
        n == regenerated(l, roll)
    } else {
        n == l
    }
}

/// `n` is `o` after the refresh that closes a tick, for some d100 roll.
pub open spec fn refreshed_tick(o: Object, n: Object, fov: Seq<Vec<bool>>) -> bool {
    exists|roll: int| 1 <= roll <= 100 && #[trigger] refreshed_full(o, n, fov, roll)
}

/// The messages of a refresh of the first `k` objects.
pub open spec fn refresh_log(objects: Seq<Object>, fov: Seq<Vec<bool>>, k: int) -> Seq<(Seq<char>, Color)>
    decreases k,
{
    if k <= 0 {
        Seq::empty()
    } else {
        refresh_log(objects, fov, k - 1) + see_log(objects[k - 1], fov) + death_log(objects[k - 1])
    }
}

impl Game {
    /// Whether the game's invariants hold: the player is object 0.
    pub open spec fn wf(&self) -> bool {
        self.objects@.len() >= 1
    }

    /// Whether this position is in view.
    pub fn visible(&self, loc: &Location) -> (r: bool)
        ensures
            r == lit(self.fov@, loc.0 as int, loc.1 as int),
    {
        let Location(x, y) = *loc;
        x >= 0 && y >= 0 && (x as usize) < self.fov.len() && (y as usize) < self.fov[x as usize].len()
            && self.fov[x as usize][y as usize]
    }

    /// Marks what is in view as visible and explored; the rest goes dark.
    fn update_map(&mut self)
        ensures
            final(self).map@.len() == old(self).map@.len(),
            forall|x: int| 0 <= x < old(self).map@.len() ==> (#[trigger] final(self).map@[x])@.len() == old(self).map@[x]@.len(),
            forall|x: int, y: int| 0 <= x < old(self).map@.len() && 0 <= y < old(self).map@[x]@.len()
                ==> (#[trigger] final(self).map@[x]@[y]) == lit_tile(old(self).map@[x]@[y], lit(old(self).fov@, x, y)),
            final(self).objects == old(self).objects,
            final(self).fov == old(self).fov,
            final(self).messages == old(self).messages,
            final(self).inventory == old(self).inventory,
            final(self).turn == old(self).turn,
            final(self).turns == old(self).turns,
            final(self).player_turn == old(self).player_turn,
            final(self).pending == old(self).pending,
            final(self).map_dimensions == old(self).map_dimensions,
    {
        let ghost m0 = self.map@;
        let mut x: usize = 0;
        while x < self.map.len()
            invariant
                0 <= x <= self.map@.len(),
                self.map@.len() == m0.len(),
                self.fov == old(self).fov,
                m0 == old(self).map@,
                self.objects == old(self).objects,
                self.messages == old(self).messages,
                self.inventory == old(self).inventory,
                self.turn == old(self).turn,
                self.turns == old(self).turns,
                self.player_turn == old(self).player_turn,
                self.pending == old(self).pending,
                self.map_dimensions == old(self).map_dimensions,
                forall|i: int| 0 <= i < m0.len() ==> (#[trigger] self.map@[i])@.len() == m0[i]@.len(),
                forall|i: int, j: int| 0 <= i < x && 0 <= j < m0[i]@.len()
                    ==> (#[trigger] self.map@[i]@[j]) == lit_tile(m0[i]@[j], lit(self.fov@, i, j)),
                forall|i: int| x <= i < m0.len() ==> (#[trigger] self.map@[i]) == m0[i],
            decreases m0.len() - x,
        {
            let mut y: usize = 0;
            while y < self.map[x].len()
                invariant
                    0 <= x < self.map@.len(),
                    self.map@.len() == m0.len(),
                    0 <= y <= self.map@[x as int]@.len(),
                    self.fov == old(self).fov,
                    m0 == old(self).map@,
                    self.objects == old(self).objects,
                    self.messages == old(self).messages,
                    self.inventory == old(self).inventory,
                    self.turn == old(self).turn,
                    self.turns == old(self).turns,
                    self.player_turn == old(self).player_turn,
                    self.pending == old(self).pending,
                    self.map_dimensions == old(self).map_dimensions,
                    forall|i: int| 0 <= i < m0.len() ==> (#[trigger] self.map@[i])@.len() == m0[i]@.len(),
                    forall|i: int, j: int| 0 <= i < x && 0 <= j < m0[i]@.len()
                        ==> (#[trigger] self.map@[i]@[j]) == lit_tile(m0[i]@[j], lit(self.fov@, i, j)),
                    forall|j: int| 0 <= j < y ==> (#[trigger] self.map@[x as int]@[j]) == lit_tile(m0[x as int]@[j], lit(self.fov@, x as int, j)),
                    forall|j: int| y <= j < m0[x as int]@.len() ==> (#[trigger] self.map@[x as int]@[j]) == m0[x as int]@[j],
                    forall|i: int| x < i < m0.len() ==> (#[trigger] self.map@[i]) == m0[i],
                decreases m0[x as int]@.len() - y,
            {
                let v = x < self.fov.len() && y < self.fov[x].len() && self.fov[x][y];
                if v {
                    self.map[x][y].explored = true;
                    self.map[x][y].visible = true;
                } else {
                    self.map[x][y].visible = false;
                }
                y = y + 1;
            }
            x = x + 1;
        }
    }
}

/// Everything but the objects, the map and the log is as it was.
pub open spec fn same_record(a: &Game, b: &Game) -> bool {
    &&& a.fov == b.fov && a.inventory == b.inventory && a.turn == b.turn && a.turns == b.turns
    &&& a.player_turn == b.player_turn && a.pending == b.pending && a.map_dimensions == b.map_dimensions
}

impl Game {
    /// Refreshes one object; `roll` is its regeneration roll when `full_turn`.
    fn refresh_object(&mut self, id: usize, full_turn: bool, roll: i32) -> (r: Messages)
        requires
            id < old(self).objects@.len(),
        ensures
            same_record(final(self), old(self)),
            final(self).map == old(self).map,
            final(self).messages == old(self).messages,
            final(self).objects@.len() == old(self).objects@.len(),
            forall|j: int| 0 <= j < old(self).objects@.len() && j != id ==> final(self).objects@[j] == old(self).objects@[j],
            full_turn ==> refreshed_full(old(self).objects@[id as int], final(self).objects@[id as int], old(self).fov@, roll as int),
            !full_turn ==> refreshed(old(self).objects@[id as int], final(self).objects@[id as int], old(self).fov@),
            r@ == see_log(old(self).objects@[id as int], old(self).fov@) + death_log(old(self).objects@[id as int]),
    {
        let ghost o = self.objects@[id as int];
        let loc = self.objects[id].loc;
        let vis = self.visible(&loc);
        let mut messages = Messages::empty();
        if vis {
            self.objects[id].visible = true;
            if !self.objects[id].seen {
                let mut m = String::from_str("You see ");
                let t = indirect(self.objects[id].name.as_str(), false);
                m.append(t.as_str());
                messages.add(m, Color::White);
                self.objects[id].seen = true;
            }
        } else {
            self.objects[id].visible = false;
        }
        proof {
            assert(self.objects@[id as int] == looked(o, self.fov@));
            assert(messages@ =~= see_log(o, self.fov@));
        }
        let ghost l = self.objects@[id as int];
        let death = if self.objects[id].alive {
            match self.objects[id].fighter {
                Some(f) => if f.health <= 0 {
                    Some(f.on_death)
                } else {
                    None
                },
                None => None,
            }
        } else {
            None
        };
        match death {
            Some(cb) => {
                let d = cb.call(&mut self.objects[id]);
                messages.append(d);
            },
            None => {},
        }
        proof {
            assert(messages@ =~= see_log(o, self.fov@) + death_log(o));
        }
        if full_turn && self.objects[id].alive {
            regenerate_with(&mut self.objects[id], roll);
        }
        messages
    }

    /// Refreshes every object in index order and logs what happened.
    fn update_objects(&mut self, full_turn: bool)
        ensures
            same_record(final(self), old(self)),
            final(self).map == old(self).map,
            final(self).objects@.len() == old(self).objects@.len(),
            forall|i: int| 0 <= i < old(self).objects@.len() ==> (!full_turn ==> refreshed(
                old(self).objects@[i],
                #[trigger] final(self).objects@[i],
                old(self).fov@,
            )) && (full_turn ==> refreshed_tick(old(self).objects@[i], final(self).objects@[i], old(self).fov@)),
            final(self).messages@ == old(self).messages@ + refresh_log(old(self).objects@, old(self).fov@, old(self).objects@.len() as int),
    {
        let ghost o = self.objects@;
        let n = self.objects.len();
        let mut messages = Messages::empty();
        let mut id: usize = 0;
        while id < n
            invariant
                0 <= id <= n,
                n == o.len(),
                o == old(self).objects@,
                same_record(self, old(self)),
                self.map == old(self).map,
                self.messages == old(self).messages,
                self.objects@.len() == n,
                forall|i: int| 0 <= i < id ==> (!full_turn ==> refreshed(o[i], #[trigger] self.objects@[i], self.fov@)) && (full_turn
                    ==> refreshed_tick(o[i], self.objects@[i], self.fov@)),
                forall|i: int| id <= i < n ==> #[trigger] self.objects@[i] == o[i],
                messages@ == refresh_log(o, self.fov@, id as int),
            decreases n - id,
        {
            let roll: i32 = if full_turn {
                rng::d100()
            } else {
                1
            };
            let m = self.refresh_object(id, full_turn, roll);
            messages.append(m);
            proof {
                assert(messages@ =~= refresh_log(o, self.fov@, id as int + 1));
                if full_turn {
                    assert(refreshed_full(o[id as int], self.objects@[id as int], self.fov@, roll as int));
                }
            }
            id = id + 1;
        }
        self.messages.append(messages);
    }

    /// Takes in what the player sees now, and brings the map and the
    /// objects up to date with it.
    pub fn refresh(&mut self, fov: Visibility)
        ensures
            final(self).fov == fov,
            final(self).inventory == old(self).inventory,
            final(self).turn == old(self).turn,
            final(self).turns == old(self).turns,
            final(self).player_turn == old(self).player_turn,
            final(self).pending == old(self).pending,
            final(self).map@.len() == old(self).map@.len(),
            forall|x: int| 0 <= x < old(self).map@.len() ==> (#[trigger] final(self).map@[x])@.len() == old(self).map@[x]@.len(),
            forall|x: int, y: int| 0 <= x < old(self).map@.len() && 0 <= y < old(self).map@[x]@.len()
                ==> (#[trigger] final(self).map@[x]@[y]) == lit_tile(old(self).map@[x]@[y], lit(fov@, x, y)),
            final(self).objects@.len() == old(self).objects@.len(),
            forall|i: int| 0 <= i < old(self).objects@.len() ==> refreshed(old(self).objects@[i], #[trigger] final(self).objects@[i], fov@),
            final(self).messages@ == old(self).messages@ + refresh_log(old(self).objects@, fov@, old(self).objects@.len() as int),
    {
        self.fov = fov;
        self.update_map();
        self.update_objects(false);
    }

    /// Records the tick's actions and counts it.
    pub fn turn(&mut self, player: Turn, ai: Turn)
        ensures
            final(self).turns@ == old(self).turns@.push((player, ai)),
            final(self).turn == if old(self).turn < i32::MAX { old(self).turn + 1 } else { old(self).turn as int },
            final(self).player_turn@.len() == 0,
            final(self).objects == old(self).objects,
            final(self).map == old(self).map,
            final(self).messages == old(self).messages,
            final(self).fov == old(self).fov,
            final(self).inventory == old(self).inventory,
            final(self).pending == old(self).pending,
    {
        self.turns.push((player, ai));
        if self.turn < i32::MAX {
            self.turn = self.turn + 1;
        }
        self.player_turn.clear();
    }

    /// The refresh that closes a tick, with regeneration, then the tick is recorded.
    pub fn rollover(&mut self, player: Turn, ai: Turn)
        ensures
            final(self).objects@.len() == old(self).objects@.len(),
            forall|i: int| 0 <= i < old(self).objects@.len() ==> refreshed_tick(old(self).objects@[i], #[trigger] final(self).objects@[i], old(self).fov@),
            final(self).messages@ == old(self).messages@ + refresh_log(old(self).objects@, old(self).fov@, old(self).objects@.len() as int),
            final(self).turns@ == old(self).turns@.push((player, ai)),
            final(self).turn == if old(self).turn < i32::MAX { old(self).turn + 1 } else { old(self).turn as int },
            final(self).player_turn@.len() == 0,
            final(self).fov == old(self).fov,
            final(self).inventory == old(self).inventory,
            final(self).pending == old(self).pending,
    {
        self.update_map();
        self.update_objects(true);
        self.turn(player, ai);
    }

    /// Resolves one action; actions that name no object are ignored.
    fn play_action(&mut self, action: Action)
        requires
            old(self).wf(),
        ensures
            final(self).wf(),
            resolved(
                old(self).objects@,
                old(self).inventory@,
                final(self).objects@,
                final(self).inventory@,
                old(self).map@,
                action,
                written(old(self).messages@, final(self).messages@),
            ),
            final(self).map == old(self).map,
            final(self).fov == old(self).fov,
            final(self).turn == old(self).turn,
            final(self).turns == old(self).turns,
            final(self).player_turn == old(self).player_turn,
            final(self).pending == old(self).pending,
            old(self).messages@.is_prefix_of(final(self).messages@),
    {
        let n = self.objects.len();
        let ghost o = self.objects@;
        let msgs = match action {
            Action::Move(id, direction) => if id < n {
                move_object(id, direction, &self.map, &mut self.objects)
            } else {
                Messages::empty()
            },
            Action::Attack(id, target) => if id < n && target < n {
                attack(id, target, &mut self.objects)
            } else {
                Messages::empty()
            },
            Action::PickUp(id, target) => if id < n && target < n && target != PLAYER {
                pickup_item(id, target, &mut self.objects, &mut self.inventory)
            } else {
                Messages::empty()
            },
            Action::UseItem(id, item) => if id < n && item < self.inventory.len() {
                use_item(id, item, &mut self.objects, &mut self.inventory)
            } else {
                Messages::empty()
            },
            Action::Bark(id) => if id < n {
                bark(id, self.objects.as_slice())
            } else {
                Messages::empty()
            },
            Action::Mumble(id) => if id < n {
                mumble(id, self.objects.as_slice())
            } else {
                Messages::empty()
            },
            Action::Wait(_) => Messages::empty(),
            Action::Nothing => Messages::empty(),
        };
        let ghost before = self.messages@;
        let ghost log = msgs@;
        self.messages.append(msgs);
        proof {
            assert(before.is_prefix_of(self.messages@)) by {
                assert(self.messages@.subrange(0, before.len() as int) =~= before);
            }
            assert(written(before, self.messages@) =~= log);
        }
    }

    /// Resolves the actions in the order given.
    pub fn play(&mut self, turn: &Turn)
        requires
            old(self).wf(),
        ensures
            final(self).wf(),
            final(self).map == old(self).map,
            final(self).fov == old(self).fov,
            final(self).turn == old(self).turn,
            final(self).turns == old(self).turns,
            final(self).player_turn == old(self).player_turn,
            final(self).pending == old(self).pending,
            old(self).messages@.is_prefix_of(final(self).messages@),
            played(
                old(self).objects@,
                old(self).inventory@,
                final(self).objects@,
                final(self).inventory@,
                old(self).map@,
                turn@,
                written(old(self).messages@, final(self).messages@),
            ),
    {
        let mut i: usize = 0;
        proof {
            assert(turn@.take(0) =~= Seq::<Action>::empty());
            assert(written(old(self).messages@, self.messages@) =~= Seq::<(Seq<char>, Color)>::empty());
        }
        while i < turn.len()
            invariant
                0 <= i <= turn@.len(),
                self.wf(),
                self.map == old(self).map,
                self.fov == old(self).fov,
                self.turn == old(self).turn,
                self.turns == old(self).turns,
                self.player_turn == old(self).player_turn,
                self.pending == old(self).pending,
                old(self).messages@.is_prefix_of(self.messages@),
                played(
                    old(self).objects@,
                    old(self).inventory@,
                    self.objects@,
                    self.inventory@,
                    old(self).map@,
                    turn@.take(i as int),
                    written(old(self).messages@, self.messages@),
                ),
            decreases turn@.len() - i,
        {
            let ghost before = self.messages@;
            let ghost mo = self.objects@;
            let ghost minv = self.inventory@;
            self.play_action(turn[i]);
            proof {
                let start = old(self).messages@;
                assert(start.is_prefix_of(self.messages@)) by {
                    assert(self.messages@.subrange(0, start.len() as int) =~= before.subrange(0, start.len() as int));
                }
                let log = written(start, self.messages@);
                let k = before.len() - start.len();
                assert(log.subrange(0, k) =~= written(start, before));
                assert(log.subrange(k, log.len() as int) =~= written(before, self.messages@));
                assert(turn@.take(i as int + 1).drop_last() =~= turn@.take(i as int));
                assert(turn@.take(i as int + 1).last() == turn@[i as int]);
                assert(played(old(self).objects@, old(self).inventory@, mo, minv, old(self).map@, turn@.take(i as int + 1).drop_last(), log.subrange(0, k)));
                assert(resolved(mo, minv, self.objects@, self.inventory@, old(self).map@, turn@.take(i as int + 1).last(), log.subrange(k, log.len() as int)));
                lemma_played_step(
                    old(self).objects@,
                    old(self).inventory@,
                    mo,
                    minv,
                    self.objects@,
                    self.inventory@,
                    old(self).map@,
                    turn@.take(i as int + 1),
                    log,
                    k,
                );
            }
            i = i + 1;
        }
        proof {
            assert(turn@.take(turn@.len() as int) =~= turn@);
        }
    }
}

/// What resolving `action` does: objects `o` and inventory `inv` before,
/// `n` and `ninv` after, `log` the messages it writes. Actions that name no
/// object change nothing; a roll decides whether a move succeeds and what an
/// attack costs.
pub open spec fn resolved(
    o: Seq<Object>,
    inv: Seq<Object>,
    n: Seq<Object>,
    ninv: Seq<Object>,
    map: Seq<Vec<Tile>>,
    action: Action,
    log: Seq<(Seq<char>, Color)>,
) -> bool {
    let len = o.len();
    let unchanged = n == o && ninv == inv && log.len() == 0;
    match action {
        Action::Move(id, d) => if id < len {
            ninv == inv && exists|roll: int| 1 <= roll <= 100 && #[trigger] move_outcome(map, o, n, id as int, d, roll, log)
        } else {
            unchanged
        },
        Action::Attack(a, d) => if a < len && d < len {
            ninv == inv && exists|x: int, y: int|
                attack_roll_of(o[a as int], x) && defense_roll_of(o[d as int], y) && #[trigger] attack_outcome(
                    o,
                    n,
                    a as int,
                    d as int,
                    x,
                    y,
                    log,
                )
        } else {
            unchanged
        },
        Action::PickUp(a, t) => if a < len && t < len && t != PLAYER {
            if inv.len() >= INVENTORY_SIZE {
                n == o && ninv == inv && log == seq![("Inventory full"@, Color::White)]
            } else {
                n == o.update(t as int, o.last()).drop_last() && ninv == inv.push(o[t as int])
                    && log == seq![(pickup_text(o, a as int, t as int), Color::White)]
            }
        } else {
            unchanged
        },
        Action::UseItem(id, i) => if id < len && i < inv.len() {
            let used = ninv.len() < inv.len();
            &&& n.len() == len
            &&& ninv == if used {
                inv.remove(i as int)
            } else {
                inv
            }
            &&& match inv[i as int].item {
                None => n == o && log.len() == 0,
                Some(Item::Heal) => heal_outcome(o, n, id as int, used, log),
                Some(Item::Lightning) => lightning_outcome(o, n, id as int, used, log),
                Some(Item::Confusion) => confusion_outcome(o, n, id as int, used, log),
            }
        } else {
            unchanged
        },
        Action::Bark(id) => if id < len {
            n == o && ninv == inv && match o[id as int].noise {
                Some(x) => log == seq![(noise_text(o[id as int], x.bark@), Color::White)],
                None => log.len() == 0,
            }
        } else {
            unchanged
        },
        Action::Mumble(id) => if id < len {
            n == o && ninv == inv && match o[id as int].noise {
                Some(x) => log == seq![(noise_text(o[id as int], x.mumble@), Color::White)],
                None => log.len() == 0,
            }
        } else {
            unchanged
        },
        Action::Wait(_) => unchanged,
        Action::Nothing => unchanged,
    }
}

/// Resolving `acts` one after the other, in order: objects and inventory
/// go from `o`, `inv` to `n`, `ninv`, and `log` is what they write.
pub open spec fn played(
    o: Seq<Object>,
    inv: Seq<Object>,
    n: Seq<Object>,
    ninv: Seq<Object>,
    map: Seq<Vec<Tile>>,
    acts: Seq<Action>,
    log: Seq<(Seq<char>, Color)>,
) -> bool
    decreases acts.len(),
{
    if acts.len() == 0 {
        n == o && ninv == inv && log.len() == 0
    } else {
        exists|mo: Seq<Object>, minv: Seq<Object>, k: int|
            0 <= k <= log.len() && played(o, inv, mo, minv, map, acts.drop_last(), log.subrange(0, k))
                && #[trigger] resolved(mo, minv, n, ninv, map, acts.last(), log.subrange(k, log.len() as int))
    }
}

proof fn lemma_played_step(
    o: Seq<Object>,
    inv: Seq<Object>,
    mo: Seq<Object>,
    minv: Seq<Object>,
    n: Seq<Object>,
    ninv: Seq<Object>,
    map: Seq<Vec<Tile>>,
    acts: Seq<Action>,
    log: Seq<(Seq<char>, Color)>,
    k: int,
)
    requires
        acts.len() > 0,
        0 <= k <= log.len(),
        played(o, inv, mo, minv, map, acts.drop_last(), log.subrange(0, k)),
        resolved(mo, minv, n, ninv, map, acts.last(), log.subrange(k, log.len() as int)),
    ensures
        played(o, inv, n, ninv, map, acts, log),
{
}

/// The messages written since the log was `before`.
pub open spec fn written(before: Seq<(Seq<char>, Color)>, after: Seq<(Seq<char>, Color)>) -> Seq<(Seq<char>, Color)> {
    after.subrange(before.len() as int, after.len() as int)
}

/// A full tick after the player's action, over objects: `o` is refreshed
/// with `fov` into `a` (and the map `map` into `m`); the monsters decide
/// (`a` to `b`: only AI states change, each as `decide` says for its roll
/// in `rolls`, and `batch` is what they do); their `batch` is resolved in order
/// on `m` (`b` to `c`, the inventory `inv` to `ninv`, writing `log`); the
/// closing refresh with regeneration gives `n`. `msgs` and `nmsgs` are the
/// message log before and after.
pub open spec fn ticked(
    o: Seq<Object>,
    a: Seq<Object>,
    b: Seq<Object>,
    c: Seq<Object>,
    n: Seq<Object>,
    map: Seq<Vec<Tile>>,
    m: Seq<Vec<Tile>>,
    inv: Seq<Object>,
    ninv: Seq<Object>,
    fov: Seq<Vec<bool>>,
    batch: Seq<Action>,
    rolls: Seq<int>,
    log: Seq<(Seq<char>, Color)>,
    msgs: Seq<(Seq<char>, Color)>,
    nmsgs: Seq<(Seq<char>, Color)>,
) -> bool {
    &&& m.len() == map.len()
    &&& forall|x: int| 0 <= x < map.len() ==> (#[trigger] m[x])@.len() == map[x]@.len()
    &&& forall|x: int, y: int| 0 <= x < map.len() && 0 <= y < map[x]@.len()
        ==> (#[trigger] m[x]@[y]) == lit_tile(map[x]@[y], lit(fov, x, y))
    &&& a.len() == o.len() && forall|i: int| 0 <= i < o.len() ==> refreshed(o[i], #[trigger] a[i], fov)
    &&& b.len() == a.len() && forall|i: int| 0 <= i < a.len() ==> same_but_ai(a[i], #[trigger] b[i])
    &&& rolls.len() == a.len() && batch == ai_batch(a, fov, rolls, a.len() as int)
    &&& forall|i: int| 1 <= i < a.len() ==> match a[i].ai {
        Some(ai) => (#[trigger] b[i]).ai == Some(decide_at(a, fov, i as usize, ai, rolls[i]).1),
        None => b[i].ai is None,
    }
    &&& played(b, inv, c, ninv, m, batch, log)
    &&& n.len() == c.len() && forall|i: int| 0 <= i < c.len() ==> refreshed_tick(c[i], #[trigger] n[i], fov)
    &&& nmsgs == msgs + refresh_log(o, fov, o.len() as int) + log + refresh_log(c, fov, c.len() as int)
}

/// The batch up to `k` reads only the first `k` rolls.
proof fn lemma_ai_batch_prefix(objects: Seq<Object>, fov: Seq<Vec<bool>>, r1: Seq<int>, r2: Seq<int>, k: int)
    requires
        k <= r1.len() <= r2.len(),
        forall|i: int| 0 <= i < r1.len() ==> r1[i] == r2[i],
    ensures
        ai_batch(objects, fov, r1, k) == ai_batch(objects, fov, r2, k),
    decreases k,
{
    if k > 1 {
        lemma_ai_batch_prefix(objects, fov, r1, r2, k - 1);
    }
}

/// `n` is `o` with perhaps another AI state.
pub open spec fn same_but_ai(o: Object, n: Object) -> bool {
    n == (Object { ai: n.ai, ..o })
}

impl Game {
    /// The monsters' turns: every object after the player with an AI
    /// decides in index order; their actions are returned in that order.
    pub fn ai_turns(&mut self) -> (r: Turn)
        requires
            old(self).wf(),
        ensures
            final(self).wf(),
            final(self).objects@.len() == old(self).objects@.len(),
            forall|i: int| 0 <= i < old(self).objects@.len() ==> same_but_ai(old(self).objects@[i], #[trigger] final(self).objects@[i]),
            forall|i: int| 0 <= i < old(self).objects@.len() ==> (#[trigger] final(self).objects@[i]).ai is Some == old(self).objects@[i].ai is Some,
            exists|rolls: Seq<int>| #[trigger] ai_batch(old(self).objects@, old(self).fov@, rolls, old(self).objects@.len() as int) == r@
                && rolls.len() == old(self).objects@.len() && forall|i: int| 1 <= i < old(self).objects@.len() ==> match old(self).objects@[i].ai {
                    Some(ai) => (#[trigger] final(self).objects@[i]).ai == Some(decide_at(old(self).objects@, old(self).fov@, i as usize, ai, rolls[i]).1),
                    None => final(self).objects@[i].ai is None,
                },
            final(self).map == old(self).map,
            final(self).messages == old(self).messages,
            same_record(final(self), old(self)),
    {
        let ghost o = self.objects@;
        let ghost fov = self.fov@;
        let mut actions: Turn = Vec::new();
        let n = self.objects.len();
        let mut id: usize = 1;
        let ghost mut rolls: Seq<int> = seq![0];
        proof {
            assert(actions@ =~= ai_batch(o, fov, rolls, 1));
        }
        while id < n
            invariant
                1 <= id <= n,
                n == o.len(),
                o == old(self).objects@,
                fov == self.fov@,
                rolls.len() == id,
                actions@ == ai_batch(o, fov, rolls, id as int),
                forall|i: int| 1 <= i < id ==> match o[i].ai {
                    Some(ai) => (#[trigger] self.objects@[i]).ai == Some(decide_at(o, fov, i as usize, ai, rolls[i]).1),
                    None => self.objects@[i].ai is None,
                },
                forall|i: int| id <= i < n ==> (#[trigger] self.objects@[i]) == o[i],
                self.objects@.len() == n,
                self.map == old(self).map,
                self.messages == old(self).messages,
                same_record(self, old(self)),
                forall|i: int| 0 <= i < n ==> same_but_ai(o[i], #[trigger] self.objects@[i]),
                forall|i: int| 0 <= i < n ==> (#[trigger] self.objects@[i]).ai is Some == o[i].ai is Some,
            decreases n - id,
        {
            let ghost before = actions@;
            let ghost oid = o[id as int];
            proof {
                assert(self.objects@[id as int] == o[id as int]);
            }
            let ai = self.objects[id].ai.take();
            let ghost gai = ai;
            proof {
                assert(gai == o[id as int].ai);
            }
            match ai {
                Some(a) => {
                    let ghost ga = a;
                    let (mut t, next) = crate::ai::turn(id, a, self);
                    proof {
                        let roll = choose|roll: int| (t@, next) == #[trigger] crate::ai::decide_in(id, ga, self, roll);
                        assert(self.objects@[id as int].loc == o[id as int].loc);
                        assert(self.objects@[PLAYER as int] == (Object { ai: self.objects@[PLAYER as int].ai, ..o[PLAYER as int] }));
                        assert(crate::ai::player_alive(self.objects@) == crate::ai::player_alive(o));
                        assert(crate::ai::decide_in(id, ga, self, roll) == decide_at(o, fov, id, ga, roll));
                        let old_rolls = rolls;
                        rolls = rolls.push(roll);
                        lemma_ai_batch_prefix(o, fov, old_rolls, rolls, id as int);
                    }
                    let ghost tv = t@;
                    actions.append(&mut t);
                    self.objects[id].ai = Some(next);
                    proof {
                        assert(ai_batch(o, fov, rolls, id as int + 1) == ai_batch(o, fov, rolls, id as int) + decide_at(o, fov, id, ga, rolls[id as int]).0);
                        assert(actions@ =~= ai_batch(o, fov, rolls, id as int + 1));
                    }
                },
                None => {
                    proof {
                        let old_rolls = rolls;
                        rolls = rolls.push(0);
                        lemma_ai_batch_prefix(o, fov, old_rolls, rolls, id as int);
                        assert(ai_batch(o, fov, rolls, id as int + 1) == ai_batch(o, fov, rolls, id as int));
                        assert(actions@ =~= ai_batch(o, fov, rolls, id as int + 1));
                    }
                },
            }
            id = id + 1;
        }
        actions
    }

    /// The player's half of a tick: records and resolves the player's action.
    /// The consequences wait for `react`, once the caller has worked out what
    /// the player sees from where they now stand.
    pub fn update(&mut self, action: Action)
        requires
            old(self).wf(),
        ensures
            final(self).wf(),
            final(self).player_turn@ == old(self).player_turn@.push(action),
            final(self).pending == Some(action),
            resolved(
                old(self).objects@,
                old(self).inventory@,
                final(self).objects@,
                final(self).inventory@,
                old(self).map@,
                action,
                written(old(self).messages@, final(self).messages@),
            ),
            final(self).map == old(self).map,
            final(self).fov == old(self).fov,
            final(self).turn == old(self).turn,
            final(self).turns == old(self).turns,
            old(self).messages@.is_prefix_of(final(self).messages@),
    {
        self.player_turn.push(action);
        self.play_action(action);
        self.pending = Some(action);
    }

    /// The rest of the tick: a refresh with what the player sees now; then,
    /// if the pending action used up the player's turn, the monsters decide
    /// and act in index order, the refresh that closes the tick follows, and
    /// the tick is recorded.
    pub fn react(&mut self, fov: Visibility)
        requires
            old(self).wf(),
        ensures
            final(self).wf(),
            final(self).fov == fov,
            final(self).pending is None,
            (old(self).pending matches Some(a) && consumes_turn(a)) ==> {
                &&& final(self).turns@ == old(self).turns@.push((old(self).player_turn, final(self).turns@.last().1))
                &&& exists|
                    refreshed_objects: Seq<Object>,
                    decided: Seq<Object>,
                    acted: Seq<Object>,
                    m: Seq<Vec<Tile>>,
                    rolls: Seq<int>,
                    log: Seq<(Seq<char>, Color)>,
                |
                    #[trigger] ticked(
                        old(self).objects@,
                        refreshed_objects,
                        decided,
                        acted,
                        final(self).objects@,
                        old(self).map@,
                        m,
                        old(self).inventory@,
                        final(self).inventory@,
                        fov@,
                        final(self).turns@.last().1@,
                        rolls,
                        log,
                        old(self).messages@,
                        final(self).messages@,
                    )
                &&& final(self).player_turn@.len() == 0
                &&& final(self).turn == if old(self).turn < i32::MAX { old(self).turn + 1 } else { old(self).turn as int }
            },
            !(old(self).pending matches Some(a) && consumes_turn(a)) ==> {
                &&& final(self).turns == old(self).turns
                &&& final(self).turn == old(self).turn
                &&& final(self).player_turn == old(self).player_turn
                &&& final(self).objects@.len() == old(self).objects@.len()
                &&& forall|i: int| 0 <= i < old(self).objects@.len() ==> refreshed(old(self).objects@[i], #[trigger] final(self).objects@[i], fov@)
                &&& final(self).messages@ == old(self).messages@ + refresh_log(old(self).objects@, fov@, old(self).objects@.len() as int)
            },
    {
        let ghost o = self.objects@;
        let ghost msgs = self.messages@;
        let ghost fv = fov@;
        self.refresh(fov);
        match self.pending.take() {
            Some(a) => {
                if a.took_turn() {
                    let ghost oa = self.objects@;
                    let ghost m = self.map@;
                    let ai = self.ai_turns();
                    let ghost rolls = choose|rolls: Seq<int>| #[trigger] ai_batch(oa, fv, rolls, oa.len() as int) == ai@
                        && rolls.len() == oa.len() && forall|i: int| 1 <= i < oa.len() ==> match oa[i].ai {
                        Some(x) => (#[trigger] self.objects@[i]).ai == Some(decide_at(oa, fv, i as usize, x, rolls[i]).1),
                        None => self.objects@[i].ai is None,
                    };
                    let ghost ob = self.objects@;
                    let ghost msgs1 = self.messages@;
                    self.play(&ai);
                    let ghost oc = self.objects@;
                    let ghost msgs2 = self.messages@;
                    let ghost batch = ai@;
                    let mut player: Turn = Vec::new();
                    std::mem::swap(&mut player, &mut self.player_turn);
                    self.rollover(player, ai);
                    proof {
                        let log = written(msgs1, msgs2);
                        assert(msgs2 =~= msgs1 + log);
                        assert(self.turns@.last().1@ == batch);
                        assert(ticked(o, oa, ob, oc, self.objects@, old(self).map@, m, old(self).inventory@, self.inventory@, fv, self.turns@.last().1@, rolls, log, msgs, self.messages@));
                    }
                }
            },
            None => {},
        }
    }
}

impl Game {
    /// A new game: a generated map, with the player in its first room and
    /// nothing in view yet (see `start`).
    pub fn new(
        player_name: &str,
        map_dimensions: Dimension,
        room_dimensions: Dimension,
        max_rooms: i32,
        max_room_monsters: i32,
        max_room_items: i32,
    ) -> (r: Self)
        requires
            2 <= room_dimensions.0 <= room_dimensions.1,
            room_dimensions.1 < map_dimensions.0,
            room_dimensions.1 < map_dimensions.1,
            0 <= max_room_monsters < i32::MAX,
            0 <= max_room_items < i32::MAX,
        ensures
            r.wf(),
            shaped(r.map@, map_dimensions.0 as int, map_dimensions.1 as int),
            is_player(r.objects@[PLAYER as int], player_name@),
            exists|rooms: Seq<Rect>|
                #[trigger] generated(r.map@, r.objects@, rooms, map_dimensions.0 as int, map_dimensions.1 as int, max_rooms as int),
            r.map_dimensions == map_dimensions,
            r.turn == 0,
            r.turns@.len() == 0,
            r.messages@.len() == 0,
            r.inventory@.len() == 0,
            r.fov@.len() == 0,
            r.player_turn@.len() == 0,
            r.pending is None,
    {
        let player = Object::player(Location(0, 0), player_name);
        let ghost p = player;
        let mut objects: Vec<Object> = Vec::new();
        objects.push(player);
        proof {
            assert(objects@[0] == p);
        }
        let (map, rooms) = make_map_rooms(
            &mut objects,
            map_dimensions,
            room_dimensions,
            max_rooms,
            max_room_monsters,
            max_room_items,
        );
        proof {
            assert(generated(map@, objects@, rooms@, map_dimensions.0 as int, map_dimensions.1 as int, max_rooms as int));
            let q = objects@[0];
            assert(q.name == p.name && q.char == p.char && q.color == p.color && q.blocks == p.blocks && q.alive == p.alive);
            assert(q.visible == p.visible && q.seen == p.seen && q.movement == p.movement && q.fighter == p.fighter);
            assert(q.ai == p.ai && q.noise == p.noise && q.item == p.item);
        }
        Game {
            map,
            objects,
            turn: 0,
            turns: Vec::new(),
            messages: Messages::empty(),
            inventory: Vec::new(),
            fov: Vec::new(),
            map_dimensions,
            player_turn: Vec::new(),
            pending: None,
        }
    }

    /// Opens the game: a first refresh with what the player sees, then the
    /// greeting.
    pub fn start(&mut self, fov: Visibility)
        ensures
            final(self).fov == fov,
            final(self).objects@.len() == old(self).objects@.len(),
            forall|i: int| 0 <= i < old(self).objects@.len() ==> refreshed(old(self).objects@[i], #[trigger] final(self).objects@[i], fov@),
            final(self).messages@ == (old(self).messages@ + refresh_log(old(self).objects@, fov@, old(self).objects@.len() as int)).push(
                ("You've stumbled into some very rusty caves. Prepare yourself."@, Color::Green),
            ),
    {
        self.refresh(fov);
        self.messages.add(String::from_str("You've stumbled into some very rusty caves. Prepare yourself."), Color::Green);
    }
}

// --------------------------------- Laws ------------------------------------

/// "You see ..." comes once per object in a whole game: a refresh that says
/// it leaves the object seen, a seen object stays seen, and no refresh says
/// it of a seen object.
pub proof fn lemma_seen_once(o: Object, n: Object, fov: Seq<Vec<bool>>, later: Seq<Vec<bool>>)
    requires
        refreshed(o, n, fov) || refreshed_tick(o, n, fov),
    ensures
        see_log(o, fov).len() > 0 ==> n.seen,
        o.seen ==> n.seen,
        n.seen ==> see_log(n, later).len() == 0,
{
    if refreshed_tick(o, n, fov) && !refreshed(o, n, fov) {
        let roll = choose|roll: int| 1 <= roll <= 100 && #[trigger] refreshed_full(o, n, fov, roll);
        assert(refreshed_full(o, n, fov, roll));
    }
}

/// An object dies once: a refresh that handles its death leaves it dead,
/// a dead object stays dead, and no refresh handles the death of a dead one.
pub proof fn lemma_death_once(o: Object, n: Object, fov: Seq<Vec<bool>>)
    requires
        refreshed(o, n, fov) || refreshed_tick(o, n, fov),
    ensures
        death_log(o).len() > 0 ==> !n.alive,
        !o.alive ==> !n.alive,
        !n.alive ==> death_log(n).len() == 0,
        death_log(o).len() <= 1,
{
    if refreshed_tick(o, n, fov) && !refreshed(o, n, fov) {
        let roll = choose|roll: int| 1 <= roll <= 100 && #[trigger] refreshed_full(o, n, fov, roll);
        assert(refreshed_full(o, n, fov, roll));
    }
}

} // verus!
