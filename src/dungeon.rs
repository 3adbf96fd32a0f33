use vstd::prelude::*;

use crate::colors::Color;
use crate::game::{is_item, is_monster, object_blocks, occupied, Item, Object, Tile, TileMap, PLAYER};
use crate::geometry::{half, Dimension, Location};
use crate::rng;

verus! {

/// A rectangle on the map, used to characterise a room.
#[derive(Debug, Clone, Copy, PartialEq, Eq, Structural)]
pub struct Rect {
    pub x1: i32,
    pub y1: i32,
    pub x2: i32,
    pub y2: i32,
}

/// Two rectangles overlap or touch (edges included).
pub open spec fn intersect(a: Rect, b: Rect) -> bool {
    a.x1 <= b.x2 && a.x2 >= b.x1 && a.y1 <= b.y2 && a.y2 >= b.y1
}

/// The cell lies strictly inside the rectangle's border.
pub open spec fn in_interior(r: Rect, x: int, y: int) -> bool {
    r.x1 < x < r.x2 && r.y1 < y < r.y2
}

/// The cell lies on or within the rectangle's border.
pub open spec fn in_rect(r: Rect, x: int, y: int) -> bool {
    r.x1 <= x <= r.x2 && r.y1 <= y <= r.y2
}

pub open spec fn center_of(r: Rect) -> (int, int) {
    (half(r.x1 + r.x2), half(r.y1 + r.y2))
}

/// The map has `w` columns of `h` tiles.
pub open spec fn shaped(map: Seq<Vec<Tile>>, w: int, h: int) -> bool {
    map.len() == w && forall|x: int| 0 <= x < w ==> (#[trigger] map[x])@.len() == h
}

/// The rectangle, border included, lies on a `w` by `h` map.
pub open spec fn fits(r: Rect, w: int, h: int) -> bool {
    0 <= r.x1 < r.x2 < w && 0 <= r.y1 < r.y2 < h
}

pub open spec fn open_at(map: Seq<Vec<Tile>>, x: int, y: int) -> bool {
    !map[x]@[y].blocked
}

impl Rect {
    pub fn new(x: i32, y: i32, w: i32, h: i32) -> (r: Self)
        requires
            i32::MIN <= x + w <= i32::MAX,
            i32::MIN <= y + h <= i32::MAX,
        ensures
            r == (Rect { x1: x, y1: y, x2: (x + w) as i32, y2: (y + h) as i32 }),
    {
        Rect { x1: x, y1: y, x2: x + w, y2: y + h }
    }

    pub fn center(&self) -> (r: (i32, i32))
        ensures
            r.0 == center_of(*self).0,
            r.1 == center_of(*self).1,
    {
        let x = (self.x1 as i64 + self.x2 as i64) / 2;
        let y = (self.y1 as i64 + self.y2 as i64) / 2;
        (x as i32, y as i32)
    }

    /// Whether this rectangle overlaps or touches another.
    pub fn intersects_with(&self, other: &Rect) -> (r: bool)
        ensures
            r == intersect(*self, *other),
    {
        self.x1 <= other.x2 && self.x2 >= other.x1 && self.y1 <= other.y2 && self.y2 >= other.y1
    }
}

/// The tile of a carved floor cell.
pub open spec fn empty_tile() -> Tile {
    Tile { blocked: false, block_sight: false, char: '.', explored: false, visible: false }
}

/// The tile of an untouched wall cell.
pub open spec fn wall_tile() -> Tile {
    Tile { blocked: true, block_sight: true, char: '#', explored: false, visible: false }
}

/// The cell lies on the map and is carved floor.
pub open spec fn floor_at(map: Seq<Vec<Tile>>, x: int, y: int) -> bool {
    0 <= x < map.len() && 0 <= y < map[x]@.len() && map[x]@[y] == empty_tile()
}

/// `m2` has the shape of `m1`, and every cell that is `m1` floor or that
/// `carve` names is floor in `m2`; the others are as in `m1`.
pub open spec fn carved_from(m1: Seq<Vec<Tile>>, m2: Seq<Vec<Tile>>, carve: spec_fn(int, int) -> bool) -> bool {
    &&& m2.len() == m1.len()
    &&& forall|x: int| 0 <= x < m1.len() ==> (#[trigger] m2[x])@.len() == m1[x]@.len()
    &&& forall|x: int, y: int| 0 <= x < m1.len() && 0 <= y < m1[x]@.len() ==> (#[trigger] m2[x]@[y]) == if carve(x, y) {
        empty_tile()
    } else {
        m1[x]@[y]
    }
}

/// Carve the room's interior, leaving a wall one tile wide around it.
pub fn create_room(room: Rect, map: &mut TileMap)
    requires
        0 <= room.x1,
        room.x2 <= old(map)@.len(),
        0 <= room.y1,
        forall|x: int| room.x1 < x < room.x2 ==> room.y2 <= (#[trigger] old(map)@[x])@.len(),
    ensures
        carved_from(old(map)@, final(map)@, |x: int, y: int| in_interior(room, x, y)),
{
    if room.x1 >= room.x2 || room.y1 >= room.y2 {
        proof {
            assert forall|x: int, y: int| 0 <= x < old(map)@.len() && 0 <= y < old(map)@[x]@.len() implies !in_interior(room, x, y) by {}
        }
        return;
    }
    let mut x = room.x1 + 1;
    while x < room.x2
        invariant
            room.x1 + 1 <= x <= room.x2,
            room.x1 < room.x2,
            room.y1 < room.y2,
            0 <= room.x1,
            0 <= room.y1,
            room.x2 <= old(map)@.len(),
            map@.len() == old(map)@.len(),
            forall|i: int| 0 <= i < old(map)@.len() ==> (#[trigger] map@[i])@.len() == old(map)@[i]@.len(),
            forall|i: int| room.x1 < i < room.x2 ==> room.y2 <= (#[trigger] old(map)@[i])@.len(),
            forall|i: int, j: int| 0 <= i < old(map)@.len() && 0 <= j < old(map)@[i]@.len() ==> (#[trigger] map@[i]@[j]) == if in_interior(room, i, j) && i < x {
                empty_tile()
            } else {
                old(map)@[i]@[j]
            },
        decreases room.x2 - x,
    {
        let mut y = room.y1 + 1;
        proof {
            assert(room.y2 <= old(map)@[x as int]@.len());
        }
        while y < room.y2
            invariant
                room.x1 + 1 <= x < room.x2,
                room.y1 + 1 <= y <= room.y2,
                0 <= room.x1,
                0 <= room.y1,
                room.x2 <= old(map)@.len(),
                room.y2 <= old(map)@[x as int]@.len(),
                map@.len() == old(map)@.len(),
                forall|i: int| 0 <= i < old(map)@.len() ==> (#[trigger] map@[i])@.len() == old(map)@[i]@.len(),
                forall|i: int, j: int| 0 <= i < old(map)@.len() && 0 <= j < old(map)@[i]@.len() ==> (#[trigger] map@[i]@[j]) == if in_interior(room, i, j) && (i < x || (i == x && j < y)) {
                    empty_tile()
                } else {
                    old(map)@[i]@[j]
                },
            decreases room.y2 - y,
        {
            map[x as usize][y as usize] = Tile::empty();
            y = y + 1;
        }
        x = x + 1;
    }
}

/// Carve a horizontal tunnel along row `y`, both ends included.
pub fn create_h_tunnel(x1: i32, x2: i32, y: i32, map: &mut TileMap)
    requires
        0 <= x1 < old(map)@.len(),
        0 <= x2 < old(map)@.len(),
        0 <= y,
        forall|x: int| between(x, x1 as int, x2 as int) ==> y < (#[trigger] old(map)@[x])@.len(),
    ensures
        carved_from(old(map)@, final(map)@, |x: int, j: int| j == y && between(x, x1 as int, x2 as int)),
{
    let lo: i64 = if x1 < x2 { x1 as i64 } else { x2 as i64 };
    let hi: i64 = if x1 < x2 { x2 as i64 } else { x1 as i64 };
    let mut x: i64 = lo;
    while x <= hi
        invariant
            lo <= x <= hi + 1,
            lo == if x1 < x2 { x1 as int } else { x2 as int },
            hi == if x1 < x2 { x2 as int } else { x1 as int },
            0 <= lo <= hi < old(map)@.len(),
            0 <= y,
            forall|i: int| between(i, x1 as int, x2 as int) ==> y < (#[trigger] old(map)@[i])@.len(),
            map@.len() == old(map)@.len(),
            forall|i: int| 0 <= i < old(map)@.len() ==> (#[trigger] map@[i])@.len() == old(map)@[i]@.len(),
            forall|i: int, j: int| 0 <= i < old(map)@.len() && 0 <= j < old(map)@[i]@.len() ==> (#[trigger] map@[i]@[j]) == if j == y && lo <= i < x {
                empty_tile()
            } else {
                old(map)@[i]@[j]
            },
        decreases hi + 1 - x,
    {
        proof {
            assert(between(x as int, x1 as int, x2 as int));
        }
        map[x as usize][y as usize] = Tile::empty();
        x = x + 1;
    }
}

/// Carve a vertical tunnel along column `x`, both ends included.
pub fn create_v_tunnel(y1: i32, y2: i32, x: i32, map: &mut TileMap)
    requires
        0 <= x < old(map)@.len(),
        0 <= y1 < old(map)@[x as int]@.len(),
        0 <= y2 < old(map)@[x as int]@.len(),
    ensures
        carved_from(old(map)@, final(map)@, |i: int, j: int| i == x && between(j, y1 as int, y2 as int)),
{
    let lo: i64 = if y1 < y2 { y1 as i64 } else { y2 as i64 };
    let hi: i64 = if y1 < y2 { y2 as i64 } else { y1 as i64 };
    let mut y: i64 = lo;
    while y <= hi
        invariant
            lo <= y <= hi + 1,
            lo == if y1 < y2 { y1 as int } else { y2 as int },
            hi == if y1 < y2 { y2 as int } else { y1 as int },
            0 <= x < old(map)@.len(),
            0 <= lo <= hi < old(map)@[x as int]@.len(),
            map@.len() == old(map)@.len(),
            forall|i: int| 0 <= i < old(map)@.len() ==> (#[trigger] map@[i])@.len() == old(map)@[i]@.len(),
            forall|i: int, j: int| 0 <= i < old(map)@.len() && 0 <= j < old(map)@[i]@.len() ==> (#[trigger] map@[i]@[j]) == if i == x && lo <= j < y {
                empty_tile()
            } else {
                old(map)@[i]@[j]
            },
        decreases hi + 1 - y,
    {
        map[x as usize][y as usize] = Tile::empty();
        y = y + 1;
    }
}

// ------------------------------- Monsters ----------------------------------

/// A random position inside a room.
pub fn loc_in_room(room: Rect) -> (r: Location)
    requires
        room.x1 + 2 <= room.x2,
        room.y1 + 2 <= room.y2,
    ensures
        in_interior(room, r.0 as int, r.1 as int),
{
    let x = rng::within(room.x1 + 1, room.x2 - 1);
    let y = rng::within(room.y1 + 1, room.y2 - 1);
    Location(x, y)
}

/// The monster for a d100 roll: below 50 an orc, below 80 a troll, else an ogre.
pub open spec fn is_species(o: Object, loc: Location, roll: int) -> bool {
    if roll < 50 {
        is_monster(o, loc, "orc"@, 'o', 90, 10, 0, 3, 10, Color::Green, "shout"@, "mumble"@)
    } else if roll < 80 {
        is_monster(o, loc, "troll"@, 'T', 80, 16, 1, 4, 50, Color::Green, "roar"@, "growl"@)
    } else {
        is_monster(o, loc, "ogre"@, 'O', 70, 25, 2, 8, 20, Color::Yellow, "bellow"@, "burp"@)
    }
}

/// The item for a d100 roll: below 50 a healing potion, else a lightning scroll.
pub open spec fn is_loot(o: Object, loc: Location, roll: int) -> bool {
    if roll < 50 {
        is_item(o, loc, Item::Heal, "healing potion"@, '!')
    } else {
        is_item(o, loc, Item::Lightning, "lightning bolt"@, '?')
    }
}

/// The monster for a d100 roll: below 50 an orc, below 80 a troll, else an ogre.
pub fn create_monster_with(loc: Location, roll: i32) -> (r: Object)
    ensures
        is_species(r, loc, roll as int),
{
    if roll < 50 {
        Object::orc(loc)
    } else if roll < 80 {
        Object::troll(loc)
    } else {
        Object::ogre(loc)
    }
}

/// The item for a d100 roll: below 50 a healing potion, else a lightning scroll.
pub fn create_item_with(loc: Location, roll: i32) -> (r: Object)
    ensures
        is_loot(r, loc, roll as int),
{
    if roll < 50 {
        Object::potion(loc, Item::Heal, "healing potion")
    } else {
        Object::scroll(loc, Item::Lightning, "lightning bolt")
    }
}

/// A random monster at a random position in the room.
pub fn create_monster(room: Rect) -> (r: Object)
    requires
        room.x1 + 2 <= room.x2,
        room.y1 + 2 <= room.y2,
    ensures
        in_interior(room, r.loc.0 as int, r.loc.1 as int),
        exists|roll: int| 1 <= roll <= 100 && #[trigger] is_species(r, r.loc, roll),
{
    let loc = loc_in_room(room);
    let roll = rng::d100();
    create_monster_with(loc, roll)
}

/// A random item at a random position in the room.
pub fn create_item(room: Rect) -> (r: Object)
    requires
        room.x1 + 2 <= room.x2,
        room.y1 + 2 <= room.y2,
    ensures
        in_interior(room, r.loc.0 as int, r.loc.1 as int),
        exists|roll: int| 1 <= roll <= 100 && #[trigger] is_loot(r, r.loc, roll),
{
    let loc = loc_in_room(room);
    let roll = rng::d100();
    create_item_with(loc, roll)
}

/// A freshly created monster or item, as some d100 roll makes it.
pub open spec fn is_spawn(o: Object) -> bool {
    (exists|roll: int| 1 <= roll <= 100 && #[trigger] is_species(o, o.loc, roll))
        || (exists|roll: int| 1 <= roll <= 100 && #[trigger] is_loot(o, o.loc, roll))
}

/// No blocking object from index `from` on shares its cell with an earlier
/// blocking object.
pub open spec fn placed_apart(objs: Seq<Object>, from: int) -> bool {
    forall|i: int, j: int|
        0 <= i < j < objs.len() && j >= from && (#[trigger] objs[i]).blocks && (#[trigger] objs[j]).blocks
            ==> objs[i].loc != objs[j].loc
}

/// Placing one monster: it goes in, at the end, unless a blocking object
/// already stands on its cell.
pub open spec fn monster_step(mid: Seq<Object>, end: Seq<Object>, loc: Location, roll: i32) -> bool {
    if occupied(mid, loc) {
        end == mid
    } else {
        end.len() == mid.len() + 1 && end.drop_last() == mid && is_species(end.last(), loc, roll as int)
    }
}

/// The monsters for the positions `locs` and d100 rolls `rolls`, placed one
/// after the other from `start` to `end`.
pub open spec fn monsters_placed(start: Seq<Object>, end: Seq<Object>, locs: Seq<Location>, rolls: Seq<i32>) -> bool
    decreases locs.len(),
{
    if locs.len() == 0 {
        end == start
    } else {
        exists|mid: Seq<Object>|
            monsters_placed(start, mid, locs.drop_last(), rolls.drop_last()) && #[trigger] monster_step(mid, end, locs.last(), rolls.last())
    }
}

/// The items for the positions `locs` and d100 rolls `rolls`, all added in order.
pub open spec fn items_placed(start: Seq<Object>, end: Seq<Object>, locs: Seq<Location>, rolls: Seq<i32>) -> bool {
    &&& end.len() == start.len() + locs.len()
    &&& end.subrange(0, start.len() as int) == start
    &&& forall|k: int| 0 <= k < locs.len() ==> is_loot(#[trigger] end[start.len() + k], locs[k], rolls[k] as int)
}

proof fn lemma_monsters_step(start: Seq<Object>, mid: Seq<Object>, end: Seq<Object>, locs: Seq<Location>, rolls: Seq<i32>)
    requires
        locs.len() > 0,
        monsters_placed(start, mid, locs.drop_last(), rolls.drop_last()),
        monster_step(mid, end, locs.last(), rolls.last()),
    ensures
        monsters_placed(start, end, locs, rolls),
{
}

/// Places the monsters and then the items for the given positions and d100
/// rolls: each monster unless its cell is already blocked, every item.
pub fn place_objects_with(
    room: Rect,
    objects: &mut Vec<Object>,
    monster_locs: &Vec<Location>,
    monster_rolls: &Vec<i32>,
    item_locs: &Vec<Location>,
    item_rolls: &Vec<i32>,
)
    requires
        monster_rolls@.len() == monster_locs@.len(),
        item_rolls@.len() == item_locs@.len(),
        forall|k: int| 0 <= k < monster_locs@.len() ==> in_interior(room, (#[trigger] monster_locs@[k]).0 as int, monster_locs@[k].1 as int),
        forall|k: int| 0 <= k < item_locs@.len() ==> in_interior(room, (#[trigger] item_locs@[k]).0 as int, item_locs@[k].1 as int),
        forall|k: int| 0 <= k < monster_rolls@.len() ==> 1 <= #[trigger] monster_rolls@[k] <= 100,
        forall|k: int| 0 <= k < item_rolls@.len() ==> 1 <= #[trigger] item_rolls@[k] <= 100,
    ensures
        exists|mid: Seq<Object>|
            monsters_placed(old(objects)@, mid, monster_locs@, monster_rolls@) && #[trigger] items_placed(mid, final(objects)@, item_locs@, item_rolls@),
        final(objects)@.len() >= old(objects)@.len(),
        final(objects)@.len() <= old(objects)@.len() + monster_locs@.len() + item_locs@.len(),
        forall|i: int| 0 <= i < old(objects)@.len() ==> (#[trigger] final(objects)@[i]) == old(objects)@[i],
        forall|i: int| old(objects)@.len() <= i < final(objects)@.len() ==> in_interior(
            room,
            (#[trigger] final(objects)@[i]).loc.0 as int,
            final(objects)@[i].loc.1 as int,
        ) && is_spawn(final(objects)@[i]),
        placed_apart(final(objects)@, old(objects)@.len() as int),
{
    let mut k: usize = 0;
    proof {
        assert(monster_locs@.take(0) =~= Seq::<Location>::empty());
    }
    while k < monster_locs.len()
        invariant
            monster_rolls@.len() == monster_locs@.len(),
            0 <= k <= monster_locs@.len(),
            forall|j: int| 0 <= j < monster_locs@.len() ==> in_interior(room, (#[trigger] monster_locs@[j]).0 as int, monster_locs@[j].1 as int),
            forall|j: int| 0 <= j < monster_rolls@.len() ==> 1 <= #[trigger] monster_rolls@[j] <= 100,
            monsters_placed(old(objects)@, objects@, monster_locs@.take(k as int), monster_rolls@.take(k as int)),
            old(objects)@.len() <= objects@.len() <= old(objects)@.len() + k,
            forall|i: int| 0 <= i < old(objects)@.len() ==> (#[trigger] objects@[i]) == old(objects)@[i],
            forall|i: int| old(objects)@.len() <= i < objects@.len() ==> in_interior(
                room,
                (#[trigger] objects@[i]).loc.0 as int,
                objects@[i].loc.1 as int,
            ) && is_spawn(objects@[i]),
            placed_apart(objects@, old(objects)@.len() as int),
        decreases monster_locs@.len() - k,
    {
        let loc = monster_locs[k];
        let roll = monster_rolls[k];
        let monster = create_monster_with(loc, roll);
        let ghost before = objects@;
        proof {
            assert(1 <= monster_rolls@[k as int] <= 100);
            assert(in_interior(room, monster_locs@[k as int].0 as int, monster_locs@[k as int].1 as int));
        }
        if !object_blocks(&loc, objects.as_slice()) {
            objects.push(monster);
            proof {
                assert(objects@.drop_last() =~= before);
                assert(is_species(objects@[before.len() as int], objects@[before.len() as int].loc, roll as int));
                assert forall|i: int, j: int|
                    0 <= i < j < objects@.len() && j >= old(objects)@.len() && (#[trigger] objects@[i]).blocks && (#[trigger] objects@[j]).blocks
                        implies objects@[i].loc != objects@[j].loc by {
                    if j == before.len() {
                        assert(objects@[i] == before[i]);
                    }
                }
            }
        }
        proof {
            let ls = monster_locs@.take(k as int + 1);
            let rs = monster_rolls@.take(k as int + 1);
            assert(ls.drop_last() =~= monster_locs@.take(k as int));
            assert(rs.drop_last() =~= monster_rolls@.take(k as int));
            assert(monster_step(before, objects@, ls.last(), rs.last()));
            lemma_monsters_step(old(objects)@, before, objects@, ls, rs);
        }
        k = k + 1;
    }
    proof {
        assert(monster_locs@.take(monster_locs@.len() as int) =~= monster_locs@);
        assert(monster_rolls@.take(monster_rolls@.len() as int) =~= monster_rolls@);
    }
    let ghost mid = objects@;
    let mut k: usize = 0;
    proof {
        assert(objects@.subrange(0, mid.len() as int) =~= mid);
    }
    while k < item_locs.len()
        invariant
            item_rolls@.len() == item_locs@.len(),
            0 <= k <= item_locs@.len(),
            forall|j: int| 0 <= j < item_locs@.len() ==> in_interior(room, (#[trigger] item_locs@[j]).0 as int, item_locs@[j].1 as int),
            forall|j: int| 0 <= j < item_rolls@.len() ==> 1 <= #[trigger] item_rolls@[j] <= 100,
            mid.len() >= old(objects)@.len(),
            mid.len() <= old(objects)@.len() + monster_locs@.len(),
            objects@.len() == mid.len() + k,
            objects@.subrange(0, mid.len() as int) == mid,
            forall|j: int| 0 <= j < k ==> is_loot(#[trigger] objects@[mid.len() + j], item_locs@[j], item_rolls@[j] as int),
            forall|i: int| 0 <= i < old(objects)@.len() ==> (#[trigger] objects@[i]) == old(objects)@[i],
            forall|i: int| old(objects)@.len() <= i < objects@.len() ==> in_interior(
                room,
                (#[trigger] objects@[i]).loc.0 as int,
                objects@[i].loc.1 as int,
            ) && is_spawn(objects@[i]),
            placed_apart(objects@, old(objects)@.len() as int),
        decreases item_locs@.len() - k,
    {
        let loc = item_locs[k];
        let roll = item_rolls[k];
        let item = create_item_with(loc, roll);
        let ghost before = objects@;
        proof {
            assert(1 <= item_rolls@[k as int] <= 100);
            assert(in_interior(room, item_locs@[k as int].0 as int, item_locs@[k as int].1 as int));
        }
        objects.push(item);
        proof {
            assert(objects@[before.len() as int] == item);
            assert(!objects@[before.len() as int].blocks);
            assert(is_loot(objects@[before.len() as int], objects@[before.len() as int].loc, roll as int));
            assert(objects@.subrange(0, mid.len() as int) =~= before.subrange(0, mid.len() as int));
            assert forall|j: int| 0 <= j < k + 1 implies is_loot(#[trigger] objects@[mid.len() + j], item_locs@[j], item_rolls@[j] as int) by {
                if j < k {
                    assert(objects@[mid.len() + j] == before[mid.len() + j]);
                }
            }
            assert forall|i: int, j: int|
                0 <= i < j < objects@.len() && j >= old(objects)@.len() && (#[trigger] objects@[i]).blocks && (#[trigger] objects@[j]).blocks
                    implies objects@[i].loc != objects@[j].loc by {
                assert(objects@[i] == before[i]);
                assert(objects@[j] == before[j]);
            }
        }
        k = k + 1;
    }
    proof {
        assert(items_placed(mid, objects@, item_locs@, item_rolls@));
    }
}

/// How many monsters and items were drawn for the room, where, and with
/// which rolls, and what placing them made of the objects.
pub open spec fn placement(
    room: Rect,
    o: Seq<Object>,
    mid: Seq<Object>,
    n: Seq<Object>,
    monster_locs: Seq<Location>,
    monster_rolls: Seq<i32>,
    item_locs: Seq<Location>,
    item_rolls: Seq<i32>,
    max_room_monsters: int,
    max_room_items: int,
) -> bool {
    &&& monster_locs.len() == monster_rolls.len() <= max_room_monsters
    &&& item_locs.len() == item_rolls.len() <= max_room_items
    &&& forall|k: int| 0 <= k < monster_locs.len() ==> in_interior(room, (#[trigger] monster_locs[k]).0 as int, monster_locs[k].1 as int)
        && 1 <= monster_rolls[k] <= 100
    &&& forall|k: int| 0 <= k < item_locs.len() ==> in_interior(room, (#[trigger] item_locs[k]).0 as int, item_locs[k].1 as int)
        && 1 <= item_rolls[k] <= 100
    &&& monsters_placed(o, mid, monster_locs, monster_rolls)
    &&& items_placed(mid, n, item_locs, item_rolls)
}

/// Place up to the given numbers of monsters and items in random positions
/// inside the room; a monster is left out where something already blocks.
pub fn place_objects(room: Rect, objects: &mut Vec<Object>, max_room_monsters: i32, max_room_items: i32)
    requires
        room.x1 + 2 <= room.x2,
        room.y1 + 2 <= room.y2,
        0 <= max_room_monsters < i32::MAX,
        0 <= max_room_items < i32::MAX,
    ensures
        exists|ml: Seq<Location>, mr: Seq<i32>, il: Seq<Location>, ir: Seq<i32>, mid: Seq<Object>|
            #[trigger] placement(
                room,
                old(objects)@,
                mid,
                final(objects)@,
                ml,
                mr,
                il,
                ir,
                max_room_monsters as int,
                max_room_items as int,
            ),
        final(objects)@.len() >= old(objects)@.len(),
        final(objects)@.len() <= old(objects)@.len() + max_room_monsters + max_room_items,
        forall|i: int| 0 <= i < old(objects)@.len() ==> (#[trigger] final(objects)@[i]) == old(objects)@[i],
        forall|i: int| old(objects)@.len() <= i < final(objects)@.len() ==> in_interior(
            room,
            (#[trigger] final(objects)@[i]).loc.0 as int,
            final(objects)@[i].loc.1 as int,
        ) && is_spawn(final(objects)@[i]),
        placed_apart(final(objects)@, old(objects)@.len() as int),
{
    let monsters = rng::within(0, max_room_monsters);
    let mut monster_locs: Vec<Location> = Vec::new();
    let mut monster_rolls: Vec<i32> = Vec::new();
    let mut k: i32 = 0;
    while k < monsters
        invariant
            0 <= k <= monsters <= max_room_monsters,
            room.x1 + 2 <= room.x2,
            room.y1 + 2 <= room.y2,
            monster_locs@.len() == k,
            monster_rolls@.len() == k,
            forall|j: int| 0 <= j < k ==> in_interior(room, (#[trigger] monster_locs@[j]).0 as int, monster_locs@[j].1 as int)
                && 1 <= monster_rolls@[j] <= 100,
        decreases monsters - k,
    {
        monster_locs.push(loc_in_room(room));
        monster_rolls.push(rng::d100());
        k = k + 1;
    }
    let items = rng::within(0, max_room_items);
    let mut item_locs: Vec<Location> = Vec::new();
    let mut item_rolls: Vec<i32> = Vec::new();
    let mut k: i32 = 0;
    while k < items
        invariant
            0 <= k <= items <= max_room_items,
            room.x1 + 2 <= room.x2,
            room.y1 + 2 <= room.y2,
            item_locs@.len() == k,
            item_rolls@.len() == k,
            forall|j: int| 0 <= j < k ==> in_interior(room, (#[trigger] item_locs@[j]).0 as int, item_locs@[j].1 as int)
                && 1 <= item_rolls@[j] <= 100,
        decreases items - k,
    {
        item_locs.push(loc_in_room(room));
        item_rolls.push(rng::d100());
        k = k + 1;
    }
    proof {
        assert forall|j: int| 0 <= j < monster_rolls@.len() implies 1 <= #[trigger] monster_rolls@[j] <= 100 by {
            assert(in_interior(room, monster_locs@[j].0 as int, monster_locs@[j].1 as int));
        }
        assert forall|j: int| 0 <= j < item_rolls@.len() implies 1 <= #[trigger] item_rolls@[j] <= 100 by {
            assert(in_interior(room, item_locs@[j].0 as int, item_locs@[j].1 as int));
        }
    }
    let ghost o = objects@;
    place_objects_with(room, objects, &monster_locs, &monster_rolls, &item_locs, &item_rolls);
    proof {
        let mid = choose|mid: Seq<Object>|
            monsters_placed(o, mid, monster_locs@, monster_rolls@) && #[trigger] items_placed(mid, objects@, item_locs@, item_rolls@);
        assert(placement(
            room,
            o,
            mid,
            objects@,
            monster_locs@,
            monster_rolls@,
            item_locs@,
            item_rolls@,
            max_room_monsters as int,
            max_room_items as int,
        ));
    }
}

// --------------------------------- Maps ------------------------------------

pub open spec fn between(v: int, a: int, b: int) -> bool {
    a <= v <= b || b <= v <= a
}

/// The cell lies on one of the two L-shaped paths from `a` to `b`.
pub open spec fn on_tunnel(a: (int, int), b: (int, int), x: int, y: int) -> bool {
    ((y == a.1 || y == b.1) && between(x, a.0, b.0)) || ((x == a.0 || x == b.0) && between(y, a.1, b.1))
}

/// The cell is inside a room, or on a tunnel between a room and the one before it.
pub open spec fn carved(rooms: Seq<Rect>, x: int, y: int) -> bool {
    exists|k: int| 0 <= k < rooms.len() && #[trigger] carved_by(rooms, k, x, y)
}

pub open spec fn carved_by(rooms: Seq<Rect>, k: int, x: int, y: int) -> bool {
    in_interior(rooms[k], x, y) || (k >= 1 && on_tunnel(center_of(rooms[k - 1]), center_of(rooms[k]), x, y))
}

/// The rooms lie on the map, are large enough to hold something, and no
/// two of them overlap or touch.
pub open spec fn rooms_ok(rooms: Seq<Rect>, w: int, h: int) -> bool {
    &&& forall|k: int| 0 <= k < rooms.len() ==> fits(#[trigger] rooms[k], w, h) && rooms[k].x1 + 2 <= rooms[k].x2
        && rooms[k].y1 + 2 <= rooms[k].y2
    &&& forall|k: int, l: int| 0 <= k < l < rooms.len() ==> !intersect(#[trigger] rooms[k], #[trigger] rooms[l])
}

/// One of the two L-shaped paths from `a` to `b` is carved floor.
pub open spec fn tunnel_carved(map: Seq<Vec<Tile>>, a: (int, int), b: (int, int)) -> bool {
    ||| (forall|x: int| between(x, a.0, b.0) ==> #[trigger] floor_at(map, x, a.1))
        && (forall|y: int| between(y, a.1, b.1) ==> #[trigger] floor_at(map, b.0, y))
    ||| (forall|y: int| between(y, a.1, b.1) ==> #[trigger] floor_at(map, a.0, y))
        && (forall|x: int| between(x, a.0, b.0) ==> #[trigger] floor_at(map, x, b.1))
}

/// Each room is joined to the one before it by a carved L-shaped tunnel
/// between their centres.
pub open spec fn tunnels_carved(map: Seq<Vec<Tile>>, rooms: Seq<Rect>) -> bool {
    forall|k: int| 1 <= k < rooms.len() ==> tunnel_carved(map, center_of(rooms[k - 1]), center_of(#[trigger] rooms[k]))
}

/// `m2` has the shape of `m1`; every cell is as in `m1`, or is floor where
/// `c` allows it.
pub open spec fn grown(m1: Seq<Vec<Tile>>, m2: Seq<Vec<Tile>>, c: spec_fn(int, int) -> bool) -> bool {
    &&& m2.len() == m1.len()
    &&& forall|x: int| 0 <= x < m1.len() ==> (#[trigger] m2[x])@.len() == m1[x]@.len()
    &&& forall|x: int, y: int| 0 <= x < m1.len() && 0 <= y < m1[x]@.len() ==> (#[trigger] m2[x]@[y]) == m1[x]@[y] || (c(x, y)
        && m2[x]@[y] == empty_tile())
}

proof fn lemma_grown_from_carved(m1: Seq<Vec<Tile>>, m2: Seq<Vec<Tile>>, c: spec_fn(int, int) -> bool, d: spec_fn(int, int) -> bool)
    requires
        carved_from(m1, m2, c),
        forall|x: int, y: int| #[trigger] c(x, y) ==> d(x, y),
    ensures
        grown(m1, m2, d),
{
}

proof fn lemma_grown_trans(
    m1: Seq<Vec<Tile>>,
    m2: Seq<Vec<Tile>>,
    m3: Seq<Vec<Tile>>,
    c: spec_fn(int, int) -> bool,
)
    requires
        grown(m1, m2, c),
        grown(m2, m3, c),
    ensures
        grown(m1, m3, c),
{
    assert forall|x: int, y: int| 0 <= x < m1.len() && 0 <= y < m1[x]@.len() implies (#[trigger] m3[x]@[y]) == m1[x]@[y] || (c(x, y)
        && m3[x]@[y] == empty_tile()) by {
        assert(m2[x]@.len() == m1[x]@.len());
        assert(m2[x]@[y] == m1[x]@[y] || (c(x, y) && m2[x]@[y] == empty_tile()));
    }
}

proof fn lemma_floor_kept_tunnel(m1: Seq<Vec<Tile>>, m2: Seq<Vec<Tile>>, c: spec_fn(int, int) -> bool, a: (int, int), b: (int, int))
    requires
        grown(m1, m2, c),
        tunnel_carved(m1, a, b),
    ensures
        tunnel_carved(m2, a, b),
{
    assert forall|x: int, y: int| #[trigger] floor_at(m1, x, y) implies floor_at(m2, x, y) by {
        assert(m2[x]@.len() == m1[x]@.len());
        assert(m2[x]@[y] == m1[x]@[y] || (c(x, y) && m2[x]@[y] == empty_tile()));
    }
    if (forall|x: int| between(x, a.0, b.0) ==> #[trigger] floor_at(m1, x, a.1)) && (forall|y: int|
        between(y, a.1, b.1) ==> #[trigger] floor_at(m1, b.0, y)) {
        assert forall|x: int| between(x, a.0, b.0) implies #[trigger] floor_at(m2, x, a.1) by {
            assert(floor_at(m1, x, a.1));
        }
        assert forall|y: int| between(y, a.1, b.1) implies #[trigger] floor_at(m2, b.0, y) by {
            assert(floor_at(m1, b.0, y));
        }
    } else {
        assert forall|y: int| between(y, a.1, b.1) implies #[trigger] floor_at(m2, a.0, y) by {
            assert(floor_at(m1, a.0, y));
        }
        assert forall|x: int| between(x, a.0, b.0) implies #[trigger] floor_at(m2, x, b.1) by {
            assert(floor_at(m1, x, b.1));
        }
    }
}

/// A map of `w` by `h` generated with the rooms `rooms` (in acceptance
/// order, at most `max_rooms`), and the objects of a new game on it: the
/// player first, in the centre of the first room, then the monsters and
/// items placed in the other rooms.
pub open spec fn generated(map: Seq<Vec<Tile>>, objects: Seq<Object>, rooms: Seq<Rect>, w: int, h: int, max_rooms: int) -> bool {
    &&& shaped(map, w, h)
    &&& rooms_ok(rooms, w, h)
    &&& rooms.len() == 0 || rooms.len() <= max_rooms
    &&& max_rooms >= 1 ==> rooms.len() >= 1
    &&& forall|k: int, x: int, y: int| 0 <= k < rooms.len() && #[trigger] in_interior(rooms[k], x, y) ==> map[x]@[y] == empty_tile()
    &&& tunnels_carved(map, rooms)
    &&& forall|x: int, y: int| 0 <= x < w && 0 <= y < h && !carved(rooms, x, y) ==> map[x]@[y] == wall_tile()
    &&& objects.len() >= 1
    &&& rooms.len() > 0 ==> objects[0].loc.0 == center_of(rooms[0]).0 && objects[0].loc.1 == center_of(rooms[0]).1
    &&& rooms.len() <= 1 ==> objects.len() == 1
    &&& forall|i: int| 1 <= i < objects.len() ==> is_spawn(#[trigger] objects[i]) && !in_rect(rooms[0], objects[i].loc.0 as int, objects[i].loc.1 as int)
        && exists|k: int| 1 <= k < rooms.len() && in_interior(#[trigger] rooms[k], objects[i].loc.0 as int, objects[i].loc.1 as int)
    &&& placed_apart(objects, 1)
}

/// The candidate `c` overlaps or touches one of `rooms`.
pub open spec fn clashes(rooms: Seq<Rect>, c: Rect) -> bool {
    exists|k: int| 0 <= k < rooms.len() && intersect(c, #[trigger] rooms[k])
}

/// The rooms made from the first `n` candidates: each candidate is accepted
/// unless it overlaps or touches a room accepted before it.
pub open spec fn accepted(cands: Seq<Rect>, n: int) -> Seq<Rect>
    decreases n,
{
    if n <= 0 {
        Seq::empty()
    } else {
        let prev = accepted(cands, n - 1);
        if clashes(prev, cands[n - 1]) {
            prev
        } else {
            prev.push(cands[n - 1])
        }
    }
}

/// The coin tosses of the accepted candidates among the first `n`.
pub open spec fn accepted_coins(cands: Seq<Rect>, coins: Seq<bool>, n: int) -> Seq<bool>
    decreases n,
{
    if n <= 0 {
        Seq::empty()
    } else {
        let prev = accepted_coins(cands, coins, n - 1);
        if clashes(accepted(cands, n - 1), cands[n - 1]) {
            prev
        } else {
            prev.push(coins[n - 1])
        }
    }
}

/// The cell lies on the tunnel from `a` to `b`: first along the row of `a`
/// then down the column of `b` when `across_first`, else first along the
/// column of `a` then the row of `b`.
pub open spec fn on_chosen(a: (int, int), b: (int, int), across_first: bool, x: int, y: int) -> bool {
    if across_first {
        (y == a.1 && between(x, a.0, b.0)) || (x == b.0 && between(y, a.1, b.1))
    } else {
        (x == a.0 && between(y, a.1, b.1)) || (y == b.1 && between(x, a.0, b.0))
    }
}

/// Room `k` carves the cell: its interior, or the tunnel to it from the room
/// before, in the shape its toss chose.
pub open spec fn dug_by(rooms: Seq<Rect>, tosses: Seq<bool>, k: int, x: int, y: int) -> bool {
    in_interior(rooms[k], x, y) || (k >= 1 && on_chosen(center_of(rooms[k - 1]), center_of(rooms[k]), tosses[k], x, y))
}

pub open spec fn dug(rooms: Seq<Rect>, tosses: Seq<bool>, x: int, y: int) -> bool {
    exists|k: int| 0 <= k < rooms.len() && #[trigger] dug_by(rooms, tosses, k, x, y)
}

/// Every cell of the `w` by `h` map is floor where the rooms and their
/// tunnels carve it, and wall elsewhere.
pub open spec fn dug_map(map: Seq<Vec<Tile>>, rooms: Seq<Rect>, tosses: Seq<bool>, w: int, h: int) -> bool {
    forall|x: int, y: int| 0 <= x < w && 0 <= y < h ==> (#[trigger] map[x]@[y]) == if dug(rooms, tosses, x, y) {
        empty_tile()
    } else {
        wall_tile()
    }
}

/// A candidate room: on the map and large enough to hold something.
pub open spec fn candidate_ok(c: Rect, w: int, h: int) -> bool {
    fits(c, w, h) && c.x1 + 2 <= c.x2 && c.y1 + 2 <= c.y2
}

/// The sampled candidates and tosses of a map: one of each per room
/// allowed, each candidate with sides between the given bounds.
pub open spec fn sampled(cands: Seq<Rect>, coins: Seq<bool>, sizes: Dimension, w: int, h: int, max_rooms: int) -> bool {
    &&& cands.len() == coins.len()
    &&& cands.len() == if max_rooms > 0 { max_rooms } else { 0 }
    &&& forall|k: int| 0 <= k < cands.len() ==> candidate_ok(#[trigger] cands[k], w, h) && sizes.0 <= cands[k].x2
        - cands[k].x1 <= sizes.1 && sizes.0 <= cands[k].y2 - cands[k].y1 <= sizes.1
}

proof fn lemma_carved_trans(
    m0: Seq<Vec<Tile>>,
    m1: Seq<Vec<Tile>>,
    m2: Seq<Vec<Tile>>,
    c1: spec_fn(int, int) -> bool,
    c2: spec_fn(int, int) -> bool,
)
    requires
        carved_from(m0, m1, c1),
        carved_from(m1, m2, c2),
    ensures
        carved_from(m0, m2, |x: int, y: int| c1(x, y) || c2(x, y)),
{
    assert forall|x: int, y: int| 0 <= x < m0.len() && 0 <= y < m0[x]@.len() implies (#[trigger] m2[x]@[y]) == if c1(x, y) || c2(x, y) {
        empty_tile()
    } else {
        m0[x]@[y]
    } by {
        assert(m1[x]@.len() == m0[x]@.len());
    }
}

/// Lays out the map from the sampled candidates and tosses: the rooms
/// accepted in order, each carved, each joined to the previous one by the
/// tunnel its toss chose.
pub fn lay_out(width: i32, height: i32, cands: &Vec<Rect>, coins: &Vec<bool>) -> (r: (TileMap, Vec<Rect>))
    requires
        width > 0,
        height > 0,
        coins@.len() == cands@.len(),
        forall|k: int| 0 <= k < cands@.len() ==> candidate_ok(#[trigger] cands@[k], width as int, height as int),
    ensures
        ({
            let (map, rooms) = r;
            let w = width as int;
            let h = height as int;
            &&& shaped(map@, w, h)
            &&& rooms@ == accepted(cands@, cands@.len() as int)
            &&& dug_map(map@, rooms@, accepted_coins(cands@, coins@, cands@.len() as int), w, h)
            &&& rooms_ok(rooms@, w, h)
            &&& rooms@.len() <= cands@.len()
            &&& cands@.len() >= 1 ==> rooms@.len() >= 1
            &&& forall|k: int, x: int, y: int| 0 <= k < rooms@.len() && #[trigger] in_interior(rooms@[k], x, y) ==> map@[x]@[y] == empty_tile()
            &&& tunnels_carved(map@, rooms@)
            &&& forall|x: int, y: int| 0 <= x < w && 0 <= y < h && !carved(rooms@, x, y) ==> map@[x]@[y] == wall_tile()
        }),
{
    let mut map: TileMap = Vec::new();
    let mut x: i32 = 0;
    while x < width
        invariant
            height > 0,
            0 <= x <= width,
            map@.len() == x,
            forall|i: int| 0 <= i < x ==> (#[trigger] map@[i])@.len() == height,
            forall|i: int, j: int| 0 <= i < x && 0 <= j < height ==> (#[trigger] map@[i]@[j]) == wall_tile(),
        decreases width - x,
    {
        let mut column: Vec<Tile> = Vec::new();
        let mut y: i32 = 0;
        while y < height
            invariant
                height > 0,
                0 <= y <= height,
                column@.len() == y,
                forall|j: int| 0 <= j < y ==> (#[trigger] column@[j]) == wall_tile(),
            decreases height - y,
        {
            column.push(Tile::wall());
            y = y + 1;
        }
        map.push(column);
        x = x + 1;
    }
    let mut rooms: Vec<Rect> = Vec::new();
    let ghost mut tosses: Seq<bool> = Seq::empty();
    let n = cands.len();
    let mut t: usize = 0;
    while t < n
        invariant
            width > 0,
            height > 0,
            n == cands@.len(),
            coins@.len() == n,
            forall|k: int| 0 <= k < n ==> candidate_ok(#[trigger] cands@[k], width as int, height as int),
            0 <= t <= n,
            rooms@ == accepted(cands@, t as int),
            tosses == accepted_coins(cands@, coins@, t as int),
            tosses.len() == rooms@.len(),
            shaped(map@, width as int, height as int),
            rooms_ok(rooms@, width as int, height as int),
            rooms@.len() <= t,
            t >= 1 ==> rooms@.len() >= 1,
            dug_map(map@, rooms@, tosses, width as int, height as int),
            forall|k: int, x: int, y: int| 0 <= k < rooms@.len() && #[trigger] in_interior(rooms@[k], x, y) ==> map@[x]@[y] == empty_tile(),
            tunnels_carved(map@, rooms@),
            forall|x: int, y: int| 0 <= x < width && 0 <= y < height && !carved(rooms@, x, y) ==> map@[x]@[y] == wall_tile(),
        decreases n - t,
    {
        let room = cands[t];
        let across_first = coins[t];
        proof {
            assert(candidate_ok(cands@[t as int], width as int, height as int));
        }
        let mut intersects = false;
        let mut k: usize = 0;
        while k < rooms.len()
            invariant
                0 <= k <= rooms@.len(),
                intersects <==> exists|l: int| 0 <= l < k && intersect(room, #[trigger] rooms@[l]),
            decreases rooms@.len() - k,
        {
            if room.intersects_with(&rooms[k]) {
                intersects = true;
            }
            proof {
                if intersects {
                    let l = choose|l: int| 0 <= l < k + 1 && intersect(room, #[trigger] rooms@[l]);
                    assert(0 <= l < k + 1 && intersect(room, rooms@[l]));
                }
            }
            k = k + 1;
        }
        proof {
            assert(intersects == clashes(rooms@, room));
            assert(accepted(cands@, t as int + 1) == if clashes(rooms@, room) { rooms@ } else { rooms@.push(room) });
            assert(accepted_coins(cands@, coins@, t as int + 1) == if clashes(rooms@, room) { tosses } else { tosses.push(across_first) });
        }
        if !intersects {
            let ghost m0 = map@;
            let ghost i0 = rooms@;
            let ghost t0 = tosses;
            let ghost nr = i0.push(room);
            let ghost nt = t0.push(across_first);
            let ghost c = |x: int, y: int| carved_by(nr, i0.len() as int, x, y);
            let ghost d = |x: int, y: int| dug_by(nr, nt, i0.len() as int, x, y);
            create_room(room, &mut map);
            let ghost m1 = map@;
            proof {
                lemma_grown_from_carved(m0, m1, |x: int, y: int| in_interior(room, x, y), c);
                assert(nr[i0.len() as int] == room);
            }
            let (new_x, new_y) = room.center();
            if rooms.len() == 0 {
                proof {
                    assert(carved_from(m0, map@, d));
                }
            } else {
                let (prev_x, prev_y) = rooms[rooms.len() - 1].center();
                let ghost a = (prev_x as int, prev_y as int);
                let ghost b = (new_x as int, new_y as int);
                proof {
                    let pr = i0[i0.len() - 1];
                    assert(nr[i0.len() - 1] == pr);
                    assert(a == center_of(pr) && b == center_of(room));
                    assert(fits(pr, width as int, height as int) && pr.x1 + 2 <= pr.x2 && pr.y1 + 2 <= pr.y2);
                }
                if across_first {
                    create_h_tunnel(prev_x, new_x, prev_y, &mut map);
                    let ghost m2 = map@;
                    create_v_tunnel(prev_y, new_y, new_x, &mut map);
                    proof {
                        let c1 = |x: int, y: int| in_interior(room, x, y);
                        let c2 = |x: int, j: int| j == prev_y && between(x, prev_x as int, new_x as int);
                        let c3 = |i: int, j: int| i == new_x && between(j, prev_y as int, new_y as int);
                        lemma_grown_from_carved(m1, m2, c2, c);
                        lemma_grown_from_carved(m2, map@, c3, c);
                        lemma_grown_trans(m1, m2, map@, c);
                        lemma_grown_trans(m0, m1, map@, c);
                        lemma_carved_trans(m0, m1, m2, c1, c2);
                        lemma_carved_trans(m0, m2, map@, |x: int, y: int| c1(x, y) || c2(x, y), c3);
                        assert forall|x: int| between(x, a.0, b.0) implies #[trigger] floor_at(map@, x, a.1) by {
                            assert(m2[x]@[a.1] == empty_tile());
                        }
                        assert(tunnel_carved(map@, a, b));
                        assert(carved_from(m0, map@, d));
                    }
                } else {
                    create_v_tunnel(prev_y, new_y, prev_x, &mut map);
                    let ghost m2 = map@;
                    create_h_tunnel(prev_x, new_x, new_y, &mut map);
                    proof {
                        let c1 = |x: int, y: int| in_interior(room, x, y);
                        let c2 = |i: int, j: int| i == prev_x && between(j, prev_y as int, new_y as int);
                        let c3 = |x: int, j: int| j == new_y && between(x, prev_x as int, new_x as int);
                        lemma_grown_from_carved(m1, m2, c2, c);
                        lemma_grown_from_carved(m2, map@, c3, c);
                        lemma_grown_trans(m1, m2, map@, c);
                        lemma_grown_trans(m0, m1, map@, c);
                        lemma_carved_trans(m0, m1, m2, c1, c2);
                        lemma_carved_trans(m0, m2, map@, |x: int, y: int| c1(x, y) || c2(x, y), c3);
                        assert forall|y: int| between(y, a.1, b.1) implies #[trigger] floor_at(map@, a.0, y) by {
                            assert(m2[a.0]@[y] == empty_tile());
                        }
                        assert(tunnel_carved(map@, a, b));
                        assert(carved_from(m0, map@, d));
                    }
                }
            }
            rooms.push(room);
            proof {
                tosses = nt;
                assert(rooms@ == nr);
                assert(grown(m0, map@, c));
                assert forall|x: int, y: int| 0 <= x < width && 0 <= y < height implies (#[trigger] map@[x]@[y]) == if dug(nr, nt, x, y) {
                    empty_tile()
                } else {
                    wall_tile()
                } by {
                    assert(m0[x]@[y] == if dug(i0, t0, x, y) { empty_tile() } else { wall_tile() });
                    if dug(i0, t0, x, y) {
                        let k = choose|k: int| 0 <= k < i0.len() && #[trigger] dug_by(i0, t0, k, x, y);
                        assert(nr[k] == i0[k] && nt[k] == t0[k]);
                        if k >= 1 {
                            assert(nr[k - 1] == i0[k - 1]);
                        }
                        assert(dug_by(nr, nt, k, x, y));
                    }
                    if dug(nr, nt, x, y) {
                        let k = choose|k: int| 0 <= k < nr.len() && #[trigger] dug_by(nr, nt, k, x, y);
                        if k < i0.len() {
                            assert(nr[k] == i0[k] && nt[k] == t0[k]);
                            if k >= 1 {
                                assert(nr[k - 1] == i0[k - 1]);
                            }
                            assert(dug_by(i0, t0, k, x, y));
                        }
                    }
                    if d(x, y) {
                        assert(dug_by(nr, nt, i0.len() as int, x, y));
                    }
                }
                assert forall|k: int, x: int, y: int| 0 <= k < rooms@.len() && #[trigger] in_interior(rooms@[k], x, y) implies map@[x]@[y] == empty_tile() by {
                    if k < i0.len() {
                        assert(i0[k] == rooms@[k]);
                        assert(m0[x]@[y] == empty_tile());
                    }
                    assert(map@[x]@[y] == m0[x]@[y] || map@[x]@[y] == empty_tile());
                }
                assert forall|k: int| 1 <= k < rooms@.len() implies tunnel_carved(map@, center_of(rooms@[k - 1]), center_of(#[trigger] rooms@[k])) by {
                    if k < i0.len() {
                        assert(i0[k] == rooms@[k] && i0[k - 1] == rooms@[k - 1]);
                        assert(tunnel_carved(m0, center_of(i0[k - 1]), center_of(i0[k])));
                        lemma_floor_kept_tunnel(m0, map@, c, center_of(i0[k - 1]), center_of(i0[k]));
                    }
                }
                assert forall|x: int, y: int| 0 <= x < width && 0 <= y < height && !carved(rooms@, x, y) implies map@[x]@[y] == wall_tile() by {
                    if carved(i0, x, y) {
                        let k = choose|k: int| 0 <= k < i0.len() && #[trigger] carved_by(i0, k, x, y);
                        assert(carved_by(rooms@, k, x, y));
                    }
                    assert(!carved_by(rooms@, i0.len() as int, x, y));
                    assert(m0[x]@[y] == wall_tile());
                }
                assert forall|k: int, l: int| 0 <= k < l < rooms@.len() implies !intersect(#[trigger] rooms@[k], #[trigger] rooms@[l]) by {
                    if l == i0.len() {
                        assert(!intersect(room, i0[k]));
                    }
                }
            }
        }
        t = t + 1;
    }
    (map, rooms)
}

/// What generating a map guarantees: objects `o` before and `n` after, the
/// map `map` of `w` by `h` and the accepted `rooms`. Rooms lie on the map
/// and never overlap or touch; their interiors are floor; consecutive rooms
/// are joined by an L-shaped tunnel; every cell carved by neither is wall.
/// The player moves to the centre of the first room; new monsters and items
/// stand inside later rooms, never in the first, and no two blocking
/// objects placed share a cell. With at most one room, nothing is added
/// and exactly that room's interior is open.
pub open spec fn layout(map: Seq<Vec<Tile>>, rooms: Seq<Rect>, o: Seq<Object>, n: Seq<Object>, w: int, h: int, max_rooms: int) -> bool {
    &&& shaped(map, w, h)
    &&& rooms_ok(rooms, w, h)
    &&& rooms.len() == 0 || rooms.len() <= max_rooms
    &&& max_rooms >= 1 ==> rooms.len() >= 1
    &&& forall|k: int, x: int, y: int| 0 <= k < rooms.len() && #[trigger] in_interior(rooms[k], x, y) ==> map[x]@[y] == empty_tile()
    &&& tunnels_carved(map, rooms)
    &&& forall|x: int, y: int| 0 <= x < w && 0 <= y < h && !carved(rooms, x, y) ==> map[x]@[y] == wall_tile()
    &&& forall|x: int, y: int| 0 <= x < w && 0 <= y < h && open_at(map, x, y) ==> carved(rooms, x, y)
    &&& n.len() >= o.len()
    &&& forall|i: int| 1 <= i < o.len() ==> n[i] == o[i]
    &&& rooms.len() == 0 ==> n == o
    &&& rooms.len() > 0 ==> n[0] == (Object { loc: n[0].loc, ..o[0] }) && n[0].loc.0 == center_of(rooms[0]).0 && n[0].loc.1 == center_of(rooms[0]).1
    &&& forall|i: int| o.len() <= i < n.len() ==> !in_rect(rooms[0], (#[trigger] n[i]).loc.0 as int, n[i].loc.1 as int)
        && exists|k: int| 1 <= k < rooms.len() && in_interior(#[trigger] rooms[k], n[i].loc.0 as int, n[i].loc.1 as int)
    &&& forall|i: int| o.len() <= i < n.len() ==> is_spawn(#[trigger] n[i])
    &&& placed_apart(n, o.len() as int)
    &&& rooms.len() <= 1 ==> n.len() == o.len() && forall|x: int, y: int| 0 <= x < w && 0 <= y < h ==> (open_at(map, x, y) <==> (rooms.len() == 1 && in_interior(rooms[0], x, y)))
}

/// Generate a map: candidate rooms sampled at random, accepted unless they
/// overlap or touch an earlier room, each joined to the previous one by an
/// L-shaped tunnel whose shape a coin decides (see `lay_out`); the player is
/// put in the centre of the first room, and monsters and items in the
/// others. Returns the map and the rooms in the order they were accepted.
pub fn make_map_rooms(
    objects: &mut Vec<Object>,
    map_dimension: Dimension,
    room_dimensions: Dimension,
    max_rooms: i32,
    max_room_monsters: i32,
    max_room_items: i32,
) -> (r: (TileMap, Vec<Rect>))
    requires
        old(objects)@.len() >= 1,
        2 <= room_dimensions.0 <= room_dimensions.1,
        room_dimensions.1 < map_dimension.0,
        room_dimensions.1 < map_dimension.1,
        0 <= max_room_monsters < i32::MAX,
        0 <= max_room_items < i32::MAX,
    ensures
        layout(r.0@, r.1@, old(objects)@, final(objects)@, map_dimension.0 as int, map_dimension.1 as int, max_rooms as int),
        exists|cands: Seq<Rect>, coins: Seq<bool>|
            #[trigger] sampled(cands, coins, room_dimensions, map_dimension.0 as int, map_dimension.1 as int, max_rooms as int)
                && r.1@ == accepted(cands, cands.len() as int) && dug_map(
                r.0@,
                r.1@,
                accepted_coins(cands, coins, cands.len() as int),
                map_dimension.0 as int,
                map_dimension.1 as int,
            ),
{
    let Dimension(width, height) = map_dimension;
    let Dimension(min_room_size, max_room_size) = room_dimensions;
    let mut cands: Vec<Rect> = Vec::new();
    let mut coins: Vec<bool> = Vec::new();
    let mut t: i32 = 0;
    while t < max_rooms
        invariant
            2 <= min_room_size <= max_room_size < width,
            max_room_size < height,
            0 <= t,
            t <= max_rooms || t == 0,
            cands@.len() == t,
            coins@.len() == t,
            forall|k: int| 0 <= k < cands@.len() ==> candidate_ok(#[trigger] cands@[k], width as int, height as int)
                && min_room_size <= cands@[k].x2 - cands@[k].x1 <= max_room_size && min_room_size <= cands@[k].y2 - cands@[k].y1
                <= max_room_size,
        decreases max_rooms - t,
    {
        let w = rng::within(min_room_size, max_room_size);
        let h = rng::within(min_room_size, max_room_size);
        let x = rng::within(0, width - w - 1);
        let y = rng::within(0, height - h - 1);
        cands.push(Rect::new(x, y, w, h));
        coins.push(rng::coin());
        t = t + 1;
    }
    proof {
        assert(sampled(cands@, coins@, room_dimensions, width as int, height as int, max_rooms as int));
    }
    let (map, rooms) = lay_out(width, height, &cands, &coins);
    let ghost o = objects@;
    let ghost w = width as int;
    let ghost h = height as int;
    if rooms.len() > 0 {
        let (cx, cy) = rooms[0].center();
        objects[PLAYER].loc = Location(cx, cy);
    }
    proof {
        if rooms@.len() <= 1 {
            assert forall|x: int, y: int| 0 <= x < w && 0 <= y < h implies (open_at(map@, x, y) <==> (rooms@.len() == 1 && in_interior(rooms@[0], x, y))) by {
                if open_at(map@, x, y) {
                    assert(!carved(rooms@, x, y) ==> map@[x]@[y] == wall_tile());
                    let k = choose|k: int| 0 <= k < rooms@.len() && #[trigger] carved_by(rooms@, k, x, y);
                }
                if rooms@.len() == 1 && in_interior(rooms@[0], x, y) {
                    assert(map@[x]@[y] == empty_tile());
                }
            }
        }
        assert forall|x: int, y: int| 0 <= x < w && 0 <= y < h && open_at(map@, x, y) implies carved(rooms@, x, y) by {
            if !carved(rooms@, x, y) {
                assert(map@[x]@[y] == wall_tile());
            }
        }
    }
    let mut k: usize = 1;
    while k < rooms.len()
        invariant
            1 <= k,
            rooms@.len() >= 1 ==> k <= rooms@.len(),
            rooms_ok(rooms@, w, h),
            0 <= max_room_monsters < i32::MAX,
            0 <= max_room_items < i32::MAX,
            o == old(objects)@,
            o.len() >= 1,
            objects@.len() >= o.len(),
            forall|i: int| 1 <= i < o.len() ==> objects@[i] == o[i],
            rooms@.len() == 0 ==> objects@ == o,
            rooms@.len() > 0 ==> objects@[0] == (Object { loc: objects@[0].loc, ..o[0] }) && objects@[0].loc.0 == center_of(rooms@[0]).0
                && objects@[0].loc.1 == center_of(rooms@[0]).1,
            k == 1 ==> objects@.len() == o.len(),
            forall|i: int| o.len() <= i < objects@.len() ==> !in_rect(rooms@[0], (#[trigger] objects@[i]).loc.0 as int, objects@[i].loc.1 as int)
                && exists|j: int| 1 <= j < k && in_interior(#[trigger] rooms@[j], objects@[i].loc.0 as int, objects@[i].loc.1 as int),
            forall|i: int| o.len() <= i < objects@.len() ==> is_spawn(#[trigger] objects@[i]),
            placed_apart(objects@, o.len() as int),
        decreases rooms@.len() - k,
    {
        let room = rooms[k];
        let ghost before = objects@;
        proof {
            assert(fits(rooms@[k as int], w, h) && rooms@[k as int].x1 + 2 <= rooms@[k as int].x2 && rooms@[k as int].y1 + 2 <= rooms@[k as int].y2);
            assert(!intersect(rooms@[0], rooms@[k as int]));
        }
        place_objects(room, objects, max_room_monsters, max_room_items);
        proof {
            assert forall|i: int| o.len() <= i < objects@.len() implies !in_rect(rooms@[0], (#[trigger] objects@[i]).loc.0 as int, objects@[i].loc.1 as int)
                && exists|j: int| 1 <= j < k + 1 && in_interior(#[trigger] rooms@[j], objects@[i].loc.0 as int, objects@[i].loc.1 as int) by {
                if i >= before.len() {
                    assert(in_interior(rooms@[k as int], objects@[i].loc.0 as int, objects@[i].loc.1 as int));
                } else {
                    assert(objects@[i] == before[i]);
                    let j = choose|j: int| 1 <= j < k && in_interior(#[trigger] rooms@[j], before[i].loc.0 as int, before[i].loc.1 as int);
                    assert(in_interior(rooms@[j], objects@[i].loc.0 as int, objects@[i].loc.1 as int));
                }
            }
            assert forall|i: int| o.len() <= i < objects@.len() implies is_spawn(#[trigger] objects@[i]) by {
                if i < before.len() {
                    assert(objects@[i] == before[i]);
                }
            }
            assert forall|i: int, j: int|
                0 <= i < j < objects@.len() && j >= o.len() && (#[trigger] objects@[i]).blocks && (#[trigger] objects@[j]).blocks
                    implies objects@[i].loc != objects@[j].loc by {
                if j < before.len() {
                    assert(objects@[i] == before[i] && objects@[j] == before[j]);
                }
            }
        }
        k = k + 1;
    }
    (map, rooms)
}

/// Generate a map; see `make_map_rooms` and `layout`, which this states for
/// some sequence of accepted rooms.
pub fn make_map(
    objects: &mut Vec<Object>,
    map_dimension: Dimension,
    room_dimensions: Dimension,
    max_rooms: i32,
    max_room_monsters: i32,
    max_room_items: i32,
) -> (r: TileMap)
    requires
        old(objects)@.len() >= 1,
        2 <= room_dimensions.0 <= room_dimensions.1,
        room_dimensions.1 < map_dimension.0,
        room_dimensions.1 < map_dimension.1,
        0 <= max_room_monsters < i32::MAX,
        0 <= max_room_items < i32::MAX,
    ensures
        exists|rooms: Seq<Rect>|
            #[trigger] layout(r@, rooms, old(objects)@, final(objects)@, map_dimension.0 as int, map_dimension.1 as int, max_rooms as int),
{
    let (map, rooms) = make_map_rooms(objects, map_dimension, room_dimensions, max_rooms, max_room_monsters, max_room_items);
    map
}

} // verus!
