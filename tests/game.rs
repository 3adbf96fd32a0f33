use rustlike::game::random_fighter;
use rustlike::ai::{self, Ai};
use rustlike::colors::Color;
use rustlike::dungeon::{create_item_with, create_monster_with, lay_out, make_map, make_map_rooms, place_objects_with, Rect};
use rustlike::game::{
    attack_with, cast_heal, cast_lightning, cast_confusion, closest_fighter, direct, direction,
    fighters_by_distance, grab, indirect, move_object_with, move_or_attack, object_blocks, pickup_item,
    regenerate_with, structure_blocks, use_item, Action, DeathCallback, Game, Item, Messages, Object,
    Tile, TileMap, UseResult,
};
use rustlike::geometry::{Dimension, Direction, Location};

fn open_map(w: usize, h: usize) -> TileMap {
    let mut map = vec![vec![Tile::empty(); h]; w];
    for x in 0..w {
        map[x][0] = Tile::wall();
        map[x][h - 1] = Tile::wall();
    }
    for y in 0..h {
        map[0][y] = Tile::wall();
        map[w - 1][y] = Tile::wall();
    }
    map
}

fn texts(m: &Messages) -> Vec<String> {
    m.iter().iter().map(|(t, _)| t.clone()).collect()
}

fn game_with(objects: Vec<Object>) -> Game {
    Game {
        map: open_map(10, 10),
        objects,
        turn: 0,
        turns: vec![],
        messages: Messages::empty(),
        inventory: vec![],
        fov: vec![],
        map_dimensions: Dimension(10, 10),
        player_turn: vec![],
        pending: None,
    }
}

fn all_visible(w: usize, h: usize) -> Vec<Vec<bool>> {
    vec![vec![true; h]; w]
}

#[test]
fn articles() {
    assert_eq!(indirect("orc", false), "an orc");
    assert_eq!(indirect("troll", true), "A troll");
    assert_eq!(indirect("ogre", true), "An ogre");
    assert_eq!(indirect("", false), "a ");
    assert_eq!(direct("orc", true), "The orc");
    assert_eq!(direct("orc", false), "the orc");
}

#[test]
fn messages_keep_order() {
    let mut m = Messages::new(String::from("one"), Color::White);
    m.add(String::from("two"), Color::Red);
    let mut other = Messages::empty();
    other.add(String::from("three"), Color::Green);
    m.append(other);
    assert_eq!(texts(&m), vec!["one", "two", "three"]);
    assert_eq!(m.len(), 3);
    assert_eq!(m.iter()[1].1, Color::Red);
}

#[test]
fn tiles_and_builders() {
    assert!(Tile::wall().blocked && Tile::wall().block_sight);
    assert!(!Tile::empty().blocked && !Tile::empty().block_sight);
    let p = Object::player(Location(1, 2), "Ann");
    assert_eq!(p.name, "Ann");
    assert_eq!(p.fighter.unwrap().max_health, 30);
    assert_eq!(p.fighter.unwrap().on_death, DeathCallback::Player);
    let o = Object::orc(Location(3, 3));
    assert_eq!(o.fighter.unwrap().power, 3);
    assert!(matches!(o.ai, Some(Ai::Basic)));
    assert_eq!(o.noise.as_ref().unwrap().bark, "shout");
    let s = Object::scroll(Location(0, 0), Item::Confusion, "scroll of confusion");
    assert_eq!(s.item, Some(Item::Confusion));
    assert_eq!(s.char, '?');
    assert_eq!(Object::new().name, "it");
}

#[test]
fn species_thresholds() {
    let at = Location(2, 2);
    assert_eq!(create_monster_with(at, 1).name, "orc");
    assert_eq!(create_monster_with(at, 49).name, "orc");
    assert_eq!(create_monster_with(at, 50).name, "troll");
    assert_eq!(create_monster_with(at, 79).name, "troll");
    assert_eq!(create_monster_with(at, 80).name, "ogre");
    assert_eq!(create_monster_with(at, 100).name, "ogre");
    assert_eq!(create_item_with(at, 49).item, Some(Item::Heal));
    assert_eq!(create_item_with(at, 49).name, "healing potion");
    assert_eq!(create_item_with(at, 50).item, Some(Item::Lightning));
    assert_eq!(create_item_with(at, 50).name, "lightning bolt");
}

#[test]
fn move_or_attack_chooses() {
    let map = open_map(6, 6);
    let mut blocker = Object::new();
    blocker.loc = Location(1, 2);
    blocker.blocks = true;
    let objects = vec![Object::player(Location(1, 1), "p"), Object::orc(Location(2, 1)), blocker];
    let (a, m) = move_or_attack(0, Direction(1, 0), &map, &objects);
    assert_eq!(a, Some(Action::Attack(0, 1)));
    assert_eq!(m.len(), 0);
    let (a, m) = move_or_attack(0, Direction(0, 1), &map, &objects);
    assert_eq!(a, None);
    assert_eq!(texts(&m), vec!["Cannot attack that."]);
    let (a, m) = move_or_attack(0, Direction(-1, 0), &map, &objects);
    assert_eq!(a, None);
    assert_eq!(texts(&m), vec!["It's blocked."]);
    let (a, m) = move_or_attack(0, Direction(1, 1), &map, &objects);
    assert_eq!(a, Some(Action::Move(0, Direction(1, 1))));
    assert_eq!(m.len(), 0);
}

#[test]
fn moves_slide_along_walls() {
    let map = open_map(6, 6);
    let mut objects = vec![Object::player(Location(1, 1), "p")];
    let m = move_object_with(0, Direction(1, -1), &map, &mut objects, 50);
    assert_eq!(m.len(), 0);
    assert_eq!(objects[0].loc, Location(2, 1));
    let m = move_object_with(0, Direction(0, -1), &map, &mut objects, 50);
    assert_eq!(texts(&m), vec!["The way is blocked!"]);
    assert_eq!(objects[0].loc, Location(2, 1));
    let mut slow = vec![Object::orc(Location(2, 2))];
    let m = move_object_with(0, Direction(1, 0), &map, &mut slow, 91);
    assert_eq!(m.len(), 0);
    assert_eq!(slow[0].loc, Location(2, 2));
    assert!(structure_blocks(&Location(0, 0), &map));
    assert!(structure_blocks(&Location(-1, 3), &map));
    assert!(!structure_blocks(&Location(3, 3), &map));
    assert!(object_blocks(&Location(2, 2), &slow));
    assert_eq!(direction(&Location(5, 5), &Location(1, 9)), Direction(-1, 1));
    assert_eq!(direction(&Location(5, 5), &Location(5, 5)), Direction(0, 0));
}

#[test]
fn attack_damage_is_attack_minus_defence() {
    let mut objects = vec![Object::player(Location(1, 1), "p"), Object::orc(Location(2, 1))];
    let m = attack_with(0, 1, &mut objects, 5, 2);
    assert_eq!(objects[1].fighter.unwrap().health, 7);
    assert_eq!(texts(&m), vec!["You attack the orc for 3 damage!"]);
    let m = attack_with(0, 1, &mut objects, 2, 2);
    assert_eq!(objects[1].fighter.unwrap().health, 7);
    assert_eq!(texts(&m), vec!["You attack the orc but do no damage."]);
    let m = attack_with(0, 1, &mut objects, 1, 6);
    assert_eq!(objects[1].fighter.unwrap().health, 7);
    assert_eq!(m.len(), 1);
    let m = attack_with(1, 0, &mut objects, 3, 1);
    assert_eq!(objects[0].fighter.unwrap().health, 28);
    assert_eq!(texts(&m), vec!["The orc attacks you for 2 damage!"]);
    let m = attack_with(1, 0, &mut objects, 0, 1);
    assert_eq!(texts(&m), vec!["The orc attacks you but does no damage."]);
    let mut with_item = vec![Object::player(Location(1, 1), "p"), Object::potion(Location(2, 1), Item::Heal, "potion")];
    let m = attack_with(0, 1, &mut with_item, 5, 0);
    assert_eq!(texts(&m), vec!["Cannot attack that!"]);
}

#[test]
fn heal_cancels_at_full_health() {
    let mut objects = vec![Object::player(Location(1, 1), "p")];
    let (r, m) = cast_heal(0, &mut objects);
    assert_eq!(r, UseResult::Cancelled);
    assert_eq!(texts(&m), vec!["Already at full health!"]);
    assert_eq!(objects[0].fighter.unwrap().health, 30);
    objects[0].fighter.as_mut().unwrap().health = 15;
    let (r, m) = cast_heal(0, &mut objects);
    assert_eq!(r, UseResult::UsedUp);
    assert_eq!(texts(&m), vec!["Healed!"]);
    assert_eq!(objects[0].fighter.unwrap().health, 25);
    let (r, _) = cast_heal(0, &mut objects);
    assert_eq!(r, UseResult::UsedUp);
    assert_eq!(objects[0].fighter.unwrap().health, 30);
    let mut items = vec![Object::potion(Location(1, 1), Item::Heal, "potion")];
    let (r, m) = cast_heal(0, &mut items);
    assert_eq!(r, UseResult::Cancelled);
    assert_eq!(texts(&m), vec!["Only fighters can drink!"]);
}

#[test]
fn targets_by_distance() {
    let objects = vec![
        Object::player(Location(5, 5), "p"),
        Object::orc(Location(8, 5)),
        Object::troll(Location(6, 5)),
        Object::ogre(Location(5, 6)),
        Object::potion(Location(5, 5), Item::Heal, "potion"),
        Object::orc(Location(30, 30)),
    ];
    assert_eq!(fighters_by_distance(0, &objects, 10), vec![1, 2, 3]);
    assert_eq!(closest_fighter(0, &objects, 10), Some(3));
    assert_eq!(closest_fighter(0, &objects, 0), None);
    assert_eq!(fighters_by_distance(0, &objects, -1), Vec::<usize>::new());
}

#[test]
fn lightning_and_confusion() {
    let mut objects = vec![Object::player(Location(5, 5), "p"), Object::troll(Location(7, 5))];
    let (r, m) = cast_lightning(0, &mut objects);
    assert_eq!(r, UseResult::UsedUp);
    assert_eq!(texts(&m), vec!["You zap the troll "]);
    assert_eq!(objects[1].fighter.unwrap().health, 6);
    let (r, m) = cast_confusion(0, &mut objects);
    assert_eq!(r, UseResult::UsedUp);
    assert_eq!(texts(&m), vec!["The troll looks confused."]);
    assert!(matches!(objects[1].ai, Some(Ai::Confused { num_turns: 5, .. })));
    let mut alone = vec![Object::player(Location(5, 5), "p"), Object::troll(Location(9, 5))];
    let (r, m) = cast_lightning(0, &mut alone);
    assert_eq!(r, UseResult::Cancelled);
    assert_eq!(texts(&m), vec!["There are no targets in range."]);
    assert_eq!(alone[1].fighter.unwrap().health, 16);
}

#[test]
fn pickup_and_use() {
    let mut objects = vec![
        Object::player(Location(2, 2), "p"),
        Object::potion(Location(2, 2), Item::Heal, "healing potion"),
        Object::orc(Location(4, 4)),
    ];
    let (a, m) = grab(0, &objects);
    assert_eq!(a, Some(Action::PickUp(0, 1)));
    assert_eq!(m.len(), 0);
    let mut inventory = vec![];
    let m = pickup_item(0, 1, &mut objects, &mut inventory);
    assert_eq!(texts(&m), vec!["You pick up a healing potion."]);
    assert_eq!(inventory.len(), 1);
    assert_eq!(objects.len(), 2);
    assert_eq!(objects[1].name, "orc");
    let (a, m) = grab(0, &objects);
    assert_eq!(a, None);
    assert_eq!(texts(&m), vec!["There is nothing here to pick up."]);
    let m = use_item(0, 0, &mut objects, &mut inventory);
    assert_eq!(texts(&m), vec!["Already at full health!"]);
    assert_eq!(inventory.len(), 1);
    objects[0].fighter.as_mut().unwrap().health = 3;
    let m = use_item(0, 0, &mut objects, &mut inventory);
    assert_eq!(texts(&m), vec!["Healed!"]);
    assert_eq!(inventory.len(), 0);
    assert_eq!(objects[0].fighter.unwrap().health, 13);
}

#[test]
fn inventory_full() {
    let mut objects = vec![Object::player(Location(2, 2), "p"), Object::potion(Location(2, 2), Item::Heal, "potion")];
    let mut inventory: Vec<Object> = (0..26).map(|_| Object::potion(Location(0, 0), Item::Heal, "potion")).collect();
    let m = pickup_item(0, 1, &mut objects, &mut inventory);
    assert_eq!(texts(&m), vec!["Inventory full"]);
    assert_eq!(objects.len(), 2);
    assert_eq!(inventory.len(), 26);
}

#[test]
fn regeneration() {
    let mut o = Object::orc(Location(1, 1));
    o.fighter.as_mut().unwrap().health = 5;
    regenerate_with(&mut o, 10);
    assert_eq!(o.fighter.unwrap().health, 6);
    regenerate_with(&mut o, 11);
    assert_eq!(o.fighter.unwrap().health, 6);
    o.fighter.as_mut().unwrap().health_regen = 300;
    regenerate_with(&mut o, 100);
    assert_eq!(o.fighter.unwrap().health, 9);
    regenerate_with(&mut o, 100);
    assert_eq!(o.fighter.unwrap().health, 10);
}

#[test]
fn seen_message_comes_once() {
    let mut game = game_with(vec![Object::player(Location(2, 2), "p"), Object::orc(Location(4, 4))]);
    game.refresh(all_visible(10, 10));
    assert_eq!(texts(&game.messages), vec!["You see an orc"]);
    assert!(game.objects[1].seen && game.objects[1].visible);
    game.refresh(all_visible(10, 10));
    game.refresh(vec![]);
    assert!(!game.objects[1].visible && game.objects[1].seen);
    game.refresh(all_visible(10, 10));
    assert_eq!(texts(&game.messages), vec!["You see an orc"]);
    assert!(game.map[3][3].explored && game.map[3][3].visible);
}

#[test]
fn death_is_handled_once() {
    let mut game = game_with(vec![Object::player(Location(2, 2), "p"), Object::orc(Location(4, 4))]);
    game.objects[1].fighter.as_mut().unwrap().health = 0;
    game.refresh(vec![]);
    game.refresh(vec![]);
    game.refresh(vec![]);
    assert_eq!(texts(&game.messages), vec!["The orc dies."]);
    assert!(!game.objects[1].alive);
    assert_eq!(game.objects[1].name, "Remains of orc");
    assert!(game.objects[1].fighter.is_none() && !game.objects[1].blocks);
    game.objects[0].fighter.as_mut().unwrap().health = -2;
    game.refresh(vec![]);
    game.refresh(vec![]);
    assert_eq!(texts(&game.messages), vec!["The orc dies.", "You die!"]);
    assert!(!game.objects[0].alive);
}

#[test]
fn confused_for_two_ticks_then_back() {
    let mut game = game_with(vec![Object::player(Location(2, 2), "p"), Object::orc(Location(6, 2))]);
    game.fov = all_visible(10, 10);
    let ai = Ai::Confused { previous: Box::new(Ai::Basic), num_turns: 2 };
    let (t1, ai) = ai::turn_with(1, ai, &game, 12);
    assert!(t1.is_empty());
    assert!(matches!(ai, Ai::Confused { num_turns: 1, .. }));
    let (t2, ai) = ai::turn_with(1, ai, &game, 12);
    assert!(t2.is_empty());
    assert!(matches!(ai, Ai::Basic));
    let (t3, ai) = ai::turn_with(1, ai, &game, 12);
    assert_eq!(t3, vec![Action::Bark(1), Action::Move(1, Direction(-1, 0))]);
    assert!(matches!(ai, Ai::Basic));
}

#[test]
fn basic_ai_hunts_and_attacks() {
    let mut game = game_with(vec![Object::player(Location(2, 2), "p"), Object::orc(Location(6, 2)), Object::orc(Location(3, 3))]);
    game.fov = all_visible(10, 10);
    let (t, ai) = ai::turn_with(1, Ai::Basic, &game, 12);
    assert_eq!(t, vec![Action::Bark(1), Action::Move(1, Direction(-1, 0))]);
    assert!(matches!(ai, Ai::Basic));
    let (t, _) = ai::turn_with(2, Ai::Basic, &game, 1);
    assert_eq!(t, vec![Action::Attack(2, 0)]);
    let (t, ai) = ai::turn_with(2, Ai::Idle, &game, 1000);
    assert!(t.is_empty());
    assert!(matches!(ai, Ai::Basic));
    game.fov = vec![];
    let (t, ai) = ai::turn_with(1, Ai::Basic, &game, 12);
    assert!(t.is_empty());
    assert!(matches!(ai, Ai::Idle));
    let (t, _) = ai::turn_with(1, Ai::Idle, &game, 1000);
    assert_eq!(t, vec![Action::Mumble(1)]);
}

#[test]
fn a_tick_resolves_in_order() {
    let mut game = game_with(vec![Object::player(Location(2, 2), "p"), Object::orc(Location(3, 2))]);
    game.objects[1].fighter.as_mut().unwrap().power = 0;
    game.update(Action::Wait(0));
    assert_eq!(game.pending, Some(Action::Wait(0)));
    game.react(all_visible(10, 10));
    assert_eq!(game.turn, 1);
    assert_eq!(game.turns.len(), 1);
    assert_eq!(game.turns[0].0, vec![Action::Wait(0)]);
    assert_eq!(game.turns[0].1, vec![Action::Attack(1, 0)]);
    assert!(game.player_turn.is_empty());
    assert_eq!(texts(&game.messages), vec!["You see an orc", "The orc attacks you but does no damage."]);
    game.update(Action::Nothing);
    game.react(all_visible(10, 10));
    assert_eq!(game.turn, 1);
    assert_eq!(game.player_turn, vec![Action::Nothing]);
}

#[test]
fn one_room_map_has_no_tunnels() {
    let mut objects = vec![Object::player(Location(0, 0), "p")];
    let (map, rooms) = make_map_rooms(&mut objects, Dimension(30, 20), Dimension(6, 10), 1, 3, 2);
    assert_eq!(rooms.len(), 1);
    assert_eq!(objects.len(), 1);
    let Rect { x1, y1, x2, y2 } = rooms[0];
    assert_eq!(objects[0].loc, Location((x1 + x2) / 2, (y1 + y2) / 2));
    for x in 0..30 {
        for y in 0..20 {
            let inside = x1 < x && x < x2 && y1 < y && y < y2;
            assert_eq!(!map[x as usize][y as usize].blocked, inside);
        }
    }
}

#[test]
fn generated_rooms_do_not_overlap() {
    for _ in 0..20 {
        let mut objects = vec![Object::player(Location(0, 0), "p")];
        let (map, rooms) = make_map_rooms(&mut objects, Dimension(80, 43), Dimension(6, 10), 30, 3, 2);
        assert!(!rooms.is_empty());
        for (k, a) in rooms.iter().enumerate() {
            for b in rooms.iter().skip(k + 1) {
                assert!(!a.intersects_with(b));
            }
            for x in a.x1 + 1..a.x2 {
                for y in a.y1 + 1..a.y2 {
                    assert!(!map[x as usize][y as usize].blocked);
                }
            }
        }
        let first = rooms[0];
        assert_eq!(objects[0].loc, Location(first.center().0, first.center().1));
        for o in objects.iter().skip(1) {
            let Location(x, y) = o.loc;
            assert!(!(first.x1 <= x && x <= first.x2 && first.y1 <= y && y <= first.y2));
        }
        let map2 = make_map(&mut vec![Object::player(Location(0, 0), "q")], Dimension(80, 43), Dimension(6, 10), 30, 3, 2);
        assert_eq!(map2.len(), 80);
    }
}

#[test]
fn new_game_starts() {
    let mut game = Game::new("Ann", Dimension(40, 30), Dimension(6, 10), 10, 2, 1);
    assert_eq!(game.objects[0].name, "Ann");
    assert_eq!(game.turn, 0);
    game.start(vec![]);
    assert_eq!(texts(&game.messages), vec!["You've stumbled into some very rusty caves. Prepare yourself."]);
    assert!(game.visible(&game.objects[0].loc) == false);
}

#[test]
fn random_fighter_stays_in_range() {
    let objects = vec![
        Object::player(Location(5, 5), "p"),
        Object::orc(Location(8, 5)),
        Object::potion(Location(6, 5), Item::Heal, "potion"),
        Object::troll(Location(7, 7)),
        Object::ogre(Location(9, 9)),
    ];
    for _ in 0..50 {
        let t = random_fighter(0, &objects, 3).unwrap();
        assert!(t == 1 || t == 3);
    }
    assert_eq!(random_fighter(0, &objects, 1), None);
    assert_eq!(random_fighter(0, &objects, -1), None);
}

#[test]
fn generated_objects_stand_on_open_tiles() {
    let mut objects = vec![Object::player(Location(0, 0), "p")];
    let map = make_map(&mut objects, Dimension(80, 43), Dimension(6, 10), 30, 3, 2);
    for o in &objects {
        assert!(!map[o.loc.0 as usize][o.loc.1 as usize].blocked);
    }
    assert_eq!(objects[0].name, "p");
}

#[test]
fn one_room_game_holds_only_the_player() {
    let game = Game::new("Ann", Dimension(30, 20), Dimension(6, 10), 1, 3, 2);
    assert_eq!(game.objects.len(), 1);
    let Location(x, y) = game.objects[0].loc;
    assert!(!game.map[x as usize][y as usize].blocked);
    assert!(!game.map[x as usize][y as usize].block_sight);
    assert_eq!(game.turn, 0);
    assert!(game.turns.is_empty() && game.inventory.is_empty());
}

#[test]
fn confusion_leaves_a_target_without_ai_alone() {
    let mut objects = vec![Object::player(Location(5, 5), "p"), Object::orc(Location(6, 5))];
    let (r, m) = cast_confusion(1, &mut objects);
    assert_eq!(r, UseResult::Cancelled);
    assert_eq!(texts(&m), vec!["The p is not affected."]);
    assert!(objects[0].ai.is_none());
}

#[test]
fn attacker_without_fighter_does_no_damage() {
    let mut objects = vec![Object::player(Location(1, 1), "p"), Object::new()];
    let m = attack_with(1, 0, &mut objects, 0, 0);
    assert_eq!(texts(&m), vec!["The it attacks you but does no damage."]);
    assert_eq!(objects[0].fighter.unwrap().health, 30);
}

#[test]
fn tunnels_join_consecutive_rooms() {
    for _ in 0..10 {
        let mut objects = vec![Object::player(Location(0, 0), "p")];
        let (map, rooms) = make_map_rooms(&mut objects, Dimension(80, 43), Dimension(6, 10), 30, 3, 2);
        for k in 1..rooms.len() {
            let (px, py) = rooms[k - 1].center();
            let (nx, ny) = rooms[k].center();
            let open = |x: i32, y: i32| !map[x as usize][y as usize].blocked;
            let (lx, hx) = (px.min(nx), px.max(nx));
            let (ly, hy) = (py.min(ny), py.max(ny));
            let hv = (lx..=hx).all(|x| open(x, py)) && (ly..=hy).all(|y| open(nx, y));
            let vh = (ly..=hy).all(|y| open(px, y)) && (lx..=hx).all(|x| open(x, ny));
            assert!(hv || vh);
        }
        for i in 0..objects.len() {
            for j in i + 1..objects.len() {
                if objects[i].blocks && objects[j].blocks {
                    assert_ne!(objects[i].loc, objects[j].loc);
                }
            }
        }
    }
}

#[test]
fn lay_out_accepts_rooms_that_do_not_touch() {
    let cands = vec![
        Rect { x1: 1, y1: 1, x2: 7, y2: 7 },
        Rect { x1: 7, y1: 2, x2: 12, y2: 6 },
        Rect { x1: 12, y1: 10, x2: 18, y2: 15 },
    ];
    let coins = vec![true, true, false];
    let (map, rooms) = lay_out(20, 16, &cands, &coins);
    assert_eq!(rooms, vec![cands[0], cands[2]]);
    // (4, 4) to (15, 12), first down column 4 then along row 12.
    for y in 4..=12 {
        assert!(!map[4][y].blocked);
    }
    for x in 4..=15 {
        assert!(!map[x][12].blocked);
    }
    assert!(map[15][4].blocked);
    assert_eq!(map[9][3].blocked, true);
    assert!(!map[2][2].blocked && !map[2][2].block_sight);
    assert!(map[1][1].blocked);
}

#[test]
fn place_objects_skips_blocked_cells() {
    let room = Rect { x1: 0, y1: 0, x2: 6, y2: 6 };
    let mut objects = vec![Object::player(Location(2, 2), "p")];
    let monster_locs = vec![Location(2, 2), Location(3, 3), Location(3, 3), Location(4, 4)];
    let monster_rolls = vec![10, 60, 20, 90];
    let item_locs = vec![Location(3, 3), Location(1, 1)];
    let item_rolls = vec![49, 50];
    place_objects_with(room, &mut objects, &monster_locs, &monster_rolls, &item_locs, &item_rolls);
    let names: Vec<&str> = objects.iter().map(|o| o.name.as_str()).collect();
    assert_eq!(names, vec!["p", "troll", "ogre", "healing potion", "lightning bolt"]);
    assert_eq!(objects[1].loc, Location(3, 3));
    assert_eq!(objects[3].loc, Location(3, 3));
}

#[test]
fn damage_is_written_in_decimal() {
    let mut objects = vec![Object::player(Location(1, 1), "p"), Object::ogre(Location(2, 1))];
    let m = attack_with(0, 1, &mut objects, 125, 2);
    assert_eq!(texts(&m), vec!["You attack the ogre for 123 damage!"]);
    assert_eq!(objects[1].fighter.unwrap().health, 25 - 123);
}
