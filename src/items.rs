use vstd::prelude::*;
use vstd::string::StringExecFns;

use crate::ai::Ai;
use crate::colors::Color;
use crate::game::{
    clamp_i32, min, with_health, Inventory, Item, Object, CONFUSE_NUM_TURNS, CONFUSE_RANGE, HEAL_AMOUNT,
    LIGHTNING_DAMAGE, LIGHTNING_RANGE,
};
use crate::messages::{direct, direct_text, say, Messages};
use crate::targeting::{closest, closest_fighter};

verus! {

// --------------------------- Items and abilities ---------------------------

/// Whether a used item is consumed.
#[derive(Debug, Clone, Copy, PartialEq, Eq, Structural)]
pub enum UseResult {
    UsedUp,
    Cancelled,
}

/// A healing potion drunk by `id`: `o` before, `n` after, whether it was
/// used up, and the log.
pub open spec fn heal_outcome(o: Seq<Object>, n: Seq<Object>, id: int, used: bool, log: Seq<(Seq<char>, Color)>) -> bool {
    match o[id].fighter {
        None => !used && n == o && log == seq![("Only fighters can drink!"@, Color::White)],
        Some(f) => if f.health == f.max_health {
            !used && n == o && log == seq![("Already at full health!"@, Color::White)]
        } else {
            used && log == seq![("Healed!"@, Color::White)] && n == o.update(
                id,
                with_health(o[id], f, min(f.health + HEAL_AMOUNT, f.max_health as int) as i32),
            )
        },
    }
}

/// A lightning bolt cast by `id`: the closest fighter in range takes the damage.
pub open spec fn lightning_outcome(o: Seq<Object>, n: Seq<Object>, id: int, used: bool, log: Seq<(Seq<char>, Color)>) -> bool {
    match closest(o, id, LIGHTNING_RANGE as int) {
        None => !used && n == o && log == seq![("There are no targets in range."@, Color::White)],
        Some(t) => {
            let f = o[t as int].fighter->Some_0;
            used && n == o.update(t as int, with_health(o[t as int], f, clamp_i32(f.health - LIGHTNING_DAMAGE) as i32))
                && log == seq![("You zap "@ + direct_text(o[t as int].name@, false) + " "@, Color::White)]
        },
    }
}

/// A confusion scroll read by `id`: the closest fighter in range is confused
/// if it has an AI; one without (the player) is not affected, and the
/// scroll is kept.
pub open spec fn confusion_outcome(o: Seq<Object>, n: Seq<Object>, id: int, used: bool, log: Seq<(Seq<char>, Color)>) -> bool {
    match closest(o, id, CONFUSE_RANGE as int) {
        Some(t) if o[t as int].ai is Some => {
            let m = o[t as int];
            used && n == o.update(
                t as int,
                Object { ai: Some(Ai::Confused { previous: Box::new(m.ai->Some_0), num_turns: CONFUSE_NUM_TURNS }), ..m },
            ) && log == seq![(direct_text(m.name@, true) + " looks confused."@, Color::White)]
        },
        Some(t) => !used && n == o && log == seq![(direct_text(o[t as int].name@, true) + " is not affected."@, Color::White)],
        None => !used && n == o && log == seq![("There are no targets in range."@, Color::White)],
    }
}

/// A healing potion: nothing happens at full health.
pub fn cast_heal(id: usize, objects: &mut Vec<Object>) -> (r: (UseResult, Messages))
    requires
        id < old(objects)@.len(),
    ensures
        heal_outcome(old(objects)@, final(objects)@, id as int, r.0 == UseResult::UsedUp, r.1@),
{
    let ghost o = objects@;
    if let Some(f) = objects[id].fighter.as_mut() {
        if f.health == f.max_health {
            proof {
                assert(objects@ =~= o);
            }
            (UseResult::Cancelled, say("Already at full health!"))
        } else {
            f.heal(HEAL_AMOUNT);
            proof {
                assert(objects@ =~= o.update(
                    id as int,
                    with_health(o[id as int], o[id as int].fighter->Some_0, min(o[id as int].fighter->Some_0.health + HEAL_AMOUNT, o[id as int].fighter->Some_0.max_health as int) as i32),
                ));
            }
            (UseResult::UsedUp, say("Healed!"))
        }
    } else {
        proof {
            assert(objects@ =~= o);
        }
        (UseResult::Cancelled, say("Only fighters can drink!"))
    }
}

/// A lightning bolt: strikes the closest fighter in range.
pub fn cast_lightning(id: usize, objects: &mut Vec<Object>) -> (r: (UseResult, Messages))
    requires
        id < old(objects)@.len(),
    ensures
        final(objects)@.len() == old(objects)@.len(),
        lightning_outcome(old(objects)@, final(objects)@, id as int, r.0 == UseResult::UsedUp, r.1@),
{
    match closest_fighter(id, objects.as_slice(), LIGHTNING_RANGE) {
        Some(t) => {
            let ghost o = objects@;
            if let Some(f) = objects[t].fighter.as_mut() {
                f.take_damage(LIGHTNING_DAMAGE);
            }
            proof {
                let f = o[t as int].fighter->Some_0;
                assert(objects@ =~= o.update(t as int, with_health(o[t as int], f, clamp_i32(f.health - LIGHTNING_DAMAGE) as i32)));
            }
            let mut m = String::from_str("You zap ");
            let d = direct(objects[t].name.as_str(), false);
            m.append(d.as_str());
            m.append(" ");
            (UseResult::UsedUp, Messages::new(m, Color::White))
        },
        None => (UseResult::Cancelled, say("There are no targets in range.")),
    }
}

/// A confusion scroll: the closest monster in range stays confused for a while.
pub fn cast_confusion(id: usize, objects: &mut Vec<Object>) -> (r: (UseResult, Messages))
    requires
        id < old(objects)@.len(),
    ensures
        final(objects)@.len() == old(objects)@.len(),
        confusion_outcome(old(objects)@, final(objects)@, id as int, r.0 == UseResult::UsedUp, r.1@),
{
    match closest_fighter(id, objects.as_slice(), CONFUSE_RANGE) {
        Some(t) => {
            let ghost o = objects@;
            let ai = objects[t].ai.take();
            match ai {
                Some(a) => {
                    objects[t].ai = Some(Ai::Confused { previous: Box::new(a), num_turns: CONFUSE_NUM_TURNS });
                    proof {
                        assert(objects@ =~= o.update(
                            t as int,
                            Object {
                                ai: Some(Ai::Confused { previous: Box::new(o[t as int].ai->Some_0), num_turns: CONFUSE_NUM_TURNS }),
                                ..o[t as int]
                            },
                        ));
                    }
                    let mut m = direct(objects[t].name.as_str(), true);
                    m.append(" looks confused.");
                    (UseResult::UsedUp, Messages::new(m, Color::White))
                },
                None => {
                    proof {
                        assert(objects@ =~= o);
                    }
                    let mut m = direct(objects[t].name.as_str(), true);
                    m.append(" is not affected.");
                    (UseResult::Cancelled, Messages::new(m, Color::White))
                },
            }
        },
        None => (UseResult::Cancelled, say("There are no targets in range.")),
    }
}

/// Uses the item in the given inventory slot; a consumed item leaves the inventory.
pub fn use_item(id: usize, item_id: usize, objects: &mut Vec<Object>, inventory: &mut Inventory) -> (r: Messages)
    requires
        id < old(objects)@.len(),
        item_id < old(inventory)@.len(),
    ensures
        final(objects)@.len() == old(objects)@.len(),
        ({
            let used = final(inventory)@.len() < old(inventory)@.len();
            &&& final(inventory)@ == if used {
                old(inventory)@.remove(item_id as int)
            } else {
                old(inventory)@
            }
            &&& match old(inventory)@[item_id as int].item {
                None => final(objects)@ == old(objects)@ && r@.len() == 0,
                Some(Item::Heal) => heal_outcome(old(objects)@, final(objects)@, id as int, used, r@),
                Some(Item::Lightning) => lightning_outcome(old(objects)@, final(objects)@, id as int, used, r@),
                Some(Item::Confusion) => confusion_outcome(old(objects)@, final(objects)@, id as int, used, r@),
            }
        }),
{
    let result = match inventory[item_id].item {
        Some(Item::Heal) => Some(cast_heal(id, objects)),
        Some(Item::Lightning) => Some(cast_lightning(id, objects)),
        Some(Item::Confusion) => Some(cast_confusion(id, objects)),
        None => None,
    };
    match result {
        Some((UseResult::UsedUp, messages)) => {
            inventory.remove(item_id);
            messages
        },
        Some((UseResult::Cancelled, messages)) => messages,
        None => Messages::empty(),
    }
}

} // verus!
