use vstd::prelude::*;

use crate::game::{self, dist2, lit, toward, Action, Game, Object, Turn, PLAYER};
use crate::geometry::{Direction, Location};
use crate::rng;

verus! {

/// How a monster behaves.
#[derive(Debug)]
pub enum Ai {
    /// Hunts the player while it can see them.
    Basic,
    /// Wanders about while it cannot.
    Idle,
    /// Does nothing for `num_turns` more ticks (at least one), then behaves
    /// as `previous`.
    Confused { previous: Box<Ai>, num_turns: i32 },
}

/// The player is alive and can still be hurt.
pub open spec fn player_alive(objects: Seq<Object>) -> bool {
    objects[PLAYER as int].fighter matches Some(f) && f.health > 0
}

/// The actions and the next state of an AI, from what it observes: whether
/// it is in view (if you can see it, it can see you), whether the player is
/// two or more cells away, whether the player is alive, the step toward the
/// player, and its roll (a d12 when hunting, a d1000 when idle).
pub open spec fn decide(
    id: usize,
    ai: Ai,
    sees: bool,
    far: bool,
    alive: bool,
    step: Direction,
    roll: int,
) -> (Seq<Action>, Ai) {
    match ai {
        Ai::Basic => if !sees {
            (Seq::empty(), Ai::Idle)
        } else if far {
            (
                (if roll > 11 {
                    seq![Action::Bark(id)]
                } else {
                    Seq::empty()
                }).push(Action::Move(id, step)),
                Ai::Basic,
            )
        } else if alive {
            (seq![Action::Attack(id, PLAYER)], Ai::Basic)
        } else {
            (Seq::empty(), Ai::Basic)
        },
        Ai::Idle => if sees {
            (Seq::empty(), Ai::Basic)
        } else if roll > 999 {
            (seq![Action::Mumble(id)], Ai::Idle)
        } else {
            (Seq::empty(), Ai::Idle)
        },
        Ai::Confused { previous, num_turns } => if num_turns > 1 {
            (Seq::empty(), Ai::Confused { previous, num_turns: (num_turns - 1) as i32 })
        } else {
            (Seq::empty(), *previous)
        },
    }
}

/// The decision of object `id` among `objects`, with `fov` what the player
/// sees, for the given roll.
pub open spec fn decide_at(objects: Seq<Object>, fov: Seq<Vec<bool>>, id: usize, ai: Ai, roll: int) -> (Seq<Action>, Ai) {
    let me = objects[id as int].loc;
    let player = objects[PLAYER as int].loc;
    decide(
        id,
        ai,
        lit(fov, me.0 as int, me.1 as int),
        dist2(me, player) >= 4,
        player_alive(objects),
        toward(me, player),
        roll,
    )
}

/// The decision of object `id` in this game, for the given roll.
pub open spec fn decide_in(id: usize, ai: Ai, game: &Game, roll: int) -> (Seq<Action>, Ai) {
    decide_at(game.objects@, game.fov@, id, ai, roll)
}

/// The actions of the objects from 1 to `k - 1` that have an AI, in index
/// order, each deciding with its roll in `rolls`.
pub open spec fn ai_batch(objects: Seq<Object>, fov: Seq<Vec<bool>>, rolls: Seq<int>, k: int) -> Seq<Action>
    decreases k,
{
    if k <= 1 {
        Seq::empty()
    } else {
        ai_batch(objects, fov, rolls, k - 1) + match objects[k - 1].ai {
            Some(ai) => decide_at(objects, fov, (k - 1) as usize, ai, rolls[k - 1]).0,
            None => Seq::empty(),
        }
    }
}

/// Whether two positions are two or more cells apart.
pub fn far_apart(a: &Location, b: &Location) -> (r: bool)
    ensures
        r == (dist2(*a, *b) >= 4),
{
    let dx: i128 = b.0 as i128 - a.0 as i128;
    let dy: i128 = b.1 as i128 - a.1 as i128;
    proof {
        assert(dx * dx <= 0x1_0000_0000_0000_0000) by (nonlinear_arith)
            requires
                -0x1_0000_0000 <= dx <= 0x1_0000_0000,
        ;
        assert(dy * dy <= 0x1_0000_0000_0000_0000) by (nonlinear_arith)
            requires
                -0x1_0000_0000 <= dy <= 0x1_0000_0000,
        ;
        assert(dx * dx >= 0 && dy * dy >= 0) by (nonlinear_arith);
    }
    dx * dx + dy * dy >= 4
}

/// An AI turn with its roll given.
pub fn turn_with(id: usize, ai: Ai, game: &Game, roll: i32) -> (r: (Turn, Ai))
    requires
        id < game.objects@.len(),
        game.wf(),
    ensures
        (r.0@, r.1) == decide_in(id, ai, game, roll as int),
{
    match ai {
        Ai::Basic => basic(id, game, roll),
        Ai::Idle => idle(id, game, roll),
        Ai::Confused { previous, num_turns } => confused(id, game, previous, num_turns),
    }
}

/// Calculate an AI turn.
pub fn turn(id: usize, ai: Ai, game: &Game) -> (r: (Turn, Ai))
    requires
        id < game.objects@.len(),
        game.wf(),
    ensures
        exists|roll: int| (r.0@, r.1) == #[trigger] decide_in(id, ai, game, roll),
{
    let roll = match ai {
        Ai::Basic => rng::d12(),
        Ai::Idle => rng::dx(1000),
        Ai::Confused { .. } => 0,
    };
    turn_with(id, ai, game, roll)
}

/// While confused: no action; the confusion wears off in the tick that
/// brings `num_turns` down to 0.
fn confused(id: usize, game: &Game, previous: Box<Ai>, num_turns: i32) -> (r: (Turn, Ai))
    ensures
        (r.0@, r.1) == decide(id, Ai::Confused { previous, num_turns }, false, false, false, Direction(0, 0), 0),
{
    let turn: Turn = Vec::new();
    let ai = if num_turns > 1 {
        Ai::Confused { previous, num_turns: num_turns - 1 }
    } else {
        *previous
    };
    proof {
        assert(turn@ =~= Seq::<Action>::empty());
    }
    (turn, ai)
}

/// When the monster is in view: close in and attack.
fn basic(id: usize, game: &Game, roll: i32) -> (r: (Turn, Ai))
    requires
        id < game.objects@.len(),
        game.wf(),
    ensures
        (r.0@, r.1) == decide_in(id, Ai::Basic, game, roll as int),
{
    let mut turn: Turn = Vec::new();
    let me = game.objects[id].loc;
    let player = game.objects[PLAYER].loc;
    if game.visible(&me) {
        if far_apart(&me, &player) {
            if roll > 11 {
                turn.push(Action::Bark(id));
            }
            let step = game::direction(&me, &player);
            turn.push(Action::Move(id, step));
            proof {
                if roll > 11 {
                    assert(turn@ =~= seq![Action::Bark(id)].push(Action::Move(id, step)));
                } else {
                    assert(turn@ =~= Seq::<Action>::empty().push(Action::Move(id, step)));
                }
            }
            (turn, Ai::Basic)
        } else {
            let alive = match game.objects[PLAYER].fighter {
                Some(f) => f.health > 0,
                None => false,
            };
            if alive {
                turn.push(Action::Attack(id, PLAYER));
                proof {
                    assert(turn@ =~= seq![Action::Attack(id, PLAYER)]);
                }
            } else {
                proof {
                    assert(turn@ =~= Seq::<Action>::empty());
                }
            }
            (turn, Ai::Basic)
        }
    } else {
        proof {
            assert(turn@ =~= Seq::<Action>::empty());
        }
        (turn, Ai::Idle)
    }
}

/// When the monster is out of view: now and then a mumble.
fn idle(id: usize, game: &Game, roll: i32) -> (r: (Turn, Ai))
    requires
        id < game.objects@.len(),
        game.wf(),
    ensures
        (r.0@, r.1) == decide_in(id, Ai::Idle, game, roll as int),
{
    let mut turn: Turn = Vec::new();
    let me = game.objects[id].loc;
    if game.visible(&me) {
        proof {
            assert(turn@ =~= Seq::<Action>::empty());
        }
        (turn, Ai::Basic)
    } else if roll > 999 {
        turn.push(Action::Mumble(id));
        proof {
            assert(turn@ =~= seq![Action::Mumble(id)]);
        }
        (turn, Ai::Idle)
    } else {
        proof {
            assert(turn@ =~= Seq::<Action>::empty());
        }
        (turn, Ai::Idle)
    }
}

/// The AI state after `k` ticks of deciding, whatever it observes, and
/// whether every one of those ticks passed without an action.
pub open spec fn after_ticks(
    id: usize,
    ai: Ai,
    sees: bool,
    far: bool,
    alive: bool,
    step: Direction,
    roll: int,
    k: nat,
) -> (Ai, bool)
    decreases k,
{
    if k == 0 {
        (ai, true)
    } else {
        let (prev, quiet) = after_ticks(id, ai, sees, far, alive, step, roll, (k - 1) as nat);
        let (acts, next) = decide(id, prev, sees, far, alive, step, roll);
        (next, quiet && acts.len() == 0)
    }
}

/// A monster confused for `n` more ticks acts on none of the next `n`
/// ticks: after `k < n` of them it is still confused with `n - k` to go, and
/// after the `n`-th it is back to its previous state.
pub proof fn lemma_confusion_wears_off(
    id: usize,
    previous: Ai,
    n: i32,
    sees: bool,
    far: bool,
    alive: bool,
    step: Direction,
    roll: int,
    k: nat,
)
    requires
        n >= 1,
        k <= n,
    ensures
        ({
            let start = Ai::Confused { previous: Box::new(previous), num_turns: n };
            let (ai, quiet) = after_ticks(id, start, sees, far, alive, step, roll, k);
            &&& quiet
            &&& k < n ==> ai == Ai::Confused { previous: Box::new(previous), num_turns: (n - k) as i32 }
            &&& k == n ==> ai == previous
        }),
    decreases k,
{
    if k > 0 {
        lemma_confusion_wears_off(id, previous, n, sees, far, alive, step, roll, (k - 1) as nat);
    }
}

} // verus!
