use vstd::prelude::*;
use vstd::string::StrSliceExecFns;

use crate::game::{self, resolved, written, Game, PLAYER};
use crate::geometry::Direction;
use crate::scene::{Event, KeyCode, Transition};

verus! {

/// The scenes of a game in progress.
#[derive(Debug, Clone, Copy, PartialEq, Eq, Structural)]
pub enum Screen {
    GameWorld,
    Console,
    Inventory,
    Character,
}

#[derive(Debug, Clone, Copy, PartialEq, Eq, Structural)]
pub enum Action {
    Nothing,
    Exit,
    OpenInventory,
    OpenCharacterScreen,
    ListObjects,
    GameAction(game::Action),
}

/// The step a movement key makes (vi keys), if it is one.
pub open spec fn key_direction(c: char) -> Option<Direction> {
    if c == 'k' {
        Some(Direction(0i32, -1i32))
    } else if c == 'j' {
        Some(Direction(0i32, 1i32))
    } else if c == 'h' {
        Some(Direction(-1i32, 0i32))
    } else if c == 'l' {
        Some(Direction(1i32, 0i32))
    } else if c == 'y' {
        Some(Direction(-1i32, -1i32))
    } else if c == 'u' {
        Some(Direction(1i32, -1i32))
    } else if c == 'b' {
        Some(Direction(-1i32, 1i32))
    } else if c == 'n' {
        Some(Direction(1i32, 1i32))
    } else {
        None
    }
}

/// The player's action for a character key: a move, or nothing.
pub fn game_action(c: &char) -> (r: Action)
    ensures
        r == Action::GameAction(match key_direction(*c) {
            Some(d) => game::Action::Move(PLAYER, d),
            None => game::Action::Nothing,
        }),
{
    let a = match *c {
        'k' => game::Action::Move(PLAYER, Direction(0, -1)),
        'j' => game::Action::Move(PLAYER, Direction(0, 1)),
        'h' => game::Action::Move(PLAYER, Direction(-1, 0)),
        'l' => game::Action::Move(PLAYER, Direction(1, 0)),
        'y' => game::Action::Move(PLAYER, Direction(-1, -1)),
        'u' => game::Action::Move(PLAYER, Direction(1, -1)),
        'b' => game::Action::Move(PLAYER, Direction(-1, 1)),
        'n' => game::Action::Move(PLAYER, Direction(1, 1)),
        _ => game::Action::Nothing,
    };
    Action::GameAction(a)
}

/// The action for a typed command: `ls` lists the objects.
pub fn execute(command: &str) -> (r: Action)
    ensures
        r == if command@ == "ls"@ {
            Action::ListObjects
        } else {
            Action::Nothing
        },
{
    proof {
        reveal_strlit("ls");
    }
    if command.unicode_len() == 2 && command.get_char(0) == 'l' && command.get_char(1) == 's' {
        proof {
            assert(command@ =~= "ls"@);
        }
        Action::ListObjects
    } else {
        Action::Nothing
    }
}

impl Action {
    /// The player's action for a character key; see `game_action`.
    pub fn game_action(c: &char) -> (r: Self)
        ensures
            r == Action::GameAction(match key_direction(*c) {
                Some(d) => game::Action::Move(PLAYER, d),
                None => game::Action::Nothing,
            }),
    {
        game_action(c)
    }
}

impl Screen {
    pub fn interpret(&self, event: &Event) -> (r: Action)
        ensures
            *self != Screen::GameWorld ==> r == Action::Exit,
            *self == Screen::GameWorld ==> match event {
                Event::KeyEvent(k) => if k.code == KeyCode::Escape {
                    r == Action::Exit
                } else if k.code == KeyCode::Char && k.printable == 'i' {
                    r == Action::OpenInventory
                } else if k.code == KeyCode::Char && k.printable == 'c' {
                    r == Action::OpenCharacterScreen
                } else if k.code == KeyCode::Char {
                    r == Action::GameAction(match key_direction(k.printable) {
                        Some(d) => game::Action::Move(PLAYER, d),
                        None => game::Action::Nothing,
                    })
                } else {
                    r == Action::Nothing
                },
                Event::Nothing => r == Action::Nothing,
                Event::Command(c) => r == if c@ == "ls"@ {
                    Action::ListObjects
                } else {
                    Action::Nothing
                },
            },
    {
        match self {
            Screen::GameWorld => match event {
                Event::KeyEvent(k) => match k.code {
                    KeyCode::Escape => Action::Exit,
                    KeyCode::Char => {
                        if k.printable == 'i' {
                            Action::OpenInventory
                        } else if k.printable == 'c' {
                            Action::OpenCharacterScreen
                        } else {
                            game_action(&k.printable)
                        }
                    },
                    _ => Action::Nothing,
                },
                Event::Nothing => Action::Nothing,
                Event::Command(c) => execute(c.as_str()),
            },
            _ => Action::Exit,
        }
    }

    /// In the game world, a player's action starts a tick (see
    /// `Game::update`); the other screens close on any key.
    pub fn update(&mut self, action: Action, game: &mut Game) -> (r: Transition<Screen>)
        requires
            old(game).wf(),
        ensures
            final(game).wf(),
            *final(self) == *old(self),
            *old(self) != Screen::GameWorld ==> r is Exit && *final(game) == *old(game),
            *old(self) == Screen::GameWorld ==> match action {
                Action::Exit => r is Exit && *final(game) == *old(game),
                Action::OpenInventory => (r matches Transition::Next(s) && s == Screen::Inventory) && *final(game) == *old(game),
                Action::OpenCharacterScreen => (r matches Transition::Next(s) && s == Screen::Character) && *final(game) == *old(game),
                Action::GameAction(a) => {
                    &&& r is Continue
                    &&& final(game).pending == Some(a)
                    &&& final(game).player_turn@ == old(game).player_turn@.push(a)
                    &&& final(game).map == old(game).map
                    &&& final(game).fov == old(game).fov
                    &&& final(game).turn == old(game).turn
                    &&& final(game).turns == old(game).turns
                    &&& old(game).messages@.is_prefix_of(final(game).messages@)
                    &&& resolved(
                        old(game).objects@,
                        old(game).inventory@,
                        final(game).objects@,
                        final(game).inventory@,
                        old(game).map@,
                        a,
                        written(old(game).messages@, final(game).messages@),
                    )
                },
                _ => r is Continue && *final(game) == *old(game),
            },
    {
        match self {
            Screen::GameWorld => match action {
                Action::Exit => Transition::Exit,
                Action::Nothing => Transition::Continue,
                Action::OpenInventory => Transition::Next(Screen::Inventory),
                Action::OpenCharacterScreen => Transition::Next(Screen::Character),
                Action::GameAction(a) => {
                    game.update(a);
                    Transition::Continue
                },
                Action::ListObjects => Transition::Continue,
            },
            _ => Transition::Exit,
        }
    }
}

} // verus!
