use vstd::prelude::*;
use vstd::string::StringExecFns;

use crate::command_line::typed;
use crate::scene::{Event, KeyCode, Transition};
use crate::text::{char_string, pop_char, uppercase};

verus! {

/// What the main menu settles on.
#[derive(Debug)]
pub enum GameSettings {
    NewGame { player_name: String },
    LoadGame { path: String },
}

/// The main menu, with the player's name as typed so far.
#[derive(Debug)]
pub enum Screen {
    MainMenu { player_name: String },
}

#[derive(Debug)]
pub enum Action {
    Cancel,
    StartGame,
    ReadChar(char, bool),
    DeleteChar,
    InvalidKey,
}

impl Screen {
    /// The name typed so far.
    pub open spec fn name(&self) -> Seq<char> {
        match self {
            Screen::MainMenu { player_name } => player_name@,
        }
    }

    pub fn interpret(&self, event: &Event) -> (r: Action)
        ensures
            match event {
                Event::KeyEvent(k) => match k.code {
                    KeyCode::Escape => r is Cancel,
                    KeyCode::Enter => r is StartGame,
                    KeyCode::Backspace => r is DeleteChar,
                    KeyCode::Spacebar => r == Action::ReadChar(k.printable, false),
                    KeyCode::Char => r == Action::ReadChar(k.printable, k.shift),
                    _ => r is InvalidKey,
                },
                _ => r is InvalidKey,
            },
    {
        match event {
            Event::KeyEvent(k) => match k.code {
                KeyCode::Escape => Action::Cancel,
                KeyCode::Enter => Action::StartGame,
                KeyCode::Backspace => Action::DeleteChar,
                KeyCode::Spacebar => Action::ReadChar(k.printable, false),
                KeyCode::Char => Action::ReadChar(k.printable, k.shift),
                _ => Action::InvalidKey,
            },
            _ => Action::InvalidKey,
        }
    }

    /// Enter starts a new game under the typed name; Escape leaves without one.
    pub fn update(&mut self, action: Action, settings: &mut Option<GameSettings>) -> (r: Transition<Screen>)
        ensures
            match action {
                Action::StartGame => r is Exit && final(self).name() == old(self).name()
                    && (*final(settings) matches Some(GameSettings::NewGame { player_name }) && player_name@ == old(self).name()),
                Action::Cancel => r is Exit && final(self).name() == old(self).name() && *final(settings) == *old(settings),
                Action::InvalidKey => r is Continue && final(self).name() == old(self).name() && *final(settings) == *old(settings),
                Action::DeleteChar => r is Continue && *final(settings) == *old(settings) && final(self).name() == if old(self).name().len() > 0 {
                    old(self).name().drop_last()
                } else {
                    old(self).name()
                },
                Action::ReadChar(c, upper) => r is Continue && *final(settings) == *old(settings)
                    && final(self).name() == old(self).name() + typed(c, upper),
            },
    {
        let Screen::MainMenu { player_name } = self;
        match action {
            Action::StartGame => {
                *settings = Some(GameSettings::NewGame { player_name: player_name.clone() });
                Transition::Exit
            },
            Action::DeleteChar => {
                pop_char(player_name);
                Transition::Continue
            },
            Action::ReadChar(c, upper) => {
                let s = if upper {
                    uppercase(c)
                } else {
                    char_string(c)
                };
                player_name.append(s.as_str());
                Transition::Continue
            },
            Action::Cancel => Transition::Exit,
            Action::InvalidKey => Transition::Continue,
        }
    }
}

} // verus!
