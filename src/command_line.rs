use vstd::prelude::*;
use vstd::string::StringExecFns;

use crate::scene::{Event, KeyCode, Transition};
use crate::text::{char_string, pop_char, upper_of, uppercase};

verus! {

/// A scene that reads a line of text into its world, a `String`.
#[derive(Debug)]
pub struct CommandLine;

#[derive(Debug)]
pub enum CommandLineAction {
    Confirm,
    Read(String),
    Delete,
    InvalidKey,
}

/// The text a printable key types: upper case with shift held.
pub open spec fn typed(c: char, shift: bool) -> Seq<char> {
    if shift {
        upper_of(c)
    } else {
        seq![c]
    }
}

impl CommandLine {
    pub fn interpret(&self, event: &Event) -> (r: CommandLineAction)
        ensures
            match event {
                Event::KeyEvent(k) => match k.code {
                    KeyCode::Enter => r is Confirm,
                    KeyCode::Backspace => r is Delete,
                    KeyCode::Spacebar => (r matches CommandLineAction::Read(s) && s@ == " "@),
                    KeyCode::Char => (r matches CommandLineAction::Read(s) && s@ == typed(k.printable, k.shift)),
                    _ => r is InvalidKey,
                },
                _ => r is InvalidKey,
            },
    {
        match event {
            Event::KeyEvent(k) => match k.code {
                KeyCode::Enter => CommandLineAction::Confirm,
                KeyCode::Backspace => CommandLineAction::Delete,
                KeyCode::Spacebar => CommandLineAction::Read(String::from_str(" ")),
                KeyCode::Char => if k.shift {
                    CommandLineAction::Read(uppercase(k.printable))
                } else {
                    CommandLineAction::Read(char_string(k.printable))
                },
                _ => CommandLineAction::InvalidKey,
            },
            _ => CommandLineAction::InvalidKey,
        }
    }

    /// Enter confirms the line; other keys edit it.
    pub fn update(&mut self, action: CommandLineAction, world: &mut String) -> (r: Transition<CommandLine>)
        ensures
            match action {
                CommandLineAction::Confirm => r is Exit && final(world)@ == old(world)@,
                CommandLineAction::Read(s) => r is Continue && final(world)@ == old(world)@ + s@,
                CommandLineAction::Delete => r is Continue && final(world)@ == if old(world)@.len() > 0 {
                    old(world)@.drop_last()
                } else {
                    old(world)@
                },
                CommandLineAction::InvalidKey => r is Continue && final(world)@ == old(world)@,
            },
    {
        match action {
            CommandLineAction::Confirm => Transition::Exit,
            CommandLineAction::Read(s) => {
                world.append(s.as_str());
                Transition::Continue
            },
            CommandLineAction::Delete => {
                pop_char(world);
                Transition::Continue
            },
            CommandLineAction::InvalidKey => Transition::Continue,
        }
    }
}

} // verus!
