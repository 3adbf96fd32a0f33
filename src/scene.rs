use vstd::prelude::*;

verus! {

/// The keys that scenes tell apart.
#[derive(Debug, Clone, Copy, PartialEq, Eq, Structural)]
pub enum KeyCode {
    Char,
    Enter,
    Escape,
    Backspace,
    Spacebar,
    Other,
}

/// A key press: its code, the character it prints, and the modifiers held.
#[derive(Debug, Clone, Copy, PartialEq, Eq, Structural)]
pub struct Key {
    pub code: KeyCode,
    pub printable: char,
    pub shift: bool,
    pub alt: bool,
    pub ctrl: bool,
}

/// An input event: a key, a command typed at the command line, or nothing.
#[derive(Debug)]
pub enum Event {
    KeyEvent(Key),
    Command(String),
    Nothing,
}

/// What the active scene asks of the scene stack after an update.
#[derive(Debug)]
pub enum Transition<S> {
    /// Leave this scene.
    Exit,
    /// Stay in this scene.
    Continue,
    /// Open a scene above this one; this one resumes when it exits.
    Next(S),
    /// Put a scene in this one's place.
    Replace(S),
}

/// The stack after the active scene `current` (already taken off the top)
/// asked for `t`.
pub open spec fn step<S>(stack: Seq<S>, current: S, t: Transition<S>) -> Seq<S> {
    match t {
        Transition::Exit => stack,
        Transition::Continue => stack.push(current),
        Transition::Next(s) => stack.push(current).push(s),
        Transition::Replace(s) => stack.push(s),
    }
}

/// A stack of scenes; the last one is active.
#[derive(Debug)]
pub struct Engine<S> {
    stack: Vec<S>,
}

impl<S> View for Engine<S> {
    type V = Seq<S>;

    closed spec fn view(&self) -> Seq<S> {
        self.stack@
    }
}

impl<S> Engine<S> {
    pub fn new(start: S) -> (r: Self)
        ensures
            r@ == seq![start],
    {
        let mut stack = Vec::new();
        stack.push(start);
        proof {
            assert(stack@ =~= seq![start]);
        }
        Engine { stack }
    }

    /// The number of scenes on the stack.
    pub fn depth(&self) -> (r: usize)
        ensures
            r == self@.len(),
    {
        self.stack.len()
    }

    /// The engine runs while a scene is left.
    pub fn is_running(&self) -> (r: bool)
        ensures
            r == (self@.len() > 0),
    {
        self.stack.len() > 0
    }

    /// Takes the active scene off the stack.
    pub fn pop(&mut self) -> (r: Option<S>)
        ensures
            old(self)@.len() > 0 ==> r == Some(old(self)@.last()) && final(self)@ == old(self)@.drop_last(),
            old(self)@.len() == 0 ==> r is None && final(self)@ == old(self)@,
    {
        self.stack.pop()
    }

    /// Applies the transition that `current`, taken off the top, asked for.
    pub fn apply(&mut self, current: S, t: Transition<S>)
        ensures
            final(self)@ == step(old(self)@, current, t),
    {
        match t {
            Transition::Exit => {},
            Transition::Continue => {
                self.stack.push(current);
            },
            Transition::Next(s) => {
                self.stack.push(current);
                self.stack.push(s);
            },
            Transition::Replace(s) => {
                self.stack.push(s);
            },
        }
    }
}

/// A scene opened with `Next` that then exits hands control back to the
/// scene that opened it, unchanged, with the stack beneath as it was.
pub proof fn lemma_next_then_exit<S>(stack: Seq<S>, current: S, pushed: S)
    ensures
        ({
            let opened = step(stack, current, Transition::Next(pushed));
            let back = step(opened.drop_last(), opened.last(), Transition::Exit::<S>);
            back == stack.push(current) && back.last() == current
        }),
{
    let opened = step(stack, current, Transition::Next(pushed));
    assert(opened.drop_last() =~= stack.push(current));
}

/// `Replace` leaves the stack as deep as it was before the active scene was
/// taken off; no transition grows it by more than `Next` does.
pub proof fn lemma_replace_keeps_depth<S>(stack: Seq<S>, current: S, s: S)
    ensures
        step(stack, current, Transition::Replace(s)).len() == stack.len() + 1,
        step(stack, current, Transition::Replace(s)).drop_last() == stack,
{
    assert(stack.push(s).drop_last() =~= stack);
}

/// Exiting the last scene empties the stack, and the engine stops.
pub proof fn lemma_last_exit_stops<S>(current: S)
    ensures
        step(Seq::<S>::empty(), current, Transition::Exit::<S>).len() == 0,
{
}

} // verus!
