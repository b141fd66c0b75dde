//! Routing of key presses to the game.
use vstd::prelude::*;
use crate::game::{GameState, GameView, initial};

verus! {

/// The keys the game reacts to; every other key is `Other`.
#[derive(Clone, Copy, Debug, PartialEq, Eq, Structural)]
pub enum Key {
    Up,
    Down,
    Left,
    Right,
    W,
    A,
    S,
    D,
    R,
    Q,
    Other,
}

/// A heading the player asks for.
#[derive(Clone, Copy, Debug, PartialEq, Eq, Structural)]
pub enum Direction {
    Up,
    Down,
    Left,
    Right,
}

/// What a key event asks of the game.
#[derive(Clone, Copy, Debug, PartialEq, Eq, Structural)]
pub enum Intent {
    Move(Direction),
    Reset,
    Quit,
    Ignore,
}

impl Direction {
    pub open spec fn spec_delta(self) -> (isize, isize) {
        match self {
            Direction::Up => (0isize, 1isize),
            Direction::Down => (0isize, -1isize),
            Direction::Left => (-1isize, 0isize),
            Direction::Right => (1isize, 0isize),
        }
    }

    /// The unit step of this heading; up is towards larger `y`.
    pub fn delta(self) -> (r: (isize, isize))
        ensures
            r == self.spec_delta(),
    {
        match self {
            Direction::Up => (0, 1),
            Direction::Down => (0, -1),
            Direction::Left => (-1, 0),
            Direction::Right => (1, 0),
        }
    }
}

/// The intent of a key event: arrows and W/A/S/D move, R resets, Q quits;
/// releases and other keys are ignored.
pub open spec fn key_intent(key: Key, pressed: bool) -> Intent {
    if !pressed {
        Intent::Ignore
    } else {
        match key {
            Key::Up | Key::W => Intent::Move(Direction::Up),
            Key::Down | Key::S => Intent::Move(Direction::Down),
            Key::Left | Key::A => Intent::Move(Direction::Left),
            Key::Right | Key::D => Intent::Move(Direction::Right),
            Key::R => Intent::Reset,
            Key::Q => Intent::Quit,
            Key::Other => Intent::Ignore,
        }
    }
}

/// Maps a key event to what it asks of the game.
pub fn intent_of_key(key: Key, pressed: bool) -> (r: Intent)
    ensures
        r == key_intent(key, pressed),
{
    if !pressed {
        return Intent::Ignore;
    }
    match key {
        Key::Up | Key::W => Intent::Move(Direction::Up),
        Key::Down | Key::S => Intent::Move(Direction::Down),
        Key::Left | Key::A => Intent::Move(Direction::Left),
        Key::Right | Key::D => Intent::Move(Direction::Right),
        Key::R => Intent::Reset,
        Key::Q => Intent::Quit,
        Key::Other => Intent::Ignore,
    }
}

/// The state after `intent` has been handled: a move is queued, a reset
/// restarts the game only once it is over, anything else changes nothing.
pub open spec fn after_intent(v: GameView, intent: Intent) -> GameView {
    match intent {
        Intent::Move(d) => GameView { move_queue: v.move_queue.push(d.spec_delta()), ..v },
        Intent::Reset => if v.gameover {
            initial()
        } else {
            v
        },
        _ => v,
    }
}

impl GameState {
    /// Handles one intent; returns `false` when the player asked to quit.
    pub fn input_handler(&mut self, intent: Intent) -> (keep_running: bool)
        requires
            old(self).wf(),
        ensures
            final(self).wf(),
            final(self)@ == after_intent(old(self)@, intent),
            keep_running == (intent != Intent::Quit),
    {
        match intent {
            Intent::Move(d) => {
                let ghost q = self.move_queue@;
                let ghost v = self@;
                assert(v.wf());
                self.move_queue.push(d.delta());
                assert forall|i: int| 0 <= i < self.move_queue@.len() implies
                    #[trigger] crate::game::is_unit(self.move_queue@[i]) by {
                    if i < q.len() {
                        assert(self.move_queue@[i] == q[i]);
                        assert(crate::game::is_unit(v.move_queue[i]));
                    }
                }
                true
            },
            Intent::Reset => {
                if self.gameover {
                    *self = GameState::new();
                }
                true
            },
            Intent::Quit => false,
            Intent::Ignore => true,
        }
    }
}

} // verus!
