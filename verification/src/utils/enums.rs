use vstd::prelude::*;

verus! {

/// The screen the program is on; the top-level state of the game.
#[derive(Clone, Copy, Debug, PartialEq, Eq, Structural)]
pub enum CurrentScreen {
    /// A round is being played.
    Main,
    Menu,
    Lost,
}

/// The heading of the snake.
#[derive(Clone, Copy, Debug, PartialEq, Eq, Structural)]
pub enum Direction {
    Up,
    Down,
    Left,
    Right,
}

impl Direction {
    /// The heading that points the other way.
    pub open spec fn spec_opposite(self) -> Direction {
        match self {
            Direction::Up => Direction::Down,
            Direction::Down => Direction::Up,
            Direction::Left => Direction::Right,
            Direction::Right => Direction::Left,
        }
    }

    #[verifier::when_used_as_spec(spec_opposite)]
    pub fn opposite(self) -> (r: Direction)
        ensures
            r == self.spec_opposite(),
    {
        match self {
            Direction::Up => Direction::Down,
            Direction::Down => Direction::Up,
            Direction::Left => Direction::Right,
            Direction::Right => Direction::Left,
        }
    }

    /// The displacement of one step, in half cells: a full cell sideways,
    /// half a cell up or down. Up is the direction of growing `y`.
    pub open spec fn spec_offset(self) -> (int, int) {
        match self {
            Direction::Up => (0, 1),
            Direction::Down => (0, -1),
            Direction::Left => (-2, 0),
            Direction::Right => (2, 0),
        }
    }

    pub fn offset(self) -> (d: (i64, i64))
        ensures
            d.0 == self.spec_offset().0,
            d.1 == self.spec_offset().1,
    {
        match self {
            Direction::Up => (0, 1),
            Direction::Down => (0, -1),
            Direction::Left => (-2, 0),
            Direction::Right => (2, 0),
        }
    }
}

/// A key press, reduced to what the game tells apart.
#[derive(Clone, Copy, Debug, PartialEq, Eq, Structural)]
pub enum Key {
    Up,
    Down,
    Left,
    Right,
    /// The confirm key.
    Enter,
    /// The exit key.
    Esc,
    /// Any other key; it never has an effect.
    Other,
}

impl Key {
    /// The heading a key asks for, if it is a directional key.
    pub open spec fn spec_heading(self) -> Option<Direction> {
        match self {
            Key::Up => Some(Direction::Up),
            Key::Down => Some(Direction::Down),
            Key::Left => Some(Direction::Left),
            Key::Right => Some(Direction::Right),
            _ => None,
        }
    }

    #[verifier::when_used_as_spec(spec_heading)]
    pub fn heading(self) -> (r: Option<Direction>)
        ensures
            r == self.spec_heading(),
    {
        match self {
            Key::Up => Some(Direction::Up),
            Key::Down => Some(Direction::Down),
            Key::Left => Some(Direction::Left),
            Key::Right => Some(Direction::Right),
            _ => None,
        }
    }
}

/// What the control loop takes from its queue.
#[derive(Clone, Copy, Debug, PartialEq, Eq, Structural)]
pub enum Event {
    Input(Key),
    /// One period of the fixed-interval ticker has passed.
    GameTick,
}

/// What the control loop has to do after an event was handled.
#[derive(Clone, Copy, Debug, PartialEq, Eq, Structural)]
pub enum Action {
    /// Nothing but to draw the state.
    Idle,
    /// A round was lost and its score entered: the ranking is to be
    /// stored.
    SaveScores,
}

} // verus!
