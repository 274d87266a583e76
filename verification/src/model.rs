use vstd::prelude::*;
use crate::utils::collectables::{AnyCollectable, CollectableType, BOOST_END, BOOST_MIN};
use crate::utils::enums::{CurrentScreen, Direction, Event, Key};
use crate::utils::geometry::Position;
use crate::utils::helpers::{head_vector, heading_of};
use crate::utils::scores::{sort_ranked, Score};

verus! {

/// The length of the snake at the start of a round; the score counts the
/// segments beyond it.
pub const INITIAL_LENGTH: i32 = 5;

/// The time between two ticks, in milliseconds.
pub const TICK_MILLIS: u64 = 50;

/// The value the sub-tick counter is set back to.
pub const COUNTER_START: u32 = 3;

/// The number of ticks from one blink of the menu highlight to the next.
pub const BLINK_TICKS: u32 = 3;

/// The time until the next special item is due is drawn from
/// `SPECIAL_MIN..SPECIAL_END`, in game updates.
pub const SPECIAL_MIN: u32 = 100;

pub const SPECIAL_END: u32 = 300;

/// The snake that a round starts with.
pub open spec fn initial_snake() -> Seq<Position> {
    seq![
        Position { x: 46, y: 40 },
        Position { x: 44, y: 40 },
        Position { x: 42, y: 40 },
        Position { x: 40, y: 40 },
        Position { x: 38, y: 40 },
    ]
}

/// `a` lies one step from `b`: a full cell sideways, or half a cell up or
/// down.
pub open spec fn linked(a: Position, b: Position) -> bool {
    ||| a.y == b.y && (a.x - b.x == 2 || a.x - b.x == -2)
    ||| a.x == b.x && (a.y - b.y == 1 || a.y - b.y == -1)
}

/// Each segment of the snake lies one step from the next.
pub open spec fn chained(snake: Seq<Position>) -> bool {
    forall|i: int| 0 <= i < snake.len() - 1 ==> linked(#[trigger] snake[i], snake[i + 1])
}

/// No two segments of the snake lie on the same spot.
pub open spec fn apart(snake: Seq<Position>) -> bool {
    forall|i: int, j: int| 0 <= i < j < snake.len() ==> snake[i] != snake[j]
}

/// Every segment of the snake lies on the field.
pub open spec fn within(snake: Seq<Position>, field_size: (u32, u32)) -> bool {
    forall|i: int| 0 <= i < snake.len() ==> (#[trigger] snake[i]).spec_inside(field_size)
}

/// The number of apples among `items`.
pub open spec fn apple_count(items: Seq<AnyCollectable>) -> nat
    decreases items.len(),
{
    if items.len() == 0 {
        0
    } else {
        apple_count(items.drop_last()) + if items.last() is Apple {
            1nat
        } else {
            0nat
        }
    }
}

/// Some item of `items` is no apple.
pub open spec fn has_special(items: Seq<AnyCollectable>) -> bool {
    exists|i: int| 0 <= i < items.len() && !(#[trigger] items[i] is Apple)
}

/// The number of speed boosts among `items` that lie on the field.
pub open spec fn boosts_waiting(items: Seq<AnyCollectable>) -> nat
    decreases items.len(),
{
    if items.len() == 0 {
        0
    } else {
        boosts_waiting(items.drop_first()) + if items[0] matches AnyCollectable::Speed(s)
            && s.remaining_time is None {
            1nat
        } else {
            0nat
        }
    }
}

/// The number of speed boosts among `items` that are running.
pub open spec fn boosts_running(items: Seq<AnyCollectable>) -> nat
    decreases items.len(),
{
    if items.len() == 0 {
        0
    } else {
        boosts_running(items.drop_first()) + if items[0] matches AnyCollectable::Speed(s)
            && s.remaining_time is Some {
            1nat
        } else {
            0nat
        }
    }
}

/// The number of speed boosts among `items` that run and whose next
/// countdown step is their last.
pub open spec fn boosts_ending(items: Seq<AnyCollectable>) -> nat
    decreases items.len(),
{
    if items.len() == 0 {
        0
    } else {
        boosts_ending(items.drop_last()) + if items.last().ends_next() {
            1nat
        } else {
            0nat
        }
    }
}

/// The number of game updates that a boost with `time` on its countdown
/// still runs for: a boost leaves in the update that finds it with one step
/// to go, or with none.
pub open spec fn updates_left(time: u32) -> nat {
    if time <= 1 {
        1
    } else {
        time as nat
    }
}

/// The game updates that the running boosts among `items` still run for,
/// added up.
pub open spec fn boosts_left(items: Seq<AnyCollectable>) -> nat
    decreases items.len(),
{
    if items.len() == 0 {
        0
    } else {
        boosts_left(items.drop_last()) + match items.last() {
            AnyCollectable::Speed(s) => match s.remaining_time {
                Some(time) => updates_left(time),
                None => 0nat,
            },
            _ => 0nat,
        }
    }
}

/// The state as plain mathematical values.
pub struct AppView {
    pub exit: bool,
    pub current_screen: CurrentScreen,
    pub menu_cursor: Option<usize>,
    pub direction: Direction,
    pub snake: Seq<Position>,
    pub blocked: bool,
    pub field_size: (u32, u32),
    pub tick: bool,
    pub blink_countdown: u32,
    pub collectables: Seq<AnyCollectable>,
    pub game_speed: u32,
    pub round_time: u64,
    pub random_item_timer: u32,
    pub growth_granted: bool,
    pub scores: Seq<Score>,
}

impl AppView {
    /// The head of the snake.
    pub open spec fn head(self) -> Position {
        self.snake[0]
    }

    /// This state with `items` as its collection of items.
    pub open spec fn with_items(self, items: Seq<AnyCollectable>) -> AppView {
        AppView { collectables: items, ..self }
    }

    /// This state with `timer` game updates to go until the next special
    /// item is due.
    pub open spec fn with_timer(self, timer: u32) -> AppView {
        AppView { random_item_timer: timer, ..self }
    }

    /// The state the program starts in, with the scores stored before.
    pub open spec fn initial(scores: Seq<Score>) -> AppView {
        AppView {
            exit: false,
            current_screen: CurrentScreen::Menu,
            menu_cursor: Some(0),
            direction: Direction::Up,
            snake: seq![
                Position { x: 42, y: 40 },
                Position { x: 44, y: 40 },
                Position { x: 40, y: 40 },
            ],
            blocked: true,
            field_size: (50, 25),
            tick: false,
            blink_countdown: BLINK_TICKS,
            collectables: Seq::empty(),
            game_speed: 0,
            round_time: 0,
            random_item_timer: 50,
            growth_granted: false,
            scores: scores,
        }
    }

    // ----- steering -----

    /// The state after a key press during play: a directional key turns
    /// the snake, unless it asks for the opposite of the heading or a turn
    /// was already taken since the last game update. A turn that is taken
    /// closes the window for further turns.
    pub open spec fn steer(self, key: Key) -> AppView {
        match key.spec_heading() {
            Some(heading) if !self.blocked && heading != self.direction.spec_opposite() => AppView {
                direction: heading,
                blocked: true,
                ..self
            },
            _ => self,
        }
    }

    /// The state after the key presses `keys`, in order, during play.
    pub open spec fn steer_all(self, keys: Seq<Key>) -> AppView
        decreases keys.len(),
    {
        if keys.len() == 0 {
            self
        } else {
            self.steer_all(keys.drop_last()).steer(keys.last())
        }
    }

    // ----- what the items do -----

    /// Growth is granted: the next move keeps the tail.
    pub open spec fn grown(self) -> AppView {
        AppView { growth_granted: true, ..self }
    }

    /// The difficulty level is raised by a boost.
    pub open spec fn boosted(self) -> AppView {
        AppView { game_speed: (self.game_speed + 1) as u32, ..self }
    }

    /// The difficulty level is back to what it was before a boost.
    pub open spec fn slowed(self) -> AppView {
        AppView { game_speed: (self.game_speed - 1) as u32, ..self }
    }

    /// The snake is turned around, and heads the way that leads from its
    /// new second segment to its new head. A snake of one segment keeps
    /// its heading.
    pub open spec fn reversed(self) -> AppView {
        let turned = self.snake.reverse();
        AppView {
            snake: turned,
            direction: if turned.len() >= 2 {
                heading_of(head_vector(turned))
            } else {
                self.direction
            },
            ..self
        }
    }

    // ----- putting an item on the field -----

    /// `p` is a whole cell inside the border cells of the field, and no
    /// segment of the snake is on it.
    pub open spec fn free_spot(self, p: Position) -> bool {
        &&& p.x % 2 == 0
        &&& p.y % 2 == 0
        &&& 2 <= p.x < 2 * (self.field_size.0 - 1)
        &&& 2 <= p.y < 2 * (self.field_size.1 - 1)
        &&& !self.snake.contains(p)
    }

    /// The snake leaves a spot free.
    pub open spec fn has_free_spot(self) -> bool {
        exists|p: Position| self.free_spot(p)
    }

    /// `item` is a new item of kind `kind` on a free spot.
    pub open spec fn spawned(self, kind: CollectableType, item: AnyCollectable) -> bool {
        &&& item == AnyCollectable::fresh(kind, item.position())
        &&& self.free_spot(item.position())
    }

    /// `after` is this state with one new item of kind `kind` on a free
    /// spot, behind the other items; or this state itself, if no spot is
    /// free.
    pub open spec fn placed(self, kind: CollectableType, after: AppView) -> bool {
        if self.has_free_spot() {
            &&& after.collectables.len() > 0
            &&& self.spawned(kind, after.collectables.last())
            &&& after == self.with_items(self.collectables.push(after.collectables.last()))
        } else {
            after == self
        }
    }

    // ----- the pass over the items -----

    /// `item` lies on the field where the head is.
    pub open spec fn takes(self, item: AnyCollectable) -> bool {
        item.visible() && item.position() == self.head()
    }

    /// What dealing with `item` does to the state, the collection of items
    /// left aside: an item under the head is taken, and a boost that runs
    /// out gives the difficulty level back.
    pub open spec fn pass_step(self, item: AnyCollectable) -> AppView {
        match item {
            AnyCollectable::Apple(_) => if self.takes(item) {
                self.grown()
            } else {
                self
            },
            AnyCollectable::Reverse(_) => if self.takes(item) {
                self.reversed()
            } else {
                self
            },
            AnyCollectable::Speed(s) => if self.takes(item) {
                self.boosted()
            } else if s.ends_next() {
                self.slowed()
            } else {
                self
            },
        }
    }

    /// `item` leaves the collection when it is dealt with: an apple or a
    /// reverse item that is taken, and a boost that runs out.
    pub open spec fn leaves(self, item: AnyCollectable) -> bool {
        match item {
            AnyCollectable::Speed(s) => s.ends_next(),
            _ => self.takes(item),
        }
    }

    /// `after` is what an item that stays has become: a boost that is taken
    /// starts to run, with one step of its time already gone; a boost that
    /// runs has one step less to go; any other item is as it was.
    pub open spec fn stays_as(self, item: AnyCollectable, after: AnyCollectable) -> bool {
        if self.takes(item) {
            &&& after matches AnyCollectable::Speed(s)
            &&& s.position == item.position()
            &&& s.remaining_time matches Some(t)
            &&& BOOST_MIN - 1 <= t < BOOST_END - 1
        } else {
            after == item.counted_down()
        }
    }

    /// The numbers of the state can take what dealing with `item` does to
    /// them.
    pub open spec fn step_fits(self, item: AnyCollectable) -> bool {
        if self.takes(item) {
            item.can_collect(self)
        } else {
            item.can_update(self)
        }
    }

    /// The state after `items` were dealt with in order, the collection of
    /// items left aside.
    pub open spec fn pass_state(self, items: Seq<AnyCollectable>) -> AppView
        decreases items.len(),
    {
        if items.len() == 0 {
            self
        } else {
            self.pass_state(items.drop_last()).pass_step(items.last())
        }
    }

    /// How many of `items` stay when they are dealt with in order.
    pub open spec fn kept_count(self, items: Seq<AnyCollectable>) -> nat
        decreases items.len(),
    {
        if items.len() == 0 {
            0
        } else {
            self.kept_count(items.drop_last()) + if self.pass_state(items.drop_last()).leaves(
                items.last(),
            ) {
                0nat
            } else {
                1nat
            }
        }
    }

    /// How many apples are taken when `items` are dealt with in order.
    pub open spec fn apples_taken(self, items: Seq<AnyCollectable>) -> nat
        decreases items.len(),
    {
        if items.len() == 0 {
            0
        } else {
            self.apples_taken(items.drop_last()) + if items.last() is Apple && self.pass_state(
                items.drop_last(),
            ).takes(items.last()) {
                1nat
            } else {
                0nat
            }
        }
    }

    /// How many boosts are taken when `items` are dealt with in order.
    pub open spec fn boosts_taken(self, items: Seq<AnyCollectable>) -> nat
        decreases items.len(),
    {
        if items.len() == 0 {
            0
        } else {
            self.boosts_taken(items.drop_last()) + if items.last() is Speed && self.pass_state(
                items.drop_last(),
            ).takes(items.last()) {
                1nat
            } else {
                0nat
            }
        }
    }

    /// `kept` holds, in order, what the items of `items` that stay have
    /// become.
    pub open spec fn survivors(
        self,
        items: Seq<AnyCollectable>,
        kept: Seq<AnyCollectable>,
    ) -> bool
        decreases items.len(),
    {
        if items.len() == 0 {
            kept.len() == 0
        } else {
            let before = self.pass_state(items.drop_last());
            if before.leaves(items.last()) {
                self.survivors(items.drop_last(), kept)
            } else {
                &&& kept.len() > 0
                &&& before.stays_as(items.last(), kept.last())
                &&& self.survivors(items.drop_last(), kept.drop_last())
            }
        }
    }

    /// `after` is a state that the pass over the items can lead to: every
    /// item was dealt with in order; the items that stay stand first, in
    /// their order; behind them stands one new apple for each apple taken,
    /// each on a spot that the snake leaves free, if there is such a spot.
    pub open spec fn passes_to(self, after: AppView) -> bool {
        let kept = self.kept_count(self.collectables) as int;
        let fresh = if self.has_free_spot() {
            self.apples_taken(self.collectables) as int
        } else {
            0
        };
        &&& after == self.pass_state(self.collectables).with_items(after.collectables)
        &&& after.collectables.len() == kept + fresh
        &&& self.survivors(self.collectables, after.collectables.take(kept))
        &&& forall|j: int|
            kept <= j < after.collectables.len() ==> self.spawned(
                CollectableType::Apple,
                #[trigger] after.collectables[j],
            )
    }

    /// What holds of the state `now` in the middle of the pass, when the
    /// first `done` items were dealt with and `kept` of them stay: the
    /// items that stay stand first, the items still to come behind them,
    /// and the new apples last.
    pub open spec fn pass_reached(self, done: int, kept: int, now: AppView) -> bool {
        let items = self.collectables;
        let fresh = if self.has_free_spot() {
            self.apples_taken(items.take(done)) as int
        } else {
            0
        };
        let waiting = items.len() - done;
        &&& 0 <= kept <= done <= items.len()
        &&& now == self.pass_state(items.take(done)).with_items(now.collectables)
        &&& kept == self.kept_count(items.take(done))
        &&& self.survivors(items.take(done), now.collectables.take(kept))
        &&& now.collectables.len() == kept + waiting + fresh
        &&& now.collectables.subrange(kept, kept + waiting) == items.skip(done)
        &&& forall|j: int|
            kept + waiting <= j < now.collectables.len() ==> self.spawned(
                CollectableType::Apple,
                #[trigger] now.collectables[j],
            )
    }

    // ----- the move -----

    /// The state after the snake has moved one step: a new head in front,
    /// and the tail dropped unless growth was granted. The window for a
    /// turn is open again.
    pub open spec fn moved(self) -> AppView {
        let head = self.snake[0].spec_step(self.direction);
        AppView {
            snake: if self.growth_granted {
                seq![head] + self.snake
            } else {
                seq![head] + self.snake.drop_last()
            },
            growth_granted: false,
            blocked: false,
            ..self
        }
    }

    // ----- the special items -----

    /// `after` is a state that the countdown for special items can lead
    /// to. When it has run out, it starts again from a new time, and a
    /// special item is put on the field unless there is one already.
    pub open spec fn respawns_to(self, after: AppView) -> bool {
        if self.random_item_timer == 0 {
            let settled = after.with_timer(0);
            &&& SPECIAL_MIN <= after.random_item_timer < SPECIAL_END
            &&& if has_special(self.collectables) {
                settled == self
            } else {
                ||| self.placed(CollectableType::Speed, settled)
                ||| self.placed(CollectableType::Reverse, settled)
            }
        } else {
            after == self.with_timer((self.random_item_timer - 1) as u32)
        }
    }

    // ----- the end of a round -----

    /// The head is on another segment of the snake, or outside the field.
    pub open spec fn collided(self) -> bool {
        ||| exists|i: int| 1 <= i < self.snake.len() && #[trigger] self.snake[i] == self.snake[0]
        ||| !self.snake[0].spec_inside(self.field_size)
    }

    /// The score of the round: the segments that the snake has gained.
    pub open spec fn score(self) -> int {
        self.snake.len() - INITIAL_LENGTH
    }

    /// The round is lost, and `entry` is in the ranking.
    pub open spec fn lost_with(self, entry: Score) -> AppView {
        AppView {
            current_screen: CurrentScreen::Lost,
            scores: sort_ranked(self.scores.push(entry)),
            ..self
        }
    }

    /// `after` is this state, if the snake has not collided; else the round
    /// is lost and its score entered under the player's name.
    pub open spec fn settles_to(self, after: AppView) -> bool {
        if self.collided() {
            exists|entry: Score|
                after == #[trigger] self.lost_with(entry) && entry.player_name@ == "you"@
                    && entry.score == self.score()
        } else {
            after == self
        }
    }

    // ----- the game update -----

    /// What the pass over the items needs: a snake that has a head and
    /// lies within the range of coordinates; and a difficulty level that
    /// counts every boost that runs and has room for every boost on the
    /// field.
    pub open spec fn passable(self) -> bool {
        &&& self.snake.len() >= 1
        &&& forall|i: int| 0 <= i < self.snake.len() ==> (#[trigger] self.snake[i]).in_range()
        &&& boosts_running(self.collectables) <= self.game_speed
        &&& self.game_speed + boosts_waiting(self.collectables) <= u32::MAX
    }

    /// The round has lasted one tick interval longer: the first step of a
    /// game update.
    pub open spec fn timed(self) -> AppView {
        AppView { round_time: (self.round_time + TICK_MILLIS) as u64, ..self }
    }

    /// What a game update needs: a round time that can still grow, what
    /// the pass over the items needs, and a snake that is short enough for
    /// its score, after it has grown, to be a number of the machine.
    pub open spec fn updatable(self) -> bool {
        &&& self.round_time + TICK_MILLIS <= u64::MAX
        &&& self.passable()
        &&& self.snake.len() < i32::MAX
    }

    /// The state after the round time has grown, the items were passed
    /// over and the snake has moved, the collection of items left aside:
    /// what the round time, the snake, its heading and the difficulty level
    /// are after a game update.
    pub open spec fn advanced(self) -> AppView {
        self.timed().pass_state(self.collectables).moved()
    }

    /// `after` is a state that a game update can lead to: the round time
    /// grows by the tick interval; then come the pass over the items, the
    /// move, the countdown for special items, and the check for a
    /// collision.
    pub open spec fn updates_to(self, after: AppView) -> bool {
        exists|a: AppView, b: AppView|
            #![trigger self.timed().passes_to(a), b.settles_to(after)]
            self.timed().passes_to(a) && a.moved().respawns_to(b) && b.settles_to(after)
    }

    /// How many boosts are taken in the game update from this state.
    pub open spec fn boosts_taken_next(self) -> nat {
        self.timed().boosts_taken(self.collectables)
    }

    // ----- the screens -----

    /// The state a round starts from, before its apple is put on the
    /// field.
    pub open spec fn round_start(self) -> AppView {
        AppView {
            current_screen: CurrentScreen::Main,
            snake: initial_snake(),
            direction: Direction::Right,
            menu_cursor: None,
            collectables: Seq::empty(),
            game_speed: 0,
            round_time: 0,
            growth_granted: false,
            ..self
        }
    }

    /// `after` is a state that the start of a round can lead to.
    pub open spec fn starts_to(self, after: AppView) -> bool {
        self.round_start().placed(CollectableType::Apple, after)
    }

    /// The key confirms the menu entry that starts a round.
    pub open spec fn starts_round(self, key: Key) -> bool {
        key is Enter && self.menu_cursor == Some(0usize)
    }

    /// The state after a key press in the menu that does not start a
    /// round: the cursor moves between its two entries and stops at the
    /// ends, and the second entry, confirmed, ends the program.
    pub open spec fn menu_moved(self, key: Key) -> AppView {
        match key {
            Key::Up => AppView {
                menu_cursor: Some(
                    match self.menu_cursor {
                        Some(cursor) if cursor > 0 => (cursor - 1) as usize,
                        _ => 0usize,
                    },
                ),
                ..self
            },
            Key::Down => AppView {
                menu_cursor: Some(
                    match self.menu_cursor {
                        Some(_) => 1usize,
                        None => 0usize,
                    },
                ),
                ..self
            },
            Key::Enter => if self.menu_cursor == Some(1usize) {
                self.quit()
            } else {
                self
            },
            _ => self,
        }
    }

    /// `after` is a state that a key press in the menu can lead to.
    pub open spec fn menu_to(self, key: Key, after: AppView) -> bool {
        if self.starts_round(key) {
            self.starts_to(after)
        } else {
            after == self.menu_moved(key)
        }
    }

    /// The program is to end.
    pub open spec fn quit(self) -> AppView {
        AppView { exit: true, ..self }
    }

    /// The state after a key press on the screen of a lost round: the
    /// confirm key leads back to the menu, with the cursor on its first
    /// entry.
    pub open spec fn acknowledged(self, key: Key) -> AppView {
        if key is Enter {
            AppView { current_screen: CurrentScreen::Menu, menu_cursor: Some(0), ..self }
        } else {
            self
        }
    }

    /// `after` is a state that a key press can lead to. The exit key ends
    /// the program on every screen; any other key goes to the screen.
    pub open spec fn reacts_to(self, key: Key, after: AppView) -> bool {
        if key is Esc {
            after == self.quit()
        } else {
            match self.current_screen {
                CurrentScreen::Main => after == self.steer(key),
                CurrentScreen::Lost => after == self.acknowledged(key),
                CurrentScreen::Menu => self.menu_to(key, after),
            }
        }
    }

    // ----- the ticks -----

    /// A game update is due when the sub-tick counter has come down to the
    /// difficulty level, or to zero.
    pub open spec fn update_due(self, counter: u32) -> bool {
        counter == self.game_speed || counter == 0
    }

    /// What a tick needs when the sub-tick counter stands at `counter`:
    /// during play, if a game update is due, what the update needs.
    pub open spec fn tickable_at(self, counter: u32) -> bool {
        self.current_screen is Main && self.update_due(counter) ==> self.updatable()
    }

    /// What a tick needs wherever the sub-tick counter stands.
    pub open spec fn tickable(self) -> bool {
        self.current_screen is Main ==> self.updatable()
    }

    /// The numbers of a round are far enough from the limits of the machine
    /// for a tick to leave a state that the next tick can be handled in:
    /// the snake can grow by two more segments, the difficulty level has
    /// room for one boost more than lie on the field, and the round time
    /// for two more game updates.
    pub open spec fn far_from_limits(self) -> bool {
        self.current_screen is Main ==> {
            &&& self.snake.len() + 1 < i32::MAX
            &&& self.game_speed + boosts_waiting(self.collectables) < u32::MAX
            &&& self.round_time + 2 * TICK_MILLIS <= u64::MAX
        }
    }

    /// A tick that finds the sub-tick counter at `counter` makes a game
    /// update: a round is played, and the update is due.
    pub open spec fn updates_on_tick(self, counter: u32) -> bool {
        self.current_screen is Main && self.update_due(counter)
    }

    /// Where the sub-tick counter stands after a tick that found it at
    /// `counter`: a game update sets it back, and nothing else moves it.
    pub open spec fn ticked_counter(self, counter: u32) -> u32 {
        if self.updates_on_tick(counter) {
            COUNTER_START
        } else {
            counter
        }
    }

    /// `after` and `counter_after` are a state and a sub-tick counter that
    /// a tick can lead to. During play, when a game update is due, the
    /// update is made and the counter set back. Any other tick changes
    /// nothing, the round time included.
    pub open spec fn ticks_to(
        self,
        counter: u32,
        after: AppView,
        counter_after: u32,
    ) -> bool {
        &&& counter_after == self.ticked_counter(counter)
        &&& if self.updates_on_tick(counter) {
            self.updates_to(after)
        } else {
            after == self
        }
    }

    /// The state after one tick of the blink cadence: every `BLINK_TICKS`
    /// ticks the menu highlight goes over to its other blink phase.
    pub open spec fn blink_step(self) -> AppView {
        if self.blink_countdown <= 1 {
            AppView { tick: !self.tick, blink_countdown: BLINK_TICKS, ..self }
        } else {
            AppView { blink_countdown: (self.blink_countdown - 1) as u32, ..self }
        }
    }

    /// This state with the blink phase and cadence of `other`.
    pub open spec fn with_blink_of(self, other: AppView) -> AppView {
        AppView { tick: other.tick, blink_countdown: other.blink_countdown, ..self }
    }

    /// `after` and `counter_after` are a state and a sub-tick counter that
    /// handling `event` can lead to. A tick event counts the counter down
    /// and then ticks; a counter that has run down to zero without a game
    /// update is set back. The blink cadence takes its step on every tick
    /// event, whatever the screen and whether or not an update was made.
    pub open spec fn handles_to(
        self,
        event: Event,
        counter: u32,
        after: AppView,
        counter_after: u32,
    ) -> bool {
        match event {
            Event::Input(key) => self.reacts_to(key, after) && counter_after == counter,
            Event::GameTick => {
                let counted = (counter - 1) as u32;
                let ticked = after.with_blink_of(self);
                let run = self.ticked_counter(counted);
                &&& self.ticks_to(counted, ticked, run)
                &&& after == ticked.blink_step()
                &&& counter_after == if run == 0 {
                    COUNTER_START
                } else {
                    run
                }
            },
        }
    }
}

/// `states` is a run of game updates, each made from the state before it,
/// in none of which a boost is taken.
pub open spec fn played_without_boost(states: Seq<AppView>) -> bool {
    forall|i: int|
        0 <= i < states.len() - 1 ==> {
            &&& (#[trigger] states[i]).updatable()
            &&& states[i].updates_to(states[i + 1])
            &&& states[i].boosts_taken_next() == 0
        }
}

} // verus!
