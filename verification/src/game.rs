use vstd::prelude::*;
use vstd::string::*;
use crate::utils::collectables::{AnyCollectable, CollectableType};
use crate::utils::enums::{Action, CurrentScreen, Direction, Event, Key};
use crate::utils::geometry::Position;
use crate::utils::random::random_in;
use crate::laws::apples::lemma_update_keeps_apples;
use crate::laws::pass::{
    lemma_level_fits,
    lemma_pass_advance,
    lemma_pass_keeps_spots,
    lemma_same_spots,
    lemma_step_keeps_spots,
};
use crate::laws::screens::{lemma_event_keeps_tickable, lemma_snake_never_empty};
use crate::laws::update::{lemma_update_keeps_snake, lemma_update_outcome};
use crate::model::{
    apple_count,
    boosts_running,
    boosts_waiting,
    has_special,
    initial_snake,
    AppView,
    BLINK_TICKS,
    COUNTER_START,
    INITIAL_LENGTH,
    SPECIAL_END,
    SPECIAL_MIN,
    TICK_MILLIS,
};
use crate::utils::scores::{sort_ranked, Score, ScoreManager};

verus! {

/// How often a spot for a new item is drawn at random before the field is
/// searched in order.
pub const SPAWN_ROLLS: u32 = 1000;

/// The whole state of the program: screen, snake, items and scores.
pub struct App {
    pub exit: bool,
    pub current_screen: CurrentScreen,
    pub menu_cursor: Option<usize>,
    pub direction: Direction,
    /// The segments of the snake, head first.
    pub snake: Vec<Position>,
    /// A change of heading was taken since the last game update.
    pub blocked: bool,
    /// Width and height of the field, in cells.
    pub field_size: (u32, u32),
    /// The blink phase of the menu highlight.
    pub tick: bool,
    /// Ticks until the menu highlight blinks next.
    pub blink_countdown: u32,
    pub collectables: Vec<AnyCollectable>,
    /// The difficulty level.
    pub game_speed: u32,
    /// The time played in this round, in milliseconds.
    pub round_time: u64,
    /// Game updates until the next special item is due.
    pub random_item_timer: u32,
    /// The snake keeps its tail at its next move.
    pub growth_granted: bool,
    pub score_manager: ScoreManager,
}

impl View for App {
    type V = AppView;

    open spec fn view(&self) -> AppView {
        AppView {
            exit: self.exit,
            current_screen: self.current_screen,
            menu_cursor: self.menu_cursor,
            direction: self.direction,
            snake: self.snake@,
            blocked: self.blocked,
            field_size: self.field_size,
            tick: self.tick,
            blink_countdown: self.blink_countdown,
            collectables: self.collectables@,
            game_speed: self.game_speed,
            round_time: self.round_time,
            random_item_timer: self.random_item_timer,
            growth_granted: self.growth_granted,
            scores: self.score_manager@,
        }
    }
}

impl App {
    /// The state the program starts in: the menu, with the scores that
    /// were stored before, ranked.
    pub fn new(stored: Vec<Score>) -> (app: Self)
        ensures
            app@ == AppView::initial(sort_ranked(stored@)),
    {
        let mut snake: Vec<Position> = Vec::new();
        snake.push(Position { x: 42, y: 40 });
        snake.push(Position { x: 44, y: 40 });
        snake.push(Position { x: 40, y: 40 });
        let app = App {
            exit: false,
            current_screen: CurrentScreen::Menu,
            menu_cursor: Some(0),
            direction: Direction::Up,
            snake,
            game_speed: 0,
            blocked: true,
            field_size: (50, 25),
            tick: false,
            blink_countdown: BLINK_TICKS,
            collectables: Vec::new(),
            round_time: 0,
            random_item_timer: 50,
            growth_granted: false,
            score_manager: ScoreManager::new(stored),
        };
        assert(app@.snake =~= AppView::initial(sort_ranked(stored@)).snake);
        assert(app@.collectables =~= AppView::initial(sort_ranked(stored@)).collectables);
        app
    }

    /// The score of the round: the segments that the snake has gained.
    pub fn get_score(&self) -> (score: i32)
        requires
            self@.snake.len() <= i32::MAX,
        ensures
            score == self@.score(),
    {
        self.snake.len() as i32 - INITIAL_LENGTH
    }

    pub fn get_highscores(&self) -> (scores: &Vec<Score>)
        ensures
            scores@ == self@.scores,
    {
        self.score_manager.get_scores()
    }

    /// Handles one event of the queue, and says what is left to do for the
    /// control loop.
    pub fn handle_event(&mut self, event: Event, counter: &mut u32) -> (action: Action)
        requires
            event is GameTick ==> *old(counter) >= 1 && old(self)@.tickable_at(
                (*old(counter) - 1) as u32,
            ),
        ensures
            old(self)@.handles_to(event, *old(counter), final(self)@, *final(counter)),
            event is GameTick ==> *final(counter) >= 1,
            old(self)@.snake.len() >= 1 ==> final(self)@.snake.len() >= 1,
            old(self)@.tickable() && old(self)@.far_from_limits() ==> final(self)@.tickable(),
            action == if old(self)@.current_screen is Main && final(self)@.current_screen is Lost {
                Action::SaveScores
            } else {
                Action::Idle
            },
    {
        let was_playing = self.current_screen == CurrentScreen::Main;
        match event {
            Event::Input(key) => {
                self.handle_input_events(key);
            },
            Event::GameTick => {
                *counter -= 1;
                self.on_tick(counter);
                let ghost ticked = self@;
                proof {
                    if old(self)@.updates_on_tick((*old(counter) - 1) as u32) {
                        lemma_update_outcome(old(self)@, ticked);
                    }
                }
                if *counter == 0 {
                    *counter = COUNTER_START;
                }
                if self.blink_countdown <= 1 {
                    self.blink_countdown = BLINK_TICKS;
                    self.tick = !self.tick;
                } else {
                    self.blink_countdown -= 1;
                }
                assert(self@.with_blink_of(old(self)@) == ticked);
            },
        }
        proof {
            if old(self)@.snake.len() >= 1 {
                lemma_snake_never_empty(old(self)@, event, *old(counter), self@, *counter);
            }
            if old(self)@.tickable() && old(self)@.far_from_limits() {
                lemma_event_keeps_tickable(old(self)@, event, *old(counter), self@, *counter);
            }
        }
        if was_playing && self.current_screen == CurrentScreen::Lost {
            Action::SaveScores
        } else {
            Action::Idle
        }
    }

    /// A key press, on whichever screen the program is.
    pub fn handle_input_events(&mut self, key: Key)
        ensures
            old(self)@.reacts_to(key, final(self)@),
    {
        match self.current_screen {
            CurrentScreen::Main => match key {
                Key::Esc => self.exit = true,
                _ => self.handle_movement_input(&key),
            },
            CurrentScreen::Lost => match key {
                Key::Esc => self.exit = true,
                Key::Enter => {
                    self.current_screen = CurrentScreen::Menu;
                    self.menu_cursor = Some(0);
                },
                _ => {},
            },
            CurrentScreen::Menu => match key {
                Key::Esc => self.exit = true,
                _ => self.handle_menu_input(&key),
            },
        }
    }

    /// Starts a round: the snake and the counters of the round are set
    /// back, and the apple is put on the field.
    pub fn start_game(&mut self)
        ensures
            old(self)@.starts_to(final(self)@),
    {
        self.current_screen = CurrentScreen::Main;
        let mut snake: Vec<Position> = Vec::new();
        snake.push(Position { x: 46, y: 40 });
        snake.push(Position { x: 44, y: 40 });
        snake.push(Position { x: 42, y: 40 });
        snake.push(Position { x: 40, y: 40 });
        snake.push(Position { x: 38, y: 40 });
        assert(snake@ =~= initial_snake());
        self.snake = snake;
        self.direction = Direction::Right;
        self.menu_cursor = None;
        self.collectables = Vec::new();
        self.game_speed = 0;
        self.growth_granted = false;
        self.round_time = 0;
        assert(self@.collectables =~= Seq::<AnyCollectable>::empty());
        assert(self@ == old(self)@.round_start());
        self.spawn_item(CollectableType::Apple);
    }

    /// A key press in the menu.
    pub fn handle_menu_input(&mut self, key: &Key)
        ensures
            old(self)@.menu_to(*key, final(self)@),
    {
        match key {
            Key::Up => {
                if let Some(cursor) = self.menu_cursor {
                    self.menu_cursor = Some(
                        if cursor == 0 {
                            0
                        } else {
                            cursor - 1
                        },
                    );
                } else {
                    self.menu_cursor = Some(0);
                }
            },
            Key::Down => {
                if let Some(_cursor) = self.menu_cursor {
                    self.menu_cursor = Some(1);
                } else {
                    self.menu_cursor = Some(0);
                }
            },
            Key::Enter => {
                if let Some(cursor) = self.menu_cursor {
                    if cursor == 0 {
                        self.start_game();
                    } else if cursor == 1 {
                        self.exit = true;
                    }
                }
            },
            _ => {},
        }
    }

    /// A key press during play.
    pub fn handle_movement_input(&mut self, key: &Key)
        ensures
            final(self)@ == old(self)@.steer(*key),
    {
        if !self.blocked {
            match key.heading() {
                Some(heading) => {
                    if heading != self.direction.opposite() {
                        self.direction = heading;
                        self.blocked = true;
                    }
                },
                None => {},
            }
        }
    }

    /// One tick of the ticker, with the sub-tick counter already counted
    /// down for it. During play, when a game update is due, the update is
    /// made; any other tick changes nothing.
    pub fn on_tick(&mut self, counter: &mut u32)
        requires
            old(self)@.tickable_at(*old(counter)),
        ensures
            old(self)@.ticks_to(*old(counter), final(self)@, *final(counter)),
            final(self)@.round_time == if old(self)@.updates_on_tick(*old(counter)) {
                old(self)@.round_time + TICK_MILLIS
            } else {
                old(self)@.round_time as int
            },
    {
        match self.current_screen {
            CurrentScreen::Menu => {},
            CurrentScreen::Lost => {},
            CurrentScreen::Main => {
                if *counter == self.game_speed || *counter == 0 {
                    self.game_update();
                    *counter = COUNTER_START;
                }
            },
        }
    }

    /// Puts a new item on a spot that the snake leaves free, if there is
    /// one. The spot is drawn at random, and drawn again while a segment of
    /// the snake is on it; after `SPAWN_ROLLS` draws the first free spot is
    /// taken.
    pub fn spawn_item(&mut self, collectable_type: CollectableType)
        ensures
            old(self)@.placed(collectable_type, final(self)@),
    {
        let width: u32 = self.field_size.0;
        let height: u32 = self.field_size.1;
        if width >= 3 && height >= 3 {
            let mut rolls: u32 = 0;
            while rolls < SPAWN_ROLLS
                invariant
                    self@ == old(self)@,
                    width == self.field_size.0 && height == self.field_size.1,
                    width >= 3 && height >= 3,
                decreases SPAWN_ROLLS - rolls,
            {
                let x: u32 = random_in(1, width - 1);
                let y: u32 = random_in(1, height - 1);
                let p = Position::from_cell(x, y);
                if !self.snake_contains(p) {
                    self.put_item(p, collectable_type);
                    return;
                }
                rolls = rolls + 1;
            }
        }
        match self.first_free_spot() {
            Some(p) => self.put_item(p, collectable_type),
            None => {},
        }
    }

    /// Puts a new item on the free spot `p`.
    fn put_item(&mut self, p: Position, collectable_type: CollectableType)
        requires
            old(self)@.free_spot(p),
        ensures
            old(self)@.placed(collectable_type, final(self)@),
    {
        self.collectables.push(AnyCollectable::new(p.x, p.y, collectable_type));
        assert(self@.collectables.last().position() == p);
    }

    /// The first spot, column by column, that the snake leaves free.
    pub fn first_free_spot(&self) -> (spot: Option<Position>)
        ensures
            match spot {
                Some(p) => {
                    &&& self@.free_spot(p)
                    &&& forall|q: Position| #[trigger]
                        self@.free_spot(q) ==> q.x > p.x || (q.x == p.x && q.y >= p.y)
                },
                None => !self@.has_free_spot(),
            },
    {
        let width: u32 = self.field_size.0;
        let height: u32 = self.field_size.1;
        if width < 3 || height < 3 {
            return None;
        }
        let mut x: u32 = 1;
        while x < width - 1
            invariant
                width == self.field_size.0 && height == self.field_size.1,
                width >= 3 && height >= 3,
                1 <= x <= width - 1,
                forall|p: Position| #[trigger] self@.free_spot(p) ==> p.x >= 2 * x,
            decreases width - x,
        {
            let mut y: u32 = 1;
            while y < height - 1
                invariant
                    width == self.field_size.0 && height == self.field_size.1,
                    width >= 3 && height >= 3,
                    1 <= x < width - 1,
                    1 <= y <= height - 1,
                    forall|p: Position| #[trigger]
                        self@.free_spot(p) ==> p.x >= 2 * x && (p.x == 2 * x ==> p.y >= 2 * y),
                decreases height - y,
            {
                let p = Position::from_cell(x, y);
                if !self.snake_contains(p) {
                    return Some(p);
                }
                assert forall|q: Position| #[trigger] self@.free_spot(q) && q.x == 2 * x implies q.y
                    >= 2 * (y + 1) by {
                    if q.y == 2 * y {
                        assert(q == p);
                    }
                }
                y = y + 1;
            }
            x = x + 1;
        }
        None
    }

    /// Whether a segment of the snake is on `p`.
    pub fn snake_contains(&self, p: Position) -> (found: bool)
        ensures
            found == self@.snake.contains(p),
    {
        let mut i: usize = 0;
        while i < self.snake.len()
            invariant
                i <= self.snake@.len(),
                forall|j: int| 0 <= j < i ==> self.snake@[j] != p,
            decreases self.snake@.len() - i,
        {
            if self.snake[i] == p {
                return true;
            }
            i = i + 1;
        }
        false
    }

    /// One game update: the round time grows by the tick interval; then
    /// come the pass over the items, the move of the snake, the countdown
    /// for special items, and the check for a collision.
    pub fn game_update(&mut self)
        requires
            old(self)@.updatable(),
        ensures
            old(self)@.updates_to(final(self)@),
            final(self)@.snake == old(self)@.advanced().snake,
            final(self)@.direction == old(self)@.advanced().direction,
            final(self)@.game_speed == old(self)@.advanced().game_speed,
            final(self)@.current_screen == if old(self)@.advanced().collided() {
                CurrentScreen::Lost
            } else {
                old(self)@.current_screen
            },
            final(self)@.round_time == old(self)@.round_time + TICK_MILLIS,
            old(self)@.snake.len() <= final(self)@.snake.len() <= old(self)@.snake.len() + 1,
            old(self)@.has_free_spot() ==> apple_count(final(self)@.collectables) == apple_count(
                old(self)@.collectables,
            ),
    {
        self.round_time += TICK_MILLIS;
        let ghost start = self@;
        self.check_collectable_collision();
        let ghost passed = self@;
        proof {
            lemma_pass_keeps_spots(start, start.collectables);
        }
        self.update_snake_position();
        self.spawn_special_if_due();
        let ghost respawned = self@;
        self.settle();
        assert(start.passes_to(passed) && passed.moved().respawns_to(respawned)
            && respawned.settles_to(self@));
        proof {
            lemma_update_outcome(old(self)@, self@);
            lemma_update_keeps_snake(old(self)@, self@);
            if old(self)@.has_free_spot() {
                lemma_update_keeps_apples(old(self)@, self@);
            }
        }
    }

    /// The pass over the items: each item that was in the collection is
    /// dealt with, in order.
    pub fn check_collectable_collision(&mut self)
        requires
            old(self)@.passable(),
        ensures
            old(self)@.passes_to(final(self)@),
    {
        let ghost start = self@;
        let n: usize = self.collectables.len();
        let mut done: usize = 0;
        let mut kept: usize = 0;
        proof {
            assert(start.collectables.take(0) =~= Seq::<AnyCollectable>::empty());
            assert(start.collectables.skip(0) =~= start.collectables);
            assert(start.collectables.subrange(0, n as int) =~= start.collectables);
        }
        while done < n
            invariant
                n == start.collectables.len(),
                start.pass_reached(done as int, kept as int, self@),
                self@.snake.len() >= 1,
                forall|i: int| 0 <= i < self@.snake.len() ==> (#[trigger] self@.snake[i]).in_range(),
                boosts_running(start.collectables.skip(done as int)) <= self@.game_speed,
                self@.game_speed + boosts_waiting(start.collectables.skip(done as int))
                    <= u32::MAX,
            decreases n - done,
        {
            let ghost before = self@;
            proof {
                assert(before.collectables[kept as int] == before.collectables.subrange(
                    kept as int,
                    kept + (n - done),
                )[0]);
                lemma_level_fits(before, start.collectables, done as int);
                lemma_step_keeps_spots(before, start.collectables[done as int]);
            }
            let collectable = self.collectables.remove(kept);
            let stays = self.deal_with(collectable);
            let ghost dealt = self@;
            match stays {
                Some(item) => {
                    self.collectables.insert(kept, item);
                    kept = kept + 1;
                },
                None => {},
            }
            proof {
                lemma_pass_advance(
                    start,
                    done as int,
                    if stays is Some {
                        kept - 1
                    } else {
                        kept as int
                    },
                    before,
                    collectable,
                    dealt,
                    stays,
                    self@,
                );
            }
            done = done + 1;
        }
        proof {
            assert(start.collectables.take(n as int) =~= start.collectables);
        }
    }

    /// Deals with one item that was taken out of the collection: it is
    /// taken if it lies under the head, and one game update passes for it
    /// if it stays. Gives the item back unless it leaves.
    pub fn deal_with(&mut self, collectable: AnyCollectable) -> (kept: Option<AnyCollectable>)
        requires
            old(self)@.snake.len() >= 1,
            old(self)@.step_fits(collectable),
        ensures
            final(self)@ == old(self)@.pass_step(collectable).with_items(
                final(self)@.collectables,
            ),
            kept is None == old(self)@.leaves(collectable),
            kept matches Some(item) ==> old(self)@.stays_as(collectable, item),
            if collectable is Apple && old(self)@.takes(collectable) {
                old(self)@.placed(
                    CollectableType::Apple,
                    old(self)@.with_items(final(self)@.collectables),
                )
            } else {
                final(self)@.collectables == old(self)@.collectables
            },
    {
        let mut collectable = collectable;
        let mut should_remove = false;
        if collectable.is_visible() && self.snake[0] == collectable.get_position() {
            if collectable.on_collect(self) {
                should_remove = true;
            }
        }
        if !should_remove && collectable.on_game_update(self) {
            should_remove = true;
        }
        proof {
            lemma_same_spots(old(self)@, old(self)@.grown());
        }
        if should_remove {
            None
        } else {
            Some(collectable)
        }
    }

    /// Grants the snake one segment: at its next move it keeps its tail.
    pub fn increase_lenght(&mut self)
        ensures
            final(self)@ == old(self)@.grown(),
    {
        self.growth_granted = true;
    }

    /// Turns the snake around: its segments in the opposite order.
    pub fn reverse_snake(&mut self)
        ensures
            final(self)@ == (AppView { snake: old(self)@.snake.reverse(), ..old(self)@ }),
    {
        let n: usize = self.snake.len();
        let mut turned: Vec<Position> = Vec::new();
        let mut i: usize = n;
        while i > 0
            invariant
                i <= n == self.snake@.len(),
                turned@.len() == n - i,
                forall|j: int| 0 <= j < turned@.len() ==> turned@[j] == self.snake@[n - 1 - j],
            decreases i,
        {
            i = i - 1;
            turned.push(self.snake[i]);
        }
        assert(turned@ =~= self.snake@.reverse());
        self.snake = turned;
    }

    /// Moves the snake one step in its heading.
    pub fn update_snake_position(&mut self)
        requires
            old(self)@.snake.len() >= 1,
            old(self)@.snake[0].can_step(old(self)@.direction),
        ensures
            final(self)@ == old(self)@.moved(),
    {
        let new_head = self.snake[0].step(self.direction);
        self.snake.insert(0, new_head);
        if self.growth_granted {
            self.growth_granted = false;
        } else {
            self.snake.pop();
        }
        self.blocked = false;
        assert(self@.snake =~= old(self)@.moved().snake);
    }

    /// One step of the countdown for special items. When it has run out, a
    /// special item of a kind chosen at random is put on the field, unless
    /// the collection holds a special item already, and the countdown
    /// starts again from a time drawn from `SPECIAL_MIN..SPECIAL_END`.
    pub fn spawn_special_if_due(&mut self)
        ensures
            old(self)@.respawns_to(final(self)@),
    {
        if self.random_item_timer == 0 {
            if !self.has_special_item() {
                self.spawn_item(CollectableType::from_random_special());
            }
            self.random_item_timer = random_in(SPECIAL_MIN, SPECIAL_END);
        } else {
            self.random_item_timer -= 1;
        }
    }

    /// Whether some item of the collection is no apple.
    pub fn has_special_item(&self) -> (found: bool)
        ensures
            found == has_special(self@.collectables),
    {
        let mut i: usize = 0;
        while i < self.collectables.len()
            invariant
                i <= self.collectables@.len(),
                forall|j: int| 0 <= j < i ==> self.collectables@[j] is Apple,
            decreases self.collectables@.len() - i,
        {
            match self.collectables[i] {
                AnyCollectable::Apple(_) => {},
                _ => {
                    return true;
                },
            }
            i = i + 1;
        }
        false
    }

    /// Whether the head is on another segment or outside the field.
    pub fn has_snake_collision(&self) -> (hit: bool)
        requires
            self@.snake.len() >= 1,
        ensures
            hit == self@.collided(),
    {
        let head = self.snake[0];
        let mut i: usize = 1;
        while i < self.snake.len()
            invariant
                1 <= i <= self.snake@.len(),
                head == self.snake@[0],
                forall|j: int| 1 <= j < i ==> self.snake@[j] != head,
            decreases self.snake@.len() - i,
        {
            if self.snake[i] == head {
                return true;
            }
            i = i + 1;
        }
        !head.inside(self.field_size)
    }

    /// Ends the round if the snake has collided: the score is entered in
    /// the ranking under the player's name.
    pub fn settle(&mut self)
        requires
            1 <= old(self)@.snake.len() <= i32::MAX,
        ensures
            old(self)@.settles_to(final(self)@),
    {
        if self.has_snake_collision() {
            self.current_screen = CurrentScreen::Lost;
            let score: i32 = self.get_score();
            let name = String::from_str("you");
            let ghost entry = Score { player_name: name, score: score };
            self.score_manager.add_score(name, score);
            assert(self@ == old(self)@.lost_with(entry));
        }
    }

    /// Whether the state is one that a tick can be handled in when the
    /// sub-tick counter stands at `counter`.
    pub fn is_tickable_at(&self, counter: u32) -> (ok: bool)
        ensures
            ok == self@.tickable_at(counter),
    {
        match self.current_screen {
            CurrentScreen::Main => {
                let due = counter == self.game_speed || counter == 0;
                !due || self.is_updatable()
            },
            _ => true,
        }
    }

    /// Whether the state is one that a tick can be handled in, wherever the
    /// sub-tick counter stands.
    pub fn is_tickable(&self) -> (ok: bool)
        ensures
            ok == self@.tickable(),
    {
        match self.current_screen {
            CurrentScreen::Main => self.is_updatable(),
            _ => true,
        }
    }

    /// Whether the state is one that a game update can be made from.
    pub fn is_updatable(&self) -> (ok: bool)
        ensures
            ok == self@.updatable(),
    {
        self.round_time <= u64::MAX - TICK_MILLIS && self.is_passable() && self.snake.len()
            < 0x7fff_ffff
    }

    /// Whether the state is one that the pass over the items can be made
    /// from.
    pub fn is_passable(&self) -> (ok: bool)
        ensures
            ok == self@.passable(),
    {
        if self.snake.len() < 1 || !self.snake_in_range() {
            return false;
        }
        let counts: (usize, usize) = self.count_boosts();
        counts.1 as u128 <= self.game_speed as u128 && self.game_speed as u128 + counts.0 as u128
            <= 0xffff_ffff
    }

    /// Whether every segment of the snake is within the range of
    /// coordinates.
    fn snake_in_range(&self) -> (ok: bool)
        ensures
            ok == (forall|i: int|
                0 <= i < self@.snake.len() ==> (#[trigger] self@.snake[i]).in_range()),
    {
        let mut i: usize = 0;
        while i < self.snake.len()
            invariant
                i <= self.snake@.len(),
                forall|j: int| 0 <= j < i ==> (#[trigger] self.snake@[j]).in_range(),
            decreases self.snake@.len() - i,
        {
            if !self.snake[i].check_in_range() {
                assert(!self@.snake[i as int].in_range());
                return false;
            }
            i = i + 1;
        }
        true
    }

    /// The numbers of boosts in the collection that lie on the field and
    /// that run.
    fn count_boosts(&self) -> (counts: (usize, usize))
        ensures
            counts.0 == boosts_waiting(self@.collectables),
            counts.1 == boosts_running(self@.collectables),
    {
        let n: usize = self.collectables.len();
        let mut waiting: usize = 0;
        let mut running: usize = 0;
        let mut i: usize = n;
        proof {
            assert(self@.collectables.skip(n as int) =~= Seq::<AnyCollectable>::empty());
        }
        while i > 0
            invariant
                i <= n == self.collectables@.len(),
                waiting <= n - i,
                running <= n - i,
                waiting == boosts_waiting(self.collectables@.skip(i as int)),
                running == boosts_running(self.collectables@.skip(i as int)),
            decreases i,
        {
            i = i - 1;
            proof {
                assert(self.collectables@.skip(i as int).drop_first() =~= self.collectables@.skip(
                    i + 1,
                ));
            }
            match self.collectables[i] {
                AnyCollectable::Speed(boost) => {
                    if boost.remaining_time.is_none() {
                        waiting = waiting + 1;
                    } else {
                        running = running + 1;
                    }
                },
                _ => {},
            }
        }
        proof {
            assert(self.collectables@.skip(0) =~= self.collectables@);
        }
        (waiting, running)
    }
}

} // verus!
