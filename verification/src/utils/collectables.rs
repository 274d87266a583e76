use vstd::prelude::*;
use crate::game::App;
use crate::model::AppView;
use crate::utils::geometry::Position;
use crate::utils::helpers::{
    get_direction_from_vector,
    get_directionvector_from_snake,
    vector_fits,
};
use crate::utils::random::{random_flag, random_in};

verus! {

/// The kinds of item that can lie on the field.
#[derive(Clone, Copy, Debug, PartialEq, Eq, Structural)]
pub enum CollectableType {
    Apple,
    Speed,
    Reverse,
}

/// The shortest and the longest time, in game updates, that a speed boost
/// can be given to run: the time is drawn from `BOOST_MIN..BOOST_END`.
pub const BOOST_MIN: u32 = 10;

pub const BOOST_END: u32 = 20;

impl CollectableType {
    /// The kind of special item that a coin flip stands for.
    pub open spec fn spec_special_for(flag: bool) -> CollectableType {
        if flag {
            CollectableType::Reverse
        } else {
            CollectableType::Speed
        }
    }

    #[verifier::when_used_as_spec(spec_special_for)]
    pub fn special_for(flag: bool) -> (kind: CollectableType)
        ensures
            kind == CollectableType::spec_special_for(flag),
    {
        if flag {
            CollectableType::Reverse
        } else {
            CollectableType::Speed
        }
    }

    /// One of the two kinds other than the apple, chosen at random.
    pub fn from_random_special() -> (kind: CollectableType)
        ensures
            kind != CollectableType::Apple,
    {
        CollectableType::special_for(random_flag())
    }
}

/// Grows the snake when it is eaten; a new one appears at once.
#[derive(Clone, Copy, Debug, PartialEq, Eq, Structural)]
pub struct AppleCollectable {
    pub position: Position,
}

/// Raises the difficulty level for some game updates after it was taken.
/// It lies on the field while `remaining_time` is `None`, and runs, out of
/// sight, while it is `Some`.
#[derive(Clone, Copy, Debug, PartialEq, Eq, Structural)]
pub struct SpeedCollectable {
    pub position: Position,
    pub remaining_time: Option<u32>,
}

/// Turns the snake around: its tail becomes its head.
#[derive(Clone, Copy, Debug, PartialEq, Eq, Structural)]
pub struct ReverseCollectable {
    pub position: Position,
}

/// What every kind of item offers. The contracts of an item's own kind say
/// what it does; here stands what all kinds have in common.
pub trait Collectable: Sized {
    /// The state `app` lets the item be taken: the numbers that this
    /// changes stay numbers of the machine.
    spec fn can_collect(&self, app: AppView) -> bool;

    /// The state `app` lets a game update pass for the item.
    spec fn can_update(&self, app: AppView) -> bool;

    /// The item as it is first put on the field at `position`.
    spec fn fresh_at(position: Position) -> Self;

    /// Where the item lies, or lay when it was taken.
    spec fn place(&self) -> Position;

    /// Taking the item in state `app` can leave the item as `item_after`
    /// and the state as `app_after`, and `remove` tells whether the item
    /// leaves the collection.
    spec fn taken_to(&self, app: AppView, item_after: Self, app_after: AppView, remove: bool) -> bool;

    fn new(x: i64, y: i64) -> (item: Self)
        ensures
            item == Self::fresh_at(Position { x, y }),
    ;

    fn get_position(&self) -> (position: Position)
        ensures
            position == self.place(),
    ;

    /// One game update passes for the item. Says whether the item is to
    /// leave the collection. By default nothing happens.
    fn on_game_update(&mut self, _app: &mut App) -> (remove: bool)
        requires
            old(self).can_update(old(_app)@),
        default_ensures
            !remove,
            *final(self) == *old(self),
            *final(_app) == *old(_app),
    {
        false
    }

    /// The item is taken. Says whether the item is to leave the
    /// collection.
    fn on_collect(&mut self, app: &mut App) -> (remove: bool)
        requires
            old(self).can_collect(old(app)@),
        ensures
            old(self).taken_to(old(app)@, *final(self), final(app)@, remove),
    ;

    /// One step of the item's countdown. By default there is none.
    fn on_second_update(&mut self)
        default_ensures
            *final(self) == *old(self),
    {
    }

    /// Whether the item lies on the field. By default it does.
    fn is_visible(&self) -> (visible: bool)
        default_ensures
            visible,
    {
        true
    }
}

impl Collectable for AppleCollectable {
    open spec fn can_collect(&self, app: AppView) -> bool {
        true
    }

    open spec fn can_update(&self, app: AppView) -> bool {
        true
    }

    open spec fn fresh_at(position: Position) -> Self {
        AppleCollectable { position }
    }

    open spec fn place(&self) -> Position {
        self.position
    }

    /// The apple is eaten: the snake is granted a segment, and a new apple
    /// is put on a free spot. The apple leaves.
    open spec fn taken_to(
        &self,
        app: AppView,
        item_after: Self,
        app_after: AppView,
        remove: bool,
    ) -> bool {
        &&& remove
        &&& item_after == *self
        &&& app.grown().placed(CollectableType::Apple, app_after)
    }

    fn new(x: i64, y: i64) -> (item: Self) {
        AppleCollectable { position: Position { x, y } }
    }

    fn get_position(&self) -> (position: Position) {
        self.position
    }

    fn on_collect(&mut self, app: &mut App) -> (remove: bool) {
        app.increase_lenght();
        app.spawn_item(CollectableType::Apple);
        true
    }
}

impl SpeedCollectable {
    /// The boost is running, and its next countdown step is its last.
    pub open spec fn ends_next(self) -> bool {
        self.remaining_time matches Some(t) && t <= 1
    }

    /// The boost after one step of its countdown; one that lies on the
    /// field or has run out is unchanged.
    pub open spec fn counted_down(self) -> SpeedCollectable {
        match self.remaining_time {
            Some(t) if t > 0 => SpeedCollectable {
                position: self.position,
                remaining_time: Some((t - 1) as u32),
            },
            _ => self,
        }
    }

    /// The boost after `steps` steps of its countdown.
    pub open spec fn after_steps(self, steps: nat) -> SpeedCollectable
        decreases steps,
    {
        if steps == 0 {
            self
        } else {
            self.after_steps((steps - 1) as nat).counted_down()
        }
    }

    pub fn get_remaining_time(&self) -> (time: Option<u32>)
        ensures
            time == self.remaining_time,
    {
        self.remaining_time
    }

    /// The boost starts to run for `time` game updates, and raises the
    /// difficulty level.
    pub fn activate(&mut self, app: &mut App, time: u32)
        requires
            old(app)@.game_speed < u32::MAX,
        ensures
            *final(self) == (SpeedCollectable {
                position: old(self).position,
                remaining_time: Some(time),
            }),
            final(app)@ == old(app)@.boosted(),
    {
        app.game_speed += 1;
        self.remaining_time = Some(time);
    }
}

impl Collectable for SpeedCollectable {
    open spec fn can_collect(&self, app: AppView) -> bool {
        app.game_speed < u32::MAX
    }

    open spec fn can_update(&self, app: AppView) -> bool {
        self.ends_next() ==> app.game_speed >= 1
    }

    open spec fn fresh_at(position: Position) -> Self {
        SpeedCollectable { position, remaining_time: None }
    }

    open spec fn place(&self) -> Position {
        self.position
    }

    /// The boost is taken: it starts to run for a time drawn from
    /// `BOOST_MIN..BOOST_END`, raises the difficulty level, and stays in
    /// the collection.
    open spec fn taken_to(
        &self,
        app: AppView,
        item_after: Self,
        app_after: AppView,
        remove: bool,
    ) -> bool {
        &&& !remove
        &&& item_after.position == self.position
        &&& item_after.remaining_time matches Some(time)
        &&& BOOST_MIN <= time < BOOST_END
        &&& app_after == app.boosted()
    }

    fn new(x: i64, y: i64) -> (item: Self) {
        SpeedCollectable { position: Position { x, y }, remaining_time: None }
    }

    fn get_position(&self) -> (position: Position) {
        self.position
    }

    fn on_collect(&mut self, app: &mut App) -> (remove: bool) {
        self.activate(app, random_in(BOOST_MIN, BOOST_END));
        false
    }

    /// One game update passes: a boost that runs counts down, and when its
    /// time is over it gives the difficulty level back and leaves.
    fn on_game_update(&mut self, app: &mut App) -> (remove: bool)
        ensures
            *final(self) == old(self).counted_down(),
            remove == old(self).ends_next(),
            final(app)@ == if remove {
                old(app)@.slowed()
            } else {
                old(app)@
            },
    {
        self.on_second_update();
        if let Some(remaining_time) = self.remaining_time {
            if remaining_time == 0 {
                app.game_speed -= 1;
                return true;
            }
        }
        false
    }

    /// One step of the countdown.
    fn on_second_update(&mut self)
        ensures
            *final(self) == old(self).counted_down(),
    {
        if let Some(remaining_time) = self.remaining_time {
            if remaining_time > 0 {
                self.remaining_time = Some(remaining_time - 1);
            }
        }
    }

    fn is_visible(&self) -> (visible: bool)
        ensures
            visible == (self.remaining_time is None),
    {
        self.remaining_time.is_none()
    }
}

impl Collectable for ReverseCollectable {
    open spec fn can_collect(&self, app: AppView) -> bool {
        app.snake.len() >= 2 ==> vector_fits(app.snake.reverse())
    }

    open spec fn can_update(&self, app: AppView) -> bool {
        true
    }

    open spec fn fresh_at(position: Position) -> Self {
        ReverseCollectable { position }
    }

    open spec fn place(&self) -> Position {
        self.position
    }

    /// The item is taken: the snake is turned around, and heads the way
    /// that leads from its new second segment to its new head. The item
    /// leaves.
    open spec fn taken_to(
        &self,
        app: AppView,
        item_after: Self,
        app_after: AppView,
        remove: bool,
    ) -> bool {
        &&& remove
        &&& item_after == *self
        &&& app_after == app.reversed()
    }

    fn new(x: i64, y: i64) -> (item: Self) {
        ReverseCollectable { position: Position { x, y } }
    }

    fn get_position(&self) -> (position: Position) {
        self.position
    }

    fn on_collect(&mut self, app: &mut App) -> (remove: bool) {
        app.reverse_snake();
        if app.snake.len() >= 2 {
            let vector: (i64, i64) = get_directionvector_from_snake(&app.snake);
            app.direction = get_direction_from_vector(&vector);
        }
        true
    }
}

/// An item of any kind.
#[derive(Clone, Copy, Debug, PartialEq, Eq, Structural)]
pub enum AnyCollectable {
    Apple(AppleCollectable),
    Speed(SpeedCollectable),
    Reverse(ReverseCollectable),
}

impl AnyCollectable {
    /// The item of kind `kind` as it is first put on the field at
    /// `position`.
    pub open spec fn fresh(kind: CollectableType, position: Position) -> AnyCollectable {
        match kind {
            CollectableType::Apple => AnyCollectable::Apple(AppleCollectable::fresh_at(position)),
            CollectableType::Speed => AnyCollectable::Speed(SpeedCollectable::fresh_at(position)),
            CollectableType::Reverse => AnyCollectable::Reverse(
                ReverseCollectable::fresh_at(position),
            ),
        }
    }

    /// Where the item lies, or lay when it was taken.
    pub open spec fn position(self) -> Position {
        match self {
            AnyCollectable::Apple(a) => a.position,
            AnyCollectable::Speed(s) => s.position,
            AnyCollectable::Reverse(r) => r.position,
        }
    }

    /// The item lies on the field, where it is drawn and can be taken.
    pub open spec fn visible(self) -> bool {
        match self {
            AnyCollectable::Speed(s) => s.remaining_time is None,
            _ => true,
        }
    }

    /// The item after one step of its countdown, if it has one.
    pub open spec fn counted_down(self) -> AnyCollectable {
        match self {
            AnyCollectable::Speed(s) => AnyCollectable::Speed(s.counted_down()),
            _ => self,
        }
    }

    /// Taking this item in state `app` can leave the item as `item_after`
    /// and the state as `app_after`, and `remove` tells whether the item
    /// leaves the collection.
    pub open spec fn collects_to(
        self,
        app: AppView,
        item_after: AnyCollectable,
        app_after: AppView,
        remove: bool,
    ) -> bool {
        match self {
            AnyCollectable::Apple(a) => {
                &&& item_after matches AnyCollectable::Apple(b)
                &&& a.taken_to(app, b, app_after, remove)
            },
            AnyCollectable::Speed(s) => {
                &&& item_after matches AnyCollectable::Speed(t)
                &&& s.taken_to(app, t, app_after, remove)
            },
            AnyCollectable::Reverse(r) => {
                &&& item_after matches AnyCollectable::Reverse(q)
                &&& r.taken_to(app, q, app_after, remove)
            },
        }
    }

    /// The state `app` lets the item be taken: the numbers that this
    /// changes stay numbers of the machine.
    pub open spec fn can_collect(self, app: AppView) -> bool {
        match self {
            AnyCollectable::Apple(a) => a.can_collect(app),
            AnyCollectable::Speed(s) => s.can_collect(app),
            AnyCollectable::Reverse(r) => r.can_collect(app),
        }
    }

    /// The state `app` lets a game update pass for the item.
    pub open spec fn can_update(self, app: AppView) -> bool {
        match self {
            AnyCollectable::Apple(a) => a.can_update(app),
            AnyCollectable::Speed(s) => s.can_update(app),
            AnyCollectable::Reverse(r) => r.can_update(app),
        }
    }

    /// The item is a boost that runs and whose next countdown step is its
    /// last.
    pub open spec fn ends_next(self) -> bool {
        self matches AnyCollectable::Speed(s) && s.ends_next()
    }

    pub fn new(x: i64, y: i64, collectable_type: CollectableType) -> (item: Self)
        ensures
            item == AnyCollectable::fresh(collectable_type, Position { x, y }),
    {
        match collectable_type {
            CollectableType::Apple => AnyCollectable::Apple(AppleCollectable::new(x, y)),
            CollectableType::Speed => AnyCollectable::Speed(SpeedCollectable::new(x, y)),
            CollectableType::Reverse => AnyCollectable::Reverse(ReverseCollectable::new(x, y)),
        }
    }

    pub fn get_position(&self) -> (position: Position)
        ensures
            position == self.position(),
    {
        match self {
            AnyCollectable::Apple(a) => a.get_position(),
            AnyCollectable::Speed(s) => s.get_position(),
            AnyCollectable::Reverse(r) => r.get_position(),
        }
    }

    /// One game update passes for the item: a boost that runs counts
    /// down, and gives the difficulty level back when its time is over.
    /// Says whether the item is to leave the collection.
    pub fn on_game_update(&mut self, app: &mut App) -> (remove: bool)
        requires
            old(self).can_update(old(app)@),
        ensures
            *final(self) == old(self).counted_down(),
            remove == old(self).ends_next(),
            final(app)@ == if remove {
                old(app)@.slowed()
            } else {
                old(app)@
            },
    {
        match self {
            AnyCollectable::Apple(a) => a.on_game_update(app),
            AnyCollectable::Speed(s) => s.on_game_update(app),
            AnyCollectable::Reverse(r) => r.on_game_update(app),
        }
    }

    /// The item is taken, and does what its kind does. Says whether the
    /// item is to leave the collection.
    pub fn on_collect(&mut self, app: &mut App) -> (remove: bool)
        requires
            old(self).can_collect(old(app)@),
        ensures
            old(self).collects_to(old(app)@, *final(self), final(app)@, remove),
    {
        match self {
            AnyCollectable::Apple(a) => a.on_collect(app),
            AnyCollectable::Speed(s) => s.on_collect(app),
            AnyCollectable::Reverse(r) => r.on_collect(app),
        }
    }

    /// One step of the item's countdown.
    pub fn on_second_update(&mut self)
        ensures
            *final(self) == old(self).counted_down(),
    {
        match self {
            AnyCollectable::Apple(a) => a.on_second_update(),
            AnyCollectable::Speed(s) => s.on_second_update(),
            AnyCollectable::Reverse(r) => r.on_second_update(),
        }
    }

    pub fn is_visible(&self) -> (visible: bool)
        ensures
            visible == self.visible(),
    {
        match self {
            AnyCollectable::Apple(a) => a.is_visible(),
            AnyCollectable::Speed(s) => s.is_visible(),
            AnyCollectable::Reverse(r) => r.is_visible(),
        }
    }
}

} // verus!
