//! What holds after every event.

use vstd::prelude::*;
use crate::laws::levels::{lemma_boosts_push, lemma_update_stays_updatable};
use crate::laws::shape::lemma_initial_shape;
use crate::laws::update::{lemma_update_keeps_snake, lemma_update_outcome};
use crate::utils::collectables::AnyCollectable;
use crate::model::AppView;
use crate::utils::enums::Event;
use crate::utils::scores::Score;

verus! {

/// The program starts with a snake.
pub proof fn lemma_initial_snake(scores: Seq<Score>)
    ensures
        AppView::initial(scores).snake.len() >= 1,
{
}

/// No event leaves the program without a snake.
pub proof fn lemma_snake_never_empty(
    state: AppView,
    event: Event,
    counter: u32,
    after: AppView,
    counter_after: u32,
)
    requires
        state.snake.len() >= 1,
        state.handles_to(event, counter, after, counter_after),
    ensures
        after.snake.len() >= 1,
{
    match event {
        Event::Input(key) => {},
        Event::GameTick => {
            if state.updates_on_tick((counter - 1) as u32) {
                lemma_update_keeps_snake(state, after.with_blink_of(state));
            }
        },
    }
}

/// An event leaves the screen as it is, or leads from the menu into a
/// round, from a round to its loss, or from a lost round back to the menu.
pub proof fn lemma_screen_steps(
    state: AppView,
    event: Event,
    counter: u32,
    after: AppView,
    counter_after: u32,
)
    requires
        state.handles_to(event, counter, after, counter_after),
    ensures
        ({
            ||| after.current_screen == state.current_screen
            ||| state.current_screen is Menu && after.current_screen is Main
            ||| state.current_screen is Main && after.current_screen is Lost
            ||| state.current_screen is Lost && after.current_screen is Menu
        }),
{
    match event {
        Event::Input(key) => {},
        Event::GameTick => {
            if state.updates_on_tick((counter - 1) as u32) {
                lemma_update_outcome(state, after.with_blink_of(state));
            }
        },
    }
}

/// An event leaves a state that the next tick can be handled in, if the
/// numbers of the round are far from the limits of the machine.
pub proof fn lemma_event_keeps_tickable(
    state: AppView,
    event: Event,
    counter: u32,
    after: AppView,
    counter_after: u32,
)
    requires
        state.tickable(),
        state.far_from_limits(),
        state.handles_to(event, counter, after, counter_after),
    ensures
        after.tickable(),
{
    match event {
        Event::Input(key) => {
            if !(key is Esc) && state.current_screen is Menu && state.starts_round(key) {
                let start = state.round_start();
                lemma_initial_shape();
                assert(start.collectables =~= Seq::<AnyCollectable>::empty());
                if after.collectables != start.collectables {
                    assert(after.collectables =~= start.collectables.push(
                        after.collectables.last(),
                    ));
                    lemma_boosts_push(start.collectables, after.collectables.last());
                }
            }
        },
        Event::GameTick => {
            let ticked = after.with_blink_of(state);
            if state.updates_on_tick((counter - 1) as u32) {
                if after.current_screen is Main {
                    lemma_update_stays_updatable(state, ticked);
                    lemma_update_outcome(state, ticked);
                }
            }
            assert(after.updatable() == ticked.updatable());
        },
    }
}

} // verus!
