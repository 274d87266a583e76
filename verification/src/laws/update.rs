//! What a game update leaves no choice about.

use vstd::prelude::*;
use crate::laws::pass::{lemma_pass_keeps_rest, lemma_pass_keeps_spots};
use crate::model::AppView;
use crate::utils::enums::CurrentScreen;

verus! {

/// What a game update leaves no choice about: the snake, its heading, the
/// difficulty level and the screen are those of the pass over the items
/// followed by the move, the round is lost exactly if the snake has
/// collided, and a round that goes on keeps its ranking.
pub proof fn lemma_update_outcome(state: AppView, after: AppView)
    requires
        state.updates_to(after),
    ensures
        ({
            let moved = state.advanced();
            &&& after.snake == moved.snake
            &&& after.direction == moved.direction
            &&& after.game_speed == moved.game_speed
            &&& !after.blocked
            &&& !after.growth_granted
            &&& after.current_screen == if moved.collided() {
                CurrentScreen::Lost
            } else {
                state.current_screen
            }
            &&& !moved.collided() ==> after.scores == state.scores
            &&& after.exit == state.exit
            &&& after.menu_cursor == state.menu_cursor
            &&& after.field_size == state.field_size
            &&& after.tick == state.tick
            &&& after.blink_countdown == state.blink_countdown
            &&& after.round_time == state.timed().round_time
        }),
{
    let (a, b) = choose|a: AppView, b: AppView|
        #![trigger state.timed().passes_to(a), b.settles_to(after)]
        state.timed().passes_to(a) && a.moved().respawns_to(b) && b.settles_to(after);
    let moved = state.advanced();
    lemma_pass_keeps_rest(state.timed(), state.collectables);
    assert(a.moved() == moved.with_items(a.collectables));
    assert(b == moved.with_items(b.collectables).with_timer(b.random_item_timer));
    assert(b.collided() == moved.collided());
}

/// A game update never shortens the snake, and adds at most one segment.
pub proof fn lemma_update_keeps_snake(state: AppView, after: AppView)
    requires
        state.snake.len() >= 1,
        state.updates_to(after),
    ensures
        state.snake.len() <= after.snake.len() <= state.snake.len() + 1,
{
    lemma_update_outcome(state, after);
    lemma_pass_keeps_spots(state.timed(), state.collectables);
}

} // verus!
