//! The snake grows by eating, and by nothing else.

use vstd::prelude::*;
use crate::laws::update::lemma_update_outcome;
use crate::model::AppView;
use crate::utils::collectables::AnyCollectable;

verus! {

/// While no reverse item lies under the head, the pass over the items
/// leaves the snake and its heading as they are, and grants growth exactly
/// if it was granted before or an apple lies under the head.
pub proof fn lemma_pass_without_reverse(state: AppView, items: Seq<AnyCollectable>)
    requires
        forall|i: int|
            0 <= i < items.len() && (#[trigger] items[i]) is Reverse ==> items[i].position()
                != state.head(),
    ensures
        state.pass_state(items).snake == state.snake,
        state.pass_state(items).direction == state.direction,
        state.pass_state(items).growth_granted == (state.growth_granted || exists|i: int|
            0 <= i < items.len() && (#[trigger] items[i]) is Apple && items[i].position()
                == state.head()),
    decreases items.len(),
{
    if items.len() > 0 {
        let front = items.drop_last();
        assert forall|i: int| 0 <= i < front.len() && (#[trigger] front[i]) is Reverse implies front[i].position()
            != state.head() by {
            assert(front[i] == items[i]);
        }
        lemma_pass_without_reverse(state, front);
        let granted_front = exists|i: int|
            0 <= i < front.len() && (#[trigger] front[i]) is Apple && front[i].position()
                == state.head();
        let granted = exists|i: int|
            0 <= i < items.len() && (#[trigger] items[i]) is Apple && items[i].position()
                == state.head();
        if granted_front {
            let i = choose|i: int|
                0 <= i < front.len() && (#[trigger] front[i]) is Apple && front[i].position()
                    == state.head();
            assert(items[i] == front[i]);
        }
        if granted {
            let i = choose|i: int|
                0 <= i < items.len() && (#[trigger] items[i]) is Apple && items[i].position()
                    == state.head();
            if i < front.len() {
                assert(front[i] == items[i]);
            }
        }
        assert(items[items.len() - 1] == items.last());
    }
}

/// A game update in which the snake eats an apple makes the snake one
/// segment longer: a new head in front, and every segment kept. Its heading
/// stays, unless a reverse item lay under the head too.
pub proof fn lemma_apple_grows_snake(state: AppView, after: AppView)
    requires
        state.snake.len() >= 1,
        state.updates_to(after),
        exists|i: int|
            0 <= i < state.collectables.len() && (#[trigger] state.collectables[i]) is Apple
                && state.collectables[i].position() == state.head(),
        forall|i: int|
            0 <= i < state.collectables.len() && (#[trigger] state.collectables[i]) is Reverse
                ==> state.collectables[i].position() != state.head(),
    ensures
        after.snake == seq![state.head().spec_step(state.direction)] + state.snake,
        after.snake.len() == state.snake.len() + 1,
        after.direction == state.direction,
{
    lemma_update_outcome(state, after);
    lemma_pass_without_reverse(state.timed(), state.collectables);
}

/// A game update in which no apple and no reverse item lies under the
/// head, and no growth was granted before, moves the snake and keeps its
/// length and heading.
pub proof fn lemma_plain_move(state: AppView, after: AppView)
    requires
        state.snake.len() >= 1,
        !state.growth_granted,
        state.updates_to(after),
        forall|i: int|
            0 <= i < state.collectables.len() && !((#[trigger] state.collectables[i]) is Speed)
                ==> state.collectables[i].position() != state.head(),
    ensures
        after.snake == seq![state.head().spec_step(state.direction)] + state.snake.drop_last(),
        after.snake.len() == state.snake.len(),
        after.direction == state.direction,
{
    lemma_update_outcome(state, after);
    lemma_pass_without_reverse(state.timed(), state.collectables);
}

} // verus!
