//! One apple lies on the field throughout a round.

use vstd::prelude::*;
use crate::laws::pass::lemma_same_spots;
use crate::model::{apple_count, initial_snake, AppView};
use crate::utils::collectables::AnyCollectable;
use crate::utils::geometry::Position;

verus! {

/// The apples of two rows of items, counted together.
pub proof fn lemma_apple_count_add(front: Seq<AnyCollectable>, back: Seq<AnyCollectable>)
    ensures
        apple_count(front + back) == apple_count(front) + apple_count(back),
    decreases back.len(),
{
    if back.len() == 0 {
        assert(front + back =~= front);
    } else {
        lemma_apple_count_add(front, back.drop_last());
        assert((front + back).drop_last() =~= front + back.drop_last());
        assert((front + back).last() == back.last());
    }
}

/// A row of nothing but apples holds as many apples as items.
pub proof fn lemma_apple_count_all(items: Seq<AnyCollectable>)
    requires
        forall|j: int| 0 <= j < items.len() ==> (#[trigger] items[j]) is Apple,
    ensures
        apple_count(items) == items.len(),
    decreases items.len(),
{
    if items.len() > 0 {
        assert forall|j: int| 0 <= j < items.drop_last().len() implies (#[trigger] items.drop_last()[j]) is Apple by {
            assert(items.drop_last()[j] == items[j]);
        }
        lemma_apple_count_all(items.drop_last());
    }
}

/// Of the apples that the pass starts with, those that were not taken are
/// among the items that stay, and no other apple is.
pub proof fn lemma_survivors_apples(
    state: AppView,
    items: Seq<AnyCollectable>,
    kept: Seq<AnyCollectable>,
)
    requires
        state.survivors(items, kept),
    ensures
        apple_count(kept) + state.apples_taken(items) == apple_count(items),
        kept.len() == state.kept_count(items),
    decreases items.len(),
{
    if items.len() > 0 {
        let before = state.pass_state(items.drop_last());
        if before.leaves(items.last()) {
            lemma_survivors_apples(state, items.drop_last(), kept);
        } else {
            lemma_survivors_apples(state, items.drop_last(), kept.drop_last());
        }
    }
}

/// The pass over the items keeps the number of apples, if the snake leaves
/// a spot free: a new apple stands for each one that was taken.
pub proof fn lemma_pass_keeps_apples(state: AppView, after: AppView)
    requires
        state.passes_to(after),
    ensures
        apple_count(after.collectables) == if state.has_free_spot() {
            apple_count(state.collectables)
        } else {
            (apple_count(state.collectables) - state.apples_taken(state.collectables)) as nat
        },
{
    let kept = state.kept_count(state.collectables) as int;
    let front = after.collectables.take(kept);
    let back = after.collectables.skip(kept);
    assert(after.collectables =~= front + back);
    lemma_survivors_apples(state, state.collectables, front);
    lemma_apple_count_add(front, back);
    assert forall|j: int| 0 <= j < back.len() implies (#[trigger] back[j]) is Apple by {
        assert(back[j] == after.collectables[kept + j]);
    }
    lemma_apple_count_all(back);
}

/// A game update keeps the number of apples, if the snake leaves a spot
/// free before it moves.
pub proof fn lemma_update_keeps_apples(state: AppView, after: AppView)
    requires
        state.has_free_spot(),
        state.updates_to(after),
    ensures
        apple_count(after.collectables) == apple_count(state.collectables),
{
    let (a, b) = choose|a: AppView, b: AppView|
        #![trigger state.timed().passes_to(a), b.settles_to(after)]
        state.timed().passes_to(a) && a.moved().respawns_to(b) && b.settles_to(after);
    lemma_same_spots(state.timed(), state);
    lemma_pass_keeps_apples(state.timed(), a);
    let moved = a.moved();
    assert(moved.collectables == a.collectables);
    if b.collectables != moved.collectables {
        assert(b.collectables.drop_last() =~= moved.collectables);
        assert(!(b.collectables.last() is Apple));
    }
    assert(after.collectables == b.collectables);
}

/// A round starts with exactly one apple, on a field that has a cell
/// inside its border cells.
pub proof fn lemma_round_starts_with_one_apple(state: AppView, after: AppView)
    requires
        state.field_size.0 >= 3,
        state.field_size.1 >= 3,
        state.starts_to(after),
    ensures
        apple_count(after.collectables) == 1,
        after.current_screen is Main,
        after.snake == initial_snake(),
{
    let start = state.round_start();
    let spot = Position { x: 2, y: 2 };
    assert(start.free_spot(spot));
    assert(after.collectables.drop_last() =~= start.collectables);
    assert(apple_count(after.collectables.drop_last()) == 0);
}

/// While a round is played, and the snake leaves a spot free, a tick keeps
/// exactly one apple on the field.
pub proof fn lemma_tick_keeps_one_apple(
    state: AppView,
    counter: u32,
    after: AppView,
    counter_after: u32,
)
    requires
        state.current_screen is Main,
        state.has_free_spot(),
        apple_count(state.collectables) == 1,
        state.ticks_to(counter, after, counter_after),
    ensures
        apple_count(after.collectables) == 1,
{
    if state.update_due(counter) {
        lemma_update_keeps_apples(state, after);
    }
}

} // verus!
