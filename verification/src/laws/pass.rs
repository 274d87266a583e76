//! The pass over the items, step by step.

use vstd::prelude::*;
use crate::model::{boosts_running, boosts_waiting, AppView};
use crate::utils::collectables::{AnyCollectable, CollectableType};
use crate::utils::geometry::Position;

verus! {

/// A snake that is turned around lies on the same spots.
pub proof fn lemma_reverse_contains(snake: Seq<Position>, p: Position)
    ensures
        snake.reverse().contains(p) == snake.contains(p),
{
    let turned = snake.reverse();
    if snake.contains(p) {
        let i = choose|i: int| 0 <= i < snake.len() && snake[i] == p;
        assert(turned[snake.len() - 1 - i] == p);
    }
    if turned.contains(p) {
        let i = choose|i: int| 0 <= i < turned.len() && turned[i] == p;
        assert(snake[snake.len() - 1 - i] == p);
    }
}

/// Which spots are free depends on the snake and the field alone.
pub proof fn lemma_same_spots(a: AppView, b: AppView)
    requires
        a.field_size == b.field_size,
        forall|p: Position| a.snake.contains(p) == b.snake.contains(p),
    ensures
        forall|p: Position| #[trigger] a.free_spot(p) == b.free_spot(p),
        a.has_free_spot() == b.has_free_spot(),
{
    assert forall|p: Position| #[trigger] a.free_spot(p) == b.free_spot(p) by {
        assert(a.snake.contains(p) == b.snake.contains(p));
    }
    if a.has_free_spot() {
        let p = choose|p: Position| a.free_spot(p);
        assert(b.free_spot(p));
    }
    if b.has_free_spot() {
        let p = choose|p: Position| b.free_spot(p);
        assert(a.free_spot(p));
    }
}

/// Dealing with an item neither adds a segment to the snake nor moves one
/// off its spot, and leaves the field as it is.
pub proof fn lemma_step_keeps_spots(state: AppView, item: AnyCollectable)
    ensures
        state.pass_step(item).snake.len() == state.snake.len(),
        state.pass_step(item).field_size == state.field_size,
        state.pass_step(item).collectables == state.collectables,
        forall|p: Position| #[trigger]
            state.pass_step(item).snake.contains(p) == state.snake.contains(p),
        forall|p: Position| #[trigger]
            state.pass_step(item).free_spot(p) == state.free_spot(p),
        state.pass_step(item).has_free_spot() == state.has_free_spot(),
        (forall|i: int| 0 <= i < state.snake.len() ==> (#[trigger] state.snake[i]).in_range())
            ==> (forall|i: int|
            0 <= i < state.pass_step(item).snake.len() ==> (#[trigger] state.pass_step(
                item,
            ).snake[i]).in_range()),
{
    let after = state.pass_step(item);
    assert forall|p: Position| #[trigger] after.snake.contains(p) == state.snake.contains(p) by {
        lemma_reverse_contains(state.snake, p);
    }
    assert forall|p: Position| #[trigger] after.free_spot(p) == state.free_spot(p) by {
        assert(after.snake.contains(p) == state.snake.contains(p));
    }
    if state.has_free_spot() {
        let p = choose|p: Position| state.free_spot(p);
        assert(after.free_spot(p));
    }
    if after.has_free_spot() {
        let p = choose|p: Position| after.free_spot(p);
        assert(state.free_spot(p));
    }
    if forall|i: int| 0 <= i < state.snake.len() ==> (#[trigger] state.snake[i]).in_range() {
        assert forall|i: int| 0 <= i < after.snake.len() implies (#[trigger] after.snake[i]).in_range() by {
            if after.snake != state.snake {
                assert(after.snake[i] == state.snake[state.snake.len() - 1 - i]);
            }
        }
    }
}

/// The pass over the items neither adds a segment to the snake nor moves
/// one off its spot, and leaves the field as it is.
pub proof fn lemma_pass_keeps_spots(state: AppView, items: Seq<AnyCollectable>)
    ensures
        state.pass_state(items).snake.len() == state.snake.len(),
        state.pass_state(items).field_size == state.field_size,
        state.pass_state(items).collectables == state.collectables,
        forall|p: Position| #[trigger]
            state.pass_state(items).snake.contains(p) == state.snake.contains(p),
        state.pass_state(items).has_free_spot() == state.has_free_spot(),
        (forall|i: int| 0 <= i < state.snake.len() ==> (#[trigger] state.snake[i]).in_range())
            ==> (forall|i: int|
            0 <= i < state.pass_state(items).snake.len() ==> (#[trigger] state.pass_state(
                items,
            ).snake[i]).in_range()),
    decreases items.len(),
{
    if items.len() > 0 {
        lemma_pass_keeps_spots(state, items.drop_last());
        lemma_step_keeps_spots(state.pass_state(items.drop_last()), items.last());
    }
}

/// A snake within the range of coordinates, and a difficulty level that
/// counts every boost that runs and has room for every boost on the field,
/// can take what dealing with the next item does to them; and the level is
/// such a level for the items behind it.
pub proof fn lemma_level_fits(state: AppView, items: Seq<AnyCollectable>, done: int)
    requires
        0 <= done < items.len(),
        forall|i: int| 0 <= i < state.snake.len() ==> (#[trigger] state.snake[i]).in_range(),
        boosts_running(items.skip(done)) <= state.game_speed,
        state.game_speed + boosts_waiting(items.skip(done)) <= u32::MAX,
    ensures
        state.step_fits(items[done]),
        boosts_running(items.skip(done + 1)) <= state.pass_step(items[done]).game_speed,
        state.pass_step(items[done]).game_speed + boosts_waiting(items.skip(done + 1))
            <= u32::MAX,
{
    assert(items.skip(done).drop_first() =~= items.skip(done + 1));
    assert(items.skip(done)[0] == items[done]);
}

/// The pass over the items leaves alone what is neither the snake, its
/// heading and growth, nor the difficulty level.
pub proof fn lemma_pass_keeps_rest(state: AppView, items: Seq<AnyCollectable>)
    ensures
        ({
            let passed = state.pass_state(items);
            &&& passed.exit == state.exit
            &&& passed.current_screen == state.current_screen
            &&& passed.menu_cursor == state.menu_cursor
            &&& passed.blocked == state.blocked
            &&& passed.field_size == state.field_size
            &&& passed.tick == state.tick
            &&& passed.blink_countdown == state.blink_countdown
            &&& passed.collectables == state.collectables
            &&& passed.round_time == state.round_time
            &&& passed.random_item_timer == state.random_item_timer
            &&& passed.scores == state.scores
        }),
    decreases items.len(),
{
    if items.len() > 0 {
        lemma_pass_keeps_rest(state, items.drop_last());
    }
}

/// One more item of the pass is dealt with: what held of the state before
/// holds of the state after, with one more item done.
pub proof fn lemma_pass_advance(
    start: AppView,
    done: int,
    kept: int,
    before: AppView,
    item: AnyCollectable,
    dealt: AppView,
    stays: Option<AnyCollectable>,
    after: AppView,
)
    requires
        start.pass_reached(done, kept, before),
        done < start.collectables.len(),
        item == start.collectables[done],
        dealt == before.pass_step(item).with_items(dealt.collectables),
        stays is None == before.leaves(item),
        stays matches Some(c) ==> before.stays_as(item, c),
        if item is Apple && before.takes(item) {
            let rest = before.with_items(before.collectables.remove(kept));
            rest.placed(CollectableType::Apple, rest.with_items(dealt.collectables))
        } else {
            dealt.collectables == before.collectables.remove(kept)
        },
        after == match stays {
            Some(c) => dealt.with_items(dealt.collectables.insert(kept, c)),
            None => dealt,
        },
    ensures
        start.pass_reached(
            done + 1,
            if stays is Some {
                kept + 1
            } else {
                kept
            },
            after,
        ),
{
    let items = start.collectables;
    let n = items.len() as int;
    let prefix = items.take(done);
    let next = items.take(done + 1);
    let reached = start.pass_state(prefix);
    assert(next.drop_last() =~= prefix);
    assert(next.last() == item);
    lemma_pass_keeps_spots(start, prefix);
    lemma_same_spots(before, start);
    let rest = before.with_items(before.collectables.remove(kept));
    lemma_same_spots(rest, start);
    // the state apart from its items
    assert(before.pass_step(item) == reached.pass_step(item).with_items(before.collectables));
    assert(before.leaves(item) == reached.leaves(item));
    assert(before.takes(item) == reached.takes(item));
    let kept_after = if stays is Some {
        kept + 1
    } else {
        kept
    };
    let old_items = before.collectables;
    let new_items = after.collectables;
    let waiting = n - done;
    assert(old_items[kept] == old_items.subrange(kept, kept + waiting)[0]);
    assert(old_items[kept] == item);
    // the items that stay
    match stays {
        Some(c) => {
            assert(new_items.take(kept_after).last() == c);
            assert(new_items.take(kept_after).drop_last() =~= old_items.take(kept));
        },
        None => {
            assert(new_items.take(kept_after) =~= old_items.take(kept));
        },
    }
    // the items still to come
    assert(new_items.subrange(kept_after, kept_after + waiting - 1) =~= items.skip(done + 1)) by {
        let to_come = new_items.subrange(kept_after, kept_after + waiting - 1);
        assert forall|j: int| 0 <= j < waiting - 1 implies #[trigger] to_come[j] == items.skip(
            done + 1,
        )[j] by {
            assert(old_items.subrange(kept, kept + waiting)[j + 1] == items.skip(done)[j + 1]);
        }
    }
    // the new apples
    assert forall|j: int| kept_after + waiting - 1 <= j < new_items.len() implies start.spawned(
        CollectableType::Apple,
        #[trigger] new_items[j],
    ) by {
        let shift = j - (kept_after + waiting - 1);
        if kept + waiting + shift < old_items.len() {
            assert(new_items[j] == old_items[kept + waiting + shift]);
        } else {
            assert(new_items[j] == dealt.collectables.last());
        }
    }
}

} // verus!
