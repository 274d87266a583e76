//! The difficulty level keeps count of the boosts that run.

use vstd::prelude::*;
use crate::laws::pass::{lemma_pass_keeps_rest, lemma_pass_keeps_spots};
use crate::laws::update::lemma_update_outcome;
use crate::model::{
    boosts_ending,
    boosts_left,
    boosts_running,
    boosts_waiting,
    has_special,
    AppView,
    TICK_MILLIS,
};
use crate::utils::collectables::{BOOST_END, BOOST_MIN};
use crate::utils::collectables::AnyCollectable;

verus! {

/// Whether `item` is a boost that lies on the field, as a number.
pub open spec fn waits(item: AnyCollectable) -> nat {
    if item matches AnyCollectable::Speed(s) && s.remaining_time is None {
        1
    } else {
        0
    }
}

/// Whether `item` is a boost that runs, as a number.
pub open spec fn runs(item: AnyCollectable) -> nat {
    if item matches AnyCollectable::Speed(s) && s.remaining_time is Some {
        1
    } else {
        0
    }
}

/// The boosts of a row of items with one more item behind it.
pub proof fn lemma_boosts_push(items: Seq<AnyCollectable>, item: AnyCollectable)
    ensures
        boosts_waiting(items.push(item)) == boosts_waiting(items) + waits(item),
        boosts_running(items.push(item)) == boosts_running(items) + runs(item),
    decreases items.len(),
{
    let longer = items.push(item);
    if items.len() == 0 {
        assert(longer.drop_first() =~= items);
        assert(longer[0] == item);
    } else {
        assert(longer.drop_first() =~= items.drop_first().push(item));
        assert(longer[0] == items[0]);
        lemma_boosts_push(items.drop_first(), item);
    }
}

/// Apples behind a row of items add no boost to it.
pub proof fn lemma_boosts_before_apples(front: Seq<AnyCollectable>, back: Seq<AnyCollectable>)
    requires
        forall|j: int| 0 <= j < back.len() ==> (#[trigger] back[j]) is Apple,
    ensures
        boosts_waiting(front + back) == boosts_waiting(front),
        boosts_running(front + back) == boosts_running(front),
        boosts_left(front + back) == boosts_left(front),
    decreases back.len(),
{
    if back.len() == 0 {
        assert(front + back =~= front);
    } else {
        let shorter = back.drop_last();
        assert forall|j: int| 0 <= j < shorter.len() implies (#[trigger] shorter[j]) is Apple by {
            assert(shorter[j] == back[j]);
        }
        lemma_boosts_before_apples(front, shorter);
        assert(front + back =~= (front + shorter).push(back.last()));
        assert((front + back).drop_last() =~= front + shorter);
        lemma_boosts_push(front + shorter, back.last());
    }
}

/// A row of nothing but apples holds no boost.
pub proof fn lemma_no_special_no_boosts(items: Seq<AnyCollectable>)
    requires
        !has_special(items),
    ensures
        boosts_waiting(items) == 0,
        boosts_running(items) == 0,
{
    assert forall|j: int| 0 <= j < items.len() implies (#[trigger] items[j]) is Apple by {}
    lemma_boosts_before_apples(Seq::<AnyCollectable>::empty(), items);
    assert(Seq::<AnyCollectable>::empty() + items =~= items);
}

/// Through the pass over the items, the difficulty level goes on to count
/// every boost that runs, and to have room for every boost on the field.
/// `more_running` and `more_waiting` stand for boosts that are dealt with
/// later.
pub proof fn lemma_pass_keeps_level(
    state: AppView,
    items: Seq<AnyCollectable>,
    kept: Seq<AnyCollectable>,
    more_running: nat,
    more_waiting: nat,
)
    requires
        state.survivors(items, kept),
        boosts_running(items) + more_running <= state.game_speed,
        state.game_speed + boosts_waiting(items) + more_waiting <= u32::MAX,
    ensures
        boosts_running(kept) + more_running <= state.pass_state(items).game_speed,
        state.pass_state(items).game_speed + boosts_waiting(kept) <= state.game_speed
            + boosts_waiting(items),
    decreases items.len(),
{
    if items.len() == 0 {
        assert(kept =~= Seq::<AnyCollectable>::empty());
    } else {
        let front = items.drop_last();
        let item = items.last();
        let before = state.pass_state(front);
        assert(items =~= front.push(item));
        lemma_boosts_push(front, item);
        if before.leaves(item) {
            lemma_pass_keeps_level(
                state,
                front,
                kept,
                more_running + runs(item),
                more_waiting + waits(item),
            );
        } else {
            let kept_front = kept.drop_last();
            lemma_pass_keeps_level(
                state,
                front,
                kept_front,
                more_running + runs(item),
                more_waiting + waits(item),
            );
            assert(kept =~= kept_front.push(kept.last()));
            lemma_boosts_push(kept_front, kept.last());
        }
    }
}

/// A boost that ends runs; a boost that runs has at least one game update
/// left; and the boosts that run have no more updates left than there are
/// of them exactly if each of them ends.
pub proof fn lemma_ending_runs(items: Seq<AnyCollectable>)
    ensures
        boosts_ending(items) <= boosts_running(items),
        boosts_running(items) - boosts_ending(items) <= boosts_left(items) - boosts_running(
            items,
        ),
        boosts_left(items) == boosts_running(items) ==> boosts_ending(items) == boosts_running(
            items,
        ),
        boosts_ending(items) == boosts_running(items) ==> boosts_left(items) == boosts_running(
            items,
        ),
    decreases items.len(),
{
    if items.len() > 0 {
        let front = items.drop_last();
        lemma_ending_runs(front);
        assert(items =~= front.push(items.last()));
        lemma_boosts_push(front, items.last());
    }
}

/// No item of a row in which no boost runs is a boost that runs.
pub proof fn lemma_none_running(items: Seq<AnyCollectable>)
    requires
        boosts_running(items) == 0,
    ensures
        forall|i: int| 0 <= i < items.len() ==> runs(#[trigger] items[i]) == 0,
    decreases items.len(),
{
    if items.len() > 0 {
        let front = items.drop_last();
        assert(items =~= front.push(items.last()));
        lemma_boosts_push(front, items.last());
        lemma_none_running(front);
        assert forall|i: int| 0 <= i < items.len() implies runs(#[trigger] items[i]) == 0 by {
            if i < front.len() {
                assert(items[i] == front[i]);
            }
        }
    }
}

/// What the pass over the items does to the boosts, in numbers: each boost
/// taken raises the difficulty level by one and starts to run, with between
/// `BOOST_MIN - 1` and `BOOST_END - 2` game updates left; each boost that
/// ends lowers the level by one and leaves; and each other boost that runs
/// has one update less left. `more_running` and `more_waiting` stand for
/// boosts that are dealt with later.
pub proof fn lemma_pass_counts_boosts(
    state: AppView,
    items: Seq<AnyCollectable>,
    kept: Seq<AnyCollectable>,
    more_running: nat,
    more_waiting: nat,
)
    requires
        state.survivors(items, kept),
        boosts_running(items) + more_running <= state.game_speed,
        state.game_speed + boosts_waiting(items) + more_waiting <= u32::MAX,
    ensures
        state.pass_state(items).game_speed == state.game_speed + state.boosts_taken(items)
            - boosts_ending(items),
        boosts_running(kept) == boosts_running(items) + state.boosts_taken(items)
            - boosts_ending(items),
        boosts_waiting(kept) == boosts_waiting(items) - state.boosts_taken(items),
        boosts_left(kept) >= boosts_left(items) - boosts_running(items) + state.boosts_taken(
            items,
        ) * (BOOST_MIN - 1),
        boosts_left(kept) <= boosts_left(items) - boosts_running(items) + state.boosts_taken(
            items,
        ) * (BOOST_END - 2),
    decreases items.len(),
{
    if items.len() == 0 {
        assert(kept =~= Seq::<AnyCollectable>::empty());
    } else {
        let front = items.drop_last();
        let item = items.last();
        let before = state.pass_state(front);
        assert(items =~= front.push(item));
        lemma_boosts_push(front, item);
        let kept_front = if before.leaves(item) {
            kept
        } else {
            kept.drop_last()
        };
        lemma_pass_counts_boosts(
            state,
            front,
            kept_front,
            more_running + runs(item),
            more_waiting + waits(item),
        );
        lemma_pass_keeps_level(
            state,
            front,
            kept_front,
            more_running + runs(item),
            more_waiting + waits(item),
        );
        if !before.leaves(item) {
            assert(kept =~= kept_front.push(kept.last()));
            lemma_boosts_push(kept_front, kept.last());
        }
        let taken = state.boosts_taken(front);
        assert(state.boosts_taken(items) * (BOOST_MIN - 1) == taken * (BOOST_MIN - 1) + if item
            is Speed && before.takes(item) {
            BOOST_MIN - 1
        } else {
            0
        }) by (nonlinear_arith)
            requires
                state.boosts_taken(items) == taken + if item is Speed && before.takes(item) {
                    1nat
                } else {
                    0nat
                },
        ;
        assert(state.boosts_taken(items) * (BOOST_END - 2) == taken * (BOOST_END - 2) + if item
            is Speed && before.takes(item) {
            BOOST_END - 2
        } else {
            0
        }) by (nonlinear_arith)
            requires
                state.boosts_taken(items) == taken + if item is Speed && before.takes(item) {
                    1nat
                } else {
                    0nat
                },
        ;
    }
}

/// What a game update does to the boosts, in numbers: see
/// `lemma_pass_counts_boosts`; the new items of the update are no boosts
/// that run.
pub proof fn lemma_update_counts_boosts(state: AppView, after: AppView)
    requires
        state.passable(),
        state.updates_to(after),
    ensures
        after.game_speed == state.game_speed + state.boosts_taken_next() - boosts_ending(
            state.collectables,
        ),
        boosts_running(after.collectables) == boosts_running(state.collectables)
            + state.boosts_taken_next() - boosts_ending(state.collectables),
        boosts_left(after.collectables) >= boosts_left(state.collectables) - boosts_running(
            state.collectables,
        ) + state.boosts_taken_next() * (BOOST_MIN - 1),
        boosts_left(after.collectables) <= boosts_left(state.collectables) - boosts_running(
            state.collectables,
        ) + state.boosts_taken_next() * (BOOST_END - 2),
{
    let (a, b) = choose|a: AppView, b: AppView|
        #![trigger state.timed().passes_to(a), b.settles_to(after)]
        state.timed().passes_to(a) && a.moved().respawns_to(b) && b.settles_to(after);
    let start = state.timed();
    lemma_update_outcome(state, after);
    lemma_pass_keeps_rest(start, state.collectables);
    let count = start.kept_count(state.collectables) as int;
    let kept = a.collectables.take(count);
    let fresh = a.collectables.skip(count);
    assert(a.collectables =~= kept + fresh);
    lemma_pass_counts_boosts(start, state.collectables, kept, 0, 0);
    assert forall|j: int| 0 <= j < fresh.len() implies (#[trigger] fresh[j]) is Apple by {
        assert(fresh[j] == a.collectables[count + j]);
    }
    lemma_boosts_before_apples(kept, fresh);
    let moved = a.moved();
    if b.collectables != moved.collectables {
        assert(b.collectables =~= moved.collectables.push(b.collectables.last()));
        assert(b.collectables.drop_last() =~= moved.collectables);
        lemma_boosts_push(moved.collectables, b.collectables.last());
    }
    assert(after.collectables == b.collectables);
}

/// A game update after which the round goes on leaves a state that the
/// next game update can be made from, if the snake can still grow by two
/// segments, the difficulty level has room for one boost more than lie on
/// the field, and the round time for two game updates.
pub proof fn lemma_update_stays_updatable(state: AppView, after: AppView)
    requires
        state.updatable(),
        state.snake.len() + 1 < i32::MAX,
        state.game_speed + boosts_waiting(state.collectables) < u32::MAX,
        state.round_time + 2 * TICK_MILLIS <= u64::MAX,
        state.updates_to(after),
        after.current_screen is Main,
    ensures
        after.updatable(),
{
    let (a, b) = choose|a: AppView, b: AppView|
        #![trigger state.timed().passes_to(a), b.settles_to(after)]
        state.timed().passes_to(a) && a.moved().respawns_to(b) && b.settles_to(after);
    let start = state.timed();
    lemma_update_outcome(state, after);
    lemma_pass_keeps_spots(start, state.collectables);
    lemma_pass_keeps_rest(start, state.collectables);
    let passed = start.pass_state(state.collectables);
    // the snake
    assert forall|i: int| 0 <= i < after.snake.len() implies (#[trigger] after.snake[i]).in_range() by {
        if i >= 1 {
            assert(after.snake[i] == passed.snake[i - 1]);
        }
    }
    // the boosts
    let count = start.kept_count(state.collectables) as int;
    let kept = a.collectables.take(count);
    let fresh = a.collectables.skip(count);
    assert(a.collectables =~= kept + fresh);
    lemma_pass_keeps_level(start, state.collectables, kept, 0, 0);
    assert forall|j: int| 0 <= j < fresh.len() implies (#[trigger] fresh[j]) is Apple by {
        assert(fresh[j] == a.collectables[count + j]);
    }
    lemma_boosts_before_apples(kept, fresh);
    let moved = a.moved();
    if b.collectables != moved.collectables {
        assert(b.collectables =~= moved.collectables.push(b.collectables.last()));
        lemma_boosts_push(moved.collectables, b.collectables.last());
        lemma_no_special_no_boosts(moved.collectables);
    }
    assert(after.collectables == b.collectables);
}

} // verus!
