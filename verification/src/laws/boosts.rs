//! A speed boost runs out.

use vstd::prelude::*;
use crate::laws::levels::{
    lemma_ending_runs,
    lemma_none_running,
    lemma_update_counts_boosts,
    runs,
};
use crate::model::{boosts_left, boosts_running, played_without_boost, AppView};
use crate::utils::collectables::{AnyCollectable, SpeedCollectable, BOOST_END, BOOST_MIN};
use crate::utils::geometry::Position;

verus! {

/// A boost that runs for `time` game updates after it was taken: the
/// difficulty level is one higher while it runs; in each of the updates
/// before the last the boost stays and the level is left alone; in the last
/// one the boost leaves, and the level is what it was before the boost was
/// taken.
pub proof fn lemma_boost_runs_out(state: AppView, position: Position, time: u32)
    requires
        state.game_speed < u32::MAX,
        time >= 1,
    ensures
        ({
            let boost = SpeedCollectable { position, remaining_time: Some(time) };
            let last = AnyCollectable::Speed(boost.after_steps((time - 1) as nat));
            &&& state.boosted().game_speed == state.game_speed + 1
            &&& forall|steps: nat|
                steps < time - 1 ==> {
                    let item = AnyCollectable::Speed(#[trigger] boost.after_steps(steps));
                    &&& !state.boosted().leaves(item)
                    &&& state.boosted().pass_step(item) == state.boosted()
                    &&& state.boosted().stays_as(
                        item,
                        AnyCollectable::Speed(boost.after_steps(steps + 1)),
                    )
                }
            &&& state.boosted().leaves(last)
            &&& state.boosted().pass_step(last) == state
        }),
{
    let boost = SpeedCollectable { position, remaining_time: Some(time) };
    assert forall|steps: nat| steps < time implies (#[trigger] boost.after_steps(steps))
        == (SpeedCollectable { position, remaining_time: Some((time - steps) as u32) }) by {
        lemma_boost_counts_down(boost, time, steps);
    }
    assert(boost.after_steps((time - 1) as nat).ends_next());
    assert forall|steps: nat| steps < time - 1 implies {
        let item = AnyCollectable::Speed(#[trigger] boost.after_steps(steps));
        &&& !state.boosted().leaves(item)
        &&& state.boosted().pass_step(item) == state.boosted()
        &&& state.boosted().stays_as(item, AnyCollectable::Speed(boost.after_steps(steps + 1)))
    } by {
        lemma_boost_counts_down(boost, time, steps);
        lemma_boost_counts_down(boost, time, steps + 1);
    }
}

/// A boost with `time` game updates to run has `time - steps` of them left
/// after `steps` steps of its countdown.
pub proof fn lemma_boost_counts_down(boost: SpeedCollectable, time: u32, steps: nat)
    requires
        boost.remaining_time == Some(time),
        steps <= time,
    ensures
        boost.after_steps(steps) == (SpeedCollectable {
            position: boost.position,
            remaining_time: Some((time - steps) as u32),
        }),
    decreases steps,
{
    if steps > 0 {
        lemma_boost_counts_down(boost, time, (steps - 1) as nat);
    }
}

/// The game update in which the snake takes a boost, while no boost runs:
/// the difficulty level rises by one, and the boost runs, with between
/// `BOOST_MIN - 1` and `BOOST_END - 2` game updates left.
pub proof fn lemma_boost_taken_runs(state: AppView, after: AppView)
    requires
        state.passable(),
        state.updates_to(after),
        boosts_running(state.collectables) == 0,
        state.boosts_taken_next() == 1,
    ensures
        after.game_speed == state.game_speed + 1,
        boosts_running(after.collectables) == 1,
        BOOST_MIN - 1 <= boosts_left(after.collectables) <= BOOST_END - 2,
{
    lemma_update_counts_boosts(state, after);
    lemma_ending_runs(state.collectables);
}

/// Through a run of game updates in which no boost is taken, a boost that
/// runs alone counts down by one in each update: while it has updates left,
/// it is the one boost that runs and the difficulty level stays; from the
/// update in which it ends, no boost runs and the level is one lower.
pub proof fn lemma_boost_expires(states: Seq<AppView>, k: int)
    requires
        played_without_boost(states),
        0 <= k < states.len(),
        boosts_running(states[0].collectables) == 1,
    ensures
        ({
            let left = boosts_left(states[0].collectables);
            if k < left {
                &&& boosts_running(states[k].collectables) == 1
                &&& boosts_left(states[k].collectables) == left - k
                &&& states[k].game_speed == states[0].game_speed
            } else {
                &&& boosts_running(states[k].collectables) == 0
                &&& states[k].game_speed == states[0].game_speed - 1
            }
        }),
    decreases k,
{
    if k == 0 {
        lemma_ending_runs(states[0].collectables);
    } else {
        lemma_boost_expires(states, k - 1);
        let before = states[k - 1];
        assert(before.updatable() && before.updates_to(states[k - 1 + 1]));
        lemma_update_counts_boosts(before, states[k]);
        lemma_ending_runs(before.collectables);
    }
}

/// A boost comes and goes: the snake takes a boost while no boost runs, and
/// takes no other in the game updates that follow. The difficulty level is
/// one higher after the update in which the boost is taken. After
/// `BOOST_END - 2` further updates at the latest it is back to what it was
/// before, and every item left lies on the field: the boost is gone.
pub proof fn lemma_boost_comes_and_goes(before: AppView, states: Seq<AppView>, k: int)
    requires
        before.passable(),
        states.len() >= 1,
        before.updates_to(states[0]),
        boosts_running(before.collectables) == 0,
        before.boosts_taken_next() == 1,
        played_without_boost(states),
        BOOST_END - 2 <= k < states.len(),
    ensures
        states[0].game_speed == before.game_speed + 1,
        states[k].game_speed == before.game_speed,
        boosts_running(states[k].collectables) == 0,
        forall|i: int|
            0 <= i < states[k].collectables.len() ==> (#[trigger] states[k].collectables[i]).visible(),
{
    lemma_boost_taken_runs(before, states[0]);
    lemma_boost_expires(states, k);
    lemma_none_running(states[k].collectables);
    assert forall|i: int| 0 <= i < states[k].collectables.len() implies (
    #[trigger] states[k].collectables[i]).visible() by {
        assert(runs(states[k].collectables[i]) == 0);
    }
}

} // verus!
