//! Turns of the snake between two game updates.

use vstd::prelude::*;
use crate::model::AppView;
use crate::utils::enums::Key;

verus! {

/// However many keys are pressed between two game updates, the snake never
/// ends up heading opposite to where it headed before them: at most one
/// turn is taken, and that one is never a turn back.
pub proof fn lemma_no_turning_back(state: AppView, keys: Seq<Key>)
    ensures
        state.steer_all(keys).direction != state.direction.spec_opposite(),
        state.steer_all(keys).direction != state.direction ==> state.steer_all(keys).blocked,
        state.steer_all(keys).snake == state.snake,
    decreases keys.len(),
{
    if keys.len() > 0 {
        lemma_no_turning_back(state, keys.drop_last());
    }
}

/// A key that asks for the opposite of the heading changes nothing.
pub proof fn lemma_opposite_key_ignored(state: AppView, key: Key)
    requires
        key.spec_heading() == Some(state.direction.spec_opposite()),
    ensures
        state.steer(key) == state,
{
}

/// Keys that ask for the opposite of the heading change nothing, however
/// many of them are pressed.
pub proof fn lemma_opposite_keys_ignored(state: AppView, keys: Seq<Key>)
    requires
        forall|i: int|
            0 <= i < keys.len() ==> (#[trigger] keys[i]).spec_heading() == Some(
                state.direction.spec_opposite(),
            ),
    ensures
        state.steer_all(keys) == state,
    decreases keys.len(),
{
    if keys.len() > 0 {
        lemma_opposite_keys_ignored(state, keys.drop_last());
        lemma_opposite_key_ignored(state, keys.last());
    }
}

} // verus!
