//! The shape of the snake: a chain of steps that does not cross itself and
//! stays on the field while the round goes on.

use vstd::prelude::*;
use crate::laws::pass::lemma_pass_keeps_rest;
use crate::laws::update::lemma_update_outcome;
use crate::model::{apart, chained, initial_snake, linked, within, AppView};
use crate::utils::collectables::AnyCollectable;
use crate::utils::enums::Direction;
use crate::utils::geometry::Position;
use crate::utils::helpers::heading_of;

verus! {

/// The heading of a step is found again from the displacement of the step.
pub proof fn lemma_heading_of_offset(direction: Direction)
    ensures
        heading_of(direction.spec_offset()) == direction,
{
}

/// A point that lies one step from another lies there in the heading of
/// the vector between them.
pub proof fn lemma_linked_heading(a: Position, b: Position)
    requires
        linked(a, b),
    ensures
        a.x == b.x + heading_of((a.x - b.x, a.y - b.y)).spec_offset().0,
        a.y == b.y + heading_of((a.x - b.x, a.y - b.y)).spec_offset().1,
{
}

/// A step leads to a point that lies one step away, and back from there in
/// the opposite heading.
pub proof fn lemma_step_links(p: Position, direction: Direction)
    requires
        p.can_step(direction),
    ensures
        linked(p.spec_step(direction), p),
        p.spec_step(direction).spec_step(direction.spec_opposite()) == p,
{
}

/// The snake that a round starts with is a chain of segments that lie
/// apart, within the range of coordinates.
pub proof fn lemma_initial_shape()
    ensures
        initial_snake().len() == 5,
        chained(initial_snake()),
        apart(initial_snake()),
        forall|i: int|
            0 <= i < initial_snake().len() ==> (#[trigger] initial_snake()[i]).in_range(),
{
}

/// A snake that is turned around keeps its shape.
pub proof fn lemma_reverse_keeps_shape(snake: Seq<Position>, field_size: (u32, u32))
    ensures
        chained(snake) ==> chained(snake.reverse()),
        apart(snake) ==> apart(snake.reverse()),
        within(snake, field_size) ==> within(snake.reverse(), field_size),
{
    let turned = snake.reverse();
    let n = snake.len() as int;
    if chained(snake) {
        assert forall|i: int| 0 <= i < turned.len() - 1 implies linked(
            #[trigger] turned[i],
            turned[i + 1],
        ) by {
            assert(linked(snake[n - 2 - i], snake[n - 2 - i + 1]));
        }
    }
    if apart(snake) {
        assert forall|i: int, j: int| 0 <= i < j < turned.len() implies turned[i]
            != turned[j] by {
            assert(snake[n - 1 - j] != snake[n - 1 - i]);
        }
    }
    if within(snake, field_size) {
        assert forall|i: int| 0 <= i < turned.len() implies (#[trigger] turned[i]).spec_inside(
            field_size,
        ) by {
            assert(snake[n - 1 - i].spec_inside(field_size));
        }
    }
}

/// A chain that is turned around heads on from its new second segment to
/// its new head: the next step of the snake leads away from its body.
pub proof fn lemma_reversed_heads_on(state: AppView)
    requires
        state.snake.len() >= 2,
        chained(state.snake),
    ensures
        ({
            let turned = state.reversed();
            &&& turned.snake[0].x == turned.snake[1].x + turned.direction.spec_offset().0
            &&& turned.snake[0].y == turned.snake[1].y + turned.direction.spec_offset().1
        }),
{
    let n = state.snake.len() as int;
    assert(linked(state.snake[n - 2], state.snake[n - 2 + 1]));
    let turned = state.snake.reverse();
    lemma_reverse_keeps_shape(state.snake, state.field_size);
    assert(linked(turned[0int], turned[0int + 1]));
    lemma_linked_heading(turned[0], turned[1]);
}

/// Dealing with an item keeps the shape of the snake.
pub proof fn lemma_step_keeps_shape(state: AppView, item: AnyCollectable)
    ensures
        chained(state.snake) ==> chained(state.pass_step(item).snake),
        apart(state.snake) ==> apart(state.pass_step(item).snake),
        within(state.snake, state.field_size) ==> within(
            state.pass_step(item).snake,
            state.field_size,
        ),
{
    lemma_reverse_keeps_shape(state.snake, state.field_size);
}

/// The pass over the items keeps the shape of the snake.
pub proof fn lemma_pass_keeps_shape(state: AppView, items: Seq<AnyCollectable>)
    ensures
        chained(state.snake) ==> chained(state.pass_state(items).snake),
        apart(state.snake) ==> apart(state.pass_state(items).snake),
        within(state.snake, state.field_size) ==> within(
            state.pass_state(items).snake,
            state.field_size,
        ),
    decreases items.len(),
{
    if items.len() > 0 {
        lemma_pass_keeps_shape(state, items.drop_last());
        lemma_pass_keeps_rest(state, items.drop_last());
        lemma_step_keeps_shape(state.pass_state(items.drop_last()), items.last());
    }
}

/// A move keeps the snake a chain; and unless the snake collides, its
/// segments still lie apart, and on the field if they did before.
pub proof fn lemma_move_keeps_shape(state: AppView)
    requires
        state.snake.len() >= 1,
        state.snake[0].can_step(state.direction),
    ensures
        chained(state.snake) ==> chained(state.moved().snake),
        apart(state.snake) && !state.moved().collided() ==> apart(state.moved().snake),
        within(state.snake, state.field_size) && !state.moved().collided() ==> within(
            state.moved().snake,
            state.field_size,
        ),
{
    let after = state.moved().snake;
    lemma_step_links(state.snake[0], state.direction);
    assert forall|i: int| 1 <= i < after.len() implies after[i] == state.snake[i - 1] by {}
    if chained(state.snake) {
        assert forall|i: int| 0 <= i < after.len() - 1 implies linked(
            #[trigger] after[i],
            after[i + 1],
        ) by {
            if i >= 1 {
                assert(linked(state.snake[i - 1], state.snake[i - 1 + 1]));
            }
        }
    }
    if apart(state.snake) && !state.moved().collided() {
        assert forall|i: int, j: int| 0 <= i < j < after.len() implies after[i] != after[j] by {
            if i == 0 {
                assert(after[j] != after[0]);
            } else {
                assert(state.snake[i - 1] != state.snake[j - 1]);
            }
        }
    }
    if within(state.snake, state.field_size) && !state.moved().collided() {
        assert forall|i: int| 0 <= i < after.len() implies (#[trigger] after[i]).spec_inside(
            state.field_size,
        ) by {
            if i >= 1 {
                assert(state.snake[i - 1].spec_inside(state.field_size));
            }
        }
    }
}

/// A game update keeps the snake a chain; and while the round goes on, its
/// segments still lie apart, and on the field if they did before.
pub proof fn lemma_update_keeps_shape(state: AppView, after: AppView)
    requires
        state.snake.len() >= 1,
        forall|i: int| 0 <= i < state.snake.len() ==> (#[trigger] state.snake[i]).in_range(),
        state.current_screen is Main,
        state.updates_to(after),
    ensures
        chained(state.snake) ==> chained(after.snake),
        apart(state.snake) && after.current_screen is Main ==> apart(after.snake),
        within(state.snake, state.field_size) && after.current_screen is Main ==> within(
            after.snake,
            after.field_size,
        ),
        after.current_screen is Main ==> after.snake[0].spec_inside(after.field_size),
{
    lemma_update_outcome(state, after);
    let start = state.timed();
    let passed = start.pass_state(state.collectables);
    lemma_pass_keeps_shape(start, state.collectables);
    lemma_pass_keeps_rest(start, state.collectables);
    crate::laws::pass::lemma_pass_keeps_spots(start, state.collectables);
    lemma_move_keeps_shape(passed);
}

} // verus!
