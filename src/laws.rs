//! Properties of the simulation that hold over whole runs.
use vstd::prelude::*;
use crate::game::{
    after_fruit, after_move_head, after_next_move, lemma_step_wf, next_head, step, GameView,
    CELL_COUNT,
};
use crate::input::{after_intent, Direction, Intent};

verus! {

/// The length the body settles at once all owed growth has been added and
/// the pending trim has been done.
pub open spec fn owed_length(v: GameView) -> int {
    v.body.len() + v.to_grow + if v.should_erase_last {
        0int
    } else {
        1int
    }
}

/// Whether the tick from `v` with draws `rx`, `ry` eats a fruit.
pub open spec fn eats(v: GameView, rx: usize, ry: usize) -> bool {
    let moved = after_move_head(after_next_move(v));
    !v.gameover && after_fruit(moved, rx, ry).to_grow == moved.to_grow + 1
}

/// The state after one tick for each pair of draws in `draws`, in order.
pub open spec fn run(v: GameView, draws: Seq<(usize, usize)>) -> GameView
    decreases draws.len(),
{
    if draws.len() == 0 {
        v
    } else {
        let prev = run(v, draws.drop_last());
        step(prev, draws.last().0, draws.last().1)
    }
}

/// How many fruit the ticks of `run(v, draws)` eat.
pub open spec fn eaten(v: GameView, draws: Seq<(usize, usize)>) -> int
    decreases draws.len(),
{
    if draws.len() == 0 {
        0
    } else {
        let prev = run(v, draws.drop_last());
        eaten(v, draws.drop_last()) + if eats(prev, draws.last().0, draws.last().1) {
            1int
        } else {
            0int
        }
    }
}

/// Each tick adds to the settled length exactly the fruit it eats.
pub proof fn lemma_step_growth(v: GameView, rx: usize, ry: usize)
    requires
        v.wf(),
    ensures
        owed_length(step(v, rx, ry)) == owed_length(v) + if eats(v, rx, ry) {
            1int
        } else {
            0int
        },
{
}

/// Growth conservation: over any run, the settled length grows by the number
/// of fruit eaten, and once the growth owed is paid and the pending trim is
/// done the body has exactly that length.
pub proof fn lemma_run_growth(v: GameView, draws: Seq<(usize, usize)>)
    requires
        v.wf(),
    ensures
        run(v, draws).wf(),
        owed_length(run(v, draws)) == owed_length(v) + eaten(v, draws),
        run(v, draws).to_grow == 0 && run(v, draws).should_erase_last ==> run(v, draws).body.len()
            == owed_length(v) + eaten(v, draws),
    decreases draws.len(),
{
    if draws.len() > 0 {
        lemma_run_growth(v, draws.drop_last());
        let prev = run(v, draws.drop_last());
        lemma_step_wf(prev, draws.last().0, draws.last().1);
        lemma_step_growth(prev, draws.last().0, draws.last().1);
    }
}

/// Queueing the exact reverse of the heading never turns the snake around:
/// the next tick drops it and keeps the heading.
pub proof fn lemma_reverse_rejected(v: GameView, d: Direction, rx: usize, ry: usize)
    requires
        v.wf(),
        v.move_queue.len() == 0,
        d.spec_delta() == ((-v.head_dx) as isize, (-v.head_dy) as isize),
    ensures
        step(after_intent(v, Intent::Move(d)), rx, ry).heading() == v.heading(),
{
}

/// A tick of a running game that starts with no fruit places one at the
/// drawn cell, which is on the grid; it is not eaten in that tick.
pub proof fn lemma_fruit_placed(v: GameView, rx: usize, ry: usize)
    requires
        v.wf(),
        !v.gameover,
        !v.has_fruit(),
    ensures
        step(v, rx, ry).fruit_x == rx % CELL_COUNT,
        step(v, rx, ry).fruit_y == ry % CELL_COUNT,
        0 <= step(v, rx, ry).fruit_x < CELL_COUNT,
        0 <= step(v, rx, ry).fruit_y < CELL_COUNT,
        !eats(v, rx, ry),
{
}

/// A tick whose next head cell lies on the body ends the game, and no tick
/// ever clears the game-over flag.
pub proof fn lemma_self_collision(v: GameView, rx: usize, ry: usize)
    requires
        v.wf(),
        v.body.contains(next_head(after_next_move(v))) || v.gameover,
    ensures
        step(v, rx, ry).gameover,
{
}

/// No run eats a negative number of fruit.
pub proof fn lemma_eaten_nonneg(v: GameView, draws: Seq<(usize, usize)>)
    ensures
        eaten(v, draws) >= 0,
    decreases draws.len(),
{
    if draws.len() > 0 {
        lemma_eaten_nonneg(v, draws.drop_last());
    }
}

/// While a running game eats nothing, the growth owed counts down one per
/// tick; from the tick after it reaches zero on, the oldest cell is trimmed
/// on every tick.
pub proof fn lemma_run_counts_down(v: GameView, draws: Seq<(usize, usize)>)
    requires
        v.wf(),
        eaten(v, draws) == 0,
        !run(v, draws).gameover,
    ensures
        run(v, draws).to_grow == if v.to_grow >= draws.len() {
            v.to_grow - draws.len()
        } else {
            0
        },
        draws.len() >= v.to_grow + 1 ==> run(v, draws).should_erase_last,
    decreases draws.len(),
{
    if draws.len() > 0 {
        let prefix = draws.drop_last();
        lemma_eaten_nonneg(v, prefix);
        lemma_run_growth(v, prefix);
        lemma_run_counts_down(v, prefix);
    }
}

/// The body length settles: from a running game, after at least
/// `to_grow + 1` ticks that eat nothing and end no game, the growth owed is
/// paid, a trim is pending, and the body has the settled length; every
/// further such tick keeps it.
pub proof fn lemma_length_settles(v: GameView, draws: Seq<(usize, usize)>)
    requires
        v.wf(),
        draws.len() >= v.to_grow + 1,
        eaten(v, draws) == 0,
        !run(v, draws).gameover,
    ensures
        run(v, draws).to_grow == 0,
        run(v, draws).should_erase_last,
        run(v, draws).body.len() == owed_length(v),
{
    lemma_run_counts_down(v, draws);
    lemma_run_growth(v, draws);
}

} // verus!
