//! Laws of the game over whole runs of events.

use vstd::prelude::*;
use crate::game::{Event, GameModel, Phase, lemma_step_wf};

verus! {

/// A tick of a snake that has reached its desired length leaves it at its
/// (possibly new) desired length.
pub proof fn lemma_step_keeps_length(m: GameModel, draw: u64)
    requires
        m.wf(),
        m.snake.len() == m.desired_length,
    ensures
        m.step(draw).snake.len() == m.step(draw).desired_length,
{
}

/// Every event keeps a state well formed.
pub proof fn lemma_apply_wf(m: GameModel, e: Event)
    requires
        m.wf(),
    ensures
        m.apply(e).wf(),
{
    if let Event::Tick(draw) = e {
        lemma_step_wf(m, draw);
    }
}

/// Every state reached from a well-formed one is well formed: in particular
/// the snake never repeats a cell and the food never lies on the snake.
pub proof fn lemma_run_wf(m: GameModel, events: Seq<Event>)
    requires
        m.wf(),
    ensures
        m.run(events).wf(),
        !m.run(events).snake.contains(m.run(events).food),
    decreases events.len(),
{
    if events.len() > 0 {
        lemma_apply_wf(m, events[0]);
        lemma_run_wf(m.apply(events[0]), events.drop_first());
    }
}

/// Once the snake has its desired length, it keeps the desired length after
/// every tick, whatever the events.
pub proof fn lemma_run_keeps_length(m: GameModel, events: Seq<Event>)
    requires
        m.wf(),
        m.snake.len() == m.desired_length,
    ensures
        m.run(events).snake.len() == m.run(events).desired_length,
    decreases events.len(),
{
    if events.len() > 0 {
        lemma_apply_wf(m, events[0]);
        if let Event::Tick(draw) = events[0] {
            lemma_step_keeps_length(m, draw);
        }
        lemma_run_keeps_length(m.apply(events[0]), events.drop_first());
    }
}

/// The game is deterministic: from equal states, the same events (inputs and
/// the draws of the food placer) lead to equal states at every point.
pub proof fn lemma_run_deterministic(a: GameModel, b: GameModel, events: Seq<Event>)
    requires
        a == b,
    ensures
        forall|k: int|
            0 <= k <= events.len() ==> #[trigger] a.run(events.take(k)) == b.run(events.take(k)),
{
}

/// A move off the grid loses the game and leaves everything else as it was.
pub proof fn lemma_wall_loses(m: GameModel, draw: u64)
    requires
        m.phase == Phase::Running,
        !m.next_in_grid(),
    ensures
        m.step(draw) == (GameModel { phase: Phase::Lost, ..m }),
{
}

/// A snake that grows this tick keeps its tail in place, so moving into the
/// tail loses the game, leaving snake, food and score as they were.
pub proof fn lemma_growing_snake_hits_tail(m: GameModel, draw: u64)
    requires
        m.wf(),
        m.phase == Phase::Running,
        m.next_in_grid(),
        m.next_cell() == m.snake.last(),
        m.tail_stays(),
    ensures
        m.step(draw) == (GameModel { phase: Phase::Lost, ..m }),
{
    assert(m.snake[m.snake.len() - 1] == m.next_cell());
}

/// Eating the food that brings the desired length to the grid's size minus
/// one wins the game on that tick, with the head on the food's cell.
pub proof fn lemma_filling_grid_wins(m: GameModel, draw: u64)
    requires
        m.wf(),
        m.phase == Phase::Running,
        m.eats(),
        m.desired_length + 2 == m.cells(),
    ensures
        m.step(draw).phase == Phase::Won,
        m.step(draw).score == m.score + 1,
        m.step(draw).desired_length + 1 == m.cells(),
        m.step(draw).snake == seq![m.next_cell()] + m.snake,
        m.step(draw).snake[0] == m.next_cell(),
{
    assert(m.blocking() == m.snake);
    assert(!m.collides());
}

/// Ticks leave a game that has ended exactly as it is.
pub proof fn lemma_ended_ticks_unchanged(m: GameModel, draws: Seq<u64>)
    requires
        m.phase != Phase::Running,
    ensures
        m.ticks(draws) == m,
    decreases draws.len(),
{
    if draws.len() > 0 {
        lemma_ended_ticks_unchanged(m.step(draws[0]), draws.drop_first());
    }
}

/// A game that has been won or lost never runs again, whatever the events.
pub proof fn lemma_ended_phase_stays(m: GameModel, events: Seq<Event>)
    requires
        m.phase != Phase::Running,
    ensures
        m.run(events).phase == m.phase,
    decreases events.len(),
{
    if events.len() > 0 {
        lemma_ended_phase_stays(m.apply(events[0]), events.drop_first());
    }
}

} // verus!
