//! The score of the running game.

use crate::effects::{emit, render_score, score_line, views, Effect, EffectView};
use vstd::prelude::*;

verus! {

/// The number of stars collected, and whether it changed since it was last
/// broadcast.
#[derive(Clone, Copy, Debug, PartialEq, Eq, Structural)]
pub struct Score {
    pub value: u32,
    /// Set by every change, cleared by the broadcast that reports it.
    pub changed: bool,
}

impl Default for Score {
    /// A score of zero. It counts as changed, so that the first broadcast
    /// reports it.
    fn default() -> (r: Score)
        ensures
            r == (Score { value: 0, changed: true }),
    {
        Score { value: 0, changed: true }
    }
}

impl Score {
    /// This score after `stars` more stars.
    pub open spec fn raised(self, stars: nat) -> Score {
        if stars == 0 {
            self
        } else {
            Score { value: (self.value + stars) as u32, changed: true }
        }
    }

    /// Counts one more star.
    pub fn increment(&mut self)
        requires
            old(self).value < u32::MAX,
        ensures
            *final(self) == old(self).raised(1),
    {
        self.value = self.value + 1;
        self.changed = true;
    }
}

/// What the broadcast of a score queues: its line if it changed, else nothing.
pub open spec fn score_broadcast(score: Score) -> Seq<EffectView> {
    if score.changed {
        seq![EffectView::Log(score_line(score.value))]
    } else {
        seq![]
    }
}

/// Broadcasts the score: if it changed since the last broadcast, queues the
/// line that reports it and clears the mark.
pub fn update_score(score: &mut Score, effects: &mut Vec<Effect>)
    ensures
        final(score).value == old(score).value,
        !final(score).changed,
        views(final(effects)@) == views(old(effects)@) + score_broadcast(*old(score)),
{
    if score.changed {
        emit(effects, Effect::Log(render_score(score.value)));
        score.changed = false;
    }
}

} // verus!
