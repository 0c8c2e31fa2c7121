//! The running score of one game session: a single counter, incremented each
//! time the snake eats food.

use vstd::prelude::*;

verus! {

/// Holds the score of the current session. A value type: it is copied into
/// the game session and read back out, with no shared mutable state.
#[derive(Copy, Clone, Debug)]
pub struct ScoreTracker {
    score: usize,
}

impl ScoreTracker {
    /// The current score as a mathematical integer.
    pub closed spec fn spec_score(self) -> int {
        self.score as int
    }

    /// A fresh tracker starts at zero.
    pub fn new() -> (t: Self)
        ensures
            t.spec_score() == 0,
    {
        ScoreTracker { score: 0 }
    }

    /// Adds `score` points to the counter.
    pub fn update_last_score_by(&mut self, score: usize)
        requires
            old(self).spec_score() + score <= usize::MAX,
        ensures
            final(self).spec_score() == old(self).spec_score() + score,
    {
        self.score += score;
    }

    /// Reads the counter.
    pub fn get_last_score(&self) -> (r: &usize)
        ensures
            *r == self.spec_score(),
    {
        &self.score
    }
}

impl Default for ScoreTracker {
    /// The default tracker is a fresh one: score zero.
    fn default() -> (t: Self)
        ensures
            t.spec_score() == 0,
    {
        Self::new()
    }
}

} // verus!
