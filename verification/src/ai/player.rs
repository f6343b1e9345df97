use vstd::prelude::*;
use crate::ai::mcts::STRATEGIC_UPDATE_INTERVAL;

verus! {

/// AI difficulty levels controlling MCTS depth and tactical responsiveness.
#[derive(Clone, Copy, Debug, PartialEq, Eq, Structural)]
pub enum AiDifficulty {
    /// Fewer MCTS iterations, slower tactical updates.
    Easy,
    /// Balanced MCTS iterations and tactical updates.
    Normal,
    /// More MCTS iterations, faster tactical updates.
    Hard,
}

pub open spec fn mcts_iterations_of(d: AiDifficulty) -> u32 {
    match d {
        AiDifficulty::Easy => 50,
        AiDifficulty::Normal => 200,
        AiDifficulty::Hard => 500,
    }
}

pub open spec fn tactical_interval_of(d: AiDifficulty) -> u32 {
    match d {
        AiDifficulty::Easy => 20,
        AiDifficulty::Normal => 5,
        AiDifficulty::Hard => 2,
    }
}

pub open spec fn strategic_interval_of(d: AiDifficulty) -> u32 {
    match d {
        AiDifficulty::Easy => 80,
        AiDifficulty::Normal => STRATEGIC_UPDATE_INTERVAL,
        AiDifficulty::Hard => 20,
    }
}

impl AiDifficulty {
    /// Number of MCTS iterations for this difficulty.
    pub fn mcts_iterations(&self) -> (n: u32)
        ensures
            n == mcts_iterations_of(*self),
    {
        match self {
            AiDifficulty::Easy => 50,
            AiDifficulty::Normal => 200,
            AiDifficulty::Hard => 500,
        }
    }

    /// How often tactical AI updates (in ticks).
    pub fn tactical_update_interval(&self) -> (n: u32)
        ensures
            n == tactical_interval_of(*self),
    {
        match self {
            AiDifficulty::Easy => 20,
            AiDifficulty::Normal => 5,
            AiDifficulty::Hard => 2,
        }
    }

    /// How often strategic AI updates (in ticks).
    pub fn strategic_update_interval(&self) -> (n: u32)
        ensures
            n == strategic_interval_of(*self),
            n > 0,
    {
        match self {
            AiDifficulty::Easy => 80,
            AiDifficulty::Normal => STRATEGIC_UPDATE_INTERVAL,
            AiDifficulty::Hard => 20,
        }
    }
}

/// A harder AI searches more and reacts faster, both tactically and strategically.
pub proof fn law_difficulty_monotone()
    ensures
        mcts_iterations_of(AiDifficulty::Easy) < mcts_iterations_of(AiDifficulty::Normal),
        mcts_iterations_of(AiDifficulty::Normal) < mcts_iterations_of(AiDifficulty::Hard),
        tactical_interval_of(AiDifficulty::Easy) > tactical_interval_of(AiDifficulty::Normal),
        tactical_interval_of(AiDifficulty::Normal) > tactical_interval_of(AiDifficulty::Hard),
        strategic_interval_of(AiDifficulty::Easy) > strategic_interval_of(AiDifficulty::Normal),
        strategic_interval_of(AiDifficulty::Normal) > strategic_interval_of(AiDifficulty::Hard),
{
}

} // verus!
