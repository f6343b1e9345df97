use vstd::prelude::*;

verus! {

/// Campaign AI goal priorities.
#[derive(Clone, Copy, Debug, PartialEq, Eq, Structural)]
pub enum CampaignGoal {
    /// Expand territory by claiming neutral sites.
    Expand,
    /// Defend threatened sites.
    Defend,
    /// Attack enemy sites.
    Attack,
    /// Research technology.
    Research,
    /// Produce units at node.
    Produce,
}

/// Campaign AI difficulty levels.
#[derive(Clone, Copy, Debug, PartialEq, Eq, Structural)]
pub enum CampaignAiDifficulty {
    Easy,
    Normal,
    Hard,
}

/// Ticks between evaluations: every 10, 5 or 3 seconds at 20 ticks per second.
pub open spec fn eval_interval_of(d: CampaignAiDifficulty) -> u32 {
    match d {
        CampaignAiDifficulty::Easy => 200,
        CampaignAiDifficulty::Normal => 100,
        CampaignAiDifficulty::Hard => 60,
    }
}

/// Per-player campaign AI state.
#[derive(Clone, Debug)]
pub struct CampaignAiState {
    pub player_id: u8,
    pub difficulty: CampaignAiDifficulty,
    pub current_goal: CampaignGoal,
    /// Ticks since last action evaluation.
    pub ticks_since_eval: u32,
    /// Evaluation interval in ticks.
    pub eval_interval: u32,
}

impl CampaignAiState {
    pub fn new(player_id: u8, difficulty: CampaignAiDifficulty) -> (s: Self)
        ensures
            s.player_id == player_id,
            s.difficulty == difficulty,
            s.current_goal == CampaignGoal::Expand,
            s.ticks_since_eval == 0,
            s.eval_interval == eval_interval_of(difficulty),
    {
        let eval_interval = match difficulty {
            CampaignAiDifficulty::Easy => 200,  // Every 10 seconds
            CampaignAiDifficulty::Normal => 100,  // Every 5 seconds
            CampaignAiDifficulty::Hard => 60,  // Every 3 seconds
        };
        CampaignAiState {
            player_id,
            difficulty,
            current_goal: CampaignGoal::Expand,
            ticks_since_eval: 0,
            eval_interval,
        }
    }
}

/// Harder campaign AIs re-evaluate more often.
pub proof fn law_harder_evaluates_more_often()
    ensures
        eval_interval_of(CampaignAiDifficulty::Hard) < eval_interval_of(CampaignAiDifficulty::Normal),
        eval_interval_of(CampaignAiDifficulty::Normal) < eval_interval_of(CampaignAiDifficulty::Easy),
{
}

} // verus!
