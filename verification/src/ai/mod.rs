pub mod behavior_tree;
pub mod campaign_ai;
pub mod mcts;
pub mod player;
pub mod tactical;
