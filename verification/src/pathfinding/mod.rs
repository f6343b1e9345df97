pub mod astar;
pub mod cache;
