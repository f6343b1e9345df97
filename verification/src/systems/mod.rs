pub mod animation;
pub mod battle_victory;
pub mod capture;
pub mod fog;
pub mod production;
pub mod reinforcement;
pub mod render_buffer;
pub mod resource;
