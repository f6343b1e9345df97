pub mod entity;
pub mod component;
pub mod table;
pub mod world;
pub mod system;
