pub mod map;
pub mod research;
pub mod production;
