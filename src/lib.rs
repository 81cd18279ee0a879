pub mod clock;
pub mod game;
pub mod motion;
pub mod player;
pub mod world;
