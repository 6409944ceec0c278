//! Frame-by-frame rules of a small arcade game: a player sprite collects
//! targets that appear at random on a timer, and the game keeps a running
//! score and a high score. The engine that draws, plays sounds and detects
//! collisions stays outside; the functions here decide what it is told to do.

pub mod frame;
pub mod game;
pub mod laws;
pub mod text;
pub mod timer;
