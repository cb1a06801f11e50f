//! A small terminal exploration game: a robot searches a bordered grid for a
//! kitten hidden among decoy objects. The library holds the rules of the game
//! (the kinds of objects, their placement, collisions and the game's state
//! machine); drawing and reading keys are left to the caller.
pub mod board;
pub mod game;
pub mod kinds;
mod random;
