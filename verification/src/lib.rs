//! A falling-block puzzle engine: a bounded board of coloured cells, seven
//! tetromino templates, movement and rotation legality against the board,
//! line clearing, and score/level/gravity bookkeeping.

pub mod colours;
pub mod game_state;
pub mod session;
pub mod tetromino;
