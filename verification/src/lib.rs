//! A chess rules engine on a padded 10x12 mailbox board: piece and board
//! model, pseudo-legal move generation, check detection, legality filtering,
//! reversible move application with a move log, and exhaustive game-tree
//! enumeration (perft).

pub mod board;
pub mod model;
pub mod moves;
pub mod laws;
pub mod attack;
pub mod gen;
pub mod search;
