//! Two-player session games whose turn outcomes are attested by zero-knowledge
//! proofs: a grid game (battleship) and a word game (wordle), the binary codec
//! of the proof payloads, and the binding checks that tie a proof to one move.

pub mod battleship;
pub mod bytes;
pub mod hashing;
pub mod player;
pub mod adapters;
pub mod payload;
pub mod wordle;
