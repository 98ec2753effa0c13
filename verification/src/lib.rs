//! A deterministic resolution engine for a small simultaneous-turn combat
//! game: each round every participant chooses one move; the engine applies
//! each move's completion effect, resolves all moves at once against a fixed
//! priority table, applies the resulting kills, and checks for a winner.

pub mod game;
pub mod moves;
pub mod player;
