//! Round coordination for a dice game: a game master synchronises a fixed set
//! of players through START/STOP rounds, collects one throw per player and
//! round, and names the round's winner. The plain protocol carries wall-clock
//! stamps only; the causal protocol adds a Lamport clock that decides which
//! throws belong to which round.

pub mod clock;
pub mod message;
pub mod round;
pub mod table;
pub mod text;
pub mod types;
pub mod wire;
