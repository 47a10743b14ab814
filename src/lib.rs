//! Elo ratings for two-player games: a rating engine, a store of players and a
//! service that records games.
pub mod async_elo;
pub mod elo;
pub mod player;
pub mod rating;
pub mod storage;
