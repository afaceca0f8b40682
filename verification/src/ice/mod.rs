//! ICE: candidates, connectivity checks over STUN, and relaying over TURN.
pub mod candidate;
pub mod agent;
pub mod stun;
pub mod stun_client;
pub mod turn;
