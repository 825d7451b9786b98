//! Matchmaking state for peers that meet through a signaling server: who is
//! waiting under which matcher, the peer connections that wait for an answer,
//! and how a peer's user id is settled when matching starts.

pub mod app_state;
pub mod laws;
pub mod matcher;
pub mod matcher_map;
pub mod requests;
pub mod routes;
pub mod start_matching;
pub mod types;
pub mod user_id;
