//! Reversi: rules, search, and the netplay protocol logic.

pub mod player;
pub mod square;
pub mod rules;
pub mod board;
pub mod rng;
pub mod search;
pub mod heuristic;
pub mod selfplay;
pub mod matchup;
pub mod game;
pub mod game_msg;
pub mod ui_state;
pub mod session;
pub mod launch;
pub mod protocol;
pub mod relay_lobby;
pub mod relay_client;
pub mod netplay_protocol;
pub mod netplay_lobby;
pub mod netplay_relay;
pub mod text;
pub mod netplay_client;
pub mod client_auth;
pub mod server_auth;
